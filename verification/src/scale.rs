//! Conversion between pixel formats.
use dcv_color_primitives as dcp;
use vstd::prelude::*;
use vstd::slice::slice_subrange;

use crate::common::buffer::Buffer;
use crate::common::frame::{
    clone_side_data, ColorRange, ColorSpace, Frame, FrameData, FramePlane, VideoFrameData,
};
use crate::common::pixel_format::PixelFormat;
use crate::error::{Error, Result};

verus! {

/// How pixels are stored, among the ways that can be converted.
#[derive(Debug, Clone, Copy, PartialEq, Eq, Structural)]
pub enum Packing {
    Argb,
    Bgra,
    Bgr,
    Rgba,
    Rgb,
    I420,
    Nv12,
}

/// What the values of pixels mean.
#[derive(Debug, Clone, Copy, PartialEq, Eq, Structural)]
pub enum Model {
    Rgb,
    Bt601,
    Bt709,
    Bt601Full,
    Bt709Full,
}

impl Packing {
    /// The number of a packing in `dcv_color_primitives`.
    pub open spec fn code(self) -> i32 {
        match self {
            Packing::Argb => 0,
            Packing::Bgra => 1,
            Packing::Bgr => 2,
            Packing::Rgba => 3,
            Packing::Rgb => 4,
            Packing::I420 => 7,
            Packing::Nv12 => 8,
        }
    }

    fn number(self) -> (r: i32)
        ensures
            r == self.code(),
    {
        match self {
            Packing::Argb => 0,
            Packing::Bgra => 1,
            Packing::Bgr => 2,
            Packing::Rgba => 3,
            Packing::Rgb => 4,
            Packing::I420 => 7,
            Packing::Nv12 => 8,
        }
    }

    /// Whether luma and chroma are stored, the chroma halved in both directions.
    pub open spec fn has_chroma(self) -> bool {
        self == Packing::I420 || self == Packing::Nv12
    }

    /// The number of planes.
    pub open spec fn plane_count(self) -> nat {
        match self {
            Packing::I420 => 3,
            Packing::Nv12 => 2,
            _ => 1,
        }
    }

    /// The bytes of a row of a plane.
    pub open spec fn row_bytes(self, width: int, plane: int) -> int {
        match self {
            Packing::Argb | Packing::Bgra | Packing::Rgba => 4 * width,
            Packing::Rgb | Packing::Bgr => 3 * width,
            Packing::I420 => if plane == 0 {
                width
            } else {
                (width + 1) / 2
            },
            Packing::Nv12 => if plane == 0 {
                width
            } else {
                2 * ((width + 1) / 2)
            },
        }
    }

    /// The rows of a plane.
    pub open spec fn rows(self, height: int, plane: int) -> int {
        if self.has_chroma() && plane > 0 {
            (height + 1) / 2
        } else {
            height
        }
    }

    /// The bytes of each plane of a picture without gaps.
    pub open spec fn sizes(self, width: int, height: int) -> Seq<int> {
        Seq::new(
            self.plane_count(),
            |i: int| self.row_bytes(width, i) * self.rows(height, i),
        )
    }

    fn planes(self) -> (r: usize)
        ensures
            r == self.plane_count(),
    {
        match self {
            Packing::I420 => 3,
            Packing::Nv12 => 2,
            _ => 1,
        }
    }

    fn row(self, width: u32, plane: usize) -> (r: u64)
        ensures
            r == self.row_bytes(width as int, plane as int),
            r <= 4 * width + 1,
    {
        let w: u64 = width as u64;
        match self {
            Packing::Argb | Packing::Bgra | Packing::Rgba => 4 * w,
            Packing::Rgb | Packing::Bgr => 3 * w,
            Packing::I420 => if plane == 0 {
                w
            } else {
                (w + 1) / 2
            },
            Packing::Nv12 => if plane == 0 {
                w
            } else {
                2 * ((w + 1) / 2)
            },
        }
    }

    fn row_count(self, height: u32, plane: usize) -> (r: u64)
        ensures
            r == self.rows(height as int, plane as int),
    {
        if (self == Packing::I420 || self == Packing::Nv12) && plane > 0 {
            (height as u64 + 1) / 2
        } else {
            height as u64
        }
    }
}

impl Model {
    /// The number of a model in `dcv_color_primitives`.
    pub open spec fn code(self) -> i32 {
        match self {
            Model::Rgb => 0,
            Model::Bt601 => 1,
            Model::Bt709 => 2,
            Model::Bt601Full => 3,
            Model::Bt709Full => 4,
        }
    }

    fn number(self) -> (r: i32)
        ensures
            r == self.code(),
    {
        match self {
            Model::Rgb => 0,
            Model::Bt601 => 1,
            Model::Bt709 => 2,
            Model::Bt601Full => 3,
            Model::Bt709Full => 4,
        }
    }
}

/// How the pixels of a format are stored, where they can be converted.
pub open spec fn packing_spec(f: PixelFormat) -> Option<Packing> {
    match f {
        PixelFormat::Yuv420p => Some(Packing::I420),
        PixelFormat::Nv12 => Some(Packing::Nv12),
        PixelFormat::Rgb24 => Some(Packing::Rgb),
        PixelFormat::Bgr24 => Some(Packing::Bgr),
        PixelFormat::Rgba => Some(Packing::Rgba),
        PixelFormat::Bgra => Some(Packing::Bgra),
        PixelFormat::Argb => Some(Packing::Argb),
        _ => None,
    }
}

fn packing_of(f: PixelFormat) -> (r: Option<Packing>)
    ensures
        r == packing_spec(f),
{
    match f {
        PixelFormat::Yuv420p => Some(Packing::I420),
        PixelFormat::Nv12 => Some(Packing::Nv12),
        PixelFormat::Rgb24 => Some(Packing::Rgb),
        PixelFormat::Bgr24 => Some(Packing::Bgr),
        PixelFormat::Rgba => Some(Packing::Rgba),
        PixelFormat::Bgra => Some(Packing::Bgra),
        PixelFormat::Argb => Some(Packing::Argb),
        _ => None,
    }
}

/// What the values of pixels mean: those without chroma are colors; others follow the color space of
/// the frame, of which only one is told from the usual one, and its range.
pub open spec fn model_spec(p: Packing, space: ColorSpace, range: ColorRange) -> Model {
    if !p.has_chroma() {
        Model::Rgb
    } else if space == ColorSpace::Bt709 {
        if range == ColorRange::Jpeg {
            Model::Bt709Full
        } else {
            Model::Bt709
        }
    } else {
        if range == ColorRange::Jpeg {
            Model::Bt601Full
        } else {
            Model::Bt601
        }
    }
}

fn model_of(p: Packing, space: ColorSpace, range: ColorRange) -> (r: Model)
    ensures
        r == model_spec(p, space, range),
{
    if p != Packing::I420 && p != Packing::Nv12 {
        Model::Rgb
    } else if space == ColorSpace::Bt709 {
        if range == ColorRange::Jpeg {
            Model::Bt709Full
        } else {
            Model::Bt709
        }
    } else {
        if range == ColorRange::Jpeg {
            Model::Bt601Full
        } else {
            Model::Bt601
        }
    }
}

/// Whether pixels of one packing can be converted to another.
pub open spec fn supported_spec(src: Packing, dst: Packing) -> bool {
    match src {
        Packing::I420 | Packing::Nv12 => dst == Packing::Rgb || dst == Packing::Bgr || dst
            == Packing::Rgba || dst == Packing::Bgra,
        Packing::Argb | Packing::Bgra | Packing::Bgr => dst == Packing::I420 || dst == Packing::Nv12
            || dst == Packing::Rgb,
        Packing::Rgb => dst == Packing::Bgra,
        Packing::Rgba => false,
    }
}

fn is_conversion_supported(src: Packing, dst: Packing) -> (r: bool)
    ensures
        r == supported_spec(src, dst),
{
    match src {
        Packing::I420 | Packing::Nv12 => dst == Packing::Rgb || dst == Packing::Bgr || dst
            == Packing::Rgba || dst == Packing::Bgra,
        Packing::Argb | Packing::Bgra | Packing::Bgr => dst == Packing::I420 || dst == Packing::Nv12
            || dst == Packing::Rgb,
        Packing::Rgb => dst == Packing::Bgra,
        Packing::Rgba => false,
    }
}

/// Whether a plane holds all its rows: `stride` bytes lie between the starts of two rows, or none but
/// those of a row where it is zero.
pub open spec fn holds_rows(len: int, stride: int, rows: int, row_bytes: int) -> bool {
    let step = if stride == 0 {
        row_bytes
    } else {
        stride
    };
    len >= row_bytes && step * (rows - 1) <= len - row_bytes
}

/// Whether the planes of a picture hold it. Where a format without chroma gains or loses its fourth
/// byte, rows do not overlap either.
pub open spec fn picture_fits(
    src: Packing,
    dst: Packing,
    width: int,
    height: int,
    strides: Seq<usize>,
    planes: Seq<Seq<u8>>,
) -> bool {
    &&& strides.len() == src.plane_count()
    &&& planes.len() == src.plane_count()
    &&& forall|i: int|
        0 <= i < planes.len() ==> holds_rows(
            (#[trigger] planes[i]).len() as int,
            strides[i] as int,
            src.rows(height, i),
            src.row_bytes(width, i),
        )
    &&& src.has_chroma() || dst.has_chroma() || src == Packing::Bgr || strides[0] == 0 || strides[0] >= src.row_bytes(
        width,
        0,
    )
}

/// The bytes of planes.
pub open spec fn bytes_of(planes: Seq<Vec<u8>>) -> Seq<Seq<u8>> {
    Seq::new(planes.len(), |i: int| planes[i]@)
}

/// The bytes of slices.
pub open spec fn slices_of(planes: Seq<&[u8]>) -> Seq<Seq<u8>> {
    Seq::new(planes.len(), |i: int| planes[i]@)
}

/// Whether `dcv_color_primitives::convert_image`, given a size, the numbers of a source format and of
/// its color space, the distances between the rows of the source planes, these planes, and the
/// numbers of a destination format and of its color space, can give the destination planes `out`.
/// Which routine computes the values depends on the processor.
pub uninterp spec fn may_convert_to(
    width: u32,
    height: u32,
    src: (i32, i32),
    strides: Seq<usize>,
    planes: Seq<Seq<u8>>,
    dst: (i32, i32),
    out: Seq<Seq<u8>>,
) -> bool;

/// Whether the numbers of a format and of a color space go together.
pub open spec fn goes_with(p: Packing, m: Model) -> bool {
    p.has_chroma() == (m != Model::Rgb)
}

/// `dcv_color_primitives::convert_image`: converts a picture into planes without gaps. The crate
/// succeeds on the pairs of formats that it has a routine for, where every plane holds its rows; the
/// planes keep their lengths. Where the fourth byte of a pixel is added or dropped, the crate subtracts
/// the bytes of a row from the distance between two rows, so overlapping rows are left out there.
#[verifier::external_body]
fn convert_image(
    width: u32,
    height: u32,
    src: (i32, i32),
    strides: &[usize],
    planes: &[&[u8]],
    dst: (i32, i32),
    out: &mut Vec<Vec<u8>>,
) -> (r: core::result::Result<(), ()>)
    requires
        width > 0,
        height > 0,
        exists|s: Packing, m: Model, d: Packing, n: Model| #[trigger]
            convertible(s, m, d, n, src, dst) && picture_fits(
                s,
                d,
                width as int,
                height as int,
                strides@,
                slices_of(planes@),
            ) && old(out)@.len() == d.plane_count() && forall|i: int|
                0 <= i < old(out)@.len() ==> (#[trigger] old(out)@[i])@.len() == d.sizes(
                    width as int,
                    height as int,
                )[i],
    ensures
        r is Ok,
        final(out)@.len() == old(out)@.len(),
        forall|i: int|
            0 <= i < old(out)@.len() ==> (#[trigger] final(out)@[i])@.len() == old(out)@[i]@.len(),
        may_convert_to(
            width,
            height,
            src,
            strides@,
            slices_of(planes@),
            dst,
            bytes_of(final(out)@),
        ),
{
    let format = |f: (i32, i32), n: usize| -> core::result::Result<dcp::ImageFormat, ()> {
        Ok(dcp::ImageFormat {
            pixel_format: dcp::PixelFormat::try_from(f.0)?,
            color_space: dcp::ColorSpace::try_from(f.1)?,
            num_planes: n as u32,
        })
    };
    let (from, to) = (format(src, planes.len())?, format(dst, out.len())?);
    let mut slices: Vec<&mut [u8]> = out.iter_mut().map(|v| v.as_mut_slice()).collect();
    let strides = Some(strides);
    dcp::convert_image(width, height, &from, strides, planes, &to, None, &mut slices).map_err(|_| ())
}

/// Whether two pairs of numbers are those of formats that can be converted, each with a color space
/// that goes with it.
pub open spec fn convertible(
    s: Packing,
    m: Model,
    d: Packing,
    n: Model,
    src: (i32, i32),
    dst: (i32, i32),
) -> bool {
    &&& supported_spec(s, d)
    &&& goes_with(s, m)
    &&& goes_with(d, n)
    &&& src == (s.code(), m.code())
    &&& dst == (d.code(), n.code())
}

/// `dcv_color_primitives::get_buffers_size`: the bytes of each plane of a picture without gaps.
#[verifier::external_body]
fn get_buffers_size(width: u32, height: u32, format: (i32, i32), planes: usize) -> (r: Option<
    Vec<usize>,
>)
    requires
        4 * (width + 1) * (height + 1) <= usize::MAX,
        exists|p: Packing, m: Model| #[trigger]
            formats(p, m, format) && goes_with(p, m) && planes == p.plane_count(),
    ensures
        match r {
            Some(v) => v@.len() == planes && forall|p: Packing, m: Model, i: int|
                #![trigger formats(p, m, format), v@[i]]
                formats(p, m, format) && 0 <= i < planes ==> v@[i] == p.sizes(
                    width as int,
                    height as int,
                )[i],
            None => false,
        },
{
    let format = dcp::ImageFormat {
        pixel_format: dcp::PixelFormat::try_from(format.0).ok()?,
        color_space: dcp::ColorSpace::try_from(format.1).ok()?,
        num_planes: planes as u32,
    };
    let mut sizes = vec![0usize; planes];
    dcp::get_buffers_size(width, height, &format, None, &mut sizes).ok()?;
    Some(sizes)
}

/// Whether a pair of numbers is that of a format and a color space.
pub open spec fn formats(p: Packing, m: Model, code: (i32, i32)) -> bool {
    code == (p.code(), m.code())
}

/// What a converter is made for.
pub struct Setup {
    pub src: PixelFormat,
    pub dst: PixelFormat,
    pub width: u32,
    pub height: u32,
}

/// Whether there is a converter: both formats can be converted, and one to the other where they
/// differ; the picture is not empty; and its size is even where there is chroma.
pub open spec fn setup_ok(s: Setup) -> bool {
    match (packing_spec(s.src), packing_spec(s.dst)) {
        (Some(a), Some(b)) => {
            &&& s.src == s.dst || supported_spec(a, b)
            &&& a.has_chroma() || b.has_chroma() ==> s.width % 2 == 0 && s.height % 2 == 0
            &&& s.width > 0
            &&& s.height > 0
        },
        _ => false,
    }
}

/// A converter between two pixel formats.
pub struct Converter {
    src_format: PixelFormat,
    dst_format: PixelFormat,
    width: u32,
    height: u32,
    src_packing: Packing,
    dst_packing: Packing,
}

/// The bytes of the first `n` planes of a frame.
pub open spec fn plane_bytes(planes: Seq<FramePlane>, n: nat) -> Seq<Seq<u8>> {
    Seq::new(n, |i: int| planes[i].buffer@.skip(planes[i].offset as int))
}

/// The distances between the rows of the first `n` planes of a frame.
pub open spec fn plane_strides(planes: Seq<FramePlane>, n: nat) -> Seq<usize> {
    Seq::new(n, |i: int| planes[i].linesize)
}

/// Whether a frame has `n` planes that begin in their buffers.
pub open spec fn has_planes(planes: Seq<FramePlane>, n: nat) -> bool {
    planes.len() >= n && forall|i: int|
        0 <= i < n ==> (#[trigger] planes[i]).offset <= planes[i].buffer@.len()
}

/// Whether a picture is too large for the memory of a machine.
pub open spec fn too_large(width: u32, height: u32) -> bool {
    4 * (width + 1) * (height + 1) + 64 > isize::MAX
}

/// Whether an error says that a picture is not all there.
pub open spec fn is_not_enough(e: Error) -> bool {
    e matches Error::Other(m) && m@ == "dcp convert_image failed: Not enough data provided"@
}

/// Whether a frame has given planes and for the rest is as the frame that they were made from.
pub open spec fn framed_as(f: Frame, src: Frame, s: Setup, out: Seq<Seq<u8>>) -> bool {
    &&& f.wf()
    &&& crate::common::frame::same_facts(f, src)
    &&& f.data is Video
    &&& src.data is Video
    &&& ({
        let d = f.data->Video_0;
        let p = packing_spec(s.dst)->0;
        &&& crate::common::frame::same_picture_facts(d, src.data->Video_0)
        &&& d.width == s.width
        &&& d.height == s.height
        &&& d.format == s.dst
        &&& d.planes@.len() == out.len()
        &&& forall|i: int|
            #![trigger d.planes@[i]]
            0 <= i < out.len() ==> d.planes@[i].buffer@ == out[i] && d.planes@[i].offset == 0
                && d.planes@[i].linesize == p.row_bytes(s.width as int, i)
    })
}

/// What comes of a video frame of the format and size that a converter is for.
pub open spec fn converted(f: Frame, src: Frame, s: Setup) -> bool {
    let v = src.data->Video_0;
    let a = packing_spec(s.src)->0;
    let b = packing_spec(s.dst)->0;
    exists|out: Seq<Seq<u8>>|
        {
            &&& #[trigger] framed_as(f, src, s, out)
            &&& out.len() == b.plane_count()
            &&& forall|i: int|
                0 <= i < out.len() ==> (#[trigger] out[i]).len() == b.sizes(
                    s.width as int,
                    s.height as int,
                )[i]
            &&& may_convert_to(
                s.width,
                s.height,
                (a.code(), model_spec(a, v.color_space, v.color_range).code()),
                plane_strides(v.planes@, a.plane_count()),
                plane_bytes(v.planes@, a.plane_count()),
                (b.code(), model_spec(b, v.color_space, v.color_range).code()),
                out,
            )
        }
}

/// What a converter returns.
pub open spec fn convert_result(s: Setup, src: Frame, r: Result<Frame>) -> bool {
    match src.data {
        FrameData::Audio(_) => r == Err::<Frame, Error>(Error::InvalidData),
        FrameData::Video(v) => {
            let a = packing_spec(s.src)->0;
            let b = packing_spec(s.dst)->0;
            let n = a.plane_count();
            if v.width != s.width || v.height != s.height || v.format != s.src {
                r == Err::<Frame, Error>(Error::InvalidData)
            } else if s.src == s.dst {
                r matches Ok(f) && f.wf() && crate::common::frame::same_data(f.data, src.data)
                    && crate::common::frame::same_facts(f, src)
            } else if !has_planes(v.planes@, n) {
                r == Err::<Frame, Error>(Error::InvalidData)
            } else if too_large(s.width, s.height) {
                r == Err::<Frame, Error>(Error::OutOfMemory)
            } else if !picture_fits(
                a,
                b,
                s.width as int,
                s.height as int,
                plane_strides(v.planes@, n),
                plane_bytes(v.planes@, n),
            ) {
                r matches Err(e) && is_not_enough(e)
            } else {
                r matches Ok(f) && converted(f, src, s)
            }
        },
    }
}

fn not_enough() -> (r: Error)
    ensures
        is_not_enough(r),
{
    Error::Other("dcp convert_image failed: Not enough data provided".to_owned())
}

fn rows_held(len: usize, stride: usize, rows: u64, row_bytes: u64) -> (r: bool)
    requires
        1 <= rows <= 0x1_0000_0000,
        row_bytes <= 0x8_0000_0000,
    ensures
        r == holds_rows(len as int, stride as int, rows as int, row_bytes as int),
{
    let step: u64 = if stride == 0 {
        row_bytes
    } else {
        stride as u64
    };
    if (len as u64) < row_bytes {
        return false;
    }
    assert(0 <= step * (rows - 1) <= 0xffff_ffff_ffff_ffff * 0x1_0000_0000) by (nonlinear_arith)
        requires
            0 <= step <= 0xffff_ffff_ffff_ffff,
            0 <= rows - 1 <= 0x1_0000_0000,
    ;
    step as u128 * (rows - 1) as u128 <= (len as u64 - row_bytes) as u128
}

proof fn lemma_area(a: int, b: int, w: int, h: int)
    requires
        0 <= a <= 4 * w + 1,
        0 <= b <= h,
        w >= 0,
    ensures
        0 <= a * b <= 4 * (w + 1) * (h + 1),
{
    assert(0 <= a * b <= 4 * (w + 1) * (h + 1)) by (nonlinear_arith)
        requires
            0 <= a <= 4 * w + 1,
            0 <= b <= h,
            w >= 0,
    ;
}

fn is_too_large(width: u32, height: u32) -> (r: bool)
    ensures
        r == too_large(width, height),
{
    assert(0 <= 4 * (width + 1) * (height + 1) <= 4 * 0x1_0000_0000 * 0x1_0000_0000)
        by (nonlinear_arith)
        requires
            0 <= width <= 0xffff_ffff,
            0 <= height <= 0xffff_ffff,
    ;
    4 * (width as u128 + 1) * (height as u128 + 1) + 64 > isize::MAX as u128
}

impl Converter {
    /// What the converter is for.
    pub closed spec fn setup(&self) -> Setup {
        Setup {
            src: self.src_format,
            dst: self.dst_format,
            width: self.width,
            height: self.height,
        }
    }

    /// Whether the converter is consistent.
    pub closed spec fn wf(&self) -> bool {
        &&& setup_ok(self.setup())
        &&& packing_spec(self.src_format) == Some(self.src_packing)
        &&& packing_spec(self.dst_format) == Some(self.dst_packing)
    }

    /// A converter for pictures of a size.
    pub fn new(src: PixelFormat, dst: PixelFormat, w: u32, h: u32) -> (r: Result<Converter>)
        ensures
            match r {
                Ok(c) => {
                    &&& setup_ok(Setup { src, dst, width: w, height: h })
                    &&& c.wf()
                    &&& c.setup() == (Setup { src, dst, width: w, height: h })
                },
                Err(e) => e == Error::InvalidArgument && !setup_ok(
                    (Setup { src, dst, width: w, height: h }),
                ),
            },
    {
        let (a, b) = match (packing_of(src), packing_of(dst)) {
            (Some(a), Some(b)) => (a, b),
            _ => return Err(Error::InvalidArgument),
        };
        if src != dst && !is_conversion_supported(a, b) {
            return Err(Error::InvalidArgument);
        }
        let chroma = a == Packing::I420 || a == Packing::Nv12 || b == Packing::I420 || b
            == Packing::Nv12;
        if chroma && (w % 2 != 0 || h % 2 != 0) {
            return Err(Error::InvalidArgument);
        }
        if w == 0 || h == 0 {
            return Err(Error::InvalidArgument);
        }
        Ok(
            Converter {
                src_format: src,
                dst_format: dst,
                width: w,
                height: h,
                src_packing: a,
                dst_packing: b,
            },
        )
    }

    /// Whether both formats are the same.
    pub fn is_noop(&self) -> (r: bool)
        ensures
            r == (self.setup().src == self.setup().dst),
    {
        self.src_format == self.dst_format
    }

    fn extract_src_planes<'a>(&self, video: &'a VideoFrameData) -> (r: Option<Vec<&'a [u8]>>)
        requires
            self.wf(),
            crate::common::frame::planes_wf(video.planes@),
        ensures
            match r {
                Some(v) => has_planes(video.planes@, self.src_packing.plane_count()) && slices_of(
                    v@,
                ) == plane_bytes(video.planes@, self.src_packing.plane_count()),
                None => !has_planes(video.planes@, self.src_packing.plane_count()),
            },
    {
        let n: usize = self.src_packing.planes();
        if video.planes.len() < n {
            return None;
        }
        let mut r: Vec<&'a [u8]> = Vec::new();
        let mut i: usize = 0;
        while i < n
            invariant
                i <= n <= video.planes@.len(),
                n == self.src_packing.plane_count(),
                r@.len() == i,
                crate::common::frame::planes_wf(video.planes@),
                forall|j: int|
                    0 <= j < i ==> (#[trigger] video.planes@[j]).offset
                        <= video.planes@[j].buffer@.len(),
                forall|j: int|
                    0 <= j < i ==> (#[trigger] r@[j])@ == video.planes@[j].buffer@.skip(
                        video.planes@[j].offset as int,
                    ),
            decreases n - i,
        {
            let plane = &video.planes[i];
            assert(video.planes@[i as int].buffer.wf());
            let data = plane.buffer.data();
            if plane.offset > data.len() {
                assert(video.planes@[i as int].offset > video.planes@[i as int].buffer@.len());
                return None;
            }
            let part = slice_subrange(data, plane.offset, data.len());
            assert(part@ =~= data@.skip(plane.offset as int));
            r.push(part);
            i += 1;
        }
        assert(slices_of(r@) =~= plane_bytes(video.planes@, n as nat));
        Some(r)
    }

    fn extract_strides(&self, video: &VideoFrameData) -> (r: Vec<usize>)
        requires
            self.wf(),
            video.planes@.len() >= self.src_packing.plane_count(),
        ensures
            r@ == plane_strides(video.planes@, self.src_packing.plane_count()),
    {
        let n: usize = self.src_packing.planes();
        let mut r: Vec<usize> = Vec::new();
        let mut i: usize = 0;
        while i < n
            invariant
                i <= n <= video.planes@.len(),
                r@.len() == i,
                forall|j: int| 0 <= j < i ==> (#[trigger] r@[j]) == video.planes@[j].linesize,
            decreases n - i,
        {
            r.push(video.planes[i].linesize);
            i += 1;
        }
        assert(r@ =~= plane_strides(video.planes@, n as nat));
        r
    }

    fn fits(&self, strides: &Vec<usize>, planes: &Vec<&[u8]>) -> (r: bool)
        requires
            self.wf(),
            strides@.len() == self.src_packing.plane_count(),
            planes@.len() == self.src_packing.plane_count(),
        ensures
            r == picture_fits(
                self.src_packing,
                self.dst_packing,
                self.width as int,
                self.height as int,
                strides@,
                slices_of(planes@),
            ),
    {
        let ghost p = slices_of(planes@);
        let n: usize = self.src_packing.planes();
        let mut i: usize = 0;
        while i < n
            invariant
                i <= n,
                self.wf(),
                n == self.src_packing.plane_count(),
                strides@.len() == n,
                planes@.len() == n,
                p == slices_of(planes@),
                forall|j: int|
                    0 <= j < i ==> holds_rows(
                        (#[trigger] p[j]).len() as int,
                        strides@[j] as int,
                        self.src_packing.rows(self.height as int, j),
                        self.src_packing.row_bytes(self.width as int, j),
                    ),
            decreases n - i,
        {
            let rows: u64 = self.src_packing.row_count(self.height, i);
            let row: u64 = self.src_packing.row(self.width, i);
            assert(p[i as int].len() == planes@[i as int]@.len());
            if !rows_held(planes[i].len(), strides[i], rows, row) {
                assert(!holds_rows(
                    p[i as int].len() as int,
                    strides@[i as int] as int,
                    self.src_packing.rows(self.height as int, i as int),
                    self.src_packing.row_bytes(self.width as int, i as int),
                ));
                return false;
            }
            i += 1;
        }
        let a = self.src_packing;
        let b = self.dst_packing;
        a == Packing::I420 || a == Packing::Nv12 || b == Packing::I420 || b == Packing::Nv12
            || a == Packing::Bgr || strides[0] == 0 || strides[0] as u64 >= a.row(self.width, 0)
    }

    /// The frame that has given planes and for the rest is as the frame that they were made from.
    pub fn framed(&self, src: &Frame, out: &Vec<Vec<u8>>) -> (r: Frame)
        requires
            self.wf(),
            src.data is Video,
            !too_large(self.setup().width, self.setup().height),
            forall|i: int| 0 <= i < out@.len() ==> (#[trigger] out@[i])@.len() + 64 <= isize::MAX,
        ensures
            framed_as(r, *src, self.setup(), bytes_of(out@)),
    {
        let mut planes: Vec<FramePlane> = Vec::new();
        let mut i: usize = 0;
        proof {
            assert(4 * self.width + 1 <= 4 * (self.width + 1) * (self.height + 1))
                by (nonlinear_arith)
                requires
                    self.width >= 0,
                    self.height >= 0,
            ;
        }
        while i < out.len()
            invariant
                i <= out@.len(),
                self.wf(),
                4 * self.width + 1 <= usize::MAX,
                planes@.len() == i,
                forall|j: int|
                    0 <= j < out@.len() ==> (#[trigger] out@[j])@.len() + 64 <= isize::MAX,
                forall|j: int|
                    0 <= j < i ==> (#[trigger] planes@[j]).buffer.wf() && planes@[j].buffer@
                        == out@[j]@ && planes@[j].offset == 0 && planes@[j].linesize
                        == self.dst_packing.row_bytes(self.width as int, j),
            decreases out@.len() - i,
        {
            let bytes = &out[i];
            planes.push(
                FramePlane {
                    buffer: Buffer::from_slice(bytes.as_slice()),
                    offset: 0,
                    linesize: self.dst_packing.row(self.width, i) as usize,
                },
            );
            i += 1;
        }
        let data = match &src.data {
            FrameData::Video(v) => FrameData::Video(
                VideoFrameData {
                    planes,
                    width: self.width,
                    height: self.height,
                    format: self.dst_format,
                    picture_type: v.picture_type,
                    color_range: v.color_range,
                    color_space: v.color_space,
                    color_primaries: v.color_primaries,
                    color_trc: v.color_trc,
                    chroma_location: v.chroma_location,
                    sample_aspect_ratio: v.sample_aspect_ratio,
                    crop_top: v.crop_top,
                    crop_bottom: v.crop_bottom,
                    crop_left: v.crop_left,
                    crop_right: v.crop_right,
                },
            ),
            FrameData::Audio(a) => FrameData::Audio(a.clone()),
        };
        Frame {
            data,
            pts: src.pts,
            pkt_dts: src.pkt_dts,
            best_effort_timestamp: src.best_effort_timestamp,
            duration: src.duration,
            time_base: src.time_base,
            flags: src.flags,
            repeat_pict: src.repeat_pict,
            metadata: src.metadata.clone(),
            side_data: clone_side_data(&src.side_data),
        }
    }

    /// Planes of zeros of the destination format.
    fn blank(&self, model: Model) -> (r: Vec<Vec<u8>>)
        requires
            self.wf(),
            goes_with(self.dst_packing, model),
            !too_large(self.width, self.height),
        ensures
            r@.len() == self.dst_packing.plane_count(),
            forall|i: int|
                0 <= i < r@.len() ==> (#[trigger] r@[i])@.len() == self.dst_packing.sizes(
                    self.width as int,
                    self.height as int,
                )[i] && r@[i]@.len() + 64 <= isize::MAX,
    {
        let n: usize = self.dst_packing.planes();
        let code = (self.dst_packing.number(), model.number());
        assert(formats(self.dst_packing, model, code));
        let sizes: Vec<usize> = match get_buffers_size(self.width, self.height, code, n) {
            Some(v) => v,
            None => Vec::new(),
        };
        let mut r: Vec<Vec<u8>> = Vec::new();
        let mut i: usize = 0;
        while i < n
            invariant
                i <= n,
                self.wf(),
                n == sizes@.len(),
                n == self.dst_packing.plane_count(),
                !too_large(self.width, self.height),
                r@.len() == i,
                formats(self.dst_packing, model, code),
                forall|p: Packing, m: Model, i: int|
                    #![trigger formats(p, m, code), sizes@[i]]
                    formats(p, m, code) && 0 <= i < n ==> sizes@[i] == p.sizes(
                        self.width as int,
                        self.height as int,
                    )[i],
                forall|j: int|
                    0 <= j < i ==> (#[trigger] r@[j])@.len() == self.dst_packing.sizes(
                        self.width as int,
                        self.height as int,
                    )[j] && r@[j]@.len() + 64 <= isize::MAX,
            decreases n - i,
        {
            let size: usize = sizes[i];
            proof {
                let w = self.width as int;
                let h = self.height as int;
                lemma_area(
                    self.dst_packing.row_bytes(w, i as int),
                    self.dst_packing.rows(h, i as int),
                    w,
                    h,
                );
            }
            r.push(vec![0u8; size]);
            i += 1;
        }
        r
    }

    /// Converts a video frame.
    pub fn convert(&self, src: &Frame) -> (r: Result<Frame>)
        requires
            self.wf(),
            src.wf(),
        ensures
            convert_result(self.setup(), *src, r),
    {
        let video = match &src.data {
            FrameData::Video(v) => v,
            FrameData::Audio(_) => return Err(Error::InvalidData),
        };
        if video.width != self.width || video.height != self.height || video.format
            != self.src_format {
            return Err(Error::InvalidData);
        }
        if self.is_noop() {
            let f = src.clone();
            proof {
                let a = f.data->Video_0.planes@;
                assert forall|i: int| 0 <= i < a.len() implies (#[trigger] a[i]).buffer.wf() by {
                    assert(crate::common::frame::same_plane(a[i], video.planes@[i]));
                    assert(video.planes@[i].buffer.wf());
                }
            }
            return Ok(f);
        }
        let planes: Vec<&[u8]> = match self.extract_src_planes(video) {
            Some(v) => v,
            None => return Err(Error::InvalidData),
        };
        if is_too_large(self.width, self.height) {
            return Err(Error::OutOfMemory);
        }
        let strides: Vec<usize> = self.extract_strides(video);
        assert(slices_of(planes@).len() == planes@.len());
        if !self.fits(&strides, &planes) {
            return Err(not_enough());
        }
        let m = model_of(self.src_packing, video.color_space, video.color_range);
        let n = model_of(self.dst_packing, video.color_space, video.color_range);
        let mut out: Vec<Vec<u8>> = self.blank(n);
        let from = (self.src_packing.number(), m.number());
        let to = (self.dst_packing.number(), n.number());
        assert(convertible(self.src_packing, m, self.dst_packing, n, from, to));
        match convert_image(
            self.width,
            self.height,
            from,
            strides.as_slice(),
            planes.as_slice(),
            to,
            &mut out,
        ) {
            Ok(()) => {},
            Err(()) => return Err(not_enough()),
        }
        let f = self.framed(src, &out);
        assert(framed_as(f, *src, self.setup(), bytes_of(out@)));
        Ok(f)
    }
}

/// Converts a video frame to another pixel format.
pub fn convert_frame(src: &Frame, dst_format: PixelFormat) -> (r: Result<Frame>)
    requires
        src.wf(),
    ensures
        match src.data {
            FrameData::Audio(_) => r == Err::<Frame, Error>(Error::InvalidData),
            FrameData::Video(v) => {
                let s = Setup { src: v.format, dst: dst_format, width: v.width, height: v.height };
                if setup_ok(s) {
                    convert_result(s, *src, r)
                } else {
                    r == Err::<Frame, Error>(Error::InvalidArgument)
                }
            },
        },
{
    let video = match &src.data {
        FrameData::Video(v) => v,
        FrameData::Audio(_) => return Err(Error::InvalidData),
    };
    match Converter::new(video.format, dst_format, video.width, video.height) {
        Err(e) => Err(e),
        Ok(c) => c.convert(src),
    }
}

/// A conversion keeps everything of a frame but its planes, its size and its format.
pub proof fn law_conversion_keeps_facts(s: Setup, src: Frame, f: Frame)
    requires
        setup_ok(s),
        convert_result(s, src, Ok(f)),
    ensures
        crate::common::frame::same_facts(f, src),
        f.data is Video,
        crate::common::frame::same_picture_facts(f.data->Video_0, src.data->Video_0),
        f.data->Video_0.format == s.dst,
        f.data->Video_0.width == s.width,
        f.data->Video_0.height == s.height,
{
}

} // verus!

//! Audio channels and their layouts.
use vstd::prelude::*;
use vstd::string::*;

use crate::common::text::push_decimal;

verus! {

/// An audio channel.
#[derive(Debug, Clone, Copy, PartialEq, Eq, Hash, Structural)]
pub enum Channel {
    FrontLeft,
    FrontRight,
    FrontCenter,
    LowFrequency,
    BackLeft,
    BackRight,
    FrontLeftOfCenter,
    FrontRightOfCenter,
    BackCenter,
    SideLeft,
    SideRight,
    TopCenter,
    TopFrontLeft,
    TopFrontCenter,
    TopFrontRight,
    TopBackLeft,
    TopBackCenter,
    TopBackRight,
    StereoLeft,
    StereoRight,
    WideLeft,
    WideRight,
    SurroundDirectLeft,
    SurroundDirectRight,
    LowFrequency2,
    TopSideLeft,
    TopSideRight,
    BottomFrontCenter,
    BottomFrontLeft,
    BottomFrontRight,
    BinauralLeft,
    BinauralRight,
}

/// The number of a channel: its place in the native order.
pub open spec fn channel_number(c: Channel) -> int {
    match c {
        Channel::FrontLeft => 0,
        Channel::FrontRight => 1,
        Channel::FrontCenter => 2,
        Channel::LowFrequency => 3,
        Channel::BackLeft => 4,
        Channel::BackRight => 5,
        Channel::FrontLeftOfCenter => 6,
        Channel::FrontRightOfCenter => 7,
        Channel::BackCenter => 8,
        Channel::SideLeft => 9,
        Channel::SideRight => 10,
        Channel::TopCenter => 11,
        Channel::TopFrontLeft => 12,
        Channel::TopFrontCenter => 13,
        Channel::TopFrontRight => 14,
        Channel::TopBackLeft => 15,
        Channel::TopBackCenter => 16,
        Channel::TopBackRight => 17,
        Channel::StereoLeft => 29,
        Channel::StereoRight => 30,
        Channel::WideLeft => 31,
        Channel::WideRight => 32,
        Channel::SurroundDirectLeft => 33,
        Channel::SurroundDirectRight => 34,
        Channel::LowFrequency2 => 35,
        Channel::TopSideLeft => 36,
        Channel::TopSideRight => 37,
        Channel::BottomFrontCenter => 38,
        Channel::BottomFrontLeft => 39,
        Channel::BottomFrontRight => 40,
        Channel::BinauralLeft => 61,
        Channel::BinauralRight => 62,
    }
}

/// The short name of a channel.
pub open spec fn channel_name(c: Channel) -> Seq<char> {
    match c {
        Channel::FrontLeft => "FL"@,
        Channel::FrontRight => "FR"@,
        Channel::FrontCenter => "FC"@,
        Channel::LowFrequency => "LFE"@,
        Channel::BackLeft => "BL"@,
        Channel::BackRight => "BR"@,
        Channel::FrontLeftOfCenter => "FLC"@,
        Channel::FrontRightOfCenter => "FRC"@,
        Channel::BackCenter => "BC"@,
        Channel::SideLeft => "SL"@,
        Channel::SideRight => "SR"@,
        Channel::TopCenter => "TC"@,
        Channel::TopFrontLeft => "TFL"@,
        Channel::TopFrontCenter => "TFC"@,
        Channel::TopFrontRight => "TFR"@,
        Channel::TopBackLeft => "TBL"@,
        Channel::TopBackCenter => "TBC"@,
        Channel::TopBackRight => "TBR"@,
        Channel::StereoLeft => "DL"@,
        Channel::StereoRight => "DR"@,
        Channel::WideLeft => "WL"@,
        Channel::WideRight => "WR"@,
        Channel::SurroundDirectLeft => "SDL"@,
        Channel::SurroundDirectRight => "SDR"@,
        Channel::LowFrequency2 => "LFE2"@,
        Channel::TopSideLeft => "TSL"@,
        Channel::TopSideRight => "TSR"@,
        Channel::BottomFrontCenter => "BFC"@,
        Channel::BottomFrontLeft => "BFL"@,
        Channel::BottomFrontRight => "BFR"@,
        Channel::BinauralLeft => "BinL"@,
        Channel::BinauralRight => "BinR"@,
    }
}

impl Channel {
    /// The number of this channel: its place in the native order.
    pub fn number(self) -> (r: i32)
        ensures
            r == channel_number(self),
    {
        match self {
            Channel::FrontLeft => 0,
            Channel::FrontRight => 1,
            Channel::FrontCenter => 2,
            Channel::LowFrequency => 3,
            Channel::BackLeft => 4,
            Channel::BackRight => 5,
            Channel::FrontLeftOfCenter => 6,
            Channel::FrontRightOfCenter => 7,
            Channel::BackCenter => 8,
            Channel::SideLeft => 9,
            Channel::SideRight => 10,
            Channel::TopCenter => 11,
            Channel::TopFrontLeft => 12,
            Channel::TopFrontCenter => 13,
            Channel::TopFrontRight => 14,
            Channel::TopBackLeft => 15,
            Channel::TopBackCenter => 16,
            Channel::TopBackRight => 17,
            Channel::StereoLeft => 29,
            Channel::StereoRight => 30,
            Channel::WideLeft => 31,
            Channel::WideRight => 32,
            Channel::SurroundDirectLeft => 33,
            Channel::SurroundDirectRight => 34,
            Channel::LowFrequency2 => 35,
            Channel::TopSideLeft => 36,
            Channel::TopSideRight => 37,
            Channel::BottomFrontCenter => 38,
            Channel::BottomFrontLeft => 39,
            Channel::BottomFrontRight => 40,
            Channel::BinauralLeft => 61,
            Channel::BinauralRight => 62,
        }
    }

    /// The short name of this channel.
    pub fn name(self) -> (r: &'static str)
        ensures
            r@ == channel_name(self),
    {
        match self {
            Channel::FrontLeft => "FL",
            Channel::FrontRight => "FR",
            Channel::FrontCenter => "FC",
            Channel::LowFrequency => "LFE",
            Channel::BackLeft => "BL",
            Channel::BackRight => "BR",
            Channel::FrontLeftOfCenter => "FLC",
            Channel::FrontRightOfCenter => "FRC",
            Channel::BackCenter => "BC",
            Channel::SideLeft => "SL",
            Channel::SideRight => "SR",
            Channel::TopCenter => "TC",
            Channel::TopFrontLeft => "TFL",
            Channel::TopFrontCenter => "TFC",
            Channel::TopFrontRight => "TFR",
            Channel::TopBackLeft => "TBL",
            Channel::TopBackCenter => "TBC",
            Channel::TopBackRight => "TBR",
            Channel::StereoLeft => "DL",
            Channel::StereoRight => "DR",
            Channel::WideLeft => "WL",
            Channel::WideRight => "WR",
            Channel::SurroundDirectLeft => "SDL",
            Channel::SurroundDirectRight => "SDR",
            Channel::LowFrequency2 => "LFE2",
            Channel::TopSideLeft => "TSL",
            Channel::TopSideRight => "TSR",
            Channel::BottomFrontCenter => "BFC",
            Channel::BottomFrontLeft => "BFL",
            Channel::BottomFrontRight => "BFR",
            Channel::BinauralLeft => "BinL",
            Channel::BinauralRight => "BinR",
        }
    }
}

/// How the channels of a layout are ordered.
#[derive(Debug, Clone, Copy, PartialEq, Eq, Structural)]
pub enum ChannelOrder {
    /// By their numbers.
    Native,
    /// As the layout lists them.
    Custom,
    /// Not known: only their count is.
    Unspec,
}

/// The channels of an audio stream.
#[derive(Debug)]
pub struct ChannelLayout {
    pub order: ChannelOrder,
    pub nb_channels: i32,
    pub channels: Vec<Channel>,
}

impl Clone for ChannelLayout {
    fn clone(&self) -> (r: ChannelLayout)
        ensures
            r.order == self.order,
            r.nb_channels == self.nb_channels,
            r.channels@ == self.channels@,
    {
        let channels = self.channels.clone();
        assert(channels@ =~= self.channels@);
        ChannelLayout { order: self.order, nb_channels: self.nb_channels, channels }
    }
}

/// The channels of the layout mono.
pub const LAYOUT_MONO: [Channel; 1] = [Channel::FrontCenter];

/// The channels of the layout stereo.
pub const LAYOUT_STEREO: [Channel; 2] = [Channel::FrontLeft, Channel::FrontRight];

/// The channels of the layout 2.1.
pub const LAYOUT_2_1: [Channel; 3] = [
    Channel::FrontLeft,
    Channel::FrontRight,
    Channel::LowFrequency,
];

/// The channels of the layout 3.0.
pub const LAYOUT_3_0: [Channel; 3] = [
    Channel::FrontLeft,
    Channel::FrontRight,
    Channel::FrontCenter,
];

/// The channels of the layout 3.0(back).
pub const LAYOUT_3_0_BACK: [Channel; 3] = [
    Channel::FrontLeft,
    Channel::FrontRight,
    Channel::BackCenter,
];

/// The channels of the layout 4.0.
pub const LAYOUT_4_0: [Channel; 4] = [
    Channel::FrontLeft,
    Channel::FrontRight,
    Channel::FrontCenter,
    Channel::BackCenter,
];

/// The channels of the layout quad.
pub const LAYOUT_QUAD: [Channel; 4] = [
    Channel::FrontLeft,
    Channel::FrontRight,
    Channel::BackLeft,
    Channel::BackRight,
];

/// The channels of the layout quad(side).
pub const LAYOUT_QUAD_SIDE: [Channel; 4] = [
    Channel::FrontLeft,
    Channel::FrontRight,
    Channel::SideLeft,
    Channel::SideRight,
];

/// The channels of the layout 3.1.
pub const LAYOUT_3_1: [Channel; 4] = [
    Channel::FrontLeft,
    Channel::FrontRight,
    Channel::FrontCenter,
    Channel::LowFrequency,
];

/// The channels of the layout 5.0.
pub const LAYOUT_5_0: [Channel; 5] = [
    Channel::FrontLeft,
    Channel::FrontRight,
    Channel::FrontCenter,
    Channel::BackLeft,
    Channel::BackRight,
];

/// The channels of the layout 5.0(side).
pub const LAYOUT_5_0_SIDE: [Channel; 5] = [
    Channel::FrontLeft,
    Channel::FrontRight,
    Channel::FrontCenter,
    Channel::SideLeft,
    Channel::SideRight,
];

/// The channels of the layout 4.1.
pub const LAYOUT_4_1: [Channel; 5] = [
    Channel::FrontLeft,
    Channel::FrontRight,
    Channel::FrontCenter,
    Channel::LowFrequency,
    Channel::BackCenter,
];

/// The channels of the layout 5.1.
pub const LAYOUT_5_1: [Channel; 6] = [
    Channel::FrontLeft,
    Channel::FrontRight,
    Channel::FrontCenter,
    Channel::LowFrequency,
    Channel::BackLeft,
    Channel::BackRight,
];

/// The channels of the layout 5.1(side).
pub const LAYOUT_5_1_SIDE: [Channel; 6] = [
    Channel::FrontLeft,
    Channel::FrontRight,
    Channel::FrontCenter,
    Channel::LowFrequency,
    Channel::SideLeft,
    Channel::SideRight,
];

/// The channels of the layout 6.0.
pub const LAYOUT_6_0: [Channel; 6] = [
    Channel::FrontLeft,
    Channel::FrontRight,
    Channel::FrontCenter,
    Channel::BackCenter,
    Channel::SideLeft,
    Channel::SideRight,
];

/// The channels of the layout 6.0(front).
pub const LAYOUT_6_0_FRONT: [Channel; 6] = [
    Channel::FrontLeft,
    Channel::FrontRight,
    Channel::FrontLeftOfCenter,
    Channel::FrontRightOfCenter,
    Channel::SideLeft,
    Channel::SideRight,
];

/// The channels of the layout 3.1.2.
pub const LAYOUT_3_1_2: [Channel; 6] = [
    Channel::FrontLeft,
    Channel::FrontRight,
    Channel::FrontCenter,
    Channel::LowFrequency,
    Channel::TopFrontLeft,
    Channel::TopFrontRight,
];

/// The channels of the layout hexagonal.
pub const LAYOUT_HEXAGONAL: [Channel; 6] = [
    Channel::FrontLeft,
    Channel::FrontRight,
    Channel::FrontCenter,
    Channel::BackLeft,
    Channel::BackRight,
    Channel::BackCenter,
];

/// The channels of the layout 6.1.
pub const LAYOUT_6_1: [Channel; 7] = [
    Channel::FrontLeft,
    Channel::FrontRight,
    Channel::FrontCenter,
    Channel::LowFrequency,
    Channel::BackCenter,
    Channel::SideLeft,
    Channel::SideRight,
];

/// The channels of the layout 6.1(back).
pub const LAYOUT_6_1_BACK: [Channel; 7] = [
    Channel::FrontLeft,
    Channel::FrontRight,
    Channel::FrontCenter,
    Channel::LowFrequency,
    Channel::BackLeft,
    Channel::BackRight,
    Channel::BackCenter,
];

/// The channels of the layout 6.1(front).
pub const LAYOUT_6_1_FRONT: [Channel; 7] = [
    Channel::FrontLeft,
    Channel::FrontRight,
    Channel::LowFrequency,
    Channel::FrontLeftOfCenter,
    Channel::FrontRightOfCenter,
    Channel::SideLeft,
    Channel::SideRight,
];

/// The channels of the layout 7.0.
pub const LAYOUT_7_0: [Channel; 7] = [
    Channel::FrontLeft,
    Channel::FrontRight,
    Channel::FrontCenter,
    Channel::BackLeft,
    Channel::BackRight,
    Channel::SideLeft,
    Channel::SideRight,
];

/// The channels of the layout 7.0(front).
pub const LAYOUT_7_0_FRONT: [Channel; 7] = [
    Channel::FrontLeft,
    Channel::FrontRight,
    Channel::FrontCenter,
    Channel::FrontLeftOfCenter,
    Channel::FrontRightOfCenter,
    Channel::SideLeft,
    Channel::SideRight,
];

/// The channels of the layout 7.1.
pub const LAYOUT_7_1: [Channel; 8] = [
    Channel::FrontLeft,
    Channel::FrontRight,
    Channel::FrontCenter,
    Channel::LowFrequency,
    Channel::BackLeft,
    Channel::BackRight,
    Channel::SideLeft,
    Channel::SideRight,
];

/// The channels of the layout 7.1(wide).
pub const LAYOUT_7_1_WIDE: [Channel; 8] = [
    Channel::FrontLeft,
    Channel::FrontRight,
    Channel::FrontCenter,
    Channel::LowFrequency,
    Channel::BackLeft,
    Channel::BackRight,
    Channel::FrontLeftOfCenter,
    Channel::FrontRightOfCenter,
];

/// The channels of the layout 7.1(wide-side).
pub const LAYOUT_7_1_WIDE_SIDE: [Channel; 8] = [
    Channel::FrontLeft,
    Channel::FrontRight,
    Channel::FrontCenter,
    Channel::LowFrequency,
    Channel::FrontLeftOfCenter,
    Channel::FrontRightOfCenter,
    Channel::SideLeft,
    Channel::SideRight,
];

/// The channels of the layout 5.1.2.
pub const LAYOUT_5_1_2: [Channel; 8] = [
    Channel::FrontLeft,
    Channel::FrontRight,
    Channel::FrontCenter,
    Channel::LowFrequency,
    Channel::SideLeft,
    Channel::SideRight,
    Channel::TopFrontLeft,
    Channel::TopFrontRight,
];

/// The channels of the layout 5.1.2(back).
pub const LAYOUT_5_1_2_BACK: [Channel; 8] = [
    Channel::FrontLeft,
    Channel::FrontRight,
    Channel::FrontCenter,
    Channel::LowFrequency,
    Channel::BackLeft,
    Channel::BackRight,
    Channel::TopFrontLeft,
    Channel::TopFrontRight,
];

/// The channels of the layout octagonal.
pub const LAYOUT_OCTAGONAL: [Channel; 8] = [
    Channel::FrontLeft,
    Channel::FrontRight,
    Channel::FrontCenter,
    Channel::BackLeft,
    Channel::BackRight,
    Channel::BackCenter,
    Channel::SideLeft,
    Channel::SideRight,
];

/// The channels of the layout cube.
pub const LAYOUT_CUBE: [Channel; 8] = [
    Channel::FrontLeft,
    Channel::FrontRight,
    Channel::BackLeft,
    Channel::BackRight,
    Channel::TopFrontLeft,
    Channel::TopFrontRight,
    Channel::TopBackLeft,
    Channel::TopBackRight,
];

/// The channels of the layout 5.1.4.
pub const LAYOUT_5_1_4: [Channel; 10] = [
    Channel::FrontLeft,
    Channel::FrontRight,
    Channel::FrontCenter,
    Channel::LowFrequency,
    Channel::SideLeft,
    Channel::SideRight,
    Channel::TopFrontLeft,
    Channel::TopFrontRight,
    Channel::TopBackLeft,
    Channel::TopBackRight,
];

/// The channels of the layout 7.1.2.
pub const LAYOUT_7_1_2: [Channel; 10] = [
    Channel::FrontLeft,
    Channel::FrontRight,
    Channel::FrontCenter,
    Channel::LowFrequency,
    Channel::BackLeft,
    Channel::BackRight,
    Channel::SideLeft,
    Channel::SideRight,
    Channel::TopFrontLeft,
    Channel::TopFrontRight,
];

/// The channels of the layout 7.1.4.
pub const LAYOUT_7_1_4: [Channel; 12] = [
    Channel::FrontLeft,
    Channel::FrontRight,
    Channel::FrontCenter,
    Channel::LowFrequency,
    Channel::BackLeft,
    Channel::BackRight,
    Channel::SideLeft,
    Channel::SideRight,
    Channel::TopFrontLeft,
    Channel::TopFrontRight,
    Channel::TopBackLeft,
    Channel::TopBackRight,
];

/// The channels of the layout 7.2.3.
pub const LAYOUT_7_2_3: [Channel; 12] = [
    Channel::FrontLeft,
    Channel::FrontRight,
    Channel::FrontCenter,
    Channel::LowFrequency,
    Channel::BackLeft,
    Channel::BackRight,
    Channel::SideLeft,
    Channel::SideRight,
    Channel::TopFrontLeft,
    Channel::TopFrontRight,
    Channel::TopBackCenter,
    Channel::LowFrequency2,
];

/// The channels of the layout 9.1.4.
pub const LAYOUT_9_1_4: [Channel; 14] = [
    Channel::FrontLeft,
    Channel::FrontRight,
    Channel::FrontCenter,
    Channel::LowFrequency,
    Channel::BackLeft,
    Channel::BackRight,
    Channel::FrontLeftOfCenter,
    Channel::FrontRightOfCenter,
    Channel::SideLeft,
    Channel::SideRight,
    Channel::TopFrontLeft,
    Channel::TopFrontRight,
    Channel::TopBackLeft,
    Channel::TopBackRight,
];

/// The channels of the layout 9.1.6.
pub const LAYOUT_9_1_6: [Channel; 16] = [
    Channel::FrontLeft,
    Channel::FrontRight,
    Channel::FrontCenter,
    Channel::LowFrequency,
    Channel::BackLeft,
    Channel::BackRight,
    Channel::FrontLeftOfCenter,
    Channel::FrontRightOfCenter,
    Channel::SideLeft,
    Channel::SideRight,
    Channel::TopFrontLeft,
    Channel::TopFrontRight,
    Channel::TopBackLeft,
    Channel::TopBackRight,
    Channel::TopSideLeft,
    Channel::TopSideRight,
];

/// The channels of the layout hexadecagonal.
pub const LAYOUT_HEXADECAGONAL: [Channel; 16] = [
    Channel::FrontLeft,
    Channel::FrontRight,
    Channel::FrontCenter,
    Channel::BackLeft,
    Channel::BackRight,
    Channel::BackCenter,
    Channel::SideLeft,
    Channel::SideRight,
    Channel::TopFrontLeft,
    Channel::TopFrontCenter,
    Channel::TopFrontRight,
    Channel::TopBackLeft,
    Channel::TopBackCenter,
    Channel::TopBackRight,
    Channel::WideLeft,
    Channel::WideRight,
];

/// The channels of the layout downmix.
pub const LAYOUT_DOWNMIX: [Channel; 2] = [Channel::StereoLeft, Channel::StereoRight];

/// The channels of the layout binaural.
pub const LAYOUT_BINAURAL: [Channel; 2] = [Channel::BinauralLeft, Channel::BinauralRight];

/// The channels of the layout 22.2.
pub const LAYOUT_22_2: [Channel; 24] = [
    Channel::FrontLeft,
    Channel::FrontRight,
    Channel::FrontCenter,
    Channel::LowFrequency,
    Channel::BackLeft,
    Channel::BackRight,
    Channel::FrontLeftOfCenter,
    Channel::FrontRightOfCenter,
    Channel::BackCenter,
    Channel::SideLeft,
    Channel::SideRight,
    Channel::TopCenter,
    Channel::TopFrontLeft,
    Channel::TopFrontCenter,
    Channel::TopFrontRight,
    Channel::TopBackLeft,
    Channel::TopBackCenter,
    Channel::TopBackRight,
    Channel::LowFrequency2,
    Channel::TopSideLeft,
    Channel::TopSideRight,
    Channel::BottomFrontCenter,
    Channel::BottomFrontLeft,
    Channel::BottomFrontRight,
];

/// The name of a list of channels, where it is a standard layout.
pub open spec fn standard_name_spec(c: Seq<Channel>) -> Option<Seq<char>> {
    if c == LAYOUT_MONO@ {
        Some("mono"@)
    } else if c == LAYOUT_STEREO@ {
        Some("stereo"@)
    } else if c == LAYOUT_2_1@ {
        Some("2.1"@)
    } else if c == LAYOUT_3_0@ {
        Some("3.0"@)
    } else if c == LAYOUT_3_0_BACK@ {
        Some("3.0(back)"@)
    } else if c == LAYOUT_4_0@ {
        Some("4.0"@)
    } else if c == LAYOUT_QUAD@ {
        Some("quad"@)
    } else if c == LAYOUT_QUAD_SIDE@ {
        Some("quad(side)"@)
    } else if c == LAYOUT_3_1@ {
        Some("3.1"@)
    } else if c == LAYOUT_5_0@ {
        Some("5.0"@)
    } else if c == LAYOUT_5_0_SIDE@ {
        Some("5.0(side)"@)
    } else if c == LAYOUT_4_1@ {
        Some("4.1"@)
    } else if c == LAYOUT_5_1@ {
        Some("5.1"@)
    } else if c == LAYOUT_5_1_SIDE@ {
        Some("5.1(side)"@)
    } else if c == LAYOUT_6_0@ {
        Some("6.0"@)
    } else if c == LAYOUT_6_0_FRONT@ {
        Some("6.0(front)"@)
    } else if c == LAYOUT_3_1_2@ {
        Some("3.1.2"@)
    } else if c == LAYOUT_HEXAGONAL@ {
        Some("hexagonal"@)
    } else if c == LAYOUT_6_1@ {
        Some("6.1"@)
    } else if c == LAYOUT_6_1_BACK@ {
        Some("6.1(back)"@)
    } else if c == LAYOUT_6_1_FRONT@ {
        Some("6.1(front)"@)
    } else if c == LAYOUT_7_0@ {
        Some("7.0"@)
    } else if c == LAYOUT_7_0_FRONT@ {
        Some("7.0(front)"@)
    } else if c == LAYOUT_7_1@ {
        Some("7.1"@)
    } else if c == LAYOUT_7_1_WIDE@ {
        Some("7.1(wide)"@)
    } else if c == LAYOUT_7_1_WIDE_SIDE@ {
        Some("7.1(wide-side)"@)
    } else if c == LAYOUT_5_1_2@ {
        Some("5.1.2"@)
    } else if c == LAYOUT_5_1_2_BACK@ {
        Some("5.1.2(back)"@)
    } else if c == LAYOUT_OCTAGONAL@ {
        Some("octagonal"@)
    } else if c == LAYOUT_CUBE@ {
        Some("cube"@)
    } else if c == LAYOUT_5_1_4@ {
        Some("5.1.4"@)
    } else if c == LAYOUT_7_1_2@ {
        Some("7.1.2"@)
    } else if c == LAYOUT_7_1_4@ {
        Some("7.1.4"@)
    } else if c == LAYOUT_7_2_3@ {
        Some("7.2.3"@)
    } else if c == LAYOUT_9_1_4@ {
        Some("9.1.4"@)
    } else if c == LAYOUT_9_1_6@ {
        Some("9.1.6"@)
    } else if c == LAYOUT_HEXADECAGONAL@ {
        Some("hexadecagonal"@)
    } else if c == LAYOUT_DOWNMIX@ {
        Some("downmix"@)
    } else if c == LAYOUT_BINAURAL@ {
        Some("binaural"@)
    } else if c == LAYOUT_22_2@ {
        Some("22.2"@)
    } else {
        None
    }
}

/// The channel of a bit of a channel mask.
pub open spec fn mask_channel_spec(bit: int) -> Channel {
    if bit == 0 {
        Channel::FrontLeft
    } else if bit == 1 {
        Channel::FrontRight
    } else if bit == 2 {
        Channel::FrontCenter
    } else if bit == 3 {
        Channel::LowFrequency
    } else if bit == 4 {
        Channel::BackLeft
    } else if bit == 5 {
        Channel::BackRight
    } else if bit == 6 {
        Channel::FrontLeftOfCenter
    } else if bit == 7 {
        Channel::FrontRightOfCenter
    } else if bit == 8 {
        Channel::BackCenter
    } else if bit == 9 {
        Channel::SideLeft
    } else if bit == 10 {
        Channel::SideRight
    } else if bit == 11 {
        Channel::TopCenter
    } else if bit == 12 {
        Channel::TopFrontLeft
    } else if bit == 13 {
        Channel::TopFrontCenter
    } else if bit == 14 {
        Channel::TopFrontRight
    } else if bit == 15 {
        Channel::TopBackLeft
    } else if bit == 16 {
        Channel::TopBackCenter
    } else {
        Channel::TopBackRight
    }
}

fn mask_channel(bit: u32) -> (r: Channel)
    requires
        bit < 18,
    ensures
        r == mask_channel_spec(bit as int),
{
    match bit {
        0 => Channel::FrontLeft,
        1 => Channel::FrontRight,
        2 => Channel::FrontCenter,
        3 => Channel::LowFrequency,
        4 => Channel::BackLeft,
        5 => Channel::BackRight,
        6 => Channel::FrontLeftOfCenter,
        7 => Channel::FrontRightOfCenter,
        8 => Channel::BackCenter,
        9 => Channel::SideLeft,
        10 => Channel::SideRight,
        11 => Channel::TopCenter,
        12 => Channel::TopFrontLeft,
        13 => Channel::TopFrontCenter,
        14 => Channel::TopFrontRight,
        15 => Channel::TopBackLeft,
        16 => Channel::TopBackCenter,
        _ => Channel::TopBackRight,
    }
}

/// The channels of the set bits among the lowest `n` of a mask, from the lowest bit up.
pub open spec fn mask_channels(mask: u32, n: nat) -> Seq<Channel>
    decreases n,
{
    if n == 0 {
        Seq::empty()
    } else {
        let rest = mask_channels(mask, (n - 1) as nat);
        if mask & (1u32 << ((n - 1) as u32)) != 0 {
            rest.push(mask_channel_spec(n - 1))
        } else {
            rest
        }
    }
}

/// The names of channels, with plus signs between them.
pub open spec fn joined_names(c: Seq<Channel>) -> Seq<char>
    decreases c.len(),
{
    if c.len() == 0 {
        Seq::empty()
    } else if c.len() == 1 {
        channel_name(c[0])
    } else {
        joined_names(c.drop_last()) + "+"@ + channel_name(c.last())
    }
}

fn same_channels(a: &[Channel], b: &[Channel]) -> (r: bool)
    ensures
        r == (a@ == b@),
{
    if a.len() != b.len() {
        return false;
    }
    let mut i: usize = 0;
    while i < a.len()
        invariant
            i <= a@.len(),
            a@.len() == b@.len(),
            forall|j: int| 0 <= j < i ==> #[trigger] a@[j] == b@[j],
        decreases a@.len() - i,
    {
        if a[i] != b[i] {
            assert(a@[i as int] != b@[i as int]);
            return false;
        }
        i += 1;
    }
    assert(a@ =~= b@);
    true
}

impl ChannelLayout {
    /// Front center.
    pub fn mono() -> (r: ChannelLayout)
        ensures
            r.order == ChannelOrder::Native,
            r.nb_channels == 1,
            r.channels@ == LAYOUT_MONO@,
    {
        let channels = vec![Channel::FrontCenter];
        assert(channels@ =~= LAYOUT_MONO@);
        ChannelLayout { order: ChannelOrder::Native, nb_channels: 1, channels }
    }

    /// Front left and front right.
    pub fn stereo() -> (r: ChannelLayout)
        ensures
            r.order == ChannelOrder::Native,
            r.nb_channels == 2,
            r.channels@ == LAYOUT_STEREO@,
    {
        let channels = vec![Channel::FrontLeft, Channel::FrontRight];
        assert(channels@ =~= LAYOUT_STEREO@);
        ChannelLayout { order: ChannelOrder::Native, nb_channels: 2, channels }
    }

    /// 5.1 surround.
    pub fn surround_5_1() -> (r: ChannelLayout)
        ensures
            r.order == ChannelOrder::Native,
            r.nb_channels == 6,
            r.channels@ == LAYOUT_5_1@,
    {
        let channels = vec![
            Channel::FrontLeft,
            Channel::FrontRight,
            Channel::FrontCenter,
            Channel::LowFrequency,
            Channel::BackLeft,
            Channel::BackRight,
        ];
        assert(channels@ =~= LAYOUT_5_1@);
        ChannelLayout { order: ChannelOrder::Native, nb_channels: 6, channels }
    }

    /// 7.1 surround.
    pub fn surround_7_1() -> (r: ChannelLayout)
        ensures
            r.order == ChannelOrder::Native,
            r.nb_channels == 8,
            r.channels@ == LAYOUT_7_1@,
    {
        let channels = vec![
            Channel::FrontLeft,
            Channel::FrontRight,
            Channel::FrontCenter,
            Channel::LowFrequency,
            Channel::BackLeft,
            Channel::BackRight,
            Channel::SideLeft,
            Channel::SideRight,
        ];
        assert(channels@ =~= LAYOUT_7_1@);
        ChannelLayout { order: ChannelOrder::Native, nb_channels: 8, channels }
    }

    /// A layout of which only the count of channels is known.
    pub fn unspec(nb_channels: i32) -> (r: ChannelLayout)
        ensures
            r.order == ChannelOrder::Unspec,
            r.nb_channels == nb_channels,
            r.channels@ == Seq::<Channel>::empty(),
    {
        ChannelLayout { order: ChannelOrder::Unspec, nb_channels, channels: Vec::new() }
    }

    /// The layout of a channel mask of a WAVE file: each of its lowest 18 bits stands for the channel
    /// of that number.
    pub fn from_wav_channel_mask(mask: u32) -> (r: ChannelLayout)
        ensures
            r.order == (if mask == 0 {
                ChannelOrder::Unspec
            } else {
                ChannelOrder::Native
            }),
            r.channels@ == mask_channels(mask, 18),
            r.nb_channels == r.channels@.len(),
    {
        if mask == 0 {
            proof {
                lemma_no_bits(18);
            }
            return ChannelLayout::unspec(0);
        }
        let mut channels: Vec<Channel> = Vec::new();
        let mut bit: u32 = 0;
        while bit < 18
            invariant
                bit <= 18,
                channels@ == mask_channels(mask, bit as nat),
                channels@.len() <= bit,
            decreases 18 - bit,
        {
            if mask & (1u32 << bit) != 0 {
                channels.push(mask_channel(bit));
            }
            bit += 1;
        }
        let nb_channels = channels.len() as i32;
        ChannelLayout { order: ChannelOrder::Native, nb_channels, channels }
    }

    /// The name of this layout, where its channels are those of a standard one.
    pub fn standard_name(&self) -> (r: Option<&'static str>)
        ensures
            match r {
                Some(name) => standard_name_spec(self.channels@) == Some(name@),
                None => standard_name_spec(self.channels@) is None,
            },
    {
        let c = self.channels.as_slice();
        if same_channels(c, LAYOUT_MONO.as_slice()) {
            Some("mono")
        } else if same_channels(c, LAYOUT_STEREO.as_slice()) {
            Some("stereo")
        } else if same_channels(c, LAYOUT_2_1.as_slice()) {
            Some("2.1")
        } else if same_channels(c, LAYOUT_3_0.as_slice()) {
            Some("3.0")
        } else if same_channels(c, LAYOUT_3_0_BACK.as_slice()) {
            Some("3.0(back)")
        } else if same_channels(c, LAYOUT_4_0.as_slice()) {
            Some("4.0")
        } else if same_channels(c, LAYOUT_QUAD.as_slice()) {
            Some("quad")
        } else if same_channels(c, LAYOUT_QUAD_SIDE.as_slice()) {
            Some("quad(side)")
        } else if same_channels(c, LAYOUT_3_1.as_slice()) {
            Some("3.1")
        } else if same_channels(c, LAYOUT_5_0.as_slice()) {
            Some("5.0")
        } else if same_channels(c, LAYOUT_5_0_SIDE.as_slice()) {
            Some("5.0(side)")
        } else if same_channels(c, LAYOUT_4_1.as_slice()) {
            Some("4.1")
        } else if same_channels(c, LAYOUT_5_1.as_slice()) {
            Some("5.1")
        } else if same_channels(c, LAYOUT_5_1_SIDE.as_slice()) {
            Some("5.1(side)")
        } else if same_channels(c, LAYOUT_6_0.as_slice()) {
            Some("6.0")
        } else if same_channels(c, LAYOUT_6_0_FRONT.as_slice()) {
            Some("6.0(front)")
        } else if same_channels(c, LAYOUT_3_1_2.as_slice()) {
            Some("3.1.2")
        } else if same_channels(c, LAYOUT_HEXAGONAL.as_slice()) {
            Some("hexagonal")
        } else if same_channels(c, LAYOUT_6_1.as_slice()) {
            Some("6.1")
        } else if same_channels(c, LAYOUT_6_1_BACK.as_slice()) {
            Some("6.1(back)")
        } else if same_channels(c, LAYOUT_6_1_FRONT.as_slice()) {
            Some("6.1(front)")
        } else if same_channels(c, LAYOUT_7_0.as_slice()) {
            Some("7.0")
        } else if same_channels(c, LAYOUT_7_0_FRONT.as_slice()) {
            Some("7.0(front)")
        } else if same_channels(c, LAYOUT_7_1.as_slice()) {
            Some("7.1")
        } else if same_channels(c, LAYOUT_7_1_WIDE.as_slice()) {
            Some("7.1(wide)")
        } else if same_channels(c, LAYOUT_7_1_WIDE_SIDE.as_slice()) {
            Some("7.1(wide-side)")
        } else if same_channels(c, LAYOUT_5_1_2.as_slice()) {
            Some("5.1.2")
        } else if same_channels(c, LAYOUT_5_1_2_BACK.as_slice()) {
            Some("5.1.2(back)")
        } else if same_channels(c, LAYOUT_OCTAGONAL.as_slice()) {
            Some("octagonal")
        } else if same_channels(c, LAYOUT_CUBE.as_slice()) {
            Some("cube")
        } else if same_channels(c, LAYOUT_5_1_4.as_slice()) {
            Some("5.1.4")
        } else if same_channels(c, LAYOUT_7_1_2.as_slice()) {
            Some("7.1.2")
        } else if same_channels(c, LAYOUT_7_1_4.as_slice()) {
            Some("7.1.4")
        } else if same_channels(c, LAYOUT_7_2_3.as_slice()) {
            Some("7.2.3")
        } else if same_channels(c, LAYOUT_9_1_4.as_slice()) {
            Some("9.1.4")
        } else if same_channels(c, LAYOUT_9_1_6.as_slice()) {
            Some("9.1.6")
        } else if same_channels(c, LAYOUT_HEXADECAGONAL.as_slice()) {
            Some("hexadecagonal")
        } else if same_channels(c, LAYOUT_DOWNMIX.as_slice()) {
            Some("downmix")
        } else if same_channels(c, LAYOUT_BINAURAL.as_slice()) {
            Some("binaural")
        } else if same_channels(c, LAYOUT_22_2.as_slice()) {
            Some("22.2")
        } else {
            None
        }
    }

    /// The text of a layout: the count where no channel is known, else the standard name, else the
    /// names of the channels.
    pub open spec fn text(&self) -> Seq<char> {
        if self.channels@.len() == 0 {
            crate::common::text::decimal_text(self.nb_channels as int) + " channels"@
        } else {
            match standard_name_spec(self.channels@) {
                Some(name) => name,
                None => joined_names(self.channels@),
            }
        }
    }

    /// The text of this layout.
    pub fn to_text(&self) -> (r: String)
        ensures
            r@ == self.text(),
    {
        if self.channels.len() == 0 {
            let mut s = String::new();
            push_decimal(&mut s, self.nb_channels as i64);
            s.append(" channels");
            assert(s@ =~= self.text());
            return s;
        }
        if let Some(name) = self.standard_name() {
            return name.to_owned();
        }
        let c = self.channels.as_slice();
        let mut s = c[0].name().to_owned();
        let mut i: usize = 1;
        assert(c@.take(1).len() == 1 && c@.take(1)[0] == c@[0]);
        while i < c.len()
            invariant
                1 <= i <= c@.len(),
                s@ == joined_names(c@.take(i as int)),
            decreases c@.len() - i,
        {
            s.append("+");
            s.append(c[i].name());
            assert(c@.take(i + 1).drop_last() =~= c@.take(i as int));
            i += 1;
        }
        assert(c@.take(i as int) =~= c@);
        s
    }
}

proof fn lemma_no_bits(n: nat)
    ensures
        mask_channels(0, n) == Seq::<Channel>::empty(),
    decreases n,
{
    if n > 0 {
        lemma_no_bits((n - 1) as nat);
        let k = (n - 1) as u32;
        assert(0u32 & (1u32 << k) == 0) by (bit_vector);
    }
}

/// The channels of a mask come in their native order, each once.
pub proof fn law_mask_channels_ascend(mask: u32, n: nat)
    requires
        n <= 18,
    ensures
        mask_channels(mask, n).len() <= n,
        forall|i: int|
            0 <= i < mask_channels(mask, n).len() ==> channel_number(
                #[trigger] mask_channels(mask, n)[i],
            ) < n,
        forall|i: int, j: int|
            0 <= i < j < mask_channels(mask, n).len() ==> channel_number(
                #[trigger] mask_channels(mask, n)[i],
            ) < channel_number(#[trigger] mask_channels(mask, n)[j]),
    decreases n,
{
    if n > 0 {
        law_mask_channels_ascend(mask, (n - 1) as nat);
    }
}

/// Whether channels come in their native order, each once.
pub open spec fn ascending(c: Seq<Channel>) -> bool {
    forall|i: int|
        0 <= i < c.len() - 1 ==> channel_number(#[trigger] c[i]) < channel_number(c[i + 1])
}

/// The standard layouts list their channels in the native order.
pub proof fn law_standard_layouts_ascend(c: Seq<Channel>)
    requires
        standard_name_spec(c) is Some,
    ensures
        ascending(c),
{
}

/// A number by which the standard names are told apart: the length and the first characters, weighted.
spec fn name_key(s: Seq<char>) -> int {
    101 * s.len() + 37 * char_at(s, 0) + 41 * char_at(s, 1) + 2 * char_at(s, 2) + 19 * char_at(s, 3) + 47 * char_at(s, 4)
}

/// The number of a character of a text, or zero behind the end.
spec fn char_at(s: Seq<char>, i: int) -> int {
    if i < s.len() {
        s[i] as u32 as int
    } else {
        0
    }
}

/// The standard layout whose name has a given number.
spec fn layout_of_key(key: int) -> Seq<Channel> {
    if key == 11317 {
        LAYOUT_MONO@
    } else if key == 16732 {
        LAYOUT_STEREO@
    } else if key == 4137 {
        LAYOUT_2_1@
    } else if key == 4172 {
        LAYOUT_3_0@
    } else if key == 10144 {
        LAYOUT_3_0_BACK@
    } else if key == 4209 {
        LAYOUT_4_0@
    } else if key == 11476 {
        LAYOUT_QUAD@
    } else if key == 13962 {
        LAYOUT_QUAD_SIDE@
    } else if key == 4174 {
        LAYOUT_3_1@
    } else if key == 4246 {
        LAYOUT_5_0@
    } else if key == 11017 {
        LAYOUT_5_0_SIDE@
    } else if key == 4211 {
        LAYOUT_4_1@
    } else if key == 4248 {
        LAYOUT_5_1@
    } else if key == 11019 {
        LAYOUT_5_1_SIDE@
    } else if key == 4283 {
        LAYOUT_6_0@
    } else if key == 10544 {
        LAYOUT_6_0_FRONT@
    } else if key == 7600 {
        LAYOUT_3_1_2@
    } else if key == 15822 {
        LAYOUT_HEXAGONAL@
    } else if key == 4285 {
        LAYOUT_6_1@
    } else if key == 10257 {
        LAYOUT_6_1_BACK@
    } else if key == 10546 {
        LAYOUT_6_1_FRONT@
    } else if key == 4320 {
        LAYOUT_7_0@
    } else if key == 10581 {
        LAYOUT_7_0_FRONT@
    } else if key == 4322 {
        LAYOUT_7_1@
    } else if key == 11281 {
        LAYOUT_7_1_WIDE@
    } else if key == 11786 {
        LAYOUT_7_1_WIDE_SIDE@
    } else if key == 7674 {
        LAYOUT_5_1_2@
    } else if key == 8280 {
        LAYOUT_5_1_2_BACK@
    } else if key == 15991 {
        LAYOUT_OCTAGONAL@
    } else if key == 10979 {
        LAYOUT_CUBE@
    } else if key == 7768 {
        LAYOUT_5_1_4@
    } else if key == 7748 {
        LAYOUT_7_1_2@
    } else if key == 7842 {
        LAYOUT_7_1_4@
    } else if key == 7797 {
        LAYOUT_7_2_3@
    } else if key == 7916 {
        LAYOUT_9_1_4@
    } else if key == 8010 {
        LAYOUT_9_1_6@
    } else if key == 16085 {
        LAYOUT_HEXADECAGONAL@
    } else if key == 16409 {
        LAYOUT_DOWNMIX@
    } else if key == 16301 {
        LAYOUT_BINAURAL@
    } else if key == 5346 {
        LAYOUT_22_2@
    } else {
        Seq::empty()
    }
}

/// The name of a standard layout leads back to it.
proof fn lemma_name_leads_back(c: Seq<Channel>)
    requires
        standard_name_spec(c) is Some,
    ensures
        layout_of_key(name_key(standard_name_spec(c)->Some_0)) == c,
{
    if c == LAYOUT_MONO@ {
        reveal_strlit("mono");
        assert(name_key("mono"@) == 11317);
    } else if c == LAYOUT_STEREO@ {
        reveal_strlit("stereo");
        assert(name_key("stereo"@) == 16732);
    } else if c == LAYOUT_2_1@ {
        reveal_strlit("2.1");
        assert(name_key("2.1"@) == 4137);
    } else if c == LAYOUT_3_0@ {
        reveal_strlit("3.0");
        assert(name_key("3.0"@) == 4172);
    } else if c == LAYOUT_3_0_BACK@ {
        reveal_strlit("3.0(back)");
        assert(name_key("3.0(back)"@) == 10144);
    } else if c == LAYOUT_4_0@ {
        reveal_strlit("4.0");
        assert(name_key("4.0"@) == 4209);
    } else if c == LAYOUT_QUAD@ {
        reveal_strlit("quad");
        assert(name_key("quad"@) == 11476);
    } else if c == LAYOUT_QUAD_SIDE@ {
        reveal_strlit("quad(side)");
        assert(name_key("quad(side)"@) == 13962);
    } else if c == LAYOUT_3_1@ {
        reveal_strlit("3.1");
        assert(name_key("3.1"@) == 4174);
    } else if c == LAYOUT_5_0@ {
        reveal_strlit("5.0");
        assert(name_key("5.0"@) == 4246);
    } else if c == LAYOUT_5_0_SIDE@ {
        reveal_strlit("5.0(side)");
        assert(name_key("5.0(side)"@) == 11017);
    } else if c == LAYOUT_4_1@ {
        reveal_strlit("4.1");
        assert(name_key("4.1"@) == 4211);
    } else if c == LAYOUT_5_1@ {
        reveal_strlit("5.1");
        assert(name_key("5.1"@) == 4248);
    } else if c == LAYOUT_5_1_SIDE@ {
        reveal_strlit("5.1(side)");
        assert(name_key("5.1(side)"@) == 11019);
    } else if c == LAYOUT_6_0@ {
        reveal_strlit("6.0");
        assert(name_key("6.0"@) == 4283);
    } else if c == LAYOUT_6_0_FRONT@ {
        reveal_strlit("6.0(front)");
        assert(name_key("6.0(front)"@) == 10544);
    } else if c == LAYOUT_3_1_2@ {
        reveal_strlit("3.1.2");
        assert(name_key("3.1.2"@) == 7600);
    } else if c == LAYOUT_HEXAGONAL@ {
        reveal_strlit("hexagonal");
        assert(name_key("hexagonal"@) == 15822);
    } else if c == LAYOUT_6_1@ {
        reveal_strlit("6.1");
        assert(name_key("6.1"@) == 4285);
    } else if c == LAYOUT_6_1_BACK@ {
        reveal_strlit("6.1(back)");
        assert(name_key("6.1(back)"@) == 10257);
    } else if c == LAYOUT_6_1_FRONT@ {
        reveal_strlit("6.1(front)");
        assert(name_key("6.1(front)"@) == 10546);
    } else if c == LAYOUT_7_0@ {
        reveal_strlit("7.0");
        assert(name_key("7.0"@) == 4320);
    } else if c == LAYOUT_7_0_FRONT@ {
        reveal_strlit("7.0(front)");
        assert(name_key("7.0(front)"@) == 10581);
    } else if c == LAYOUT_7_1@ {
        reveal_strlit("7.1");
        assert(name_key("7.1"@) == 4322);
    } else if c == LAYOUT_7_1_WIDE@ {
        reveal_strlit("7.1(wide)");
        assert(name_key("7.1(wide)"@) == 11281);
    } else if c == LAYOUT_7_1_WIDE_SIDE@ {
        reveal_strlit("7.1(wide-side)");
        assert(name_key("7.1(wide-side)"@) == 11786);
    } else if c == LAYOUT_5_1_2@ {
        reveal_strlit("5.1.2");
        assert(name_key("5.1.2"@) == 7674);
    } else if c == LAYOUT_5_1_2_BACK@ {
        reveal_strlit("5.1.2(back)");
        assert(name_key("5.1.2(back)"@) == 8280);
    } else if c == LAYOUT_OCTAGONAL@ {
        reveal_strlit("octagonal");
        assert(name_key("octagonal"@) == 15991);
    } else if c == LAYOUT_CUBE@ {
        reveal_strlit("cube");
        assert(name_key("cube"@) == 10979);
    } else if c == LAYOUT_5_1_4@ {
        reveal_strlit("5.1.4");
        assert(name_key("5.1.4"@) == 7768);
    } else if c == LAYOUT_7_1_2@ {
        reveal_strlit("7.1.2");
        assert(name_key("7.1.2"@) == 7748);
    } else if c == LAYOUT_7_1_4@ {
        reveal_strlit("7.1.4");
        assert(name_key("7.1.4"@) == 7842);
    } else if c == LAYOUT_7_2_3@ {
        reveal_strlit("7.2.3");
        assert(name_key("7.2.3"@) == 7797);
    } else if c == LAYOUT_9_1_4@ {
        reveal_strlit("9.1.4");
        assert(name_key("9.1.4"@) == 7916);
    } else if c == LAYOUT_9_1_6@ {
        reveal_strlit("9.1.6");
        assert(name_key("9.1.6"@) == 8010);
    } else if c == LAYOUT_HEXADECAGONAL@ {
        reveal_strlit("hexadecagonal");
        assert(name_key("hexadecagonal"@) == 16085);
    } else if c == LAYOUT_DOWNMIX@ {
        reveal_strlit("downmix");
        assert(name_key("downmix"@) == 16409);
    } else if c == LAYOUT_BINAURAL@ {
        reveal_strlit("binaural");
        assert(name_key("binaural"@) == 16301);
    } else if c == LAYOUT_22_2@ {
        reveal_strlit("22.2");
        assert(name_key("22.2"@) == 5346);
    }
}

/// Two lists of channels that have the same standard name are the same.
pub proof fn law_standard_names_differ(a: Seq<Channel>, b: Seq<Channel>)
    requires
        standard_name_spec(a) is Some,
        standard_name_spec(a) == standard_name_spec(b),
    ensures
        a == b,
{
    lemma_name_leads_back(a);
    lemma_name_leads_back(b);
}

} // verus!

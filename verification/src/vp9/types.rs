//! Types shared by the VP9 modules.
//!
//! The variants of each enum stand in the order of the codes that the bitstream
//! and the lookup tables use, so that a code and its variant convert both ways.
use vstd::prelude::*;
use vstd::std_specs::convert::TryFromSpecImpl;

verus! {

/// Bitstream profile: chroma subsampling and bit depth classes.
#[derive(Clone, Copy, Debug, PartialEq, Eq, Structural)]
pub enum BitstreamProfile {
    /// 8-bit 4:2:0.
    Profile0,
    /// 8-bit with other subsamplings.
    Profile1,
    /// 10- or 12-bit 4:2:0.
    Profile2,
    /// 10- or 12-bit with other subsamplings.
    Profile3,
}

impl Default for BitstreamProfile {
    fn default() -> (r: Self)
        ensures
            r == BitstreamProfile::Profile0,
    {
        BitstreamProfile::Profile0
    }
}

impl BitstreamProfile {
    /// The code of this variant.
    pub open spec fn code_spec(self) -> u8 {
        match self {
            BitstreamProfile::Profile0 => 0,
            BitstreamProfile::Profile1 => 1,
            BitstreamProfile::Profile2 => 2,
            BitstreamProfile::Profile3 => 3,
        }
    }

    /// The code of this variant.
    pub fn code(self) -> (r: u8)
        ensures
            r == self.code_spec(),
    {
        match self {
            BitstreamProfile::Profile0 => 0,
            BitstreamProfile::Profile1 => 1,
            BitstreamProfile::Profile2 => 2,
            BitstreamProfile::Profile3 => 3,
        }
    }
}

impl BitstreamProfile {
    /// The variant with the code `v`, or `v` itself where no variant has it.
    pub open spec fn of_code(v: u8) -> Result<BitstreamProfile, u8> {
        match v {
            0 => Ok(BitstreamProfile::Profile0),
            1 => Ok(BitstreamProfile::Profile1),
            2 => Ok(BitstreamProfile::Profile2),
            3 => Ok(BitstreamProfile::Profile3),
            _ => Err(v),
        }
    }
}

impl TryFromSpecImpl<u8> for BitstreamProfile {
    open spec fn obeys_try_from_spec() -> bool {
        true
    }

    open spec fn try_from_spec(v: u8) -> Result<BitstreamProfile, u8> {
        BitstreamProfile::of_code(v)
    }
}

impl TryFrom<u8> for BitstreamProfile {
    type Error = u8;

    fn try_from(v: u8) -> (r: Result<BitstreamProfile, u8>) {
        match v {
            0 => Ok(BitstreamProfile::Profile0),
            1 => Ok(BitstreamProfile::Profile1),
            2 => Ok(BitstreamProfile::Profile2),
            3 => Ok(BitstreamProfile::Profile3),
            _ => Err(v),
        }
    }
}

/// A code converts to the variant that has it, and to nothing else.
pub proof fn law_bitstream_profile_codes(v: u8)
    ensures
        match BitstreamProfile::of_code(v) {
            Ok(x) => x.code_spec() == v,
            Err(e) => e == v && !(0 <= v < 4),
        },
        forall|x: BitstreamProfile| BitstreamProfile::of_code(#[trigger] x.code_spec()) == Ok::<BitstreamProfile, u8>(x),
{
}

/// Block size, from the largest to the smallest.
#[derive(Clone, Copy, Debug, PartialEq, Eq, Structural)]
pub enum BlockSize {
    Bs64x64,
    Bs64x32,
    Bs32x64,
    Bs32x32,
    Bs32x16,
    Bs16x32,
    Bs16x16,
    Bs16x8,
    Bs8x16,
    Bs8x8,
    Bs8x4,
    Bs4x8,
    Bs4x4,
}

impl Default for BlockSize {
    fn default() -> (r: Self)
        ensures
            r == BlockSize::Bs64x64,
    {
        BlockSize::Bs64x64
    }
}

impl BlockSize {
    /// The code of this variant.
    pub open spec fn code_spec(self) -> u8 {
        match self {
            BlockSize::Bs64x64 => 0,
            BlockSize::Bs64x32 => 1,
            BlockSize::Bs32x64 => 2,
            BlockSize::Bs32x32 => 3,
            BlockSize::Bs32x16 => 4,
            BlockSize::Bs16x32 => 5,
            BlockSize::Bs16x16 => 6,
            BlockSize::Bs16x8 => 7,
            BlockSize::Bs8x16 => 8,
            BlockSize::Bs8x8 => 9,
            BlockSize::Bs8x4 => 10,
            BlockSize::Bs4x8 => 11,
            BlockSize::Bs4x4 => 12,
        }
    }

    /// The code of this variant.
    pub fn code(self) -> (r: u8)
        ensures
            r == self.code_spec(),
    {
        match self {
            BlockSize::Bs64x64 => 0,
            BlockSize::Bs64x32 => 1,
            BlockSize::Bs32x64 => 2,
            BlockSize::Bs32x32 => 3,
            BlockSize::Bs32x16 => 4,
            BlockSize::Bs16x32 => 5,
            BlockSize::Bs16x16 => 6,
            BlockSize::Bs16x8 => 7,
            BlockSize::Bs8x16 => 8,
            BlockSize::Bs8x8 => 9,
            BlockSize::Bs8x4 => 10,
            BlockSize::Bs4x8 => 11,
            BlockSize::Bs4x4 => 12,
        }
    }
}

impl BlockSize {
    /// The variant with the code `v`, or `v` itself where no variant has it.
    pub open spec fn of_code(v: u8) -> Result<BlockSize, u8> {
        match v {
            0 => Ok(BlockSize::Bs64x64),
            1 => Ok(BlockSize::Bs64x32),
            2 => Ok(BlockSize::Bs32x64),
            3 => Ok(BlockSize::Bs32x32),
            4 => Ok(BlockSize::Bs32x16),
            5 => Ok(BlockSize::Bs16x32),
            6 => Ok(BlockSize::Bs16x16),
            7 => Ok(BlockSize::Bs16x8),
            8 => Ok(BlockSize::Bs8x16),
            9 => Ok(BlockSize::Bs8x8),
            10 => Ok(BlockSize::Bs8x4),
            11 => Ok(BlockSize::Bs4x8),
            12 => Ok(BlockSize::Bs4x4),
            _ => Err(v),
        }
    }
}

impl TryFromSpecImpl<u8> for BlockSize {
    open spec fn obeys_try_from_spec() -> bool {
        true
    }

    open spec fn try_from_spec(v: u8) -> Result<BlockSize, u8> {
        BlockSize::of_code(v)
    }
}

impl TryFrom<u8> for BlockSize {
    type Error = u8;

    fn try_from(v: u8) -> (r: Result<BlockSize, u8>) {
        match v {
            0 => Ok(BlockSize::Bs64x64),
            1 => Ok(BlockSize::Bs64x32),
            2 => Ok(BlockSize::Bs32x64),
            3 => Ok(BlockSize::Bs32x32),
            4 => Ok(BlockSize::Bs32x16),
            5 => Ok(BlockSize::Bs16x32),
            6 => Ok(BlockSize::Bs16x16),
            7 => Ok(BlockSize::Bs16x8),
            8 => Ok(BlockSize::Bs8x16),
            9 => Ok(BlockSize::Bs8x8),
            10 => Ok(BlockSize::Bs8x4),
            11 => Ok(BlockSize::Bs4x8),
            12 => Ok(BlockSize::Bs4x4),
            _ => Err(v),
        }
    }
}

/// A code converts to the variant that has it, and to nothing else.
pub proof fn law_block_size_codes(v: u8)
    ensures
        match BlockSize::of_code(v) {
            Ok(x) => x.code_spec() == v,
            Err(e) => e == v && !(0 <= v < 13),
        },
        forall|x: BlockSize| BlockSize::of_code(#[trigger] x.code_spec()) == Ok::<BlockSize, u8>(x),
{
}

/// Number of block sizes.
pub const N_BS_SIZES: usize = 13;

/// Level of the partition tree of a superblock.
#[derive(Clone, Copy, Debug, PartialEq, Eq, Structural)]
pub enum BlockLevel {
    Bl64x64,
    Bl32x32,
    Bl16x16,
    Bl8x8,
}

impl Default for BlockLevel {
    fn default() -> (r: Self)
        ensures
            r == BlockLevel::Bl64x64,
    {
        BlockLevel::Bl64x64
    }
}

impl BlockLevel {
    /// The code of this variant.
    pub open spec fn code_spec(self) -> u8 {
        match self {
            BlockLevel::Bl64x64 => 0,
            BlockLevel::Bl32x32 => 1,
            BlockLevel::Bl16x16 => 2,
            BlockLevel::Bl8x8 => 3,
        }
    }

    /// The code of this variant.
    pub fn code(self) -> (r: u8)
        ensures
            r == self.code_spec(),
    {
        match self {
            BlockLevel::Bl64x64 => 0,
            BlockLevel::Bl32x32 => 1,
            BlockLevel::Bl16x16 => 2,
            BlockLevel::Bl8x8 => 3,
        }
    }
}

impl BlockLevel {
    /// The variant with the code `v`, or `v` itself where no variant has it.
    pub open spec fn of_code(v: u8) -> Result<BlockLevel, u8> {
        match v {
            0 => Ok(BlockLevel::Bl64x64),
            1 => Ok(BlockLevel::Bl32x32),
            2 => Ok(BlockLevel::Bl16x16),
            3 => Ok(BlockLevel::Bl8x8),
            _ => Err(v),
        }
    }
}

impl TryFromSpecImpl<u8> for BlockLevel {
    open spec fn obeys_try_from_spec() -> bool {
        true
    }

    open spec fn try_from_spec(v: u8) -> Result<BlockLevel, u8> {
        BlockLevel::of_code(v)
    }
}

impl TryFrom<u8> for BlockLevel {
    type Error = u8;

    fn try_from(v: u8) -> (r: Result<BlockLevel, u8>) {
        match v {
            0 => Ok(BlockLevel::Bl64x64),
            1 => Ok(BlockLevel::Bl32x32),
            2 => Ok(BlockLevel::Bl16x16),
            3 => Ok(BlockLevel::Bl8x8),
            _ => Err(v),
        }
    }
}

/// A code converts to the variant that has it, and to nothing else.
pub proof fn law_block_level_codes(v: u8)
    ensures
        match BlockLevel::of_code(v) {
            Ok(x) => x.code_spec() == v,
            Err(e) => e == v && !(0 <= v < 4),
        },
        forall|x: BlockLevel| BlockLevel::of_code(#[trigger] x.code_spec()) == Ok::<BlockLevel, u8>(x),
{
}

/// How a square block is divided.
#[derive(Clone, Copy, Debug, PartialEq, Eq, Structural)]
pub enum BlockPartition {
    /// Kept whole.
    Whole,
    /// Two halves, one above the other.
    H,
    /// Two halves side by side.
    V,
    /// Four quarters.
    Split,
}

impl Default for BlockPartition {
    fn default() -> (r: Self)
        ensures
            r == BlockPartition::Whole,
    {
        BlockPartition::Whole
    }
}

impl BlockPartition {
    /// The code of this variant.
    pub open spec fn code_spec(self) -> u8 {
        match self {
            BlockPartition::Whole => 0,
            BlockPartition::H => 1,
            BlockPartition::V => 2,
            BlockPartition::Split => 3,
        }
    }

    /// The code of this variant.
    pub fn code(self) -> (r: u8)
        ensures
            r == self.code_spec(),
    {
        match self {
            BlockPartition::Whole => 0,
            BlockPartition::H => 1,
            BlockPartition::V => 2,
            BlockPartition::Split => 3,
        }
    }
}

impl BlockPartition {
    /// The variant with the code `v`, or `v` itself where no variant has it.
    pub open spec fn of_code(v: u8) -> Result<BlockPartition, u8> {
        match v {
            0 => Ok(BlockPartition::Whole),
            1 => Ok(BlockPartition::H),
            2 => Ok(BlockPartition::V),
            3 => Ok(BlockPartition::Split),
            _ => Err(v),
        }
    }
}

impl TryFromSpecImpl<u8> for BlockPartition {
    open spec fn obeys_try_from_spec() -> bool {
        true
    }

    open spec fn try_from_spec(v: u8) -> Result<BlockPartition, u8> {
        BlockPartition::of_code(v)
    }
}

impl TryFrom<u8> for BlockPartition {
    type Error = u8;

    fn try_from(v: u8) -> (r: Result<BlockPartition, u8>) {
        match v {
            0 => Ok(BlockPartition::Whole),
            1 => Ok(BlockPartition::H),
            2 => Ok(BlockPartition::V),
            3 => Ok(BlockPartition::Split),
            _ => Err(v),
        }
    }
}

/// A code converts to the variant that has it, and to nothing else.
pub proof fn law_block_partition_codes(v: u8)
    ensures
        match BlockPartition::of_code(v) {
            Ok(x) => x.code_spec() == v,
            Err(e) => e == v && !(0 <= v < 4),
        },
        forall|x: BlockPartition| BlockPartition::of_code(#[trigger] x.code_spec()) == Ok::<BlockPartition, u8>(x),
{
}

/// Transform size.
#[derive(Clone, Copy, Debug, PartialEq, Eq, Structural)]
pub enum TxSize {
    Tx4x4,
    Tx8x8,
    Tx16x16,
    Tx32x32,
}

impl Default for TxSize {
    fn default() -> (r: Self)
        ensures
            r == TxSize::Tx4x4,
    {
        TxSize::Tx4x4
    }
}

impl TxSize {
    /// The code of this variant.
    pub open spec fn code_spec(self) -> u8 {
        match self {
            TxSize::Tx4x4 => 0,
            TxSize::Tx8x8 => 1,
            TxSize::Tx16x16 => 2,
            TxSize::Tx32x32 => 3,
        }
    }

    /// The code of this variant.
    pub fn code(self) -> (r: u8)
        ensures
            r == self.code_spec(),
    {
        match self {
            TxSize::Tx4x4 => 0,
            TxSize::Tx8x8 => 1,
            TxSize::Tx16x16 => 2,
            TxSize::Tx32x32 => 3,
        }
    }
}

impl TxSize {
    /// The variant with the code `v`, or `v` itself where no variant has it.
    pub open spec fn of_code(v: u8) -> Result<TxSize, u8> {
        match v {
            0 => Ok(TxSize::Tx4x4),
            1 => Ok(TxSize::Tx8x8),
            2 => Ok(TxSize::Tx16x16),
            3 => Ok(TxSize::Tx32x32),
            _ => Err(v),
        }
    }
}

impl TryFromSpecImpl<u8> for TxSize {
    open spec fn obeys_try_from_spec() -> bool {
        true
    }

    open spec fn try_from_spec(v: u8) -> Result<TxSize, u8> {
        TxSize::of_code(v)
    }
}

impl TryFrom<u8> for TxSize {
    type Error = u8;

    fn try_from(v: u8) -> (r: Result<TxSize, u8>) {
        match v {
            0 => Ok(TxSize::Tx4x4),
            1 => Ok(TxSize::Tx8x8),
            2 => Ok(TxSize::Tx16x16),
            3 => Ok(TxSize::Tx32x32),
            _ => Err(v),
        }
    }
}

/// A code converts to the variant that has it, and to nothing else.
pub proof fn law_tx_size_codes(v: u8)
    ensures
        match TxSize::of_code(v) {
            Ok(x) => x.code_spec() == v,
            Err(e) => e == v && !(0 <= v < 4),
        },
        forall|x: TxSize| TxSize::of_code(#[trigger] x.code_spec()) == Ok::<TxSize, u8>(x),
{
}

/// Number of transform sizes.
pub const N_TX_SIZES: usize = 4;

/// Transform mode code: the size is coded for each block.
pub const TX_SWITCHABLE: u8 = 4;

/// Pair of one-dimensional transforms, named row first, then column.
#[derive(Clone, Copy, Debug, PartialEq, Eq, Structural)]
pub enum TxType {
    DctDct,
    DctAdst,
    AdstDct,
    AdstAdst,
}

impl Default for TxType {
    fn default() -> (r: Self)
        ensures
            r == TxType::DctDct,
    {
        TxType::DctDct
    }
}

impl TxType {
    /// The code of this variant.
    pub open spec fn code_spec(self) -> u8 {
        match self {
            TxType::DctDct => 0,
            TxType::DctAdst => 1,
            TxType::AdstDct => 2,
            TxType::AdstAdst => 3,
        }
    }

    /// The code of this variant.
    pub fn code(self) -> (r: u8)
        ensures
            r == self.code_spec(),
    {
        match self {
            TxType::DctDct => 0,
            TxType::DctAdst => 1,
            TxType::AdstDct => 2,
            TxType::AdstAdst => 3,
        }
    }
}

impl TxType {
    /// The variant with the code `v`, or `v` itself where no variant has it.
    pub open spec fn of_code(v: u8) -> Result<TxType, u8> {
        match v {
            0 => Ok(TxType::DctDct),
            1 => Ok(TxType::DctAdst),
            2 => Ok(TxType::AdstDct),
            3 => Ok(TxType::AdstAdst),
            _ => Err(v),
        }
    }
}

impl TryFromSpecImpl<u8> for TxType {
    open spec fn obeys_try_from_spec() -> bool {
        true
    }

    open spec fn try_from_spec(v: u8) -> Result<TxType, u8> {
        TxType::of_code(v)
    }
}

impl TryFrom<u8> for TxType {
    type Error = u8;

    fn try_from(v: u8) -> (r: Result<TxType, u8>) {
        match v {
            0 => Ok(TxType::DctDct),
            1 => Ok(TxType::DctAdst),
            2 => Ok(TxType::AdstDct),
            3 => Ok(TxType::AdstAdst),
            _ => Err(v),
        }
    }
}

/// A code converts to the variant that has it, and to nothing else.
pub proof fn law_tx_type_codes(v: u8)
    ensures
        match TxType::of_code(v) {
            Ok(x) => x.code_spec() == v,
            Err(e) => e == v && !(0 <= v < 4),
        },
        forall|x: TxType| TxType::of_code(#[trigger] x.code_spec()) == Ok::<TxType, u8>(x),
{
}

/// Number of transform types.
pub const N_TX_TYPES: usize = 4;

/// Intra prediction mode. The last five only stand for edges that are not available.
#[derive(Clone, Copy, Debug, PartialEq, Eq, Structural)]
pub enum IntraMode {
    VertPred,
    HorPred,
    DcPred,
    DiagDownLeftPred,
    DiagDownRightPred,
    VertRightPred,
    HorDownPred,
    VertLeftPred,
    HorUpPred,
    TmVp8Pred,
    LeftDcPred,
    TopDcPred,
    Dc128Pred,
    Dc127Pred,
    Dc129Pred,
}

impl Default for IntraMode {
    fn default() -> (r: Self)
        ensures
            r == IntraMode::VertPred,
    {
        IntraMode::VertPred
    }
}

impl IntraMode {
    /// The code of this variant.
    pub open spec fn code_spec(self) -> u8 {
        match self {
            IntraMode::VertPred => 0,
            IntraMode::HorPred => 1,
            IntraMode::DcPred => 2,
            IntraMode::DiagDownLeftPred => 3,
            IntraMode::DiagDownRightPred => 4,
            IntraMode::VertRightPred => 5,
            IntraMode::HorDownPred => 6,
            IntraMode::VertLeftPred => 7,
            IntraMode::HorUpPred => 8,
            IntraMode::TmVp8Pred => 9,
            IntraMode::LeftDcPred => 10,
            IntraMode::TopDcPred => 11,
            IntraMode::Dc128Pred => 12,
            IntraMode::Dc127Pred => 13,
            IntraMode::Dc129Pred => 14,
        }
    }

    /// The code of this variant.
    pub fn code(self) -> (r: u8)
        ensures
            r == self.code_spec(),
    {
        match self {
            IntraMode::VertPred => 0,
            IntraMode::HorPred => 1,
            IntraMode::DcPred => 2,
            IntraMode::DiagDownLeftPred => 3,
            IntraMode::DiagDownRightPred => 4,
            IntraMode::VertRightPred => 5,
            IntraMode::HorDownPred => 6,
            IntraMode::VertLeftPred => 7,
            IntraMode::HorUpPred => 8,
            IntraMode::TmVp8Pred => 9,
            IntraMode::LeftDcPred => 10,
            IntraMode::TopDcPred => 11,
            IntraMode::Dc128Pred => 12,
            IntraMode::Dc127Pred => 13,
            IntraMode::Dc129Pred => 14,
        }
    }
}

impl IntraMode {
    /// The variant with the code `v`, or `v` itself where no variant has it.
    pub open spec fn of_code(v: u8) -> Result<IntraMode, u8> {
        match v {
            0 => Ok(IntraMode::VertPred),
            1 => Ok(IntraMode::HorPred),
            2 => Ok(IntraMode::DcPred),
            3 => Ok(IntraMode::DiagDownLeftPred),
            4 => Ok(IntraMode::DiagDownRightPred),
            5 => Ok(IntraMode::VertRightPred),
            6 => Ok(IntraMode::HorDownPred),
            7 => Ok(IntraMode::VertLeftPred),
            8 => Ok(IntraMode::HorUpPred),
            9 => Ok(IntraMode::TmVp8Pred),
            10 => Ok(IntraMode::LeftDcPred),
            11 => Ok(IntraMode::TopDcPred),
            12 => Ok(IntraMode::Dc128Pred),
            13 => Ok(IntraMode::Dc127Pred),
            14 => Ok(IntraMode::Dc129Pred),
            _ => Err(v),
        }
    }
}

impl TryFromSpecImpl<u8> for IntraMode {
    open spec fn obeys_try_from_spec() -> bool {
        true
    }

    open spec fn try_from_spec(v: u8) -> Result<IntraMode, u8> {
        IntraMode::of_code(v)
    }
}

impl TryFrom<u8> for IntraMode {
    type Error = u8;

    fn try_from(v: u8) -> (r: Result<IntraMode, u8>) {
        match v {
            0 => Ok(IntraMode::VertPred),
            1 => Ok(IntraMode::HorPred),
            2 => Ok(IntraMode::DcPred),
            3 => Ok(IntraMode::DiagDownLeftPred),
            4 => Ok(IntraMode::DiagDownRightPred),
            5 => Ok(IntraMode::VertRightPred),
            6 => Ok(IntraMode::HorDownPred),
            7 => Ok(IntraMode::VertLeftPred),
            8 => Ok(IntraMode::HorUpPred),
            9 => Ok(IntraMode::TmVp8Pred),
            10 => Ok(IntraMode::LeftDcPred),
            11 => Ok(IntraMode::TopDcPred),
            12 => Ok(IntraMode::Dc128Pred),
            13 => Ok(IntraMode::Dc127Pred),
            14 => Ok(IntraMode::Dc129Pred),
            _ => Err(v),
        }
    }
}

/// A code converts to the variant that has it, and to nothing else.
pub proof fn law_intra_mode_codes(v: u8)
    ensures
        match IntraMode::of_code(v) {
            Ok(x) => x.code_spec() == v,
            Err(e) => e == v && !(0 <= v < 15),
        },
        forall|x: IntraMode| IntraMode::of_code(#[trigger] x.code_spec()) == Ok::<IntraMode, u8>(x),
{
}

/// Number of intra prediction modes.
pub const N_INTRA_PRED_MODES: usize = 15;

/// Interpolation filter of inter prediction.
#[derive(Clone, Copy, Debug, PartialEq, Eq, Structural)]
pub enum InterpFilter {
    EightTapSmooth,
    EightTapRegular,
    EightTapSharp,
    Bilinear,
}

impl Default for InterpFilter {
    fn default() -> (r: Self)
        ensures
            r == InterpFilter::EightTapSmooth,
    {
        InterpFilter::EightTapSmooth
    }
}

impl InterpFilter {
    /// The code of this variant.
    pub open spec fn code_spec(self) -> u8 {
        match self {
            InterpFilter::EightTapSmooth => 0,
            InterpFilter::EightTapRegular => 1,
            InterpFilter::EightTapSharp => 2,
            InterpFilter::Bilinear => 3,
        }
    }

    /// The code of this variant.
    pub fn code(self) -> (r: u8)
        ensures
            r == self.code_spec(),
    {
        match self {
            InterpFilter::EightTapSmooth => 0,
            InterpFilter::EightTapRegular => 1,
            InterpFilter::EightTapSharp => 2,
            InterpFilter::Bilinear => 3,
        }
    }
}

impl InterpFilter {
    /// The variant with the code `v`, or `v` itself where no variant has it.
    pub open spec fn of_code(v: u8) -> Result<InterpFilter, u8> {
        match v {
            0 => Ok(InterpFilter::EightTapSmooth),
            1 => Ok(InterpFilter::EightTapRegular),
            2 => Ok(InterpFilter::EightTapSharp),
            3 => Ok(InterpFilter::Bilinear),
            _ => Err(v),
        }
    }
}

impl TryFromSpecImpl<u8> for InterpFilter {
    open spec fn obeys_try_from_spec() -> bool {
        true
    }

    open spec fn try_from_spec(v: u8) -> Result<InterpFilter, u8> {
        InterpFilter::of_code(v)
    }
}

impl TryFrom<u8> for InterpFilter {
    type Error = u8;

    fn try_from(v: u8) -> (r: Result<InterpFilter, u8>) {
        match v {
            0 => Ok(InterpFilter::EightTapSmooth),
            1 => Ok(InterpFilter::EightTapRegular),
            2 => Ok(InterpFilter::EightTapSharp),
            3 => Ok(InterpFilter::Bilinear),
            _ => Err(v),
        }
    }
}

/// A code converts to the variant that has it, and to nothing else.
pub proof fn law_interp_filter_codes(v: u8)
    ensures
        match InterpFilter::of_code(v) {
            Ok(x) => x.code_spec() == v,
            Err(e) => e == v && !(0 <= v < 4),
        },
        forall|x: InterpFilter| InterpFilter::of_code(#[trigger] x.code_spec()) == Ok::<InterpFilter, u8>(x),
{
}

/// Number of interpolation filters.
pub const N_FILTERS: usize = 4;

/// Filter mode code: the filter is coded for each block.
pub const FILTER_SWITCHABLE: u8 = 4;

/// Reference frame of a block.
#[derive(Clone, Copy, Debug, PartialEq, Eq, Structural)]
pub enum ReferenceFrame {
    IntraFrame,
    LastFrame,
    GoldenFrame,
    AltRefFrame,
}

impl Default for ReferenceFrame {
    fn default() -> (r: Self)
        ensures
            r == ReferenceFrame::IntraFrame,
    {
        ReferenceFrame::IntraFrame
    }
}

impl ReferenceFrame {
    /// The code of this variant.
    pub open spec fn code_spec(self) -> i8 {
        match self {
            ReferenceFrame::IntraFrame => 0,
            ReferenceFrame::LastFrame => 1,
            ReferenceFrame::GoldenFrame => 2,
            ReferenceFrame::AltRefFrame => 3,
        }
    }

    /// The code of this variant.
    pub fn code(self) -> (r: i8)
        ensures
            r == self.code_spec(),
    {
        match self {
            ReferenceFrame::IntraFrame => 0,
            ReferenceFrame::LastFrame => 1,
            ReferenceFrame::GoldenFrame => 2,
            ReferenceFrame::AltRefFrame => 3,
        }
    }
}

impl ReferenceFrame {
    /// The variant with the code `v`, or `v` itself where no variant has it.
    pub open spec fn of_code(v: i8) -> Result<ReferenceFrame, i8> {
        match v {
            0 => Ok(ReferenceFrame::IntraFrame),
            1 => Ok(ReferenceFrame::LastFrame),
            2 => Ok(ReferenceFrame::GoldenFrame),
            3 => Ok(ReferenceFrame::AltRefFrame),
            _ => Err(v),
        }
    }
}

impl TryFromSpecImpl<i8> for ReferenceFrame {
    open spec fn obeys_try_from_spec() -> bool {
        true
    }

    open spec fn try_from_spec(v: i8) -> Result<ReferenceFrame, i8> {
        ReferenceFrame::of_code(v)
    }
}

impl TryFrom<i8> for ReferenceFrame {
    type Error = i8;

    fn try_from(v: i8) -> (r: Result<ReferenceFrame, i8>) {
        match v {
            0 => Ok(ReferenceFrame::IntraFrame),
            1 => Ok(ReferenceFrame::LastFrame),
            2 => Ok(ReferenceFrame::GoldenFrame),
            3 => Ok(ReferenceFrame::AltRefFrame),
            _ => Err(v),
        }
    }
}

/// A code converts to the variant that has it, and to nothing else.
pub proof fn law_reference_frame_codes(v: i8)
    ensures
        match ReferenceFrame::of_code(v) {
            Ok(x) => x.code_spec() == v,
            Err(e) => e == v && !(0 <= v < 4),
        },
        forall|x: ReferenceFrame| ReferenceFrame::of_code(#[trigger] x.code_spec()) == Ok::<ReferenceFrame, i8>(x),
{
}

/// Inter prediction mode. The codes follow those of the intra modes.
#[derive(Clone, Copy, Debug, PartialEq, Eq, Structural)]
pub enum InterPredMode {
    NearestMv,
    NearMv,
    ZeroMv,
    NewMv,
}

impl InterPredMode {
    /// The code of this variant.
    pub open spec fn code_spec(self) -> u8 {
        match self {
            InterPredMode::NearestMv => 10,
            InterPredMode::NearMv => 11,
            InterPredMode::ZeroMv => 12,
            InterPredMode::NewMv => 13,
        }
    }

    /// The code of this variant.
    pub fn code(self) -> (r: u8)
        ensures
            r == self.code_spec(),
    {
        match self {
            InterPredMode::NearestMv => 10,
            InterPredMode::NearMv => 11,
            InterPredMode::ZeroMv => 12,
            InterPredMode::NewMv => 13,
        }
    }
}

impl InterPredMode {
    /// The variant with the code `v`, or `v` itself where no variant has it.
    pub open spec fn of_code(v: u8) -> Result<InterPredMode, u8> {
        match v {
            10 => Ok(InterPredMode::NearestMv),
            11 => Ok(InterPredMode::NearMv),
            12 => Ok(InterPredMode::ZeroMv),
            13 => Ok(InterPredMode::NewMv),
            _ => Err(v),
        }
    }
}

impl TryFromSpecImpl<u8> for InterPredMode {
    open spec fn obeys_try_from_spec() -> bool {
        true
    }

    open spec fn try_from_spec(v: u8) -> Result<InterPredMode, u8> {
        InterPredMode::of_code(v)
    }
}

impl TryFrom<u8> for InterPredMode {
    type Error = u8;

    fn try_from(v: u8) -> (r: Result<InterPredMode, u8>) {
        match v {
            10 => Ok(InterPredMode::NearestMv),
            11 => Ok(InterPredMode::NearMv),
            12 => Ok(InterPredMode::ZeroMv),
            13 => Ok(InterPredMode::NewMv),
            _ => Err(v),
        }
    }
}

/// A code converts to the variant that has it, and to nothing else.
pub proof fn law_inter_pred_mode_codes(v: u8)
    ensures
        match InterPredMode::of_code(v) {
            Ok(x) => x.code_spec() == v,
            Err(e) => e == v && !(10 <= v < 14),
        },
        forall|x: InterPredMode| InterPredMode::of_code(#[trigger] x.code_spec()) == Ok::<InterPredMode, u8>(x),
{
}

/// Compound prediction mode of a frame.
#[derive(Clone, Copy, Debug, PartialEq, Eq, Structural)]
pub enum CompPredMode {
    SingleRef,
    CompRef,
    Switchable,
}

impl Default for CompPredMode {
    fn default() -> (r: Self)
        ensures
            r == CompPredMode::SingleRef,
    {
        CompPredMode::SingleRef
    }
}

impl CompPredMode {
    /// The code of this variant.
    pub open spec fn code_spec(self) -> u8 {
        match self {
            CompPredMode::SingleRef => 0,
            CompPredMode::CompRef => 1,
            CompPredMode::Switchable => 2,
        }
    }

    /// The code of this variant.
    pub fn code(self) -> (r: u8)
        ensures
            r == self.code_spec(),
    {
        match self {
            CompPredMode::SingleRef => 0,
            CompPredMode::CompRef => 1,
            CompPredMode::Switchable => 2,
        }
    }
}

impl CompPredMode {
    /// The variant with the code `v`, or `v` itself where no variant has it.
    pub open spec fn of_code(v: u8) -> Result<CompPredMode, u8> {
        match v {
            0 => Ok(CompPredMode::SingleRef),
            1 => Ok(CompPredMode::CompRef),
            2 => Ok(CompPredMode::Switchable),
            _ => Err(v),
        }
    }
}

impl TryFromSpecImpl<u8> for CompPredMode {
    open spec fn obeys_try_from_spec() -> bool {
        true
    }

    open spec fn try_from_spec(v: u8) -> Result<CompPredMode, u8> {
        CompPredMode::of_code(v)
    }
}

impl TryFrom<u8> for CompPredMode {
    type Error = u8;

    fn try_from(v: u8) -> (r: Result<CompPredMode, u8>) {
        match v {
            0 => Ok(CompPredMode::SingleRef),
            1 => Ok(CompPredMode::CompRef),
            2 => Ok(CompPredMode::Switchable),
            _ => Err(v),
        }
    }
}

/// A code converts to the variant that has it, and to nothing else.
pub proof fn law_comp_pred_mode_codes(v: u8)
    ensures
        match CompPredMode::of_code(v) {
            Ok(x) => x.code_spec() == v,
            Err(e) => e == v && !(0 <= v < 3),
        },
        forall|x: CompPredMode| CompPredMode::of_code(#[trigger] x.code_spec()) == Ok::<CompPredMode, u8>(x),
{
}

/// Which components of a motion vector difference are not zero.
#[derive(Clone, Copy, Debug, PartialEq, Eq, Structural)]
pub enum MvJoint {
    /// Neither.
    Zero,
    /// Only the horizontal one.
    H,
    /// Only the vertical one.
    V,
    /// Both.
    Hv,
}

impl Default for MvJoint {
    fn default() -> (r: Self)
        ensures
            r == MvJoint::Zero,
    {
        MvJoint::Zero
    }
}

impl MvJoint {
    /// The code of this variant.
    pub open spec fn code_spec(self) -> u8 {
        match self {
            MvJoint::Zero => 0,
            MvJoint::H => 1,
            MvJoint::V => 2,
            MvJoint::Hv => 3,
        }
    }

    /// The code of this variant.
    pub fn code(self) -> (r: u8)
        ensures
            r == self.code_spec(),
    {
        match self {
            MvJoint::Zero => 0,
            MvJoint::H => 1,
            MvJoint::V => 2,
            MvJoint::Hv => 3,
        }
    }
}

impl MvJoint {
    /// The variant with the code `v`, or `v` itself where no variant has it.
    pub open spec fn of_code(v: u8) -> Result<MvJoint, u8> {
        match v {
            0 => Ok(MvJoint::Zero),
            1 => Ok(MvJoint::H),
            2 => Ok(MvJoint::V),
            3 => Ok(MvJoint::Hv),
            _ => Err(v),
        }
    }
}

impl TryFromSpecImpl<u8> for MvJoint {
    open spec fn obeys_try_from_spec() -> bool {
        true
    }

    open spec fn try_from_spec(v: u8) -> Result<MvJoint, u8> {
        MvJoint::of_code(v)
    }
}

impl TryFrom<u8> for MvJoint {
    type Error = u8;

    fn try_from(v: u8) -> (r: Result<MvJoint, u8>) {
        match v {
            0 => Ok(MvJoint::Zero),
            1 => Ok(MvJoint::H),
            2 => Ok(MvJoint::V),
            3 => Ok(MvJoint::Hv),
            _ => Err(v),
        }
    }
}

/// A code converts to the variant that has it, and to nothing else.
pub proof fn law_mv_joint_codes(v: u8)
    ensures
        match MvJoint::of_code(v) {
            Ok(x) => x.code_spec() == v,
            Err(e) => e == v && !(0 <= v < 4),
        },
        forall|x: MvJoint| MvJoint::of_code(#[trigger] x.code_spec()) == Ok::<MvJoint, u8>(x),
{
}

/// Adaptive probabilities of a frame, the coefficient probabilities apart.
#[derive(Clone, Copy, Debug)]
pub struct ProbContext {
    pub y_mode: [[u8; 9]; 4],
    pub uv_mode: [[u8; 9]; 10],
    pub filter: [[u8; 2]; 4],
    pub mv_mode: [[u8; 3]; 7],
    pub intra: [u8; 4],
    pub comp: [u8; 5],
    pub single_ref: [[u8; 2]; 5],
    pub comp_ref: [u8; 5],
    pub tx32p: [[u8; 3]; 2],
    pub tx16p: [[u8; 2]; 2],
    pub tx8p: [u8; 2],
    pub skip: [u8; 3],
    pub mv_joint: [u8; 3],
    pub mv_comp: [MvCompProbs; 2],
    pub partition: [[[[u8; 3]; 4]; 4]; 4],
}

/// Probabilities of one motion vector component.
#[derive(Clone, Copy, Debug)]
pub struct MvCompProbs {
    pub sign: u8,
    pub classes: [u8; 10],
    pub class0: u8,
    pub bits: [u8; 10],
    pub class0_fp: [[u8; 3]; 2],
    pub fp: [u8; 3],
    pub class0_hp: u8,
    pub hp: u8,
}

} // verus!

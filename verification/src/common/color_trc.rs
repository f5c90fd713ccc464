//! Color transfer characteristics.
use vstd::prelude::*;

verus! {

/// Color transfer characteristic.
#[derive(Debug, Clone, Copy, PartialEq, Eq, Hash, Structural)]
pub enum ColorTransferCharacteristic {
    Reserved0,
    Bt709,
    Unspecified,
    Reserved,
    Gamma22,
    Gamma28,
    Smpte170m,
    Smpte240m,
    Linear,
    Log,
    LogSqrt,
    Iec61966_2_4,
    Bt1361Ecg,
    Iec61966_2_1,
    Bt2020_10,
    Bt2020_12,
    Smpte2084,
    Smpte428,
    AribStdB67,
}

impl Default for ColorTransferCharacteristic {
    fn default() -> (r: ColorTransferCharacteristic)
        ensures
            r == ColorTransferCharacteristic::Unspecified,
    {
        ColorTransferCharacteristic::Unspecified
    }
}

impl ColorTransferCharacteristic {
    /// The number by which it is known.
    pub open spec fn code(self) -> int {
        match self {
            ColorTransferCharacteristic::Reserved0 => 0,
            ColorTransferCharacteristic::Bt709 => 1,
            ColorTransferCharacteristic::Unspecified => 2,
            ColorTransferCharacteristic::Reserved => 3,
            ColorTransferCharacteristic::Gamma22 => 4,
            ColorTransferCharacteristic::Gamma28 => 5,
            ColorTransferCharacteristic::Smpte170m => 6,
            ColorTransferCharacteristic::Smpte240m => 7,
            ColorTransferCharacteristic::Linear => 8,
            ColorTransferCharacteristic::Log => 9,
            ColorTransferCharacteristic::LogSqrt => 10,
            ColorTransferCharacteristic::Iec61966_2_4 => 11,
            ColorTransferCharacteristic::Bt1361Ecg => 12,
            ColorTransferCharacteristic::Iec61966_2_1 => 13,
            ColorTransferCharacteristic::Bt2020_10 => 14,
            ColorTransferCharacteristic::Bt2020_12 => 15,
            ColorTransferCharacteristic::Smpte2084 => 16,
            ColorTransferCharacteristic::Smpte428 => 17,
            ColorTransferCharacteristic::AribStdB67 => 18,
        }
    }

    /// The number by which it is known.
    pub fn number(self) -> (r: i32)
        ensures
            r == self.code(),
    {
        match self {
            ColorTransferCharacteristic::Reserved0 => 0,
            ColorTransferCharacteristic::Bt709 => 1,
            ColorTransferCharacteristic::Unspecified => 2,
            ColorTransferCharacteristic::Reserved => 3,
            ColorTransferCharacteristic::Gamma22 => 4,
            ColorTransferCharacteristic::Gamma28 => 5,
            ColorTransferCharacteristic::Smpte170m => 6,
            ColorTransferCharacteristic::Smpte240m => 7,
            ColorTransferCharacteristic::Linear => 8,
            ColorTransferCharacteristic::Log => 9,
            ColorTransferCharacteristic::LogSqrt => 10,
            ColorTransferCharacteristic::Iec61966_2_4 => 11,
            ColorTransferCharacteristic::Bt1361Ecg => 12,
            ColorTransferCharacteristic::Iec61966_2_1 => 13,
            ColorTransferCharacteristic::Bt2020_10 => 14,
            ColorTransferCharacteristic::Bt2020_12 => 15,
            ColorTransferCharacteristic::Smpte2084 => 16,
            ColorTransferCharacteristic::Smpte428 => 17,
            ColorTransferCharacteristic::AribStdB67 => 18,
        }
    }

    /// Its name.
    pub open spec fn label(self) -> Seq<char> {
        match self {
            ColorTransferCharacteristic::Reserved0 => "reserved"@,
            ColorTransferCharacteristic::Bt709 => "bt709"@,
            ColorTransferCharacteristic::Unspecified => "unknown"@,
            ColorTransferCharacteristic::Reserved => "reserved"@,
            ColorTransferCharacteristic::Gamma22 => "bt470m"@,
            ColorTransferCharacteristic::Gamma28 => "bt470bg"@,
            ColorTransferCharacteristic::Smpte170m => "smpte170m"@,
            ColorTransferCharacteristic::Smpte240m => "smpte240m"@,
            ColorTransferCharacteristic::Linear => "linear"@,
            ColorTransferCharacteristic::Log => "log100"@,
            ColorTransferCharacteristic::LogSqrt => "log316"@,
            ColorTransferCharacteristic::Iec61966_2_4 => "iec61966-2-4"@,
            ColorTransferCharacteristic::Bt1361Ecg => "bt1361e"@,
            ColorTransferCharacteristic::Iec61966_2_1 => "iec61966-2-1"@,
            ColorTransferCharacteristic::Bt2020_10 => "bt2020-10"@,
            ColorTransferCharacteristic::Bt2020_12 => "bt2020-12"@,
            ColorTransferCharacteristic::Smpte2084 => "smpte2084"@,
            ColorTransferCharacteristic::Smpte428 => "smpte428"@,
            ColorTransferCharacteristic::AribStdB67 => "arib-std-b67"@,
        }
    }

    /// Its name.
    pub fn name(self) -> (r: &'static str)
        ensures
            r@ == self.label(),
    {
        match self {
            ColorTransferCharacteristic::Reserved0 => "reserved",
            ColorTransferCharacteristic::Bt709 => "bt709",
            ColorTransferCharacteristic::Unspecified => "unknown",
            ColorTransferCharacteristic::Reserved => "reserved",
            ColorTransferCharacteristic::Gamma22 => "bt470m",
            ColorTransferCharacteristic::Gamma28 => "bt470bg",
            ColorTransferCharacteristic::Smpte170m => "smpte170m",
            ColorTransferCharacteristic::Smpte240m => "smpte240m",
            ColorTransferCharacteristic::Linear => "linear",
            ColorTransferCharacteristic::Log => "log100",
            ColorTransferCharacteristic::LogSqrt => "log316",
            ColorTransferCharacteristic::Iec61966_2_4 => "iec61966-2-4",
            ColorTransferCharacteristic::Bt1361Ecg => "bt1361e",
            ColorTransferCharacteristic::Iec61966_2_1 => "iec61966-2-1",
            ColorTransferCharacteristic::Bt2020_10 => "bt2020-10",
            ColorTransferCharacteristic::Bt2020_12 => "bt2020-12",
            ColorTransferCharacteristic::Smpte2084 => "smpte2084",
            ColorTransferCharacteristic::Smpte428 => "smpte428",
            ColorTransferCharacteristic::AribStdB67 => "arib-std-b67",
        }
    }
}
} // verus!

//! Labelled samples and the failures of a probe run.

use vstd::prelude::*;
use vstd::string::StringExecFns;

use crate::sensors::VCGENCMD;
use crate::single::Single;

verus! {

/// A reading from one source, normalized to its display unit.
#[derive(Debug, Clone, PartialEq)]
pub struct Sample {
    pub label: String,
    pub value: Single,
    pub unit: Unit,
}

/// Display unit for a sample value.
#[derive(Debug, Clone, Copy, PartialEq, Eq, Structural)]
pub enum Unit {
    /// Degrees Celsius.
    Celsius,
    /// Volts, displayed with four decimals like vcgencmd reports them.
    Volts,
    /// Megahertz.
    Megahertz,
    /// System load (from /proc/loadavg).
    Load,
    /// Percent of total memory in use.
    MemoryPercent,
    /// Decibel milliwatts, Wi-Fi signal strength.
    Rssi,
    /// Millivolts straight from the RP1 ADC inputs.
    Millivolts,
}

impl Unit {
    /// What follows a value in this unit.
    pub fn suffix(self) -> (r: &'static str)
        ensures
            r@ == match self {
                Unit::Celsius => "\u{b0}C"@,
                Unit::Volts => "V"@,
                Unit::Megahertz => "MHz"@,
                Unit::Load => ""@,
                Unit::MemoryPercent => "%"@,
                Unit::Rssi => "dBm"@,
                Unit::Millivolts => "mV"@,
            },
    {
        match self {
            Unit::Celsius => "\u{b0}C",
            Unit::Volts => "V",
            Unit::Megahertz => "MHz",
            Unit::Load => "",
            Unit::MemoryPercent => "%",
            Unit::Rssi => "dBm",
            Unit::Millivolts => "mV",
        }
    }
}

/// Errors a probe run can surface. Reserved for typed failures; a sweep reports
/// problems through the error text of its snapshot instead.
#[derive(Debug)]
pub enum SnapshotError {
    /// The `vcgencmd` binary is missing or not executable.
    VcgencmdMissing,
    /// Any other failure; the message names the source.
    Other(String),
}

/// The message for a firmware tool that does not answer.
pub open spec fn vcgencmd_missing_text() -> Seq<char> {
    "vcgencmd not found at "@ + VCGENCMD@
}

/// Says that the firmware tool does not answer.
pub fn vcgencmd_missing() -> (r: String)
    ensures
        r@ == vcgencmd_missing_text(),
{
    "vcgencmd not found at ".to_owned().concat(VCGENCMD)
}

impl SnapshotError {
    /// The failure in words.
    pub fn message(&self) -> (r: String)
        ensures
            r@ == match *self {
                SnapshotError::VcgencmdMissing => vcgencmd_missing_text(),
                SnapshotError::Other(msg) => msg@,
            },
    {
        match self {
            SnapshotError::VcgencmdMissing => vcgencmd_missing(),
            SnapshotError::Other(msg) => msg.clone(),
        }
    }
}

} // verus!

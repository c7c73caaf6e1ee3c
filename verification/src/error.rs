//! The errors of the accessors.

use vstd::prelude::*;

verus! {

/// Why an accessor returned no statistic.
#[derive(Clone, Copy, Debug, PartialEq, Eq, Structural)]
pub enum KstatError {
    /// The facility could not be opened.
    OpenFailed,
    /// No group of the chain holds the clock speed.
    CpuSpeedNotFound,
    /// No group of the chain holds the boot time.
    BootTimeNotFound,
    /// No group of the chain holds the process count.
    ProcessCountNotFound,
    /// No group of the chain holds both page counts.
    SystemPagesNotAvailable,
}

impl KstatError {
    /// The text that describes the error to a reader.
    pub open spec fn text(self) -> Seq<char> {
        match self {
            KstatError::OpenFailed => "kstat_open(3KSTAT) failed"@,
            KstatError::CpuSpeedNotFound => "cpu speed kstat not found"@,
            KstatError::BootTimeNotFound => "boot time kstat not found"@,
            KstatError::ProcessCountNotFound => "process count kstat not found"@,
            KstatError::SystemPagesNotAvailable => "system pages kstat not available"@,
        }
    }

    /// The error's description as a string.
    pub fn message(&self) -> (r: String)
        ensures
            r@ == self.text(),
    {
        match self {
            KstatError::OpenFailed => "kstat_open(3KSTAT) failed".to_owned(),
            KstatError::CpuSpeedNotFound => "cpu speed kstat not found".to_owned(),
            KstatError::BootTimeNotFound => "boot time kstat not found".to_owned(),
            KstatError::ProcessCountNotFound => "process count kstat not found".to_owned(),
            KstatError::SystemPagesNotAvailable => "system pages kstat not available".to_owned(),
        }
    }
}

} // verus!

//! Verified readers of kernel statistics.
//!
//! A host's statistics facility holds a chain of statistic groups, each a
//! list of named fields. The library works on a plain copy of what the
//! facility holds (`Host`), walks the chain as the facility's own lookup and
//! chain links would (`KstatWrapper`), and reads four statistics from it:
//! the processors' clock speed, the boot time, the number of processes and
//! the memory page counts. Every function is proved against a model of the
//! chain as a sequence of groups.

pub mod chain;
pub mod error;
pub mod laws;
pub mod stats;
pub mod value;
pub mod wrapper;

pub use chain::{Host, Kstat, KstatCtl, KstatNamed};
pub use error::KstatError;
pub use stats::{boot_time, cpu_mhz, nproc, pages, Pages};
pub use value::{ByteOrder, KstatValue};
pub use wrapper::KstatWrapper;

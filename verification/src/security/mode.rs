//! The two scan modes and what each allows.
use vstd::prelude::*;

verus! {

/// How a target may be probed during a scan.
#[derive(Debug, Clone, Copy, PartialEq, Eq, Structural)]
pub enum ScanMode {
    /// A non-production target: static review plus scoped dynamic checks.
    Test,
    /// A live target: strictly passive, read-only review.
    Production,
}

} // verus!

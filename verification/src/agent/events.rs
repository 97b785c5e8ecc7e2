//! Events a scan session reports while it runs.
use vstd::prelude::*;

use crate::findings::Finding;

verus! {

/// The name under which scan events are emitted to the UI.
pub const SCAN_EVENT: &'static str = "scan_event";

/// One progress report of a scan session.
#[derive(Debug, Clone)]
pub enum ScanEvent {
    Status { session_id: String, group_id: String, status: String },
    Finding { session_id: String, group_id: String, finding: Finding },
    Log { session_id: String, group_id: String, message: String },
    Error { session_id: String, group_id: String, message: String },
}

} // verus!

//! Findings: what a scan reports, and how a model's submission becomes one.
use vstd::prelude::*;

use crate::playbook::Severity;

verus! {

/// Where a finding stands in its scan/fix lifecycle.
#[derive(Debug, Clone, Copy, PartialEq, Eq, Structural)]
pub enum FindingStatus {
    Pending,
    Scanning,
    Found,
    NotFound,
    Fixing,
    Fixed,
    FixFailed,
    Reverifying,
}

/// A place in the code that backs a finding.
#[derive(Debug, Clone)]
pub struct FindingEvidence {
    pub file_path: String,
    pub line_start: Option<u32>,
    pub line_end: Option<u32>,
    pub snippet: Option<String>,
}

/// A reported vulnerability.
#[derive(Debug, Clone)]
pub struct Finding {
    pub id: String,
    pub group_id: String,
    pub category_id: String,
    pub title: String,
    pub severity: Severity,
    pub status: FindingStatus,
    pub description: String,
    pub evidence: Vec<FindingEvidence>,
    pub fix_guidance: String,
    pub fix_diff: Option<String>,
    pub fix_summary: Option<String>,
    pub reverify_result: Option<String>,
    pub created_at: String,
    pub updated_at: String,
}

/// The arguments of a `submit_findings` tool call.
#[derive(Debug, Clone)]
pub struct SubmitFindingsArgs {
    pub findings: Vec<SubmittedFinding>,
}

/// What the model fills in for one finding: everything but the id, status
/// and timestamps, which are assigned here.
#[derive(Debug, Clone)]
pub struct SubmittedFinding {
    pub category_id: String,
    pub title: String,
    pub severity: Severity,
    pub description: String,
    pub evidence: Vec<FindingEvidence>,
    pub fix_guidance: String,
}

pub open spec fn is_lower_hex_digit(c: char) -> bool {
    ('0' <= c && c <= '9') || ('a' <= c && c <= 'f')
}

/// The hyphenated lower-case form of a version-4 UUID:
/// `xxxxxxxx-xxxx-4xxx-xxxx-xxxxxxxxxxxx`.
pub open spec fn is_hyphenated_v4_uuid(s: Seq<char>) -> bool {
    &&& s.len() == 36
    &&& forall|i: int|
        0 <= i < 36 ==> if i == 8 || i == 13 || i == 18 || i == 23 {
            s[i] == '-'
        } else {
            is_lower_hex_digit(#[trigger] s[i])
        }
    &&& s[14] == '4'
}

/// A fresh random identifier (`uuid::Uuid::new_v4`, in its hyphenated
/// `Display` form). Randomness decides the value; only its shape is stated.
#[verifier::external_body]
pub(crate) fn new_uuid_v4_string() -> (s: String)
    ensures
        is_hyphenated_v4_uuid(s@),
{
    uuid::Uuid::new_v4().to_string()
}

pub open spec fn is_decimal_digit(c: char) -> bool {
    '0' <= c && c <= '9'
}

/// A character of the date part of a timestamp: a digit, `-`, or the `+`
/// that chrono writes before a year beyond 9999.
pub open spec fn is_date_char(c: char) -> bool {
    is_decimal_digit(c) || c == '-' || c == '+'
}

/// The time of day and offset that chrono writes for a UTC time:
/// `HH:MM:SS`, then nothing or `.` and 3, 6 or 9 digits, then `+00:00`.
pub open spec fn is_utc_time_part(t: Seq<char>) -> bool {
    let n = t.len();
    &&& (n == 14 || n == 18 || n == 21 || n == 24)
    &&& forall|i: int| 0 <= i < 8 && i != 2 && i != 5 ==> is_decimal_digit(#[trigger] t[i])
    &&& t[2] == ':'
    &&& t[5] == ':'
    &&& n > 14 ==> t[8] == '.'
    &&& forall|i: int| 9 <= i < n - 6 ==> is_decimal_digit(#[trigger] t[i])
    &&& t.skip(n - 6) == seq!['+', '0', '0', ':', '0', '0']
}

/// An RFC 3339 timestamp of a UTC time as chrono's `to_rfc3339` writes it:
/// a date (digits, `-` and a possible year sign), `T`, then the time of day
/// and the `+00:00` offset.
pub open spec fn is_utc_rfc3339(s: Seq<char>) -> bool {
    exists|d: int|
        0 < d < s.len() && s[d] == 'T' && (forall|i: int| 0 <= i < d ==> is_date_char(#[trigger] s[i]))
            && is_utc_time_part(s.skip(d + 1))
}

/// The current UTC time in RFC 3339 form (`chrono::Utc::now().to_rfc3339()`,
/// which writes the date, `T`, the time with 0, 3, 6 or 9 fractional digits
/// and the offset `+00:00`). The clock decides the value; only its shape is
/// stated.
#[verifier::external_body]
pub(crate) fn utc_now_rfc3339() -> (s: String)
    ensures
        is_utc_rfc3339(s@),
{
    chrono::Utc::now().to_rfc3339()
}

/// `f` is the finding made from `s` for group `group_id`, with identifier
/// `id` and timestamp `now`.
pub open spec fn is_finding_from(
    f: Finding,
    group_id: Seq<char>,
    s: SubmittedFinding,
    id: Seq<char>,
    now: Seq<char>,
) -> bool {
    &&& f.id@ == id
    &&& f.group_id@ == group_id
    &&& f.category_id == s.category_id
    &&& f.title == s.title
    &&& f.severity == s.severity
    &&& f.status == FindingStatus::Found
    &&& f.description == s.description
    &&& f.evidence == s.evidence
    &&& f.fix_guidance == s.fix_guidance
    &&& f.fix_diff is None
    &&& f.fix_summary is None
    &&& f.reverify_result is None
    &&& f.created_at@ == now
    &&& f.updated_at@ == now
}

/// `f` is a freshly found finding made from `s` for group `group_id`: some
/// v4 identifier and a single RFC 3339 creation/update timestamp.
pub open spec fn is_fresh_finding_from(f: Finding, group_id: Seq<char>, s: SubmittedFinding) -> bool {
    &&& is_finding_from(f, group_id, s, f.id@, f.created_at@)
    &&& is_hyphenated_v4_uuid(f.id@)
    &&& is_utc_rfc3339(f.created_at@)
}

impl Finding {
    /// The finding for a submission, given its identifier and the time.
    pub fn from_submitted_at(group_id: &str, submitted: SubmittedFinding, id: String, now: String) -> (f:
        Finding)
        ensures
            is_finding_from(f, group_id@, submitted, id@, now@),
    {
        Finding {
            id,
            group_id: group_id.to_owned(),
            category_id: submitted.category_id,
            title: submitted.title,
            severity: submitted.severity,
            status: FindingStatus::Found,
            description: submitted.description,
            evidence: submitted.evidence,
            fix_guidance: submitted.fix_guidance,
            fix_diff: None,
            fix_summary: None,
            reverify_result: None,
            created_at: now.clone(),
            updated_at: now,
        }
    }

    /// A newly found finding for a submission: a fresh random id, status
    /// `Found`, created and updated now.
    pub fn from_submitted(group_id: &str, submitted: SubmittedFinding) -> (f: Finding)
        ensures
            is_fresh_finding_from(f, group_id@, submitted),
    {
        let now = utc_now_rfc3339();
        let id = new_uuid_v4_string();
        Finding::from_submitted_at(group_id, submitted, id, now)
    }
}

} // verus!

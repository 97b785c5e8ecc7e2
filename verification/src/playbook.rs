//! The vulnerability checklist: groups of entries, each with a baseline
//! severity and guidance.
use vstd::prelude::*;

use crate::text::str_eq;

verus! {

/// How much damage a finding can do.
#[derive(Debug, Clone, Copy, PartialEq, Eq, Structural)]
pub enum Severity {
    Low,
    Medium,
    High,
    Critical,
}

/// The name of a severity as its `Debug` form writes it.
pub open spec fn severity_name(s: Severity) -> Seq<char> {
    match s {
        Severity::Low => "Low"@,
        Severity::Medium => "Medium"@,
        Severity::High => "High"@,
        Severity::Critical => "Critical"@,
    }
}

impl Severity {
    /// The name of the severity, as its `Debug` form writes it.
    pub fn name(&self) -> (r: &'static str)
        ensures
            r@ == severity_name(*self),
    {
        match self {
            Severity::Low => "Low",
            Severity::Medium => "Medium",
            Severity::High => "High",
            Severity::Critical => "Critical",
        }
    }
}

/// One checklist item.
#[derive(Debug, Clone)]
pub struct PlaybookEntry {
    pub id: String,
    pub name: String,
    pub base_severity: Severity,
    pub what_it_is: String,
    pub how_it_hurts_template: String,
    pub fix_guidance_template: String,
    pub requires_dynamic_test: bool,
}

/// A group of related checklist items, scanned together.
#[derive(Debug, Clone)]
pub struct PlaybookGroup {
    pub id: String,
    pub order: u32,
    pub title: String,
    pub description: String,
    pub entries: Vec<PlaybookEntry>,
}

/// The whole checklist.
#[derive(Debug, Clone)]
pub struct Playbook {
    pub version: u32,
    pub groups: Vec<PlaybookGroup>,
}

/// `i` is the first group of `groups` whose id is `id`.
pub open spec fn is_first_group_with_id(groups: Seq<PlaybookGroup>, id: Seq<char>, i: int) -> bool {
    0 <= i < groups.len() && groups[i].id@ == id && forall|j: int|
        0 <= j < i ==> groups[j].id@ != id
}

impl Playbook {
    /// The first group whose id is `group_id`, if any.
    pub fn group(&self, group_id: &str) -> (r: Option<&PlaybookGroup>)
        ensures
            match r {
                Some(g) => exists|i: int|
                    is_first_group_with_id(self.groups@, group_id@, i) && *g == self.groups@[i],
                None => forall|i: int| 0 <= i < self.groups@.len() ==> self.groups@[i].id@ != group_id@,
            },
    {
        let n = self.groups.len();
        let mut i: usize = 0;
        while i < n
            invariant
                n == self.groups@.len(),
                i <= n,
                forall|j: int| 0 <= j < i ==> self.groups@[j].id@ != group_id@,
            decreases n - i,
        {
            if str_eq(self.groups[i].id.as_str(), group_id) {
                assert(is_first_group_with_id(self.groups@, group_id@, i as int));
                return Some(&self.groups[i]);
            }
            i = i + 1;
        }
        None
    }
}

/// The message a scan request for an unknown group is refused with.
pub open spec fn unknown_group_message(group_id: Seq<char>) -> Seq<char> {
    "unknown checklist group: "@ + group_id
}

/// The group a scan session is asked to cover, or the message refusing an
/// unknown one.
pub fn find_group_for_scan<'a>(playbook: &'a Playbook, group_id: &str) -> (r: Result<
    &'a PlaybookGroup,
    String,
>)
    ensures
        match r {
            Ok(g) => exists|i: int|
                is_first_group_with_id(playbook.groups@, group_id@, i) && *g == playbook.groups@[i],
            Err(m) => m@ == unknown_group_message(group_id@) && forall|i: int|
                0 <= i < playbook.groups@.len() ==> playbook.groups@[i].id@ != group_id@,
        },
{
    match playbook.group(group_id) {
        Some(g) => Ok(g),
        None => {
            let mut m = String::from_str("unknown checklist group: ");
            m.append(group_id);
            Err(m)
        },
    }
}

} // verus!

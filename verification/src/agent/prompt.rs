//! The system prompts of scan sessions and fix sessions.
use vstd::prelude::*;

use crate::findings::{Finding, FindingEvidence};
use crate::playbook::{severity_name, PlaybookEntry, PlaybookGroup};
use crate::security::mode::ScanMode;
use crate::text::{append_decimal, decimal_spec};

verus! {

pub const AGENTIC_PREAMBLE: &'static str = "You are Vuln-Hound, a security code-review agent. You investigate a codebase using the tools provided and report real, evidence-backed findings. Only report a finding if you have actually located it in the code via a tool call — cite the exact file and, where possible, line numbers. Do not guess or report generic/hypothetical issues. If a category from the checklist below genuinely doesn't apply to this codebase, simply don't report it.\n\nInvestigation strategy — follow this order:\n1. Call list_directory first (no arguments) to see the project's actual file layout and languages before searching for anything.\n2. If the project is small (roughly under ~15 source files, as shown by list_directory), prefer just calling read_file on each source file directly and reading it carefully — this is far more reliable than guessing regex patterns, since a single wrong guess (e.g. searching for template-literal syntax when the code actually uses string concatenation with `+`) makes search_text report nothing even though the real issue is sitting right there in the file.\n3. For larger projects where reading everything isn't practical, use search_text to find candidate locations — but if two or three different patterns for the same checklist item come back empty, don't conclude the issue is absent; read the most relevant file(s) directly instead of continuing to guess patterns.\n4. Call read_file on any promising match to confirm the issue and get exact line numbers/snippet before reporting it. Never repeat the exact same search_text call twice.\n5. Once you've covered the checklist items that are plausible for this codebase (you do not need to exhaustively search every possible pattern), call submit_findings exactly once. Do not keep investigating indefinitely — a handful of well-chosen tool calls per item is enough.";

pub const TEST_MODE_BANNER: &'static str = "MODE: Test. This is a non-production target — static code review only in this build (no live network requests are available as tools yet).";

pub const PRODUCTION_MODE_BANNER: &'static str = "MODE: Production. This is a live production target. You may ONLY perform static/read-only code review. Never assume any dynamic/active check was run — for checklist items that need live testing to confirm (e.g. rate limiting, brute-force protection), review the code for the relevant safeguard (e.g. rate-limit middleware) and note if it's inconclusive from static review alone.";

pub const SCAN_CLOSING: &'static str = "\n\nWhen you have finished investigating every applicable item, call submit_findings exactly once with everything you found. If you find nothing in this group, call submit_findings with an empty array.";

pub const FIX_INTRO: &'static str = "You are Vuln-Hound, a security code-fix agent. Fix exactly one confirmed finding by editing the affected file(s).\n\nFinding: ";

pub const FIX_CLOSING: &'static str = "\n\nRead the affected file(s) with read_file first to see their exact current contents, then call write_file_staged with the complete corrected file contents for each file you change. Make the smallest correct change that fully resolves the finding — do not refactor unrelated code. When done, call submit_fix_result exactly once.";

/// `items` joined with `sep` between consecutive ones.
pub open spec fn join(items: Seq<Seq<char>>, sep: Seq<char>) -> Seq<char>
    decreases items.len(),
{
    if items.len() == 0 {
        Seq::empty()
    } else if items.len() == 1 {
        items[0]
    } else {
        join(items.drop_last(), sep) + sep + items.last()
    }
}

proof fn lemma_join_push(items: Seq<Seq<char>>, sep: Seq<char>, x: Seq<char>)
    ensures
        join(items.push(x), sep) == if items.len() == 0 {
            x
        } else {
            join(items, sep) + sep + x
        },
{
    assert(items.push(x).drop_last() =~= items);
}

/// The banner that states the scan mode.
pub open spec fn mode_banner(mode: ScanMode) -> Seq<char> {
    match mode {
        ScanMode::Test => TEST_MODE_BANNER@,
        ScanMode::Production => PRODUCTION_MODE_BANNER@,
    }
}

/// The checklist line of one entry:
/// `- [<id>] <name> (typical severity: <Severity>): <what it is>`.
pub open spec fn entry_line(e: PlaybookEntry) -> Seq<char> {
    "- ["@ + e.id@ + "] "@ + e.name@ + " (typical severity: "@ + severity_name(e.base_severity)
        + "): "@ + e.what_it_is@
}

pub open spec fn entry_lines(entries: Seq<PlaybookEntry>) -> Seq<Seq<char>> {
    entries.map_values(|e: PlaybookEntry| entry_line(e))
}

/// The checklist of a group: one line per entry.
pub open spec fn checklist(entries: Seq<PlaybookEntry>) -> Seq<char> {
    join(entry_lines(entries), "\n"@)
}

/// The system prompt of a scan session for `group` in `mode`.
pub open spec fn scan_prompt_spec(group: PlaybookGroup, mode: ScanMode) -> Seq<char> {
    AGENTIC_PREAMBLE@ + "\n\n"@ + mode_banner(mode)
        + "\n\nYou are investigating the category group \""@ + group.title@ + "\" ("@
        + group.description@ + "). Checklist for this group:\n"@ + checklist(group.entries@)
        + SCAN_CLOSING@
}

fn append_entry_line(s: &mut String, e: &PlaybookEntry)
    ensures
        final(s)@ == old(s)@ + entry_line(*e),
{
    s.append("- [");
    s.append(e.id.as_str());
    s.append("] ");
    s.append(e.name.as_str());
    s.append(" (typical severity: ");
    s.append(e.base_severity.name());
    s.append("): ");
    s.append(e.what_it_is.as_str());
    proof {
        assert(final(s)@ =~= old(s)@ + entry_line(*e));
    }
}

/// Appends the checklist of `entries`.
fn append_checklist(s: &mut String, entries: &Vec<PlaybookEntry>)
    ensures
        final(s)@ == old(s)@ + checklist(entries@),
{
    let ghost start = s@;
    let n = entries.len();
    let mut i: usize = 0;
    proof {
        assert(entry_lines(entries@.take(0)) =~= Seq::<Seq<char>>::empty());
        assert(start + checklist(entries@.take(0)) =~= start);
    }
    while i < n
        invariant
            n == entries@.len(),
            i <= n,
            s@ == start + checklist(entries@.take(i as int)),
        decreases n - i,
    {
        if i > 0 {
            s.append("\n");
        }
        append_entry_line(s, &entries[i]);
        proof {
            let before = entry_lines(entries@.take(i as int));
            assert(entry_lines(entries@.take(i + 1)) =~= before.push(entry_line(entries@[i as int])));
            lemma_join_push(before, "\n"@, entry_line(entries@[i as int]));
            if i == 0 {
                assert(before =~= Seq::<Seq<char>>::empty());
            }
            assert(s@ =~= start + checklist(entries@.take(i + 1)));
        }
        i = i + 1;
    }
    proof {
        assert(entries@.take(n as int) =~= entries@);
    }
}

/// The system prompt of a scan session: the agent's standing instructions,
/// the mode banner, and the checklist of the group under investigation.
pub fn build_scan_system_prompt(group: &PlaybookGroup, mode: ScanMode) -> (r: String)
    ensures
        r@ == scan_prompt_spec(*group, mode),
{
    let mut s = String::from_str(AGENTIC_PREAMBLE);
    s.append("\n\n");
    match mode {
        ScanMode::Test => s.append(TEST_MODE_BANNER),
        ScanMode::Production => s.append(PRODUCTION_MODE_BANNER),
    }
    s.append("\n\nYou are investigating the category group \"");
    s.append(group.title.as_str());
    s.append("\" (");
    s.append(group.description.as_str());
    s.append("). Checklist for this group:\n");
    append_checklist(&mut s, &group.entries);
    s.append(SCAN_CLOSING);
    proof {
        assert(s@ =~= scan_prompt_spec(*group, mode));
    }
    s
}

/// What std's `Debug` writes for a string: the text in double quotes with
/// quotes, backslashes and non-printable characters escaped.
pub uninterp spec fn str_debug_of(s: Seq<char>) -> Seq<char>;

/// A string's `Debug` form (std's `<str as Debug>::fmt`).
#[verifier::external_body]
fn str_debug(s: &str) -> (r: String)
    ensures
        r@ == str_debug_of(s@),
{
    format!("{:?}", s)
}

/// The `Debug` form of an optional number.
pub open spec fn opt_u32_debug(o: Option<u32>) -> Seq<char> {
    match o {
        Some(n) => "Some("@ + decimal_spec(n as nat) + ")"@,
        None => "None"@,
    }
}

/// The `Debug` form of an optional string.
pub open spec fn opt_string_debug(o: Option<String>) -> Seq<char> {
    match o {
        Some(s) => "Some("@ + str_debug_of(s@) + ")"@,
        None => "None"@,
    }
}

/// The `Debug` form of one piece of evidence.
pub open spec fn evidence_debug(e: FindingEvidence) -> Seq<char> {
    "FindingEvidence { file_path: "@ + str_debug_of(e.file_path@) + ", line_start: "@
        + opt_u32_debug(e.line_start) + ", line_end: "@ + opt_u32_debug(e.line_end)
        + ", snippet: "@ + opt_string_debug(e.snippet) + " }"@
}

/// The `Debug` form of a list of evidence: `[<e1>, <e2>, ...]`.
pub open spec fn evidence_list_debug(es: Seq<FindingEvidence>) -> Seq<char> {
    "["@ + join(es.map_values(|e: FindingEvidence| evidence_debug(e)), ", "@) + "]"@
}

fn append_opt_u32_debug(s: &mut String, o: Option<u32>)
    ensures
        final(s)@ == old(s)@ + opt_u32_debug(o),
{
    match o {
        Some(n) => {
            s.append("Some(");
            append_decimal(s, n as u64);
            s.append(")");
        },
        None => s.append("None"),
    }
    proof {
        assert(final(s)@ =~= old(s)@ + opt_u32_debug(o));
    }
}

fn append_evidence_debug(s: &mut String, e: &FindingEvidence)
    ensures
        final(s)@ == old(s)@ + evidence_debug(*e),
{
    s.append("FindingEvidence { file_path: ");
    let p = str_debug(e.file_path.as_str());
    s.append(p.as_str());
    s.append(", line_start: ");
    append_opt_u32_debug(s, e.line_start);
    s.append(", line_end: ");
    append_opt_u32_debug(s, e.line_end);
    s.append(", snippet: ");
    match &e.snippet {
        Some(t) => {
            s.append("Some(");
            let d = str_debug(t.as_str());
            s.append(d.as_str());
            s.append(")");
        },
        None => s.append("None"),
    }
    s.append(" }");
    proof {
        assert(final(s)@ =~= old(s)@ + evidence_debug(*e));
    }
}

fn append_evidence_list_debug(s: &mut String, es: &Vec<FindingEvidence>)
    ensures
        final(s)@ == old(s)@ + evidence_list_debug(es@),
{
    let ghost start = s@;
    s.append("[");
    let n = es.len();
    let mut i: usize = 0;
    proof {
        assert(es@.take(0).map_values(|e: FindingEvidence| evidence_debug(e)) =~= Seq::<
            Seq<char>,
        >::empty());
    }
    while i < n
        invariant
            n == es@.len(),
            i <= n,
            s@ == start + "["@ + join(
                es@.take(i as int).map_values(|e: FindingEvidence| evidence_debug(e)),
                ", "@,
            ),
        decreases n - i,
    {
        if i > 0 {
            s.append(", ");
        }
        append_evidence_debug(s, &es[i]);
        proof {
            let before = es@.take(i as int).map_values(|e: FindingEvidence| evidence_debug(e));
            assert(es@.take(i + 1).map_values(|e: FindingEvidence| evidence_debug(e)) =~= before.push(
                evidence_debug(es@[i as int]),
            ));
            lemma_join_push(before, ", "@, evidence_debug(es@[i as int]));
            if i == 0 {
                assert(before =~= Seq::<Seq<char>>::empty());
            }
            assert(s@ =~= start + "["@ + join(
                es@.take(i + 1).map_values(|e: FindingEvidence| evidence_debug(e)),
                ", "@,
            ));
        }
        i = i + 1;
    }
    s.append("]");
    proof {
        assert(es@.take(n as int) =~= es@);
        assert(s@ =~= start + evidence_list_debug(es@));
    }
}

/// The system prompt of a fix session for `finding`.
pub open spec fn fix_prompt_spec(finding: Finding) -> Seq<char> {
    FIX_INTRO@ + finding.title@ + "\nSeverity: "@ + severity_name(finding.severity)
        + "\nWhy it matters: "@ + finding.description@ + "\nRecommended fix: "@
        + finding.fix_guidance@ + "\nEvidence: "@ + evidence_list_debug(finding.evidence@)
        + FIX_CLOSING@
}

/// The system prompt of a fix session: the finding to fix, its evidence,
/// and how to stage and report the fix.
pub fn build_fix_system_prompt(finding: &Finding) -> (r: String)
    ensures
        r@ == fix_prompt_spec(*finding),
{
    let mut s = String::from_str(FIX_INTRO);
    s.append(finding.title.as_str());
    s.append("\nSeverity: ");
    s.append(finding.severity.name());
    s.append("\nWhy it matters: ");
    s.append(finding.description.as_str());
    s.append("\nRecommended fix: ");
    s.append(finding.fix_guidance.as_str());
    s.append("\nEvidence: ");
    append_evidence_list_debug(&mut s, &finding.evidence);
    s.append(FIX_CLOSING);
    proof {
        assert(s@ =~= fix_prompt_spec(*finding));
    }
    s
}

} // verus!

//! The scan session: the decisions of the agent's tool-use loop, written as
//! a state machine. The application performs each action (a completion
//! request, a filesystem tool, parsing submitted findings) and hands the
//! result back as the next input.
use vstd::prelude::*;

use crate::agent::events::ScanEvent;
use crate::agent::prompt::{build_scan_system_prompt, scan_prompt_spec};
use crate::agent::tool_registry::{build_scan_tools, scan_tools_spec, tool_views, SUBMIT_FINDINGS};
use crate::findings::{is_fresh_finding_from, Finding, SubmittedFinding};
use crate::llm::client::{llm_error_message_spec, LlmError};
use crate::llm::types::{
    call_views, copy_tool_calls, tool_result_view, user_message_view, system_message_view,
    ChatMessage, MessageView, ToolCall, ToolCallView, ToolDef,
};
use crate::playbook::{PlaybookEntry, PlaybookGroup};
use crate::security::mode::ScanMode;
use crate::text::{append_decimal, chars_of, decimal_spec, str_eq, string_from_chars, slice_chars, trim_chars, trim_spec};

verus! {

/// A session makes at most this many completion requests.
pub const MAX_ITERATIONS: u32 = 20;

/// How many of the most recent tool results are sent at full size; older
/// ones are collapsed to `TRIMMED_PLACEHOLDER`, so that the conversation
/// does not grow with every tool call.
pub const KEEP_RECENT_TOOL_RESULTS: usize = 6;

pub const TRIMMED_PLACEHOLDER: &'static str = "[older result trimmed to save context — call this tool again if you need it]";

/// When this many requests remain, the model is told to conclude.
pub const FORCE_CONCLUDE_WITHIN: u32 = 3;

pub const CONTINUE_PROMPT: &'static str = "Continue investigating by calling a tool, or call submit_findings when you're done.";

pub const FINDINGS_RECORDED: &'static str = "Findings recorded.";

pub const REPEAT_NOTE: &'static str = "\n\n[Vuln-Hound note: you already called this exact tool with these exact arguments. Try a different search pattern, read a specific file, or call submit_findings if you're done.]";

pub const NO_TOOL_CALL_PREFIX: &'static str = "(no tool call) ";

/// At most this many characters of a reply without tool calls are logged.
pub const PREVIEW_CHARS: usize = 240;

// ---------------------------------------------------------------------------
// Trimming old tool results.

pub open spec fn message_views(ms: Seq<ChatMessage>) -> Seq<MessageView> {
    ms.map_values(|m: ChatMessage| m@)
}

pub open spec fn is_tool_message(m: MessageView) -> bool {
    m.role == "tool"@
}

/// Number of tool-result messages in `ms`.
pub open spec fn tool_count(ms: Seq<MessageView>) -> nat
    decreases ms.len(),
{
    if ms.len() == 0 {
        0
    } else {
        tool_count(ms.drop_last()) + if is_tool_message(ms.last()) {
            1nat
        } else {
            0nat
        }
    }
}

/// Message `i` is a tool result older than the most recent
/// `KEEP_RECENT_TOOL_RESULTS` ones.
pub open spec fn is_old_tool_result(ms: Seq<MessageView>, i: int) -> bool {
    is_tool_message(ms[i]) && tool_count(ms.take(i)) + KEEP_RECENT_TOOL_RESULTS < tool_count(ms)
}

/// `m` with its content replaced by the placeholder.
pub open spec fn trimmed_message(m: MessageView) -> MessageView {
    MessageView { content: Some(TRIMMED_PLACEHOLDER@), ..m }
}

/// The conversation with every old tool result collapsed to the placeholder.
pub open spec fn trim_spec_messages(ms: Seq<MessageView>) -> Seq<MessageView> {
    Seq::new(
        ms.len(),
        |i: int|
            if is_old_tool_result(ms, i) {
                trimmed_message(ms[i])
            } else {
                ms[i]
            },
    )
}

proof fn lemma_tool_count_step(ms: Seq<MessageView>, i: int)
    requires
        0 <= i < ms.len(),
    ensures
        tool_count(ms.take(i + 1)) == tool_count(ms.take(i)) + if is_tool_message(ms[i]) {
            1nat
        } else {
            0nat
        },
{
    assert(ms.take(i + 1).drop_last() =~= ms.take(i));
}

proof fn lemma_tool_count_take_all(ms: Seq<MessageView>)
    ensures
        tool_count(ms.take(ms.len() as int)) == tool_count(ms),
{
    assert(ms.take(ms.len() as int) =~= ms);
}

/// `tool_count` is preserved when contents change but roles do not.
proof fn lemma_tool_count_same_roles(a: Seq<MessageView>, b: Seq<MessageView>)
    requires
        a.len() == b.len(),
        forall|i: int| 0 <= i < a.len() ==> #[trigger] a[i].role == b[i].role,
    ensures
        tool_count(a) == tool_count(b),
    decreases a.len(),
{
    if a.len() > 0 {
        lemma_tool_count_same_roles(a.drop_last(), b.drop_last());
    }
}

proof fn lemma_tool_count_prefix_le(ms: Seq<MessageView>, i: int)
    requires
        0 <= i <= ms.len(),
    ensures
        tool_count(ms.take(i)) <= tool_count(ms),
    decreases ms.len() - i,
{
    if i < ms.len() {
        lemma_tool_count_prefix_le(ms, i + 1);
        lemma_tool_count_step(ms, i);
    } else {
        lemma_tool_count_take_all(ms);
    }
}

fn is_tool_role(m: &ChatMessage) -> (r: bool)
    ensures
        r == is_tool_message(m@),
{
    str_eq(m.role.as_str(), "tool")
}

fn has_placeholder(m: &ChatMessage) -> (r: bool)
    ensures
        r == (m@.content == Some(TRIMMED_PLACEHOLDER@)),
{
    match &m.content {
        Some(c) => str_eq(c.as_str(), TRIMMED_PLACEHOLDER),
        None => false,
    }
}

/// Collapses every tool result but the most recent
/// `KEEP_RECENT_TOOL_RESULTS` ones to a short placeholder, bounding how much
/// the conversation grows per request.
pub fn trim_old_tool_results(messages: &mut Vec<ChatMessage>)
    ensures
        message_views(final(messages)@) == trim_spec_messages(message_views(old(messages)@)),
{
    let ghost orig = message_views(messages@);
    let n = messages.len();
    let mut total: usize = 0;
    let mut i: usize = 0;
    while i < n
        invariant
            n == messages@.len(),
            orig == message_views(messages@),
            i <= n,
            total <= i,
            total == tool_count(orig.take(i as int)),
        decreases n - i,
    {
        proof {
            lemma_tool_count_step(orig, i as int);
        }
        if is_tool_role(&messages[i]) {
            total = total + 1;
        }
        i = i + 1;
    }
    proof {
        lemma_tool_count_take_all(orig);
    }
    if total <= KEEP_RECENT_TOOL_RESULTS {
        proof {
            assert forall|k: int| 0 <= k < orig.len() implies !is_old_tool_result(orig, k) by {
                lemma_tool_count_prefix_le(orig, k);
            }
            assert(trim_spec_messages(orig) =~= orig);
        }
        return ;
    }
    let cutoff = total - KEEP_RECENT_TOOL_RESULTS;
    let mut rank: usize = 0;
    let mut i: usize = 0;
    while i < n
        invariant
            n == messages@.len(),
            n == orig.len(),
            i <= n,
            total == tool_count(orig),
            cutoff + KEEP_RECENT_TOOL_RESULTS == total,
            rank == tool_count(orig.take(i as int)),
            rank <= i,
            forall|k: int| 0 <= k < i ==> #[trigger] messages@[k]@ == trim_spec_messages(orig)[k],
            forall|k: int| i <= k < n ==> #[trigger] messages@[k]@ == orig[k],
        decreases n - i,
    {
        proof {
            lemma_tool_count_step(orig, i as int);
            assert(messages@[i as int]@ == orig[i as int]);
        }
        if is_tool_role(&messages[i]) {
            if rank < cutoff && !has_placeholder(&messages[i]) {
                let replaced = messages[i].with_content(String::from_str(TRIMMED_PLACEHOLDER));
                messages[i] = replaced;
            }
            rank = rank + 1;
        }
        proof {
            assert(messages@[i as int]@ == trim_spec_messages(orig)[i as int]);
        }
        i = i + 1;
    }
    proof {
        assert(message_views(messages@) =~= trim_spec_messages(orig));
    }
}

/// Every tool result but the most recent `KEEP_RECENT_TOOL_RESULTS` ones
/// holds the placeholder.
pub open spec fn old_results_trimmed(ms: Seq<MessageView>) -> bool {
    forall|i: int|
        0 <= i < ms.len() && #[trigger] is_old_tool_result(ms, i) ==> ms[i].content == Some(
            TRIMMED_PLACEHOLDER@,
        )
}

/// After trimming, no tool result older than the most recent six is sent at
/// full size; and trimming again changes nothing.
pub proof fn lemma_trim_bounds_and_settles(ms: Seq<MessageView>)
    ensures
        old_results_trimmed(trim_spec_messages(ms)),
        trim_spec_messages(trim_spec_messages(ms)) == trim_spec_messages(ms),
        trim_spec_messages(ms).len() == ms.len(),
        forall|i: int|
            0 <= i < ms.len() && !is_tool_message(ms[i]) ==> #[trigger] trim_spec_messages(ms)[i]
                == ms[i],
{
    let t = trim_spec_messages(ms);
    assert forall|i: int| 0 <= i < ms.len() implies #[trigger] t[i].role == ms[i].role by {}
    lemma_tool_count_same_roles(t, ms);
    assert forall|i: int| 0 <= i <= ms.len() implies #[trigger] tool_count(t.take(i)) == tool_count(
        ms.take(i),
    ) by {
        assert forall|k: int| 0 <= k < i implies #[trigger] t.take(i)[k].role == ms.take(i)[k].role by {}
        lemma_tool_count_same_roles(t.take(i), ms.take(i));
    }
    assert forall|i: int| 0 <= i < t.len() implies (is_old_tool_result(t, i)
        == is_old_tool_result(ms, i)) by {
        assert(tool_count(t.take(i)) == tool_count(ms.take(i)));
    }
    assert(trim_spec_messages(t) =~= t);
}

// ---------------------------------------------------------------------------
// The session state machine, as mathematical values.

/// Where a session is between two steps.
pub enum PhaseView {
    /// A completion was requested; its reply is awaited.
    AwaitingReply,
    /// The tool calls of the last reply are being served; `calls[next]` is
    /// the one whose result is awaited.
    RunningTools { calls: Seq<ToolCallView>, next: nat, pending_repeat: bool },
    /// The session is over.
    Done,
}

pub struct SessionView {
    pub session_id: Seq<char>,
    pub group_id: Seq<char>,
    /// The ids of the group's checklist entries: the categories a finding
    /// of this session may carry.
    pub category_ids: Seq<Seq<char>>,
    pub messages: Seq<MessageView>,
    /// Number of completion rounds started before the current one.
    pub iteration: nat,
    /// `submit_findings` was called.
    pub submitted: bool,
    /// A completion request failed.
    pub had_error: bool,
    /// The last read-only tool call, by name and arguments.
    pub last_call: Option<(Seq<char>, Seq<char>)>,
    pub phase: PhaseView,
}

/// An event a step emits, as mathematical values.
pub enum EventView {
    Status(Seq<char>),
    Log(Seq<char>),
    Error(Seq<char>),
    /// A finding made from this submission.
    Finding(SubmittedFinding),
}

/// What the application must do next.
pub enum ActionView {
    /// Send the session's messages and tools for a completion.
    Request,
    /// Run a read-only tool and hand back its result text.
    RunTool { name: Seq<char>, arguments: Seq<char> },
    /// Parse the arguments of a `submit_findings` call and hand back the
    /// findings they hold.
    ParseFindings { arguments: Seq<char> },
    /// Nothing: the session is over.
    Finished,
}

/// What the application hands back, as mathematical values.
pub enum InputView {
    /// The reply to a completion request: its first choice's message (`None`
    /// when it had none), or the request's error message.
    Reply(Result<Option<MessageView>, Seq<char>>),
    ToolOutput(Seq<char>),
    Findings(Seq<SubmittedFinding>),
}

pub struct Outcome {
    pub state: SessionView,
    pub events: Seq<EventView>,
    pub action: ActionView,
}

/// The status a session ends with.
pub open spec fn final_status(s: SessionView, cancelled: bool) -> Seq<char> {
    if cancelled {
        "idle"@
    } else if s.had_error {
        "error"@
    } else {
        "scanned"@
    }
}

pub open spec fn finish(s: SessionView, cancelled: bool, events: Seq<EventView>) -> Outcome {
    Outcome {
        state: SessionView { phase: PhaseView::Done, ..s },
        events: events.push(EventView::Status(final_status(s, cancelled))),
        action: ActionView::Finished,
    }
}

/// Start a completion round, unless the session is cancelled or out of
/// rounds.
pub open spec fn begin_round(s: SessionView, cancelled: bool, events: Seq<EventView>) -> Outcome {
    if cancelled || s.iteration >= MAX_ITERATIONS {
        finish(s, cancelled, events)
    } else {
        Outcome {
            state: SessionView {
                messages: trim_spec_messages(s.messages),
                phase: PhaseView::AwaitingReply,
                ..s
            },
            events,
            action: ActionView::Request,
        }
    }
}

/// The message that tells the model to conclude with `remaining` requests
/// left.
pub open spec fn force_conclude_message(remaining: nat) -> Seq<char> {
    "You have "@ + decimal_spec(remaining)
        + " tool call(s) left in this session. Stop investigating further and call submit_findings now with everything you've confirmed so far — an empty array if genuinely nothing was found, but do not let confirmed findings go unreported."@
}

/// Requests left after the current round.
pub open spec fn remaining_after(iteration: nat) -> nat {
    if iteration + 1 <= MAX_ITERATIONS {
        (MAX_ITERATIONS - (iteration + 1)) as nat
    } else {
        0
    }
}

/// All tool calls of the round are served: end the session if findings were
/// submitted or it was cancelled; otherwise (nudging the model to conclude
/// when few requests remain) start the next round.
pub open spec fn end_round(s: SessionView, cancelled: bool, events: Seq<EventView>) -> Outcome {
    if s.submitted || cancelled {
        finish(s, cancelled, events)
    } else {
        let remaining = remaining_after(s.iteration);
        let messages = if remaining <= FORCE_CONCLUDE_WITHIN && remaining > 0 {
            s.messages.push(user_message_view(force_conclude_message(remaining)))
        } else {
            s.messages
        };
        begin_round(
            SessionView { messages, iteration: s.iteration + 1, ..s },
            cancelled,
            events,
        )
    }
}

/// The log line of a read-only tool call: `name(arguments)`.
pub open spec fn call_log(c: ToolCallView) -> Seq<char> {
    c.name + "("@ + c.arguments + ")"@
}

/// Serve the next tool call of the round, or end the round.
pub open spec fn next_tool(s: SessionView, cancelled: bool, events: Seq<EventView>) -> Outcome {
    match s.phase {
        PhaseView::RunningTools { calls, next, pending_repeat } => {
            if next < calls.len() && !cancelled {
                let c = calls[next as int];
                if c.name == SUBMIT_FINDINGS@ {
                    Outcome { state: s, events, action: ActionView::ParseFindings { arguments: c.arguments } }
                } else {
                    let key = (c.name, c.arguments);
                    Outcome {
                        state: SessionView {
                            last_call: Some(key),
                            phase: PhaseView::RunningTools {
                                calls,
                                next,
                                pending_repeat: s.last_call == Some(key),
                            },
                            ..s
                        },
                        events: events.push(EventView::Log(call_log(c))),
                        action: ActionView::RunTool { name: c.name, arguments: c.arguments },
                    }
                }
            } else {
                end_round(s, cancelled, events)
            }
        },
        _ => finish(s, cancelled, events),
    }
}

/// The first `PREVIEW_CHARS` characters of `t`.
pub open spec fn preview(t: Seq<char>) -> Seq<char> {
    if t.len() <= PREVIEW_CHARS {
        t
    } else {
        t.take(PREVIEW_CHARS as int)
    }
}

/// The log events for a reply without tool calls: a preview of its text,
/// unless it has none.
pub open spec fn no_call_events(m: MessageView) -> Seq<EventView> {
    match m.content {
        Some(t) => if trim_spec(t).len() > 0 {
            seq![EventView::Log(NO_TOOL_CALL_PREFIX@ + preview(t))]
        } else {
            seq![]
        },
        None => seq![],
    }
}

pub open spec fn on_reply(
    s: SessionView,
    cancelled: bool,
    reply: Result<Option<MessageView>, Seq<char>>,
) -> Outcome {
    match reply {
        Err(msg) => finish(SessionView { had_error: true, ..s }, cancelled, seq![EventView::Error(msg)]),
        Ok(None) => finish(s, cancelled, seq![]),
        Ok(Some(m)) => {
            let s1 = SessionView { messages: s.messages.push(m), ..s };
            let calls = match m.tool_calls {
                Some(c) => c,
                None => seq![],
            };
            if calls.len() == 0 {
                let evs = no_call_events(m);
                if s.iteration + 1 >= MAX_ITERATIONS {
                    finish(s1, cancelled, evs)
                } else {
                    begin_round(
                        SessionView {
                            messages: s1.messages.push(user_message_view(CONTINUE_PROMPT@)),
                            iteration: s.iteration + 1,
                            ..s1
                        },
                        cancelled,
                        evs,
                    )
                }
            } else {
                next_tool(
                    SessionView {
                        phase: PhaseView::RunningTools { calls, next: 0, pending_repeat: false },
                        ..s1
                    },
                    cancelled,
                    seq![],
                )
            }
        },
    }
}

pub open spec fn on_tool_output(s: SessionView, cancelled: bool, output: Seq<char>) -> Outcome {
    match s.phase {
        PhaseView::RunningTools { calls, next, pending_repeat } => {
            let c = calls[next as int];
            let text = if pending_repeat {
                output + REPEAT_NOTE@
            } else {
                output
            };
            next_tool(
                SessionView {
                    messages: s.messages.push(tool_result_view(c.id, text)),
                    phase: PhaseView::RunningTools { calls, next: next + 1, pending_repeat: false },
                    ..s
                },
                cancelled,
                seq![],
            )
        },
        _ => finish(s, cancelled, seq![]),
    }
}

/// The finding events of a submission: one per submitted finding whose
/// category is among `ids`, in order; findings in other categories are
/// dropped.
pub open spec fn finding_events(ids: Seq<Seq<char>>, subs: Seq<SubmittedFinding>) -> Seq<EventView>
    decreases subs.len(),
{
    if subs.len() == 0 {
        seq![]
    } else {
        let rest = finding_events(ids, subs.drop_last());
        if ids.contains(subs.last().category_id@) {
            rest.push(EventView::Finding(subs.last()))
        } else {
            rest
        }
    }
}

pub open spec fn on_findings(s: SessionView, cancelled: bool, subs: Seq<SubmittedFinding>) -> Outcome {
    match s.phase {
        PhaseView::RunningTools { calls, next, pending_repeat } => {
            let c = calls[next as int];
            next_tool(
                SessionView {
                    submitted: true,
                    messages: s.messages.push(tool_result_view(c.id, FINDINGS_RECORDED@)),
                    phase: PhaseView::RunningTools { calls, next: next + 1, pending_repeat: false },
                    ..s
                },
                cancelled,
                finding_events(s.category_ids, subs),
            )
        },
        _ => finish(s, cancelled, seq![]),
    }
}

/// The input a session in state `s` waits for.
pub open spec fn accepts(s: SessionView, input: InputView) -> bool {
    match s.phase {
        PhaseView::AwaitingReply => input is Reply,
        PhaseView::RunningTools { calls, next, .. } => next < calls.len() && if calls[next as int].name
            == SUBMIT_FINDINGS@ {
            input is Findings
        } else {
            input is ToolOutput
        },
        PhaseView::Done => false,
    }
}

/// One step of the session.
pub open spec fn transition(s: SessionView, cancelled: bool, input: InputView) -> Outcome {
    match input {
        InputView::Reply(r) => on_reply(s, cancelled, r),
        InputView::ToolOutput(o) => on_tool_output(s, cancelled, o),
        InputView::Findings(f) => on_findings(s, cancelled, f),
    }
}

/// The first two messages of a scan session.
pub open spec fn begin_message(title: Seq<char>) -> Seq<char> {
    "Begin investigating the \""@ + title + "\" category group in this codebase."@
}

/// The ids of a group's checklist entries, in order.
pub open spec fn entry_ids(group: PlaybookGroup) -> Seq<Seq<char>> {
    group.entries@.map_values(|e: PlaybookEntry| e.id@)
}

pub open spec fn initial_state(session_id: Seq<char>, group: PlaybookGroup, mode: ScanMode) -> SessionView {
    SessionView {
        session_id,
        group_id: group.id@,
        category_ids: entry_ids(group),
        messages: seq![
            system_message_view(scan_prompt_spec(group, mode)),
            user_message_view(begin_message(group.title@)),
        ],
        iteration: 0,
        submitted: false,
        had_error: false,
        last_call: None,
        phase: PhaseView::AwaitingReply,
    }
}

/// How a session starts: it reports "scanning", then starts its first round.
pub open spec fn start_outcome(
    session_id: Seq<char>,
    group: PlaybookGroup,
    mode: ScanMode,
    cancelled: bool,
) -> Outcome {
    begin_round(
        initial_state(session_id, group, mode),
        cancelled,
        seq![EventView::Status("scanning"@)],
    )
}

// ---------------------------------------------------------------------------
// Laws of the session.

/// Completion requests are bounded: the first is made in round 0, and every
/// later one starts a new round below `MAX_ITERATIONS`, so a session makes at
/// most `MAX_ITERATIONS` requests.
pub proof fn lemma_requests_bounded(s: SessionView, cancelled: bool, input: InputView)
    requires
        session_inv(s),
        accepts(s, input),
    ensures
        transition(s, cancelled, input).action is Request ==> transition(s, cancelled, input).state.iteration
            == s.iteration + 1 && transition(s, cancelled, input).state.iteration < MAX_ITERATIONS,
        transition(s, cancelled, input).state.iteration >= s.iteration,
{
}

/// The first completion request of a session is made in round 0.
pub proof fn lemma_first_request(session_id: Seq<char>, group: PlaybookGroup, mode: ScanMode, cancelled: bool)
    ensures
        start_outcome(session_id, group, mode, cancelled).action is Request
            ==> start_outcome(session_id, group, mode, cancelled).state.iteration == 0,
        start_outcome(session_id, group, mode, cancelled).events[0] == EventView::Status("scanning"@),
        cancelled ==> start_outcome(session_id, group, mode, cancelled).action is Finished,
{
}

/// Every conversation sent for a completion has all but its six most
/// recent tool results collapsed to the placeholder.
pub proof fn lemma_requests_send_trimmed_history(s: SessionView, cancelled: bool, input: InputView)
    requires
        session_inv(s),
        accepts(s, input),
    ensures
        transition(s, cancelled, input).action is Request ==> old_results_trimmed(
            transition(s, cancelled, input).state.messages,
        ),
{
    let o = transition(s, cancelled, input);
    if o.action is Request {
        // Every request comes from `begin_round`, which trims the history.
        let pre = match input {
            InputView::Reply(Ok(Some(m))) => s.messages.push(m).push(user_message_view(CONTINUE_PROMPT@)),
            _ => s.messages,
        };
        assert(exists|ms: Seq<MessageView>| o.state.messages == trim_spec_messages(ms)) by {
            match input {
                InputView::Reply(Ok(Some(m))) => {
                    let calls = match m.tool_calls {
                        Some(c) => c,
                        None => seq![],
                    };
                    if calls.len() == 0 {
                        assert(o.state.messages == trim_spec_messages(pre));
                    } else {
                        let s1 = SessionView {
                            messages: s.messages.push(m),
                            phase: PhaseView::RunningTools { calls, next: 0, pending_repeat: false },
                            ..s
                        };
                        lemma_next_tool_request_trimmed(s1, cancelled, seq![]);
                    }
                },
                InputView::Reply(_) => {},
                InputView::ToolOutput(out) => {
                    match s.phase {
                        PhaseView::RunningTools { calls, next, pending_repeat } => {
                            let c = calls[next as int];
                            let text = if pending_repeat {
                                out + REPEAT_NOTE@
                            } else {
                                out
                            };
                            lemma_next_tool_request_trimmed(
                                SessionView {
                                    messages: s.messages.push(tool_result_view(c.id, text)),
                                    phase: PhaseView::RunningTools {
                                        calls,
                                        next: next + 1,
                                        pending_repeat: false,
                                    },
                                    ..s
                                },
                                cancelled,
                                seq![],
                            );
                        },
                        _ => {},
                    }
                },
                InputView::Findings(f) => {
                    match s.phase {
                        PhaseView::RunningTools { calls, next, pending_repeat } => {
                            let c = calls[next as int];
                            lemma_next_tool_request_trimmed(
                                SessionView {
                                    submitted: true,
                                    messages: s.messages.push(tool_result_view(c.id, FINDINGS_RECORDED@)),
                                    phase: PhaseView::RunningTools {
                                        calls,
                                        next: next + 1,
                                        pending_repeat: false,
                                    },
                                    ..s
                                },
                                cancelled,
                                f.map_values(|x: SubmittedFinding| EventView::Finding(x)),
                            );
                        },
                        _ => {},
                    }
                },
            }
        }
        let ms = choose|ms: Seq<MessageView>| o.state.messages == trim_spec_messages(ms);
        lemma_trim_bounds_and_settles(ms);
    }
}

proof fn lemma_next_tool_request_trimmed(s: SessionView, cancelled: bool, events: Seq<EventView>)
    ensures
        next_tool(s, cancelled, events).action is Request ==> exists|ms: Seq<MessageView>|
            next_tool(s, cancelled, events).state.messages == trim_spec_messages(ms),
{
    let o = next_tool(s, cancelled, events);
    if o.action is Request {
        match s.phase {
            PhaseView::RunningTools { calls, next, pending_repeat } => {
                let remaining = remaining_after(s.iteration);
                let messages = if remaining <= FORCE_CONCLUDE_WITHIN && remaining > 0 {
                    s.messages.push(user_message_view(force_conclude_message(remaining)))
                } else {
                    s.messages
                };
                assert(o.state.messages == trim_spec_messages(messages));
            },
            _ => {},
        }
    }
}

/// A session that ends reports a final status last: "idle" when cancelled,
/// else "error" after a failed request, else "scanned" (also when the model
/// never submitted findings).
pub proof fn lemma_final_status(s: SessionView, cancelled: bool, input: InputView)
    requires
        session_inv(s),
        accepts(s, input),
    ensures
        transition(s, cancelled, input).action is Finished ==> {
            let o = transition(s, cancelled, input);
            &&& o.state.phase is Done
            &&& o.events.len() > 0
            &&& o.events.last() == EventView::Status(final_status(o.state, cancelled))
            &&& (cancelled ==> final_status(o.state, cancelled) == "idle"@)
        },
{
}

/// Once findings are submitted, no further completion is requested.
pub proof fn lemma_submission_ends_requests(s: SessionView, cancelled: bool, input: InputView)
    requires
        session_inv(s),
        accepts(s, input),
    ensures
        transition(s, cancelled, input).state.submitted ==> !(transition(s, cancelled, input).action is Request),
        s.submitted ==> transition(s, cancelled, input).state.submitted,
{
}

/// Every finding event of `evs` carries one of the categories `ids`.
pub open spec fn findings_within(evs: Seq<EventView>, ids: Seq<Seq<char>>) -> bool {
    forall|k: int|
        0 <= k < evs.len() && (#[trigger] evs[k]) is Finding ==> ids.contains(
            evs[k]->Finding_0.category_id@,
        )
}

proof fn lemma_finding_events_within(ids: Seq<Seq<char>>, subs: Seq<SubmittedFinding>)
    ensures
        findings_within(finding_events(ids, subs), ids),
    decreases subs.len(),
{
    if subs.len() > 0 {
        lemma_finding_events_within(ids, subs.drop_last());
        let rest = finding_events(ids, subs.drop_last());
        if ids.contains(subs.last().category_id@) {
            let evs = rest.push(EventView::Finding(subs.last()));
            assert forall|k: int| 0 <= k < evs.len() && (#[trigger] evs[k]) is Finding implies ids.contains(
                evs[k]->Finding_0.category_id@,
            ) by {
                if k < rest.len() {
                    assert(evs[k] == rest[k]);
                }
            }
        }
    }
}

proof fn lemma_push_other_within(evs: Seq<EventView>, e: EventView, ids: Seq<Seq<char>>)
    requires
        findings_within(evs, ids),
        !(e is Finding),
    ensures
        findings_within(evs.push(e), ids),
{
    let t = evs.push(e);
    assert forall|k: int| 0 <= k < t.len() && (#[trigger] t[k]) is Finding implies ids.contains(
        t[k]->Finding_0.category_id@,
    ) by {
        assert(k < evs.len());
        assert(t[k] == evs[k]);
    }
}

proof fn lemma_finish_within(s: SessionView, cancelled: bool, evs: Seq<EventView>)
    requires
        findings_within(evs, s.category_ids),
    ensures
        findings_within(finish(s, cancelled, evs).events, s.category_ids),
        finish(s, cancelled, evs).state.category_ids == s.category_ids,
{
    lemma_push_other_within(evs, EventView::Status(final_status(s, cancelled)), s.category_ids);
}

proof fn lemma_next_tool_within(s: SessionView, cancelled: bool, evs: Seq<EventView>)
    requires
        findings_within(evs, s.category_ids),
    ensures
        findings_within(next_tool(s, cancelled, evs).events, s.category_ids),
        next_tool(s, cancelled, evs).state.category_ids == s.category_ids,
{
    match s.phase {
        PhaseView::RunningTools { calls, next, pending_repeat } => {
            if next < calls.len() && !cancelled {
                let c = calls[next as int];
                if c.name != SUBMIT_FINDINGS@ {
                    lemma_push_other_within(evs, EventView::Log(call_log(c)), s.category_ids);
                }
            } else {
                if s.submitted || cancelled {
                    lemma_finish_within(s, cancelled, evs);
                } else {
                    let remaining = remaining_after(s.iteration);
                    let messages = if remaining <= FORCE_CONCLUDE_WITHIN && remaining > 0 {
                        s.messages.push(user_message_view(force_conclude_message(remaining)))
                    } else {
                        s.messages
                    };
                    lemma_finish_within(SessionView { messages, iteration: s.iteration + 1, ..s }, cancelled, evs);
                }
            }
        },
        _ => lemma_finish_within(s, cancelled, evs),
    }
}

/// A session keeps the categories it started with, and every finding it
/// reports carries one of them: a submitted finding in any other category
/// is dropped.
pub proof fn lemma_findings_stay_in_group(s: SessionView, cancelled: bool, input: InputView)
    requires
        session_inv(s),
        accepts(s, input),
    ensures
        transition(s, cancelled, input).state.category_ids == s.category_ids,
        findings_within(transition(s, cancelled, input).events, s.category_ids),
{
    let ids = s.category_ids;
    assert(findings_within(Seq::<EventView>::empty(), ids));
    match input {
        InputView::Reply(r) => {
            match r {
                Err(msg) => {
                    assert(findings_within(seq![EventView::Error(msg)], ids));
                    lemma_finish_within(SessionView { had_error: true, ..s }, cancelled, seq![EventView::Error(msg)]);
                },
                Ok(None) => lemma_finish_within(s, cancelled, seq![]),
                Ok(Some(m)) => {
                    let s1 = SessionView { messages: s.messages.push(m), ..s };
                    let calls = match m.tool_calls {
                        Some(c) => c,
                        None => seq![],
                    };
                    let evs = no_call_events(m);
                    assert(findings_within(evs, ids));
                    if calls.len() == 0 {
                        if s.iteration + 1 >= MAX_ITERATIONS {
                            lemma_finish_within(s1, cancelled, evs);
                        } else {
                            let s2 = SessionView {
                                messages: s1.messages.push(user_message_view(CONTINUE_PROMPT@)),
                                iteration: s.iteration + 1,
                                ..s1
                            };
                            lemma_finish_within(s2, cancelled, evs);
                        }
                    } else {
                        lemma_next_tool_within(
                            SessionView {
                                phase: PhaseView::RunningTools { calls, next: 0, pending_repeat: false },
                                ..s1
                            },
                            cancelled,
                            seq![],
                        );
                    }
                },
            }
        },
        InputView::ToolOutput(o) => {
            match s.phase {
                PhaseView::RunningTools { calls, next, pending_repeat } => {
                    let c = calls[next as int];
                    let text = if pending_repeat {
                        o + REPEAT_NOTE@
                    } else {
                        o
                    };
                    lemma_next_tool_within(
                        SessionView {
                            messages: s.messages.push(tool_result_view(c.id, text)),
                            phase: PhaseView::RunningTools { calls, next: next + 1, pending_repeat: false },
                            ..s
                        },
                        cancelled,
                        seq![],
                    );
                },
                _ => {},
            }
        },
        InputView::Findings(subs) => {
            match s.phase {
                PhaseView::RunningTools { calls, next, pending_repeat } => {
                    let c = calls[next as int];
                    lemma_finding_events_within(ids, subs);
                    lemma_next_tool_within(
                        SessionView {
                            submitted: true,
                            messages: s.messages.push(tool_result_view(c.id, FINDINGS_RECORDED@)),
                            phase: PhaseView::RunningTools { calls, next: next + 1, pending_repeat: false },
                            ..s
                        },
                        cancelled,
                        finding_events(ids, subs),
                    );
                },
                _ => {},
            }
        },
    }
}

/// A session of `group` starts with the ids of the group's checklist
/// entries as its categories, and reports no finding as it starts; with
/// `lemma_findings_stay_in_group`, every finding a scan session reports is
/// in a category of an entry of the scanned group.
pub proof fn lemma_session_categories_are_group_entries(
    session_id: Seq<char>,
    group: PlaybookGroup,
    mode: ScanMode,
    cancelled: bool,
)
    ensures
        start_outcome(session_id, group, mode, cancelled).state.category_ids == entry_ids(group),
        findings_within(start_outcome(session_id, group, mode, cancelled).events, entry_ids(group)),
        forall|c: Seq<char>|
            #![trigger entry_ids(group).contains(c)]
            entry_ids(group).contains(c) <==> exists|q: int|
                0 <= q < group.entries@.len() && group.entries@[q].id@ == c,
{
    let s0 = initial_state(session_id, group, mode);
    let ev = seq![EventView::Status("scanning"@)];
    assert(findings_within(ev, entry_ids(group)));
    lemma_finish_within(s0, cancelled, ev);
    assert forall|c: Seq<char>| #![trigger entry_ids(group).contains(c)]
        entry_ids(group).contains(c) <==> exists|q: int|
            0 <= q < group.entries@.len() && group.entries@[q].id@ == c by {
        if entry_ids(group).contains(c) {
            let q = choose|q: int| 0 <= q < entry_ids(group).len() && entry_ids(group)[q] == c;
            assert(group.entries@[q].id@ == c);
        }
        if exists|q: int| 0 <= q < group.entries@.len() && group.entries@[q].id@ == c {
            let q = choose|q: int| 0 <= q < group.entries@.len() && group.entries@[q].id@ == c;
            assert(entry_ids(group)[q] == c);
        }
    }
}

/// `out` starts with `evs` and adds no finding after it.
pub open spec fn extends_without_findings(out: Seq<EventView>, evs: Seq<EventView>) -> bool {
    &&& out.len() >= evs.len()
    &&& forall|i: int| 0 <= i < evs.len() ==> out[i] == evs[i]
    &&& forall|i: int| evs.len() <= i < out.len() ==> !((#[trigger] out[i]) is Finding)
}

proof fn lemma_finish_extends(s: SessionView, cancelled: bool, evs: Seq<EventView>)
    ensures
        extends_without_findings(finish(s, cancelled, evs).events, evs),
{
    let out = finish(s, cancelled, evs).events;
    assert forall|i: int| 0 <= i < evs.len() implies out[i] == evs[i] by {}
}

proof fn lemma_next_tool_extends(s: SessionView, cancelled: bool, evs: Seq<EventView>)
    ensures
        extends_without_findings(next_tool(s, cancelled, evs).events, evs),
{
    match s.phase {
        PhaseView::RunningTools { calls, next, pending_repeat } => {
            if next < calls.len() && !cancelled {
                let c = calls[next as int];
                if c.name != SUBMIT_FINDINGS@ {
                    let out = evs.push(EventView::Log(call_log(c)));
                    assert forall|i: int| 0 <= i < evs.len() implies out[i] == evs[i] by {}
                } else {
                    assert forall|i: int| 0 <= i < evs.len() implies evs[i] == evs[i] by {}
                }
            } else {
                if s.submitted || cancelled {
                    lemma_finish_extends(s, cancelled, evs);
                } else {
                    let remaining = remaining_after(s.iteration);
                    let messages = if remaining <= FORCE_CONCLUDE_WITHIN && remaining > 0 {
                        s.messages.push(user_message_view(force_conclude_message(remaining)))
                    } else {
                        s.messages
                    };
                    let s2 = SessionView { messages, iteration: s.iteration + 1, ..s };
                    lemma_finish_extends(s2, cancelled, evs);
                    if !(cancelled || s2.iteration >= MAX_ITERATIONS) {
                        assert forall|i: int| 0 <= i < evs.len() implies evs[i] == evs[i] by {}
                    }
                }
            }
        },
        _ => lemma_finish_extends(s, cancelled, evs),
    }
}

proof fn lemma_finding_events_are_filtered(ids: Seq<Seq<char>>, subs: Seq<SubmittedFinding>)
    ensures
        finding_events(ids, subs) == subs.filter(|f: SubmittedFinding| ids.contains(f.category_id@)).map_values(
            |f: SubmittedFinding| EventView::Finding(f),
        ),
    decreases subs.len(),
{
    reveal(Seq::filter);
    let p = |f: SubmittedFinding| ids.contains(f.category_id@);
    let m = |f: SubmittedFinding| EventView::Finding(f);
    if subs.len() > 0 {
        lemma_finding_events_are_filtered(ids, subs.drop_last());
        let sub = subs.drop_last().filter(p);
        if p(subs.last()) {
            assert(subs.filter(p) == sub.push(subs.last()));
            assert(sub.push(subs.last()).map_values(m) =~= sub.map_values(m).push(m(subs.last())));
        } else {
            assert(subs.filter(p) == sub);
        }
    } else {
        assert(subs.filter(p) =~= Seq::<SubmittedFinding>::empty());
        assert(subs.filter(p).map_values(m) =~= Seq::<EventView>::empty());
    }
}

/// The findings a session reports for a `submit_findings` call are exactly
/// the submitted findings whose category is an entry of the scanned group:
/// each of them once, in submission order, first among the step's events;
/// the step reports no other finding.
pub proof fn lemma_findings_step_reports_each_in_group_finding(
    s: SessionView,
    cancelled: bool,
    subs: Seq<SubmittedFinding>,
)
    requires
        session_inv(s),
        accepts(s, InputView::Findings(subs)),
    ensures
        ({
            let in_group = subs.filter(|f: SubmittedFinding| s.category_ids.contains(f.category_id@));
            let evs = transition(s, cancelled, InputView::Findings(subs)).events;
            &&& evs.len() >= in_group.len()
            &&& forall|i: int| 0 <= i < in_group.len() ==> evs[i] == EventView::Finding(in_group[i])
            &&& forall|i: int| in_group.len() <= i < evs.len() ==> !((#[trigger] evs[i]) is Finding)
        }),
{
    let ids = s.category_ids;
    lemma_finding_events_are_filtered(ids, subs);
    match s.phase {
        PhaseView::RunningTools { calls, next, pending_repeat } => {
            let c = calls[next as int];
            let st = SessionView {
                submitted: true,
                messages: s.messages.push(tool_result_view(c.id, FINDINGS_RECORDED@)),
                phase: PhaseView::RunningTools { calls, next: next + 1, pending_repeat: false },
                ..s
            };
            lemma_next_tool_extends(st, cancelled, finding_events(ids, subs));
        },
        _ => {},
    }
}

// ---------------------------------------------------------------------------
// The executable session.

/// `e` is the event `v` of session `sid` scanning group `gid`.
pub open spec fn event_is(e: ScanEvent, sid: Seq<char>, gid: Seq<char>, v: EventView) -> bool {
    match v {
        EventView::Status(st) => e matches ScanEvent::Status { session_id, group_id, status }
            && session_id@ == sid && group_id@ == gid && status@ == st,
        EventView::Log(m) => e matches ScanEvent::Log { session_id, group_id, message }
            && session_id@ == sid && group_id@ == gid && message@ == m,
        EventView::Error(m) => e matches ScanEvent::Error { session_id, group_id, message }
            && session_id@ == sid && group_id@ == gid && message@ == m,
        EventView::Finding(sub) => e matches ScanEvent::Finding { session_id, group_id, finding }
            && session_id@ == sid && group_id@ == gid && is_fresh_finding_from(finding, gid, sub),
    }
}

pub open spec fn events_match(es: Seq<ScanEvent>, sid: Seq<char>, gid: Seq<char>, vs: Seq<EventView>) -> bool {
    es.len() == vs.len() && forall|k: int| 0 <= k < es.len() ==> event_is(#[trigger] es[k], sid, gid, vs[k])
}

/// What the application must do next.
#[derive(Debug, Clone, PartialEq, Eq)]
pub enum ScanAction {
    /// Send `messages()` and `tools()` for a completion; hand back the reply.
    Request,
    /// Run this read-only tool; hand back its result text.
    RunTool { name: String, arguments: String },
    /// Parse these `submit_findings` arguments; hand back the findings.
    ParseFindings { arguments: String },
    /// The session is over.
    Finished,
}

pub open spec fn action_view(a: ScanAction) -> ActionView {
    match a {
        ScanAction::Request => ActionView::Request,
        ScanAction::RunTool { name, arguments } => ActionView::RunTool {
            name: name@,
            arguments: arguments@,
        },
        ScanAction::ParseFindings { arguments } => ActionView::ParseFindings { arguments: arguments@ },
        ScanAction::Finished => ActionView::Finished,
    }
}

/// What the application hands back after performing an action.
#[derive(Debug)]
pub enum ScanInput {
    /// The outcome of a completion request: the first choice's message
    /// (`None` when there was no choice), or the error.
    Reply(Result<Option<ChatMessage>, LlmError>),
    /// The result text of a read-only tool.
    ToolOutput(String),
    /// The findings of a `submit_findings` call (none when its arguments
    /// could not be parsed).
    Findings(Vec<SubmittedFinding>),
}

pub open spec fn input_view(i: ScanInput) -> InputView {
    match i {
        ScanInput::Reply(Ok(Some(m))) => InputView::Reply(Ok(Some(m@))),
        ScanInput::Reply(Ok(None)) => InputView::Reply(Ok(None)),
        ScanInput::Reply(Err(e)) => InputView::Reply(Err(llm_error_message_spec(e))),
        ScanInput::ToolOutput(o) => InputView::ToolOutput(o@),
        ScanInput::Findings(f) => InputView::Findings(f@),
    }
}

#[derive(Debug, Clone, Copy, PartialEq, Eq, Structural)]
enum Phase {
    AwaitingReply,
    RunningTools,
    Done,
}

/// One scan session of one checklist group.
pub struct ScanSession {
    session_id: String,
    group_id: String,
    category_ids: Vec<String>,
    messages: Vec<ChatMessage>,
    tools: Vec<ToolDef>,
    iteration: u32,
    submitted: bool,
    had_error: bool,
    last_call: Option<(String, String)>,
    phase: Phase,
    calls: Vec<ToolCall>,
    next: usize,
    pending_repeat: bool,
}

pub open spec fn last_call_view(c: Option<(String, String)>) -> Option<(Seq<char>, Seq<char>)> {
    match c {
        Some((a, b)) => Some((a@, b@)),
        None => None,
    }
}

impl View for ScanSession {
    type V = SessionView;

    closed spec fn view(&self) -> SessionView {
        SessionView {
            session_id: self.session_id@,
            group_id: self.group_id@,
            category_ids: self.category_ids@.map_values(|c: String| c@),
            messages: message_views(self.messages@),
            iteration: self.iteration as nat,
            submitted: self.submitted,
            had_error: self.had_error,
            last_call: last_call_view(self.last_call),
            phase: match self.phase {
                Phase::AwaitingReply => PhaseView::AwaitingReply,
                Phase::RunningTools => PhaseView::RunningTools {
                    calls: call_views(self.calls@),
                    next: self.next as nat,
                    pending_repeat: self.pending_repeat,
                },
                Phase::Done => PhaseView::Done,
            },
        }
    }
}

/// The bounds a session keeps between steps.
pub open spec fn session_inv(s: SessionView) -> bool {
    &&& s.iteration <= MAX_ITERATIONS
    &&& (s.phase is AwaitingReply ==> s.iteration < MAX_ITERATIONS)
    &&& (s.phase matches PhaseView::RunningTools { calls, next, .. } ==> next <= calls.len()
        && s.iteration < MAX_ITERATIONS)
    &&& (s.submitted ==> !(s.phase is AwaitingReply))
}

/// Whether `c` is one of `ids`.
fn has_category(ids: &Vec<String>, c: &str) -> (r: bool)
    ensures
        r == ids@.map_values(|s: String| s@).contains(c@),
{
    let n = ids.len();
    let mut i: usize = 0;
    while i < n
        invariant
            n == ids@.len(),
            i <= n,
            forall|j: int| 0 <= j < i ==> ids@[j]@ != c@,
        decreases n - i,
    {
        if str_eq(ids[i].as_str(), c) {
            proof {
                assert(ids@.map_values(|s: String| s@)[i as int] == c@);
            }
            return true;
        }
        i = i + 1;
    }
    proof {
        let v = ids@.map_values(|s: String| s@);
        if v.contains(c@) {
            let j = choose|j: int| 0 <= j < v.len() && v[j] == c@;
            assert(ids@[j]@ == v[j]);
        }
    }
    false
}

/// The ids of `group`'s checklist entries.
fn entry_ids_exec(group: &PlaybookGroup) -> (r: Vec<String>)
    ensures
        r@.map_values(|s: String| s@) == entry_ids(*group),
{
    let mut r: Vec<String> = Vec::new();
    let n = group.entries.len();
    let mut i: usize = 0;
    while i < n
        invariant
            n == group.entries@.len(),
            i <= n,
            r@.map_values(|s: String| s@) =~= entry_ids(*group).take(i as int),
        decreases n - i,
    {
        let id = group.entries[i].id.clone();
        let ghost before = r@;
        proof {
            assert(id@ == group.entries@[i as int].id@);
            assert(entry_ids(*group)[i as int] == group.entries@[i as int].id@);
        }
        r.push(id);
        proof {
            assert(before.map_values(|s: String| s@).len() == i);
            assert(before.len() == i);
            assert(r@ == before.push(id));
            let rv = r@.map_values(|s: String| s@);
            let ev = entry_ids(*group).take(i + 1);
            assert forall|j: int| 0 <= j <= i implies #[trigger] rv[j] == ev[j] by {
                if j < i {
                    assert(r@[j] == before[j]);
                    assert(before.map_values(|s: String| s@)[j] == entry_ids(*group).take(i as int)[j]);
                }
            }
            assert(r@.map_values(|s: String| s@) =~= entry_ids(*group).take(i + 1));
        }
        i = i + 1;
    }
    proof {
        assert(entry_ids(*group).take(n as int) =~= entry_ids(*group));
    }
    r
}

impl ScanSession {
    /// The tools offered to the model in this session.
    pub closed spec fn tool_list(&self) -> Seq<ToolDef> {
        self.tools@
    }

    /// The conversation to send with the next completion request.
    pub fn messages(&self) -> (r: &Vec<ChatMessage>)
        ensures
            message_views(r@) == self@.messages,
    {
        &self.messages
    }

    /// The tools to send with every completion request.
    pub fn tools(&self) -> (r: &Vec<ToolDef>)
        ensures
            r@ == self.tool_list(),
    {
        &self.tools
    }

    /// Whether the session is over.
    pub fn is_done(&self) -> (r: bool)
        ensures
            r == (self@.phase is Done),
    {
        self.phase == Phase::Done
    }

    /// Whether `input` is what the session waits for.
    pub fn accepts_input(&self, input: &ScanInput) -> (r: bool)
        ensures
            r == accepts(self@, input_view(*input)),
    {
        match self.phase {
            Phase::AwaitingReply => matches!(input, ScanInput::Reply(_)),
            Phase::RunningTools => {
                if self.next < self.calls.len() {
                    let is_submit = str_eq(self.calls[self.next].function.name.as_str(), SUBMIT_FINDINGS);
                    if is_submit {
                        matches!(input, ScanInput::Findings(_))
                    } else {
                        matches!(input, ScanInput::ToolOutput(_))
                    }
                } else {
                    false
                }
            },
            Phase::Done => false,
        }
    }

    fn event(&self, kind: u8, text: String) -> (e: ScanEvent)
        requires
            kind < 3,
        ensures
            kind == 0 ==> event_is(e, self@.session_id, self@.group_id, EventView::Status(text@)),
            kind == 1 ==> event_is(e, self@.session_id, self@.group_id, EventView::Log(text@)),
            kind == 2 ==> event_is(e, self@.session_id, self@.group_id, EventView::Error(text@)),
    {
        let session_id = self.session_id.clone();
        let group_id = self.group_id.clone();
        if kind == 0 {
            ScanEvent::Status { session_id, group_id, status: text }
        } else if kind == 1 {
            ScanEvent::Log { session_id, group_id, message: text }
        } else {
            ScanEvent::Error { session_id, group_id, message: text }
        }
    }

    fn push_event(&self, events: &mut Vec<ScanEvent>, kind: u8, text: String, Ghost(evs): Ghost<Seq<EventView>>)
        requires
            kind < 3,
            events_match(old(events)@, self@.session_id, self@.group_id, evs),
        ensures
            kind == 0 ==> events_match(final(events)@, self@.session_id, self@.group_id, evs.push(EventView::Status(text@))),
            kind == 1 ==> events_match(final(events)@, self@.session_id, self@.group_id, evs.push(EventView::Log(text@))),
            kind == 2 ==> events_match(final(events)@, self@.session_id, self@.group_id, evs.push(EventView::Error(text@))),
    {
        let e = self.event(kind, text);
        events.push(e);
    }

    fn finish_exec(&mut self, cancelled: bool, events: &mut Vec<ScanEvent>, Ghost(evs): Ghost<Seq<EventView>>) -> (a: ScanAction)
        requires
            session_inv(old(self)@) || old(self)@.iteration <= MAX_ITERATIONS,
            events_match(old(events)@, old(self)@.session_id, old(self)@.group_id, evs),
        ensures
            final(self)@ == finish(old(self)@, cancelled, evs).state,
            events_match(final(events)@, old(self)@.session_id, old(self)@.group_id, finish(old(self)@, cancelled, evs).events),
            action_view(a) == finish(old(self)@, cancelled, evs).action,
            final(self).tool_list() == old(self).tool_list(),
    {
        let status = if cancelled {
            String::from_str("idle")
        } else if self.had_error {
            String::from_str("error")
        } else {
            String::from_str("scanned")
        };
        self.push_event(events, 0, status, Ghost(evs));
        self.phase = Phase::Done;
        ScanAction::Finished
    }

    fn begin_round_exec(&mut self, cancelled: bool, events: &mut Vec<ScanEvent>, Ghost(evs): Ghost<Seq<EventView>>) -> (a: ScanAction)
        requires
            old(self)@.iteration <= MAX_ITERATIONS,
            events_match(old(events)@, old(self)@.session_id, old(self)@.group_id, evs),
        ensures
            final(self)@ == begin_round(old(self)@, cancelled, evs).state,
            events_match(final(events)@, old(self)@.session_id, old(self)@.group_id, begin_round(old(self)@, cancelled, evs).events),
            action_view(a) == begin_round(old(self)@, cancelled, evs).action,
            final(self).tool_list() == old(self).tool_list(),
    {
        if cancelled || self.iteration >= MAX_ITERATIONS {
            return self.finish_exec(cancelled, events, Ghost(evs));
        }
        trim_old_tool_results(&mut self.messages);
        self.phase = Phase::AwaitingReply;
        ScanAction::Request
    }

    fn end_round_exec(&mut self, cancelled: bool, events: &mut Vec<ScanEvent>, Ghost(evs): Ghost<Seq<EventView>>) -> (a: ScanAction)
        requires
            old(self)@.iteration < MAX_ITERATIONS,
            events_match(old(events)@, old(self)@.session_id, old(self)@.group_id, evs),
        ensures
            final(self)@ == end_round(old(self)@, cancelled, evs).state,
            events_match(final(events)@, old(self)@.session_id, old(self)@.group_id, end_round(old(self)@, cancelled, evs).events),
            action_view(a) == end_round(old(self)@, cancelled, evs).action,
            final(self).tool_list() == old(self).tool_list(),
    {
        if self.submitted || cancelled {
            return self.finish_exec(cancelled, events, Ghost(evs));
        }
        let remaining = MAX_ITERATIONS - (self.iteration + 1);
        if remaining <= FORCE_CONCLUDE_WITHIN && remaining > 0 {
            let mut text = String::from_str("You have ");
            append_decimal(&mut text, remaining as u64);
            text.append(" tool call(s) left in this session. Stop investigating further and call submit_findings now with everything you've confirmed so far — an empty array if genuinely nothing was found, but do not let confirmed findings go unreported.");
            proof {
                assert(text@ =~= force_conclude_message(remaining as nat));
            }
            let ghost before = self.messages@;
            self.messages.push(ChatMessage::user(text));
            proof {
                assert(message_views(self.messages@) =~= message_views(before).push(
                    user_message_view(force_conclude_message(remaining as nat)),
                ));
            }
        }
        self.iteration = self.iteration + 1;
        self.begin_round_exec(cancelled, events, Ghost(evs))
    }

    fn next_tool_exec(&mut self, cancelled: bool, events: &mut Vec<ScanEvent>, Ghost(evs): Ghost<Seq<EventView>>) -> (a: ScanAction)
        requires
            old(self)@.phase is RunningTools,
            session_inv(old(self)@),
            events_match(old(events)@, old(self)@.session_id, old(self)@.group_id, evs),
        ensures
            final(self)@ == next_tool(old(self)@, cancelled, evs).state,
            events_match(final(events)@, old(self)@.session_id, old(self)@.group_id, next_tool(old(self)@, cancelled, evs).events),
            action_view(a) == next_tool(old(self)@, cancelled, evs).action,
            final(self).tool_list() == old(self).tool_list(),
    {
        if self.next < self.calls.len() && !cancelled {
            let name = self.calls[self.next].function.name.clone();
            let args = self.calls[self.next].function.arguments.clone();
            proof {
                assert(call_views(self.calls@)[self.next as int] == self.calls@[self.next as int]@);
            }
            if str_eq(name.as_str(), SUBMIT_FINDINGS) {
                return ScanAction::ParseFindings { arguments: args };
            }
            let repeat = match &self.last_call {
                Some((n, a)) => str_eq(n.as_str(), name.as_str()) && str_eq(a.as_str(), args.as_str()),
                None => false,
            };
            let mut log = name.clone();
            log.append("(");
            log.append(args.as_str());
            log.append(")");
            self.push_event(events, 1, log, Ghost(evs));
            self.last_call = Some((name.clone(), args.clone()));
            self.pending_repeat = repeat;
            proof {
                assert(events@ =~= events@);
            }
            ScanAction::RunTool { name, arguments: args }
        } else {
            self.end_round_exec(cancelled, events, Ghost(evs))
        }
    }

    fn on_reply_exec(&mut self, cancelled: bool, reply: Result<Option<ChatMessage>, LlmError>, events: &mut Vec<ScanEvent>) -> (a: ScanAction)
        requires
            old(self)@.phase is AwaitingReply,
            session_inv(old(self)@),
            old(events)@.len() == 0,
        ensures
            final(self)@ == on_reply(old(self)@, cancelled, input_view(ScanInput::Reply(reply))->Reply_0).state,
            events_match(final(events)@, old(self)@.session_id, old(self)@.group_id, on_reply(old(self)@, cancelled, input_view(ScanInput::Reply(reply))->Reply_0).events),
            action_view(a) == on_reply(old(self)@, cancelled, input_view(ScanInput::Reply(reply))->Reply_0).action,
            final(self).tool_list() == old(self).tool_list(),
    {
        match reply {
            Err(e) => {
                self.had_error = true;
                let m = e.message();
                self.push_event(events, 2, m, Ghost(Seq::empty()));
                let ghost ev = seq![EventView::Error(llm_error_message_spec(e))];
                self.finish_exec(cancelled, events, Ghost(ev))
            },
            Ok(None) => self.finish_exec(cancelled, events, Ghost(Seq::empty())),
            Ok(Some(m)) => {
                let ghost mv = m@;
                let calls = match &m.tool_calls {
                    Some(c) => copy_tool_calls(c),
                    None => Vec::new(),
                };
                let content = crate::llm::types::copy_opt_string(&m.content);
                let ghost before = self.messages@;
                self.messages.push(m);
                proof {
                    assert(message_views(self.messages@) =~= message_views(before).push(mv));
                }
                if calls.len() == 0 {
                    let ghost evs = no_call_events(mv);
                    match content {
                        Some(t) => {
                            let cs = chars_of(t.as_str());
                            let trimmed = trim_chars(&cs);
                            if trimmed.len() > 0 {
                                let k = if cs.len() <= PREVIEW_CHARS {
                                    cs.len()
                                } else {
                                    PREVIEW_CHARS
                                };
                                let head = slice_chars(&cs, 0, k);
                                let mut line = String::from_str(NO_TOOL_CALL_PREFIX);
                                crate::text::append_chars(&mut line, &head);
                                proof {
                                    assert(line@ =~= NO_TOOL_CALL_PREFIX@ + preview(t@));
                                }
                                self.push_event(events, 1, line, Ghost(Seq::empty()));
                                proof {
                                    assert(evs =~= seq![EventView::Log(NO_TOOL_CALL_PREFIX@ + preview(t@))]);
                                }
                            } else {
                                proof {
                                    assert(evs =~= Seq::<EventView>::empty());
                                }
                            }
                        },
                        None => {
                            proof {
                                assert(evs =~= Seq::<EventView>::empty());
                            }
                        },
                    }
                    if self.iteration + 1 >= MAX_ITERATIONS {
                        return self.finish_exec(cancelled, events, Ghost(evs));
                    }
                    let ghost before2 = self.messages@;
                    self.messages.push(ChatMessage::user(String::from_str(CONTINUE_PROMPT)));
                    proof {
                        assert(message_views(self.messages@) =~= message_views(before2).push(
                            user_message_view(CONTINUE_PROMPT@),
                        ));
                    }
                    self.iteration = self.iteration + 1;
                    self.begin_round_exec(cancelled, events, Ghost(evs))
                } else {
                    self.calls = calls;
                    self.next = 0;
                    self.pending_repeat = false;
                    self.phase = Phase::RunningTools;
                    self.next_tool_exec(cancelled, events, Ghost(Seq::empty()))
                }
            },
        }
    }

    fn on_tool_output_exec(&mut self, cancelled: bool, output: String, events: &mut Vec<ScanEvent>) -> (a: ScanAction)
        requires
            accepts(old(self)@, InputView::ToolOutput(output@)),
            session_inv(old(self)@),
            old(events)@.len() == 0,
        ensures
            final(self)@ == on_tool_output(old(self)@, cancelled, output@).state,
            events_match(final(events)@, old(self)@.session_id, old(self)@.group_id, on_tool_output(old(self)@, cancelled, output@).events),
            action_view(a) == on_tool_output(old(self)@, cancelled, output@).action,
            final(self).tool_list() == old(self).tool_list(),
    {
        proof {
            assert(call_views(self.calls@).len() == self.calls@.len());
            assert(self.next < self.calls.len());
        }
        let id = self.calls[self.next].id.clone();
        proof {
            assert(call_views(self.calls@)[self.next as int] == self.calls@[self.next as int]@);
        }
        let mut text = output;
        if self.pending_repeat {
            text.append(REPEAT_NOTE);
        }
        let ghost before = self.messages@;
        let ghost tv = text@;
        self.messages.push(ChatMessage::tool_result(id, text));
        proof {
            assert(message_views(self.messages@) =~= message_views(before).push(
                tool_result_view(self.calls@[self.next as int]@.id, tv),
            ));
        }
        self.next = self.next + 1;
        self.pending_repeat = false;
        self.next_tool_exec(cancelled, events, Ghost(Seq::empty()))
    }

    fn on_findings_exec(&mut self, cancelled: bool, subs: Vec<SubmittedFinding>, events: &mut Vec<ScanEvent>) -> (a: ScanAction)
        requires
            accepts(old(self)@, InputView::Findings(subs@)),
            session_inv(old(self)@),
            old(events)@.len() == 0,
        ensures
            final(self)@ == on_findings(old(self)@, cancelled, subs@).state,
            events_match(final(events)@, old(self)@.session_id, old(self)@.group_id, on_findings(old(self)@, cancelled, subs@).events),
            action_view(a) == on_findings(old(self)@, cancelled, subs@).action,
            final(self).tool_list() == old(self).tool_list(),
    {
        proof {
            assert(call_views(self.calls@).len() == self.calls@.len());
            assert(self.next < self.calls.len());
        }
        let ghost all = subs@;
        let ghost sid = self@.session_id;
        let ghost gid = self@.group_id;
        let ghost ids = self@.category_ids;
        let mut rest = subs;
        let mut k: usize = 0;
        let n = rest.len();
        proof {
            assert(all.take(0) =~= Seq::<SubmittedFinding>::empty());
        }
        while rest.len() > 0
            invariant
                n == all.len(),
                k + rest@.len() == n,
                rest@ == all.skip(k as int),
                sid == self@.session_id,
                gid == self@.group_id,
                ids == self@.category_ids,
                self@ == old(self)@,
                self.tool_list() == old(self).tool_list(),
                self.next < self.calls.len(),
                events_match(events@, sid, gid, finding_events(ids, all.take(k as int))),
            decreases rest@.len(),
        {
            let sub = rest.remove(0);
            let ghost sub_v = sub;
            proof {
                assert(sub_v == all[k as int]);
                assert(all.take(k + 1).drop_last() =~= all.take(k as int));
                assert(all.take(k + 1).last() == all[k as int]);
            }
            let inside = has_category(&self.category_ids, sub.category_id.as_str());
            if inside {
                let finding = Finding::from_submitted(self.group_id.as_str(), sub);
                let e = ScanEvent::Finding {
                    session_id: self.session_id.clone(),
                    group_id: self.group_id.clone(),
                    finding,
                };
                let ghost before = events@;
                events.push(e);
                proof {
                    let fe = finding_events(ids, all.take(k + 1));
                    assert(fe == finding_events(ids, all.take(k as int)).push(EventView::Finding(all[k as int])));
                    assert forall|j: int| 0 <= j < events@.len() implies event_is(#[trigger] events@[j], sid, gid, fe[j]) by {
                        if j < before.len() {
                            assert(events@[j] == before[j]);
                        }
                    }
                }
            } else {
                proof {
                    assert(finding_events(ids, all.take(k + 1)) == finding_events(ids, all.take(k as int)));
                }
            }
            proof {
                assert(rest@ =~= all.skip(k + 1));
            }
            k = k + 1;
        }
        proof {
            assert(all.take(n as int) =~= all);
        }
        let ghost evs = finding_events(ids, all);
        proof {
            assert(call_views(self.calls@).len() == self.calls@.len());
            assert(self.next < self.calls.len());
        }
        let id = self.calls[self.next].id.clone();
        proof {
            assert(call_views(self.calls@)[self.next as int] == self.calls@[self.next as int]@);
        }
        self.submitted = true;
        let ghost before = self.messages@;
        self.messages.push(ChatMessage::tool_result(id, String::from_str(FINDINGS_RECORDED)));
        proof {
            assert(message_views(self.messages@) =~= message_views(before).push(
                tool_result_view(self.calls@[self.next as int]@.id, FINDINGS_RECORDED@),
            ));
        }
        self.next = self.next + 1;
        self.pending_repeat = false;
        self.next_tool_exec(cancelled, events, Ghost(evs))
    }

    /// Starts a scan session of `group` in `mode`: it reports "scanning",
    /// then (unless already cancelled) asks for the first completion.
    pub fn start(session_id: String, group: &PlaybookGroup, mode: ScanMode, cancelled: bool) -> (r: (ScanSession, Vec<ScanEvent>, ScanAction))
        ensures
            r.0@ == start_outcome(session_id@, *group, mode, cancelled).state,
            events_match(r.1@, session_id@, group.id@, start_outcome(session_id@, *group, mode, cancelled).events),
            action_view(r.2) == start_outcome(session_id@, *group, mode, cancelled).action,
            tool_views(r.0.tool_list()) == scan_tools_spec(*group),
            session_inv(r.0@),
    {
        let tools = build_scan_tools(group);
        let prompt = build_scan_system_prompt(group, mode);
        let mut begin = String::from_str("Begin investigating the \"");
        begin.append(group.title.as_str());
        begin.append("\" category group in this codebase.");
        let m0 = ChatMessage::system(prompt);
        let m1 = ChatMessage::user(begin);
        let messages = vec![m0, m1];
        let mut session = ScanSession {
            session_id,
            group_id: group.id.clone(),
            category_ids: entry_ids_exec(group),
            messages,
            tools,
            iteration: 0,
            submitted: false,
            had_error: false,
            last_call: None,
            phase: Phase::AwaitingReply,
            calls: Vec::new(),
            next: 0,
            pending_repeat: false,
        };
        proof {
            assert(message_views(session.messages@) =~= initial_state(session_id@, *group, mode).messages);
            assert(session@ == initial_state(session_id@, *group, mode));
        }
        let mut events: Vec<ScanEvent> = Vec::new();
        session.push_event(&mut events, 0, String::from_str("scanning"), Ghost(Seq::empty()));
        let ghost ev = seq![EventView::Status("scanning"@)];
        let a = session.begin_round_exec(cancelled, &mut events, Ghost(ev));
        (session, events, a)
    }

    /// One step of the session: takes what the application hands back for
    /// the last action (a reply, a tool result or parsed findings) and says
    /// what to report and what to do next. `cancelled` is whether the user
    /// has cancelled the session.
    pub fn step(&mut self, cancelled: bool, input: ScanInput) -> (r: (Vec<ScanEvent>, ScanAction))
        requires
            accepts(old(self)@, input_view(input)),
            session_inv(old(self)@),
        ensures
            final(self)@ == transition(old(self)@, cancelled, input_view(input)).state,
            events_match(r.0@, old(self)@.session_id, old(self)@.group_id, transition(old(self)@, cancelled, input_view(input)).events),
            action_view(r.1) == transition(old(self)@, cancelled, input_view(input)).action,
            final(self).tool_list() == old(self).tool_list(),
            session_inv(final(self)@),
    {
        let mut events: Vec<ScanEvent> = Vec::new();
        let a = match input {
            ScanInput::Reply(r) => self.on_reply_exec(cancelled, r, &mut events),
            ScanInput::ToolOutput(o) => self.on_tool_output_exec(cancelled, o, &mut events),
            ScanInput::Findings(f) => self.on_findings_exec(cancelled, f, &mut events),
        };
        (events, a)
    }
}

} // verus!

//! The bookkeeping of a tool batch: which tool a name dispatches to, whether
//! a call goes through the approval gate, in which groups prepared calls run,
//! and how the results gathered during the batch become the results handed
//! back to the model, with a synthetic error for every call left without one.
use vstd::prelude::*;

use crate::classify::now_timestamp;
use crate::text::{concat, same_text, text_with_number, with_number};
use crate::tool::{AgentTool, AgentToolResult};
use crate::metrics::ToolExecMetrics;
use crate::turn::{calls_view, ToolCallInfo, ToolCallInfoV, ToolExecOutcome};
use crate::policy::PreDispatchVerdict;
use crate::types::AgentMessage;
use crate::types::{blocks_view, clone_blocks, ContentBlock, ContentBlockV, ToolResultMessage, ToolResultMessageV};

verus! {

/// The view of the results gathered so far, each tagged with the index of
/// its call.
pub open spec fn gathered_view(results: Seq<(usize, ToolResultMessage)>) -> Seq<ToolResultMessageV> {
    results.map_values(|p: (usize, ToolResultMessage)| p.1@)
}

/// The result recorded for call `id`: the last one gathered for it.
pub open spec fn result_for(rv: Seq<ToolResultMessageV>, id: Seq<char>) -> Option<ToolResultMessageV>
    decreases rv.len(),
{
    if rv.len() == 0 {
        None
    } else if rv.last().tool_call_id == id {
        Some(rv.last())
    } else {
        result_for(rv.drop_last(), id)
    }
}

/// The recorded results in call order; calls without one are left out.
pub open spec fn ordered_results(calls: Seq<ToolCallInfoV>, rv: Seq<ToolResultMessageV>) -> Seq<ToolResultMessageV>
    decreases calls.len(),
{
    if calls.len() == 0 {
        Seq::empty()
    } else {
        let init = ordered_results(calls.drop_last(), rv);
        match result_for(rv, calls.last().id) {
            Some(r) => init.push(r),
            None => init,
        }
    }
}

/// The ids of the calls without a recorded result, in call order.
pub open spec fn unresolved_ids(calls: Seq<ToolCallInfoV>, rv: Seq<ToolResultMessageV>) -> Seq<Seq<char>>
    decreases calls.len(),
{
    if calls.len() == 0 {
        Seq::empty()
    } else {
        let init = unresolved_ids(calls.drop_last(), rv);
        match result_for(rv, calls.last().id) {
            Some(_) => init,
            None => init.push(calls.last().id),
        }
    }
}

/// A synthetic error result for call `id` with the given text.
pub open spec fn is_error_result(r: ToolResultMessageV, id: Seq<char>, text: Seq<char>) -> bool {
    &&& r.tool_call_id == id
    &&& r.content == seq![ContentBlockV::Text { text }]
    &&& r.is_error
}

/// The result recorded for `id` is one for `id`.
proof fn lemma_result_for_matches(rv: Seq<ToolResultMessageV>, id: Seq<char>)
    ensures
        result_for(rv, id) matches Some(r) ==> r.tool_call_id == id,
    decreases rv.len(),
{
    if rv.len() > 0 && rv.last().tool_call_id != id {
        lemma_result_for_matches(rv.drop_last(), id);
    }
}

/// Every call of a batch is accounted for once: it either has a recorded
/// result (among the completed results) or is left unresolved (and gets a
/// synthetic one).
pub proof fn lemma_results_cover_calls(calls: Seq<ToolCallInfoV>, rv: Seq<ToolResultMessageV>)
    ensures
        ordered_results(calls, rv).len() + unresolved_ids(calls, rv).len() == calls.len(),
    decreases calls.len(),
{
    if calls.len() > 0 {
        lemma_results_cover_calls(calls.drop_last(), rv);
    }
}

fn find_result<'a>(results: &'a [(usize, ToolResultMessage)], id: &str) -> (r: Option<&'a ToolResultMessage>)
    ensures
        match result_for(gathered_view(results@), id@) {
            Some(x) => r matches Some(y) && y@ == x,
            None => r is None,
        },
{
    let ghost rv = gathered_view(results@);
    let mut i: usize = results.len();
    assert(rv.take(i as int) =~= rv);
    while i > 0
        invariant
            i <= results@.len(),
            rv == gathered_view(results@),
            result_for(rv, id@) == result_for(rv.take(i as int), id@),
        decreases i,
    {
        assert(rv.take(i as int).drop_last() =~= rv.take(i - 1));
        if same_text(results[i - 1].1.tool_call_id.as_str(), id) {
            return Some(&results[i - 1].1);
        }
        i = i - 1;
    }
    assert(rv.take(0) =~= Seq::<ToolResultMessageV>::empty());
    None
}

fn copy_result(r: &ToolResultMessage) -> (c: ToolResultMessage)
    ensures
        c@ == r@,
{
    r.clone()
}

/// A tool result message for call `id` made of an error result.
pub fn error_result_message(id: &str, error_result: AgentToolResult) -> (r: ToolResultMessage)
    ensures
        r@.tool_call_id == id@,
        r@.content == blocks_view(error_result.content@),
        r@.is_error,
{
    ToolResultMessage {
        tool_call_id: id.to_owned(),
        content: error_result.content,
        is_error: true,
        timestamp: now_timestamp(),
    }
}

fn synthetic_error(id: &str, text: &str) -> (r: ToolResultMessage)
    ensures
        is_error_result(r@, id@, text@),
{
    let content = vec![ContentBlock::Text { text: text.to_owned() }];
    let r = ToolResultMessage { tool_call_id: id.to_owned(), content, is_error: true, timestamp: now_timestamp() };
    assert(r@.content =~= seq![ContentBlockV::Text { text: text@ }]);
    r
}

/// The gathered results put in the order of the calls, keeping the last
/// result recorded for each call and leaving out calls without one.
pub fn order_results_by_tool_calls(calls: &[ToolCallInfo], results: &[(usize, ToolResultMessage)]) -> (r: Vec<ToolResultMessage>)
    ensures
        r@.map_values(|m: ToolResultMessage| m@) == ordered_results(calls_view(calls@), gathered_view(results@)),
{
    let ghost cv = calls_view(calls@);
    let ghost rv = gathered_view(results@);
    let mut out: Vec<ToolResultMessage> = Vec::new();
    let mut i: usize = 0;
    while i < calls.len()
        invariant
            i <= calls@.len(),
            cv == calls_view(calls@),
            rv == gathered_view(results@),
            out@.map_values(|m: ToolResultMessage| m@) == ordered_results(cv.take(i as int), rv),
        decreases calls@.len() - i,
    {
        assert(cv.take(i + 1).drop_last() =~= cv.take(i as int));
        match find_result(results, calls[i].id.as_str()) {
            Some(found) => {
                let c = copy_result(found);
                out.push(c);
                assert(out@.map_values(|m: ToolResultMessage| m@) =~= ordered_results(cv.take(i as int), rv).push(c@));
            },
            None => {},
        }
        i = i + 1;
    }
    assert(cv.take(calls@.len() as int) =~= cv);
    out
}

/// Whether `out` gives every call its recorded result, or a synthetic error
/// with `text` when it has none.
pub open spec fn filled_results(out: Seq<ToolResultMessageV>, calls: Seq<ToolCallInfoV>, rv: Seq<ToolResultMessageV>, text: Seq<char>) -> bool {
    &&& out.len() == calls.len()
    &&& forall|k: int| 0 <= k < calls.len() ==> match result_for(rv, (#[trigger] calls[k]).id) {
        Some(r) => out[k] == r,
        None => is_error_result(out[k], calls[k].id, text),
    }
}

/// Filled-in results answer their calls one to one: the result at position
/// `k` is for the call at position `k`.
pub proof fn lemma_filled_results_answer_calls(
    out: Seq<ToolResultMessageV>,
    calls: Seq<ToolCallInfoV>,
    rv: Seq<ToolResultMessageV>,
    text: Seq<char>,
)
    requires
        filled_results(out, calls, rv, text),
    ensures
        out.len() == calls.len(),
        forall|k: int| 0 <= k < calls.len() ==> (#[trigger] out[k]).tool_call_id == calls[k].id,
{
    assert forall|k: int| 0 <= k < calls.len() implies (#[trigger] out[k]).tool_call_id == calls[k].id by {
        lemma_result_for_matches(rv, calls[k].id);
    }
}

/// One result per call, in call order: the recorded one, or an error with
/// `cancel_text` for a call left without one.
pub fn fill_results(calls: &[ToolCallInfo], results: &[(usize, ToolResultMessage)], cancel_text: &str) -> (r: Vec<ToolResultMessage>)
    ensures
        filled_results(r@.map_values(|m: ToolResultMessage| m@), calls_view(calls@), gathered_view(results@), cancel_text@),
{
    let ghost cv = calls_view(calls@);
    let ghost rv = gathered_view(results@);
    let mut out: Vec<ToolResultMessage> = Vec::new();
    let mut i: usize = 0;
    while i < calls.len()
        invariant
            i <= calls@.len(),
            cv == calls_view(calls@),
            rv == gathered_view(results@),
            out@.len() == i,
            forall|k: int| 0 <= k < i ==> match result_for(rv, (#[trigger] cv[k]).id) {
                Some(r) => out@[k]@ == r,
                None => is_error_result(out@[k]@, cv[k].id, cancel_text@),
            },
        decreases calls@.len() - i,
    {
        let id = calls[i].id.as_str();
        assert(cv[i as int].id == id@);
        match find_result(results, id) {
            Some(found) => {
                out.push(copy_result(found));
            },
            None => {
                out.push(synthetic_error(id, cancel_text));
            },
        }
        i = i + 1;
    }
    out
}

/// Split the calls of an interrupted batch: the recorded results in call
/// order, and an error with `cancel_text` for each call left without one.
pub fn split_results(calls: &[ToolCallInfo], results: &[(usize, ToolResultMessage)], cancel_text: &str) -> (r: (Vec<ToolResultMessage>, Vec<ToolResultMessage>))
    ensures
        r.0@.map_values(|m: ToolResultMessage| m@) == ordered_results(calls_view(calls@), gathered_view(results@)),
        r.1@.len() == unresolved_ids(calls_view(calls@), gathered_view(results@)).len(),
        forall|k: int| 0 <= k < r.1@.len() ==> is_error_result(
            (#[trigger] r.1@[k])@,
            unresolved_ids(calls_view(calls@), gathered_view(results@))[k],
            cancel_text@,
        ),
{
    let ghost cv = calls_view(calls@);
    let ghost rv = gathered_view(results@);
    let mut done: Vec<ToolResultMessage> = Vec::new();
    let mut cancelled: Vec<ToolResultMessage> = Vec::new();
    let mut i: usize = 0;
    while i < calls.len()
        invariant
            i <= calls@.len(),
            cv == calls_view(calls@),
            rv == gathered_view(results@),
            done@.map_values(|m: ToolResultMessage| m@) == ordered_results(cv.take(i as int), rv),
            cancelled@.len() == unresolved_ids(cv.take(i as int), rv).len(),
            forall|k: int| 0 <= k < cancelled@.len() ==> is_error_result(
                (#[trigger] cancelled@[k])@,
                unresolved_ids(cv.take(i as int), rv)[k],
                cancel_text@,
            ),
        decreases calls@.len() - i,
    {
        assert(cv.take(i + 1).drop_last() =~= cv.take(i as int));
        let id = calls[i].id.as_str();
        match find_result(results, id) {
            Some(found) => {
                let c = copy_result(found);
                done.push(c);
                assert(done@.map_values(|m: ToolResultMessage| m@) =~= ordered_results(cv.take(i as int), rv).push(c@));
            },
            None => {
                let e = synthetic_error(id, cancel_text);
                cancelled.push(e);
                assert(unresolved_ids(cv.take(i + 1), rv) == unresolved_ids(cv.take(i as int), rv).push(id@));
            },
        }
        i = i + 1;
    }
    assert(cv.take(calls@.len() as int) =~= cv);
    (done, cancelled)
}

/// The text of the error given to each call left without a result when a
/// pre-dispatch policy stops the batch.
pub open spec fn batch_stop_text(reason: Seq<char>) -> Seq<char> {
    "policy stopped tool batch before dispatch: "@ + reason
}

/// The calls still without a result when a policy stops the batch, each with
/// its index and a stop error carrying `reason`.
pub fn batch_stop_results(calls: &[ToolCallInfo], results: &[(usize, ToolResultMessage)], reason: &str) -> (r: Vec<(usize, ToolResultMessage)>)
    ensures
        gathered_view(r@).len() == unresolved_ids(calls_view(calls@), gathered_view(results@)).len(),
        forall|k: int| 0 <= k < r@.len() ==> is_error_result(
            (#[trigger] r@[k]).1@,
            unresolved_ids(calls_view(calls@), gathered_view(results@))[k],
            batch_stop_text(reason@),
        ),
        forall|k: int| 0 <= k < r@.len() ==> (#[trigger] r@[k]).0 < calls@.len()
            && calls@[r@[k].0 as int]@.id == r@[k].1@.tool_call_id,
{
    let ghost cv = calls_view(calls@);
    let ghost rv = gathered_view(results@);
    let text = concat("policy stopped tool batch before dispatch: ", reason);
    let mut out: Vec<(usize, ToolResultMessage)> = Vec::new();
    let mut i: usize = 0;
    while i < calls.len()
        invariant
            i <= calls@.len(),
            cv == calls_view(calls@),
            rv == gathered_view(results@),
            text@ == batch_stop_text(reason@),
            out@.len() == unresolved_ids(cv.take(i as int), rv).len(),
            forall|k: int| 0 <= k < out@.len() ==> is_error_result(
                (#[trigger] out@[k]).1@,
                unresolved_ids(cv.take(i as int), rv)[k],
                batch_stop_text(reason@),
            ),
            forall|k: int| 0 <= k < out@.len() ==> (#[trigger] out@[k]).0 < i
                && calls@[out@[k].0 as int]@.id == out@[k].1@.tool_call_id,
        decreases calls@.len() - i,
    {
        assert(cv.take(i + 1).drop_last() =~= cv.take(i as int));
        let id = calls[i].id.as_str();
        match find_result(results, id) {
            Some(_) => {},
            None => {
                let e = synthetic_error(id, text.as_str());
                out.push((i, e));
                assert(unresolved_ids(cv.take(i + 1), rv) == unresolved_ids(cv.take(i as int), rv).push(id@));
            },
        }
        i = i + 1;
    }
    assert(cv.take(calls@.len() as int) =~= cv);
    out
}

/// The error text of calls cancelled by a steering interrupt.
pub open spec fn steering_cancel_text() -> Seq<char> {
    "tool call cancelled: user requested steering interrupt"@
}

/// The error text of calls cancelled because the agent handed off.
pub open spec fn transfer_cancel_text() -> Seq<char> {
    "tool call cancelled: transfer initiated"@
}

/// The error text of calls cancelled with the whole operation.
pub open spec fn abort_cancel_text() -> Seq<char> {
    "tool call cancelled: operation aborted"@
}

/// The outcome of a batch interrupted by steering: the recorded results in
/// call order, a cancellation error for each unfinished call, and the
/// steering messages that interrupted it.
pub fn build_steering_outcome(
    calls: &[ToolCallInfo],
    results: &[(usize, ToolResultMessage)],
    tool_metrics: Vec<ToolExecMetrics>,
    steering_messages: Vec<AgentMessage>,
    injected_messages: Vec<AgentMessage>,
) -> (r: ToolExecOutcome)
    ensures
        r matches ToolExecOutcome::SteeringInterrupt { completed, cancelled, steering_messages: s, tool_metrics: t, injected_messages: inj }
            && completed@.map_values(|m: ToolResultMessage| m@) == ordered_results(calls_view(calls@), gathered_view(results@))
            && cancelled@.len() == unresolved_ids(calls_view(calls@), gathered_view(results@)).len()
            && (forall|k: int| 0 <= k < cancelled@.len() ==> is_error_result(
                (#[trigger] cancelled@[k])@,
                unresolved_ids(calls_view(calls@), gathered_view(results@))[k],
                steering_cancel_text(),
            ))
            && s@ == steering_messages@ && t@ == tool_metrics@ && inj@ == injected_messages@,
{
    let (completed, cancelled) = split_results(calls, results, "tool call cancelled: user requested steering interrupt");
    ToolExecOutcome::SteeringInterrupt { completed, cancelled, steering_messages, tool_metrics, injected_messages }
}

/// The outcome of a batch cut short by a hand-off: one result per call, the
/// unfinished ones cancelled.
pub fn build_transfer_outcome(
    calls: &[ToolCallInfo],
    results: &[(usize, ToolResultMessage)],
    tool_metrics: Vec<ToolExecMetrics>,
    injected_messages: Vec<AgentMessage>,
) -> (r: ToolExecOutcome)
    ensures
        r matches ToolExecOutcome::Completed { results: out, tool_metrics: t, injected_messages: inj }
            && filled_results(out@.map_values(|m: ToolResultMessage| m@), calls_view(calls@), gathered_view(results@), transfer_cancel_text())
            && t@ == tool_metrics@ && inj@ == injected_messages@,
{
    let out = fill_results(calls, results, "tool call cancelled: transfer initiated");
    ToolExecOutcome::Completed { results: out, tool_metrics, injected_messages }
}

/// The outcome of a batch cancelled from outside: one result per call, the
/// unfinished ones cancelled.
pub fn build_aborted_outcome(
    calls: &[ToolCallInfo],
    results: &[(usize, ToolResultMessage)],
    tool_metrics: Vec<ToolExecMetrics>,
    injected_messages: Vec<AgentMessage>,
) -> (r: ToolExecOutcome)
    ensures
        r matches ToolExecOutcome::Aborted { results: out, tool_metrics: t, injected_messages: inj }
            && filled_results(out@.map_values(|m: ToolResultMessage| m@), calls_view(calls@), gathered_view(results@), abort_cancel_text())
            && t@ == tool_metrics@ && inj@ == injected_messages@,
{
    let out = fill_results(calls, results, "tool call cancelled: operation aborted");
    ToolExecOutcome::Aborted { results: out, tool_metrics, injected_messages }
}

/// The error text of a call that the batch never ran because the execution
/// strategy left it out of its groups.
pub open spec fn unscheduled_text() -> Seq<char> {
    "tool call was not run: the execution strategy left it out"@
}

/// The outcome of a batch whose scheduled calls all ran (or failed) to the
/// end: one result per call, in call order; a call no group held is
/// answered with an error.
pub fn build_completed_outcome(
    calls: &[ToolCallInfo],
    results: &[(usize, ToolResultMessage)],
    tool_metrics: Vec<ToolExecMetrics>,
    injected_messages: Vec<AgentMessage>,
) -> (r: ToolExecOutcome)
    ensures
        r matches ToolExecOutcome::Completed { results: out, tool_metrics: t, injected_messages: inj }
            && filled_results(out@.map_values(|m: ToolResultMessage| m@), calls_view(calls@), gathered_view(results@), unscheduled_text())
            && out@.len() == calls@.len()
            && (forall|k: int| 0 <= k < calls@.len() ==> (#[trigger] out@[k])@.tool_call_id == calls@[k]@.id)
            && t@ == tool_metrics@ && inj@ == injected_messages@,
{
    let out = fill_results(calls, results, "tool call was not run: the execution strategy left it out");
    proof {
        answer_each_call(out@, calls@, results@, unscheduled_text());
    }
    ToolExecOutcome::Completed { results: out, tool_metrics, injected_messages }
}

/// The outcome of a batch that a pre-dispatch policy stopped: one result per
/// call, in call order; every call without a recorded result is answered
/// with the stop error carrying `reason`.
pub fn build_stopped_outcome(
    calls: &[ToolCallInfo],
    results: &[(usize, ToolResultMessage)],
    tool_metrics: Vec<ToolExecMetrics>,
    reason: String,
    injected_messages: Vec<AgentMessage>,
) -> (r: ToolExecOutcome)
    ensures
        r matches ToolExecOutcome::Stopped { results: out, tool_metrics: t, reason: why, injected_messages: inj }
            && filled_results(out@.map_values(|m: ToolResultMessage| m@), calls_view(calls@), gathered_view(results@), batch_stop_text(reason@))
            && out@.len() == calls@.len()
            && (forall|k: int| 0 <= k < calls@.len() ==> (#[trigger] out@[k])@.tool_call_id == calls@[k]@.id)
            && why@ == reason@ && t@ == tool_metrics@ && inj@ == injected_messages@,
{
    let text = concat("policy stopped tool batch before dispatch: ", reason.as_str());
    let out = fill_results(calls, results, text.as_str());
    proof {
        answer_each_call(out@, calls@, results@, batch_stop_text(reason@));
    }
    ToolExecOutcome::Stopped { results: out, tool_metrics, reason, injected_messages }
}

/// Filled-in results, read back on the messages themselves.
proof fn answer_each_call(
    out: Seq<ToolResultMessage>,
    calls: Seq<ToolCallInfo>,
    results: Seq<(usize, ToolResultMessage)>,
    text: Seq<char>,
)
    requires
        filled_results(out.map_values(|m: ToolResultMessage| m@), calls_view(calls), gathered_view(results), text),
    ensures
        out.len() == calls.len(),
        forall|k: int| 0 <= k < calls.len() ==> (#[trigger] out[k])@.tool_call_id == calls[k]@.id,
{
    let ov = out.map_values(|m: ToolResultMessage| m@);
    let cv = calls_view(calls);
    lemma_filled_results_answer_calls(ov, cv, gathered_view(results), text);
    assert forall|k: int| 0 <= k < calls.len() implies (#[trigger] out[k])@.tool_call_id == calls[k]@.id by {
        assert(ov[k] == out[k]@);
        assert(cv[k] == calls[k]@);
    }
}

/// The index of the first name equal to `name`: when several tools share a
/// name, the first registered one is the one dispatched to.
pub fn first_index_of(names: &[String], name: &str) -> (r: Option<usize>)
    ensures
        match r {
            Some(i) => i < names@.len() && names@[i as int]@ == name@
                && forall|j: int| 0 <= j < i ==> (#[trigger] names@[j])@ != name@,
            None => forall|j: int| 0 <= j < names@.len() ==> (#[trigger] names@[j])@ != name@,
        },
{
    let mut i: usize = 0;
    while i < names.len()
        invariant
            i <= names@.len(),
            forall|j: int| 0 <= j < i ==> (#[trigger] names@[j])@ != name@,
        decreases names@.len() - i,
    {
        if same_text(names[i].as_str(), name) {
            return Some(i);
        }
        i = i + 1;
    }
    None
}

/// How the approval gate treats tool calls.
#[derive(Debug, Clone, Copy, PartialEq, Eq, Structural)]
pub enum ApprovalMode {
    /// Every call is submitted for approval.
    Enabled,
    /// Only calls of tools that require approval are submitted.
    Smart,
    /// No call is submitted.
    Bypassed,
}

/// Whether a call is submitted to the approval callback.
pub open spec fn approval_needed(has_callback: bool, mode: ApprovalMode, requires_approval: bool) -> bool {
    has_callback && match mode {
        ApprovalMode::Enabled => true,
        ApprovalMode::Smart => requires_approval,
        ApprovalMode::Bypassed => false,
    }
}

/// See [`approval_needed`].
pub fn should_request_approval(has_callback: bool, mode: ApprovalMode, requires_approval: bool) -> (r: bool)
    ensures
        r == approval_needed(has_callback, mode, requires_approval),
{
    if !has_callback {
        return false;
    }
    match mode {
        ApprovalMode::Enabled => true,
        ApprovalMode::Smart => requires_approval,
        ApprovalMode::Bypassed => false,
    }
}

/// The approval callback's decision on one call.
#[derive(Debug)]
pub enum ToolApproval {
    /// Run the call as it is.
    Approved,
    /// Run the call with these arguments instead.
    ApprovedWith(serde_json::Value),
    /// Do not run the call.
    Rejected,
}

/// The error text of a call rejected by the approval gate.
pub open spec fn rejection_text(name: Seq<char>) -> Seq<char> {
    "Tool call '"@ + name + "' was rejected by the approval gate."@
}

/// The effect of an approval decision: the call proceeds with its own or the
/// approved arguments, or is turned down with an error result.
pub enum ApprovalStep {
    Proceed(serde_json::Value),
    Reject(AgentToolResult),
}

pub fn approval_step(decision: ToolApproval, name: &str, arguments: serde_json::Value) -> (r: ApprovalStep)
    ensures
        match decision {
            ToolApproval::Approved => r == ApprovalStep::Proceed(arguments),
            ToolApproval::ApprovedWith(v) => r == ApprovalStep::Proceed(v),
            ToolApproval::Rejected => r matches ApprovalStep::Reject(e) && e.is_error
                && blocks_view(e.content@) == seq![ContentBlockV::Text { text: rejection_text(name@) }],
        },
{
    match decision {
        ToolApproval::Approved => ApprovalStep::Proceed(arguments),
        ToolApproval::ApprovedWith(v) => ApprovalStep::Proceed(v),
        ToolApproval::Rejected => {
            let head = concat("Tool call '", name);
            let text = concat(head.as_str(), "' was rejected by the approval gate.");
            ApprovalStep::Reject(AgentToolResult::error(text))
        },
    }
}

/// The error text of a call rejected because the approval callback panicked.
pub open spec fn approval_panic_text(name: Seq<char>, panic_message: Seq<char>) -> Seq<char> {
    "Tool call '"@ + name + "' was rejected because the approval callback panicked: "@ + panic_message
}

/// The rejection of a call whose approval callback panicked.
pub fn approval_panic_result(name: &str, panic_message: &str) -> (r: AgentToolResult)
    ensures
        r.is_error,
        blocks_view(r.content@) == seq![ContentBlockV::Text { text: approval_panic_text(name@, panic_message@) }],
{
    let head = concat("Tool call '", name);
    let mid = concat(head.as_str(), "' was rejected because the approval callback panicked: ");
    let text = concat(mid.as_str(), panic_message);
    AgentToolResult::error(text)
}

/// How the prepared calls of a batch are scheduled.
#[derive(Debug, Clone, Copy, PartialEq, Eq, Structural)]
pub enum ExecutionMode {
    /// All calls run at once, as one group.
    Concurrent,
    /// One call at a time, in order.
    Sequential,
    /// Groups of equal priority, highest first; calls within a group run at
    /// once.
    Priority,
}

pub open spec fn concurrent_groups(n: nat) -> Seq<Seq<usize>> {
    if n == 0 {
        Seq::empty()
    } else {
        seq![Seq::new(n, |i: int| i as usize)]
    }
}

pub open spec fn sequential_groups(n: nat) -> Seq<Seq<usize>> {
    Seq::new(n, |i: int| seq![i as usize])
}

/// Each prepared call's index with its priority.
pub open spec fn scored(prios: Seq<i32>) -> Seq<(usize, i32)> {
    Seq::new(prios.len(), |i: int| (i as usize, prios[i]))
}

/// How many entries have priority at least `prio`.
pub open spec fn count_at_least(s: Seq<(usize, i32)>, prio: i32) -> nat
    decreases s.len(),
{
    if s.len() == 0 {
        0
    } else {
        count_at_least(s.drop_last(), prio) + if s.last().1 >= prio { 1nat } else { 0nat }
    }
}

/// Entries by descending priority, entries of equal priority in their order.
pub open spec fn desc_order(s: Seq<(usize, i32)>) -> Seq<(usize, i32)>
    decreases s.len(),
{
    if s.len() == 0 {
        s
    } else {
        let sorted = desc_order(s.drop_last());
        sorted.insert(count_at_least(sorted, s.last().1) as int, s.last())
    }
}

/// The runs of equal priority of `s`, in order, as groups of indices.
pub open spec fn runs(s: Seq<(usize, i32)>) -> Seq<Seq<usize>>
    decreases s.len(),
{
    if s.len() == 0 {
        Seq::empty()
    } else {
        let g = runs(s.drop_last());
        if s.len() > 1 && s[s.len() - 2].1 == s.last().1 {
            g.update(g.len() - 1, g.last().push(s.last().0))
        } else {
            g.push(seq![s.last().0])
        }
    }
}

pub open spec fn groups_view(g: Seq<Vec<usize>>) -> Seq<Seq<usize>> {
    g.map_values(|v: Vec<usize>| v@)
}

proof fn lemma_runs_nonempty(s: Seq<(usize, i32)>)
    ensures
        s.len() > 0 ==> runs(s).len() > 0,
    decreases s.len(),
{
    if s.len() > 1 {
        lemma_runs_nonempty(s.drop_last());
    }
}

fn single(i: usize) -> (r: Vec<usize>)
    ensures
        r@ == seq![i],
{
    let mut v: Vec<usize> = Vec::new();
    v.push(i);
    assert(v@ =~= seq![i]);
    v
}

/// The execution groups of `n` prepared calls under `mode`; for
/// [`ExecutionMode::Priority`], `prios[i]` is the priority of call `i`.
pub fn compute_execution_groups(mode: ExecutionMode, prios: &[i32]) -> (r: Vec<Vec<usize>>)
    ensures
        groups_view(r@) == match mode {
            ExecutionMode::Concurrent => concurrent_groups(prios@.len()),
            ExecutionMode::Sequential => sequential_groups(prios@.len()),
            ExecutionMode::Priority => runs(desc_order(scored(prios@))),
        },
{
    let n = prios.len();
    match mode {
        ExecutionMode::Concurrent => {
            let mut out: Vec<Vec<usize>> = Vec::new();
            if n > 0 {
                let mut all: Vec<usize> = Vec::new();
                let mut i: usize = 0;
                while i < n
                    invariant
                        i <= n,
                        all@ == Seq::new(i as nat, |k: int| k as usize),
                    decreases n - i,
                {
                    all.push(i);
                    assert(all@ =~= Seq::new((i + 1) as nat, |k: int| k as usize));
                    i = i + 1;
                }
                out.push(all);
            }
            assert(groups_view(out@) =~= concurrent_groups(n as nat));
            out
        },
        ExecutionMode::Sequential => {
            let mut out: Vec<Vec<usize>> = Vec::new();
            let mut i: usize = 0;
            while i < n
                invariant
                    i <= n,
                    n == prios@.len(),
                    out@.len() == i,
                    groups_view(out@) == sequential_groups(i as nat),
                decreases n - i,
            {
                let ghost before = out@;
                out.push(single(i));
                assert forall|k: int| 0 <= k < i + 1 implies #[trigger] groups_view(out@)[k] == sequential_groups((i + 1) as nat)[k] by {
                    if k < i {
                        assert(out@[k] == before[k]);
                        assert(groups_view(before)[k] == sequential_groups(i as nat)[k]);
                    }
                }
                assert(groups_view(out@) =~= sequential_groups((i + 1) as nat));
                i = i + 1;
            }
            out
        },
        ExecutionMode::Priority => priority_groups(prios),
    }
}

fn sort_by_priority(prios: &[i32]) -> (r: Vec<(usize, i32)>)
    ensures
        r@ == desc_order(scored(prios@)),
{
    let ghost all = scored(prios@);
    let mut sorted: Vec<(usize, i32)> = Vec::new();
    let mut i: usize = 0;
    while i < prios.len()
        invariant
            i <= prios@.len(),
            all == scored(prios@),
            sorted@ == desc_order(all.take(i as int)),
        decreases prios@.len() - i,
    {
        assert(all.take(i + 1).drop_last() =~= all.take(i as int));
        assert(all[i as int] == (i, prios@[i as int]));
        let prio = prios[i];
        let ghost sv = sorted@;
        let mut pos: usize = 0;
        let mut k: usize = 0;
        while k < sorted.len()
            invariant
                k <= sorted@.len(),
                sv == sorted@,
                pos == count_at_least(sv.take(k as int), prio),
                pos <= k,
            decreases sorted@.len() - k,
        {
            assert(sv.take(k + 1).drop_last() =~= sv.take(k as int));
            if sorted[k].1 >= prio {
                pos = pos + 1;
            }
            k = k + 1;
        }
        assert(sv.take(sorted@.len() as int) =~= sv);
        sorted.insert(pos, (i, prio));
        i = i + 1;
    }
    assert(all.take(prios@.len() as int) =~= all);
    sorted
}

fn group_runs(sorted: &Vec<(usize, i32)>) -> (r: Vec<Vec<usize>>)
    ensures
        groups_view(r@) == runs(sorted@),
{
    let ghost ds = sorted@;
    let mut groups: Vec<Vec<usize>> = Vec::new();
    let mut j: usize = 0;
    while j < sorted.len()
        invariant
            j <= sorted@.len(),
            ds == sorted@,
            groups_view(groups@) == runs(ds.take(j as int)),
        decreases sorted@.len() - j,
    {
        let (idx, prio) = sorted[j];
        let ghost prev = ds.take(j as int);
        assert(ds.take(j + 1).drop_last() =~= prev);
        assert(ds.take(j + 1).last() == (idx, prio));
        proof {
            lemma_runs_nonempty(prev);
        }
        if j > 0 && sorted[j - 1].1 == prio {
            let last = groups.len() - 1;
            let mut g = groups.remove(last);
            g.push(idx);
            groups.push(g);
            assert(ds.take(j + 1)[j - 1] == ds[j - 1]);
            assert(groups_view(groups@) =~= runs(prev).update(runs(prev).len() - 1, runs(prev).last().push(idx)));
        } else {
            groups.push(single(idx));
            assert(groups_view(groups@) =~= runs(prev).push(seq![idx]));
        }
        j = j + 1;
    }
    assert(ds.take(sorted@.len() as int) =~= ds);
    groups
}

fn priority_groups(prios: &[i32]) -> (r: Vec<Vec<usize>>)
    ensures
        groups_view(r@) == runs(desc_order(scored(prios@))),
{
    let sorted = sort_by_priority(prios);
    group_runs(&sorted)
}

/// The indices of a partition, group after group.
pub open spec fn flatten(g: Seq<Seq<usize>>) -> Seq<usize>
    decreases g.len(),
{
    if g.len() == 0 {
        Seq::empty()
    } else {
        flatten(g.drop_last()) + g.last()
    }
}

/// Entry `p` of a partition of `n` prepared calls is wrong: out of range, or
/// a repeat of an earlier entry.
pub open spec fn bad_entry(flat: Seq<usize>, n: usize, p: int) -> bool {
    flat[p] >= n || flat.take(p).contains(flat[p])
}

/// The position of the first wrong entry, if any.
pub open spec fn first_bad(flat: Seq<usize>, n: usize) -> Option<int>
    decreases flat.len(),
{
    if flat.len() == 0 {
        None
    } else {
        match first_bad(flat.drop_last(), n) {
            Some(p) => Some(p),
            None => if bad_entry(flat, n, flat.len() - 1) {
                Some(flat.len() - 1)
            } else {
                None
            },
        }
    }
}

/// What is wrong with entry `i` of a partition of `n` prepared calls.
pub open spec fn partition_problem(i: usize, n: usize) -> Seq<char> {
    if i >= n {
        with_number("prepared index "@, i as nat, " is out of range for "@) + with_number(Seq::empty(), n as nat, " prepared tool calls"@)
    } else {
        with_number("repeated prepared index "@, i as nat, Seq::empty())
    }
}

fn flatten_groups(groups: &Vec<Vec<usize>>) -> (r: Vec<usize>)
    ensures
        r@ == flatten(groups_view(groups@)),
{
    let ghost gv = groups_view(groups@);
    let mut out: Vec<usize> = Vec::new();
    let mut i: usize = 0;
    while i < groups.len()
        invariant
            i <= groups@.len(),
            gv == groups_view(groups@),
            out@ == flatten(gv.take(i as int)),
        decreases groups@.len() - i,
    {
        assert(gv.take(i + 1).drop_last() =~= gv.take(i as int));
        let g = &groups[i];
        let ghost before = out@;
        let mut k: usize = 0;
        while k < g.len()
            invariant
                k <= g@.len(),
                out@ == before + g@.take(k as int),
            decreases g@.len() - k,
        {
            out.push(g[k]);
            assert(out@ =~= before + g@.take(k + 1));
            k = k + 1;
        }
        assert(g@.take(g@.len() as int) =~= g@);
        assert(gv.take(i + 1).last() == g@);
        i = i + 1;
    }
    assert(gv.take(groups@.len() as int) =~= gv);
    out
}

/// Check a partition of `n` prepared calls made by a custom scheduling
/// strategy: every index must be in range and appear at most once. The error
/// names the first entry that breaks the rule.
pub fn validate_partition(groups: &Vec<Vec<usize>>, n: usize) -> (r: Result<(), String>)
    ensures
        match first_bad(flatten(groups_view(groups@)), n) {
            None => r is Ok,
            Some(p) => r matches Err(e) && e@ == partition_problem(flatten(groups_view(groups@))[p], n),
        },
{
    let flat = flatten_groups(groups);
    let mut seen: Vec<bool> = Vec::new();
    let mut k: usize = 0;
    while k < n
        invariant
            k <= n,
            seen@.len() == k,
            forall|m: int| 0 <= m < k ==> !(#[trigger] seen@[m]),
        decreases n - k,
    {
        seen.push(false);
        k = k + 1;
    }
    let mut p: usize = 0;
    while p < flat.len()
        invariant
            p <= flat@.len(),
            flat@ == flatten(groups_view(groups@)),
            seen@.len() == n,
            first_bad(flat@.take(p as int), n) is None,
            forall|m: int| 0 <= m < n ==> (#[trigger] seen@[m]) == flat@.take(p as int).contains(m as usize),
        decreases flat@.len() - p,
    {
        let i = flat[p];
        let ghost prefix = flat@.take(p as int);
        assert(flat@.take(p + 1).drop_last() =~= prefix);
        assert(flat@.take(p + 1)[p as int] == i);
        assert(flat@.take(p + 1).take(p as int) =~= prefix);
        if i >= n {
            assert(first_bad(flat@.take(p + 1), n) == Some(p as int));
            proof {
                lemma_first_bad_prefix(flat@, n, (p + 1) as int);
            }
            let head = text_with_number("prepared index ", i, " is out of range for ");
            let tail = text_with_number("", n, " prepared tool calls");
            proof {
                reveal_strlit("");
            }
            assert(""@ =~= Seq::<char>::empty());
            assert(first_bad(flat@, n) == Some(p as int));
            assert(flat@[p as int] == i);
            let e = concat(head.as_str(), tail.as_str());
            assert(e@ == partition_problem(i, n));
            return Err(e);
        }
        if seen[i] {
            assert(prefix.contains(i));
            assert(first_bad(flat@.take(p + 1), n) == Some(p as int));
            proof {
                lemma_first_bad_prefix(flat@, n, (p + 1) as int);
            }
            let msg = text_with_number("repeated prepared index ", i, "");
            proof {
                reveal_strlit("");
            }
            assert(""@ =~= Seq::<char>::empty());
            assert(first_bad(flat@, n) == Some(p as int));
            assert(flat@[p as int] == i);
            assert(msg@ == partition_problem(i, n));
            return Err(msg);
        }
        assert(!prefix.contains(i));
        seen.set(i, true);
        assert forall|m: int| 0 <= m < n implies (#[trigger] seen@[m]) == flat@.take(p + 1).contains(m as usize) by {
            if m == i as int {
                assert(flat@.take(p + 1)[p as int] == i);
            } else {
                if flat@.take(p + 1).contains(m as usize) {
                    let q = choose|q: int| 0 <= q < p + 1 && #[trigger] flat@.take(p + 1)[q] == m as usize;
                    assert(q < p);
                    assert(prefix[q] == m as usize);
                }
                if prefix.contains(m as usize) {
                    let q = choose|q: int| 0 <= q < p && #[trigger] prefix[q] == m as usize;
                    assert(flat@.take(p + 1)[q] == m as usize);
                }
            }
        }
        p = p + 1;
    }
    assert(flat@.take(flat@.len() as int) =~= flat@);
    Ok(())
}

/// Once a prefix has a wrong entry, the first one stays the first.
proof fn lemma_first_bad_prefix(flat: Seq<usize>, n: usize, len: int)
    requires
        0 <= len <= flat.len(),
        first_bad(flat.take(len), n) is Some,
    ensures
        first_bad(flat, n) == first_bad(flat.take(len), n),
    decreases flat.len() - len,
{
    if len < flat.len() {
        assert(flat.take(len + 1).drop_last() =~= flat.take(len));
        lemma_first_bad_prefix(flat, n, len + 1);
    } else {
        assert(flat.take(len) =~= flat);
    }
}

/// Entries by descending priority keep every entry, and nothing else.
proof fn lemma_desc_order_members(s: Seq<(usize, i32)>)
    ensures
        desc_order(s).len() == s.len(),
        forall|x: (usize, i32)| s.contains(x) <==> #[trigger] desc_order(s).contains(x),
    decreases s.len(),
{
    if s.len() > 0 {
        let init = s.drop_last();
        lemma_desc_order_members(init);
        let sorted = desc_order(init);
        lemma_count_bound(sorted, s.last().1);
        let c = count_at_least(sorted, s.last().1) as int;
        let r = sorted.insert(c, s.last());
        assert forall|x: (usize, i32)| s.contains(x) <==> #[trigger] r.contains(x) by {
            if s.contains(x) {
                let i = choose|i: int| 0 <= i < s.len() && s[i] == x;
                if i == s.len() - 1 {
                    assert(r[c] == x);
                } else {
                    assert(init[i] == x);
                    assert(init.contains(x));
                    assert(sorted.contains(x));
                    let j = choose|j: int| 0 <= j < sorted.len() && sorted[j] == x;
                    if j < c {
                        assert(r[j] == x);
                    } else {
                        assert(r[j + 1] == x);
                    }
                }
            }
            if r.contains(x) {
                let j = choose|j: int| 0 <= j < r.len() && r[j] == x;
                if j == c {
                    assert(s[s.len() - 1] == x);
                } else {
                    let k = if j < c { j } else { j - 1 };
                    assert(sorted[k] == x);
                    assert(sorted.contains(x));
                    assert(init.contains(x));
                    let i = choose|i: int| 0 <= i < init.len() && init[i] == x;
                    assert(s[i] == x);
                }
            }
        }
    }
}

proof fn lemma_count_bound(s: Seq<(usize, i32)>, prio: i32)
    ensures
        count_at_least(s, prio) <= s.len(),
    decreases s.len(),
{
    if s.len() > 0 {
        lemma_count_bound(s.drop_last(), prio);
    }
}

pub open spec fn is_desc(s: Seq<(usize, i32)>) -> bool {
    forall|i: int, j: int| 0 <= i < j < s.len() ==> (#[trigger] s[i]).1 >= (#[trigger] s[j]).1
}

proof fn lemma_count_prefix(s: Seq<(usize, i32)>, prio: i32)
    requires
        is_desc(s),
    ensures
        count_at_least(s, prio) <= s.len(),
        forall|i: int| 0 <= i < count_at_least(s, prio) ==> (#[trigger] s[i]).1 >= prio,
        forall|i: int| count_at_least(s, prio) <= i < s.len() ==> (#[trigger] s[i]).1 < prio,
    decreases s.len(),
{
    if s.len() > 0 {
        let init = s.drop_last();
        assert forall|i: int, j: int| 0 <= i < j < init.len() implies (#[trigger] init[i]).1 >= (#[trigger] init[j]).1 by {
            assert(init[i] == s[i] && init[j] == s[j]);
        }
        lemma_count_prefix(init, prio);
        let c = count_at_least(init, prio);
        if s.last().1 >= prio {
            if c < init.len() {
                assert(init[c as int].1 < prio);
                assert(s[c as int].1 >= s[s.len() - 1].1);
            }
        }
        assert forall|i: int| 0 <= i < count_at_least(s, prio) implies (#[trigger] s[i]).1 >= prio by {
            if i < init.len() {
                assert(s[i] == init[i]);
            }
        }
        assert forall|i: int| count_at_least(s, prio) <= i < s.len() implies (#[trigger] s[i]).1 < prio by {
            if i < init.len() {
                assert(s[i] == init[i]);
            }
        }
    }
}

proof fn lemma_desc_order_sorted(s: Seq<(usize, i32)>)
    ensures
        is_desc(desc_order(s)),
    decreases s.len(),
{
    if s.len() > 0 {
        let sorted = desc_order(s.drop_last());
        lemma_desc_order_sorted(s.drop_last());
        let x = s.last();
        lemma_count_prefix(sorted, x.1);
        let c = count_at_least(sorted, x.1) as int;
        let r = sorted.insert(c, x);
        assert forall|i: int, j: int| 0 <= i < j < r.len() implies (#[trigger] r[i]).1 >= (#[trigger] r[j]).1 by {
            if j < c {
                assert(r[i] == sorted[i] && r[j] == sorted[j]);
            } else if j == c {
                assert(r[i] == sorted[i]);
            } else if i == c {
                assert(r[j] == sorted[j - 1]);
            } else if i < c {
                assert(r[i] == sorted[i] && r[j] == sorted[j - 1]);
            } else {
                assert(r[i] == sorted[i - 1] && r[j] == sorted[j - 1]);
            }
        }
    }
}

/// The groups of `runs` hold the indices of `s`, in order.
proof fn lemma_runs_flatten(s: Seq<(usize, i32)>)
    ensures
        flatten(runs(s)) == s.map_values(|e: (usize, i32)| e.0),
    decreases s.len(),
{
    if s.len() > 0 {
        let init = s.drop_last();
        lemma_runs_flatten(init);
        lemma_runs_nonempty(init);
        let g = runs(init);
        if s.len() > 1 && s[s.len() - 2].1 == s.last().1 {
            let u = g.update(g.len() - 1, g.last().push(s.last().0));
            assert(u.drop_last() =~= g.drop_last());
            assert(flatten(g) == flatten(g.drop_last()) + g.last());
            assert(flatten(u) =~= flatten(g).push(s.last().0));
        } else {
            assert(g.push(seq![s.last().0]).drop_last() =~= g);
            assert(flatten(g.push(seq![s.last().0])) =~= flatten(g).push(s.last().0));
        }
        assert(s.map_values(|e: (usize, i32)| e.0) =~= init.map_values(|e: (usize, i32)| e.0).push(s.last().0));
    }
}

/// In a descending sequence of indices with their priorities, each run is
/// one priority, and the runs' priorities strictly decrease.
proof fn lemma_runs_shape(s: Seq<(usize, i32)>, prios: Seq<i32>)
    requires
        forall|i: int| 0 <= i < s.len() ==> (#[trigger] s[i]).0 < prios.len() && prios[s[i].0 as int] == s[i].1,
        is_desc(s),
    ensures
        forall|a: int| 0 <= a < runs(s).len() ==> (#[trigger] runs(s)[a]).len() > 0,
        forall|a: int, k: int| 0 <= a < runs(s).len() && 0 <= k < runs(s)[a].len()
            ==> prios[(#[trigger] runs(s)[a][k]) as int] == prios[runs(s)[a][0] as int],
        forall|a: int| 0 <= a < runs(s).len() - 1
            ==> prios[(#[trigger] runs(s)[a])[0] as int] > prios[runs(s)[a + 1][0] as int],
        s.len() > 0 ==> runs(s).len() > 0 && prios[runs(s).last()[0] as int] == s.last().1,
    decreases s.len(),
{
    if s.len() > 0 {
        let init = s.drop_last();
        assert forall|i: int| 0 <= i < init.len() implies (#[trigger] init[i]).0 < prios.len() && prios[init[i].0 as int] == init[i].1 by {
            assert(init[i] == s[i]);
        }
        assert forall|i: int, j: int| 0 <= i < j < init.len() implies (#[trigger] init[i]).1 >= (#[trigger] init[j]).1 by {
            assert(init[i] == s[i] && init[j] == s[j]);
        }
        lemma_runs_shape(init, prios);
        let g = runs(init);
        let x = s.last();
        assert(s[s.len() - 1] == x);
        if s.len() > 1 && s[s.len() - 2].1 == x.1 {
            assert(init.last() == s[s.len() - 2]);
            let u = g.update(g.len() - 1, g.last().push(x.0));
            assert(runs(s) == u);
            assert forall|a: int, k: int| 0 <= a < u.len() && 0 <= k < u[a].len()
                implies prios[(#[trigger] u[a][k]) as int] == prios[u[a][0] as int] by {
                if a == u.len() - 1 {
                    if k < g.last().len() {
                        assert(u[a][k] == g[a][k]);
                    } else {
                        assert(u[a][k] == x.0);
                    }
                    assert(u[a][0] == g[a][0]);
                } else {
                    assert(u[a] == g[a]);
                }
            }
            assert forall|a: int| 0 <= a < u.len() - 1 implies prios[(#[trigger] u[a])[0] as int] > prios[u[a + 1][0] as int] by {
                assert(u[a] == g[a]);
                if a + 1 == u.len() - 1 {
                    assert(u[a + 1][0] == g[a + 1][0]);
                } else {
                    assert(u[a + 1] == g[a + 1]);
                }
            }
            assert(u.last()[0] == g.last()[0]);
        } else {
            let u = g.push(seq![x.0]);
            assert(runs(s) == u);
            assert forall|a: int, k: int| 0 <= a < u.len() && 0 <= k < u[a].len()
                implies prios[(#[trigger] u[a][k]) as int] == prios[u[a][0] as int] by {
                if a < g.len() {
                    assert(u[a] == g[a]);
                }
            }
            assert forall|a: int| 0 <= a < u.len() - 1 implies prios[(#[trigger] u[a])[0] as int] > prios[u[a + 1][0] as int] by {
                assert(u[a] == g[a]);
                if a + 1 == g.len() {
                    assert(init.last() == s[s.len() - 2]);
                    assert(s[s.len() - 2].1 >= x.1);
                    assert(u[a + 1][0] == x.0);
                } else {
                    assert(u[a + 1] == g[a + 1]);
                }
            }
        }
    }
}

/// Grouping by priority schedules every prepared call exactly once: the
/// groups hold `n` indices, each of `0..n` among them; all calls of a group
/// share one priority, and each group's priority is below the previous
/// group's.
pub proof fn lemma_priority_groups_partition(prios: Seq<i32>)
    requires
        prios.len() <= usize::MAX,
    ensures
        flatten(runs(desc_order(scored(prios)))).len() == prios.len(),
        forall|i: usize| i < prios.len() ==> #[trigger] flatten(runs(desc_order(scored(prios)))).contains(i),
        forall|a: int, k: int| 0 <= a < runs(desc_order(scored(prios))).len() && 0 <= k < runs(desc_order(scored(prios)))[a].len()
            ==> prios[(#[trigger] runs(desc_order(scored(prios)))[a][k]) as int]
                == prios[runs(desc_order(scored(prios)))[a][0] as int],
        forall|a: int| 0 <= a < runs(desc_order(scored(prios))).len() - 1
            ==> prios[(#[trigger] runs(desc_order(scored(prios)))[a])[0] as int]
                > prios[runs(desc_order(scored(prios)))[a + 1][0] as int],
{
    let sc = scored(prios);
    let d = desc_order(sc);
    lemma_desc_order_members(sc);
    lemma_desc_order_sorted(sc);
    lemma_runs_flatten(d);
    assert forall|i: int| 0 <= i < d.len() implies (#[trigger] d[i]).0 < prios.len() && prios[d[i].0 as int] == d[i].1 by {
        assert(d.contains(d[i]));
        assert(sc.contains(d[i]));
        let j = choose|j: int| 0 <= j < sc.len() && sc[j] == d[i];
        assert(sc[j] == (j as usize, prios[j]));
    }
    lemma_runs_shape(d, prios);
    let f = flatten(runs(d));
    assert forall|i: usize| i < prios.len() implies #[trigger] f.contains(i) by {
        assert(sc[i as int] == (i, prios[i as int]));
        assert(sc.contains(sc[i as int]));
        assert(d.contains(sc[i as int]));
        let j = choose|j: int| 0 <= j < d.len() && d[j] == sc[i as int];
        assert(f[j] == d[j].0);
    }
}

/// Where a tool batch stands after a group's tool finished.
#[derive(Debug, Clone, Copy, PartialEq, Eq, Structural)]
pub enum GroupOutcome {
    /// Every tool of the group finished: go on with the next group.
    Continue,
    /// A steering message arrived: stop the remaining groups.
    SteeringInterrupt,
    /// A tool handed off to another agent: stop the batch and end the turn.
    TransferInterrupt,
    /// The batch was cancelled from outside.
    Aborted,
}

/// After one tool of a group finished: a steering message interrupts the
/// batch, else a hand-off does, else collection goes on (`None`) until the
/// group is done.
pub fn after_tool_finished(steering_detected: bool, transfer_detected: bool, remaining: usize) -> (r: Option<GroupOutcome>)
    ensures
        r == (if steering_detected {
            Some(GroupOutcome::SteeringInterrupt)
        } else if transfer_detected {
            Some(GroupOutcome::TransferInterrupt)
        } else if remaining == 0 {
            Some(GroupOutcome::Continue)
        } else {
            None
        }),
{
    if steering_detected {
        Some(GroupOutcome::SteeringInterrupt)
    } else if transfer_detected {
        Some(GroupOutcome::TransferInterrupt)
    } else if remaining == 0 {
        Some(GroupOutcome::Continue)
    } else {
        None
    }
}

/// The error text of a tool whose task panicked or failed to join.
pub open spec fn tool_failure_text(detail: Seq<char>) -> Seq<char> {
    "tool execution panicked: "@ + detail
}

/// The result of a tool whose task panicked or failed to join.
pub fn tool_failure_result(detail: &str) -> (r: AgentToolResult)
    ensures
        r.is_error,
        blocks_view(r.content@) == seq![ContentBlockV::Text { text: tool_failure_text(detail@) }],
{
    AgentToolResult::error(concat("tool execution panicked: ", detail))
}

/// What the pre-dispatch verdict does to one tool call.
pub enum PreDispatchStep {
    /// Go on to the approval gate.
    Proceed,
    /// Do not run the call; answer it with this error.
    Skip(AgentToolResult),
    /// Stop the whole batch, and the loop, with this reason.
    StopBatch(String),
}

/// The effect of the pre-dispatch verdict on one call: injected messages
/// are kept for the next turn, a skip answers the call with its text as an
/// error, a stop ends the batch.
pub fn pre_dispatch_step(verdict: PreDispatchVerdict, injected: &mut Vec<AgentMessage>) -> (r: PreDispatchStep)
    ensures
        match verdict {
            PreDispatchVerdict::Continue => r is Proceed && final(injected)@ == old(injected)@,
            PreDispatchVerdict::Inject(m) => r is Proceed && final(injected)@ == old(injected)@ + m@,
            PreDispatchVerdict::Skip(text) => final(injected)@ == old(injected)@
                && (r matches PreDispatchStep::Skip(e) && e.is_error
                && blocks_view(e.content@) == seq![ContentBlockV::Text { text: text@ }]),
            PreDispatchVerdict::Stop(reason) => final(injected)@ == old(injected)@ && r == PreDispatchStep::StopBatch(reason),
        },
{
    match verdict {
        PreDispatchVerdict::Continue => PreDispatchStep::Proceed,
        PreDispatchVerdict::Inject(msgs) => {
            let mut msgs = msgs;
            injected.append(&mut msgs);
            PreDispatchStep::Proceed
        },
        PreDispatchVerdict::Skip(text) => PreDispatchStep::Skip(AgentToolResult::error(text)),
        PreDispatchVerdict::Stop(reason) => PreDispatchStep::StopBatch(reason),
    }
}

/// The error text of a call to a tool that is not registered.
pub open spec fn unknown_tool_text(name: Seq<char>) -> Seq<char> {
    "unknown tool: "@ + name
}

/// The parts joined with `"; "` between them.
pub open spec fn joined(parts: Seq<Seq<char>>) -> Seq<char>
    decreases parts.len(),
{
    if parts.len() == 0 {
        Seq::empty()
    } else if parts.len() == 1 {
        parts[0]
    } else {
        joined(parts.drop_last()) + "; "@ + parts.last()
    }
}

/// The error text of a call whose arguments do not match the tool's schema.
pub open spec fn invalid_arguments_text(errors: Seq<Seq<char>>) -> Seq<char> {
    "invalid arguments: "@ + joined(errors)
}

/// The views of a list of strings.
pub open spec fn texts_view(v: Seq<String>) -> Seq<Seq<char>> {
    v.map_values(|s: String| s@)
}

/// The schema errors, joined with `"; "`.
pub fn join_errors(errors: &Vec<String>) -> (r: String)
    ensures
        r@ == joined(texts_view(errors@)),
{
    let mut out = String::new();
    let mut i: usize = 0;
    while i < errors.len()
        invariant
            i <= errors@.len(),
            out@ == joined(texts_view(errors@).take(i as int)),
        decreases errors@.len() - i,
    {
        let ghost before = texts_view(errors@).take(i as int);
        if i > 0 {
            out.push_str("; ");
        }
        out.push_str(errors[i].as_str());
        proof {
            let after = texts_view(errors@).take(i + 1);
            assert(after.drop_last() =~= before);
            if i == 0 {
                assert(before =~= Seq::<Seq<char>>::empty());
                assert(out@ =~= after[0]);
            } else {
                assert(out@ =~= joined(before) + "; "@ + after.last());
            }
        }
        i = i + 1;
    }
    assert(texts_view(errors@).take(errors@.len() as int) =~= texts_view(errors@));
    out
}

/// What happens to one tool call that passed the approval gate.
pub enum DispatchStep {
    /// No tool has the called name: the call is answered with this error and
    /// never looks started.
    UnknownTool(AgentToolResult),
    /// The arguments do not match the tool's schema: the call is answered
    /// with this error, is never executed and never looks started.
    InvalidArguments(AgentToolResult),
    /// The call starts and the tool runs.
    Execute,
}

/// Decide a tool call from whether its tool is registered and what checking
/// its arguments against the tool's schema gave.
pub fn dispatch_step(tool_known: bool, validation: Result<(), Vec<String>>, name: &str) -> (r: DispatchStep)
    ensures
        !tool_known ==> (r matches DispatchStep::UnknownTool(res) && res.is_error
            && blocks_view(res.content@) == seq![ContentBlockV::Text { text: unknown_tool_text(name@) }]),
        tool_known && validation is Err ==> (r matches DispatchStep::InvalidArguments(res) && res.is_error
            && blocks_view(res.content@) == seq![ContentBlockV::Text { text: invalid_arguments_text(texts_view(validation->Err_0@)) }]),
        tool_known && validation is Ok ==> r is Execute,
{
    if !tool_known {
        return DispatchStep::UnknownTool(AgentToolResult::error(concat("unknown tool: ", name)));
    }
    match validation {
        Ok(()) => DispatchStep::Execute,
        Err(errors) => {
            let joined_errors = join_errors(&errors);
            DispatchStep::InvalidArguments(AgentToolResult::error(concat("invalid arguments: ", joined_errors.as_str())))
        },
    }
}

/// The error text of every call of a batch whose custom schedule was refused.
pub open spec fn invalid_partition_text(problem: Seq<char>) -> Seq<char> {
    "custom tool execution strategy returned an invalid partition: "@ + problem
}

/// Accept the groups a custom scheduling strategy proposed for `n` prepared
/// calls, or refuse them with the error every call is then answered with.
pub fn check_custom_partition(groups: Vec<Vec<usize>>, n: usize) -> (r: Result<Vec<Vec<usize>>, AgentToolResult>)
    ensures
        match first_bad(flatten(groups_view(groups@)), n) {
            None => r matches Ok(g) && g@ == groups@,
            Some(p) => r matches Err(res) && res.is_error && blocks_view(res.content@) == seq![ContentBlockV::Text {
                text: invalid_partition_text(partition_problem(flatten(groups_view(groups@))[p], n)),
            }],
        },
{
    match validate_partition(&groups, n) {
        Ok(()) => Ok(groups),
        Err(problem) => Err(AgentToolResult::error(
            concat("custom tool execution strategy returned an invalid partition: ", problem.as_str()),
        )),
    }
}

} // verus!

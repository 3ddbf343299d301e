//! The streaming protocol between providers and the loop: incremental events,
//! and their accumulation into a finished assistant message.
use std::time::Duration;

use vstd::prelude::*;

use crate::classify::now_timestamp;
use crate::json::{json_empty_object, json_is_object, json_literal, json_null, json_parse, json_parse_outcome, json_value_is_object};
use crate::stream_error_kind::StreamErrorKind;
use crate::text::{concat, text_with_number, with_number};
use crate::types::{
    blocks_view, opt_view, AssistantMessage, AssistantMessageV, ContentBlock, ContentBlockV,
    StopReason, Usage,
};

verus! {

/// An incremental event emitted by a provider stream.
///
/// Events follow a start/delta/end protocol per content block; each block
/// carries the `content_index` of its position in the final message.
#[derive(Debug)]
pub enum AssistantMessageEvent {
    /// The stream has opened.
    Start,
    /// A new text block starts at `content_index`.
    TextStart { content_index: usize },
    /// A text fragment for the block at `content_index`.
    TextDelta { content_index: usize, delta: String },
    /// The text block at `content_index` is complete.
    TextEnd { content_index: usize },
    /// A new thinking block starts at `content_index`.
    ThinkingStart { content_index: usize },
    /// A thinking fragment for the block at `content_index`.
    ThinkingDelta { content_index: usize, delta: String },
    /// The thinking block at `content_index` is complete.
    ThinkingEnd { content_index: usize, signature: Option<String> },
    /// A new tool call starts at `content_index`.
    ToolCallStart { content_index: usize, id: String, name: String },
    /// A JSON argument fragment for the tool call at `content_index`.
    ToolCallDelta { content_index: usize, delta: String },
    /// The tool call at `content_index` is complete.
    ToolCallEnd { content_index: usize },
    /// The stream completed successfully.
    Done { stop_reason: StopReason, usage: Usage },
    /// The stream ended with an error.
    Error {
        stop_reason: StopReason,
        error_message: String,
        usage: Option<Usage>,
        /// Optional structured classification of the error.
        error_kind: Option<StreamErrorKind>,
        /// Provider-supplied retry-after hint, when the error response had one.
        retry_after: Option<Duration>,
    },
}

/// The mathematical content of an [`AssistantMessageEvent`].
pub enum EventV {
    Start,
    TextStart { ci: nat },
    TextDelta { ci: nat, delta: Seq<char> },
    TextEnd { ci: nat },
    ThinkingStart { ci: nat },
    ThinkingDelta { ci: nat, delta: Seq<char> },
    ThinkingEnd { ci: nat, signature: Option<Seq<char>> },
    ToolCallStart { ci: nat, id: Seq<char>, name: Seq<char> },
    ToolCallDelta { ci: nat, delta: Seq<char> },
    ToolCallEnd { ci: nat },
    Done { stop_reason: StopReason, usage: Usage },
    Error {
        stop_reason: StopReason,
        error_message: Seq<char>,
        usage: Option<Usage>,
        error_kind: Option<StreamErrorKind>,
    },
}

impl View for AssistantMessageEvent {
    type V = EventV;

    open spec fn view(&self) -> EventV {
        match self {
            AssistantMessageEvent::Start => EventV::Start,
            AssistantMessageEvent::TextStart { content_index } => EventV::TextStart {
                ci: *content_index as nat,
            },
            AssistantMessageEvent::TextDelta { content_index, delta } => EventV::TextDelta {
                ci: *content_index as nat,
                delta: delta@,
            },
            AssistantMessageEvent::TextEnd { content_index } => EventV::TextEnd {
                ci: *content_index as nat,
            },
            AssistantMessageEvent::ThinkingStart { content_index } => EventV::ThinkingStart {
                ci: *content_index as nat,
            },
            AssistantMessageEvent::ThinkingDelta { content_index, delta } => EventV::ThinkingDelta {
                ci: *content_index as nat,
                delta: delta@,
            },
            AssistantMessageEvent::ThinkingEnd { content_index, signature } => EventV::ThinkingEnd {
                ci: *content_index as nat,
                signature: opt_view(*signature),
            },
            AssistantMessageEvent::ToolCallStart { content_index, id, name } => EventV::ToolCallStart {
                ci: *content_index as nat,
                id: id@,
                name: name@,
            },
            AssistantMessageEvent::ToolCallDelta { content_index, delta } => EventV::ToolCallDelta {
                ci: *content_index as nat,
                delta: delta@,
            },
            AssistantMessageEvent::ToolCallEnd { content_index } => EventV::ToolCallEnd {
                ci: *content_index as nat,
            },
            AssistantMessageEvent::Done { stop_reason, usage } => EventV::Done {
                stop_reason: *stop_reason,
                usage: *usage,
            },
            AssistantMessageEvent::Error { stop_reason, error_message, usage, error_kind, .. } =>
                EventV::Error {
                stop_reason: *stop_reason,
                error_message: error_message@,
                usage: *usage,
                error_kind: *error_kind,
            },
        }
    }
}

impl AssistantMessageEvent {
    /// An error event with no structured classification.
    pub fn error(message: &str) -> (r: Self)
        ensures
            r@ == (EventV::Error {
                stop_reason: StopReason::Error,
                error_message: message@,
                usage: None,
                error_kind: None,
            }),
            r matches AssistantMessageEvent::Error { retry_after, .. } && retry_after is None,
    {
        Self::error_of_kind(message, None)
    }

    fn error_of_kind(message: &str, kind: Option<StreamErrorKind>) -> (r: Self)
        ensures
            r@ == (EventV::Error {
                stop_reason: StopReason::Error,
                error_message: message@,
                usage: None,
                error_kind: kind,
            }),
            r matches AssistantMessageEvent::Error { retry_after, .. } && retry_after is None,
    {
        AssistantMessageEvent::Error {
            stop_reason: StopReason::Error,
            error_message: message.to_owned(),
            usage: None,
            error_kind: kind,
            retry_after: None,
        }
    }

    /// A throttle/rate-limit error event.
    pub fn error_throttled(message: &str) -> (r: Self)
        ensures
            r@ == (EventV::Error {
                stop_reason: StopReason::Error,
                error_message: message@,
                usage: None,
                error_kind: Some(StreamErrorKind::Throttled),
            }),
            r matches AssistantMessageEvent::Error { retry_after, .. } && retry_after is None,
    {
        Self::error_of_kind(message, Some(StreamErrorKind::Throttled))
    }

    /// A context-window overflow error event.
    pub fn error_context_overflow(message: &str) -> (r: Self)
        ensures
            r@ == (EventV::Error {
                stop_reason: StopReason::Error,
                error_message: message@,
                usage: None,
                error_kind: Some(StreamErrorKind::ContextWindowExceeded),
            }),
            r matches AssistantMessageEvent::Error { retry_after, .. } && retry_after is None,
    {
        Self::error_of_kind(message, Some(StreamErrorKind::ContextWindowExceeded))
    }

    /// An authentication error event.
    pub fn error_auth(message: &str) -> (r: Self)
        ensures
            r@ == (EventV::Error {
                stop_reason: StopReason::Error,
                error_message: message@,
                usage: None,
                error_kind: Some(StreamErrorKind::Auth),
            }),
            r matches AssistantMessageEvent::Error { retry_after, .. } && retry_after is None,
    {
        Self::error_of_kind(message, Some(StreamErrorKind::Auth))
    }

    /// A network/server error event.
    pub fn error_network(message: &str) -> (r: Self)
        ensures
            r@ == (EventV::Error {
                stop_reason: StopReason::Error,
                error_message: message@,
                usage: None,
                error_kind: Some(StreamErrorKind::Network),
            }),
            r matches AssistantMessageEvent::Error { retry_after, .. } && retry_after is None,
    {
        Self::error_of_kind(message, Some(StreamErrorKind::Network))
    }

    /// A content-filtered error event.
    pub fn error_content_filtered(message: &str) -> (r: Self)
        ensures
            r@ == (EventV::Error {
                stop_reason: StopReason::Error,
                error_message: message@,
                usage: None,
                error_kind: Some(StreamErrorKind::ContentFiltered),
            }),
            r matches AssistantMessageEvent::Error { retry_after, .. } && retry_after is None,
    {
        Self::error_of_kind(message, Some(StreamErrorKind::ContentFiltered))
    }

    /// A model-retired error event.
    pub fn error_model_retired(message: &str) -> (r: Self)
        ensures
            r@ == (EventV::Error {
                stop_reason: StopReason::Error,
                error_message: message@,
                usage: None,
                error_kind: Some(StreamErrorKind::ModelRetired),
            }),
            r matches AssistantMessageEvent::Error { retry_after, .. } && retry_after is None,
    {
        Self::error_of_kind(message, Some(StreamErrorKind::ModelRetired))
    }

    /// The five events of a complete single-text-block response.
    pub fn text_response(text: &str) -> (r: Vec<Self>)
        ensures
            events_view(r@) == text_response_events(text@),
    {
        let mut v: Vec<Self> = Vec::new();
        v.push(AssistantMessageEvent::Start);
        v.push(AssistantMessageEvent::TextStart { content_index: 0 });
        v.push(AssistantMessageEvent::TextDelta { content_index: 0, delta: text.to_owned() });
        v.push(AssistantMessageEvent::TextEnd { content_index: 0 });
        v.push(AssistantMessageEvent::Done { stop_reason: StopReason::Stop, usage: Usage::zero() });
        assert(events_view(v@) =~= seq![
            EventV::Start,
            EventV::TextStart { ci: 0 },
            EventV::TextDelta { ci: 0, delta: text@ },
            EventV::TextEnd { ci: 0 },
            EventV::Done { stop_reason: StopReason::Stop, usage: Usage::spec_zero() },
        ]);
        v
    }
}

/// The events of a complete single-text-block response carrying `text`.
pub open spec fn text_response_events(text: Seq<char>) -> Seq<EventV> {
    seq![
        EventV::Start,
        EventV::TextStart { ci: 0 },
        EventV::TextDelta { ci: 0, delta: text },
        EventV::TextEnd { ci: 0 },
        EventV::Done { stop_reason: StopReason::Stop, usage: Usage::spec_zero() },
    ]
}

pub open spec fn events_view(v: Seq<AssistantMessageEvent>) -> Seq<EventV> {
    v.map_values(|e: AssistantMessageEvent| e@)
}

// ─── Accumulation ─────────────────────────────────────────────────────────────

/// What accumulation has gathered so far. `content` is `None` until `Start`;
/// `open[i]` says whether block `i` still awaits its end event.
pub struct AccState {
    pub content: Option<Seq<ContentBlockV>>,
    pub open: Seq<bool>,
    pub stop_reason: Option<StopReason>,
    pub usage: Option<Usage>,
    pub error_message: Option<Seq<char>>,
    pub error_kind: Option<StreamErrorKind>,
    pub saw_terminal: bool,
}

pub open spec fn acc_init() -> AccState {
    AccState {
        content: None,
        open: Seq::empty(),
        stop_reason: None,
        usage: None,
        error_message: None,
        error_kind: None,
        saw_terminal: false,
    }
}

/// Whether some event of the stream is a `Done` that stopped on the length
/// limit: then truncated tool-call blocks are tolerated.
pub open spec fn tolerates_truncation(events: Seq<EventV>) -> bool {
    exists|i: int| 0 <= i < events.len() && (#[trigger] events[i] matches EventV::Done {
        stop_reason,
        ..
    } && stop_reason == StopReason::Length)
}

pub open spec fn is_content_event(e: EventV) -> bool {
    !(e is Start || e is Done || e is Error)
}

/// The first block still open, if any.
pub open spec fn first_open(open: Seq<bool>) -> Option<nat>
    decreases open.len(),
{
    if open.len() == 0 {
        None
    } else {
        match first_open(open.drop_last()) {
            Some(i) => Some(i),
            None => if open.last() {
                Some((open.len() - 1) as nat)
            } else {
                None
            },
        }
    }
}

/// Every open block is a tool call.
pub open spec fn open_are_tool_calls(content: Seq<ContentBlockV>, open: Seq<bool>) -> bool {
    forall|i: int| 0 <= i < open.len() && #[trigger] open[i] ==> content[i] is ToolCall
}

/// A terminal event is refused while a block is still open, except (when
/// truncation is tolerated) tool calls cut short by the length limit.
pub open spec fn check_terminal(name: Seq<char>, s: AccState, tolerate: bool) -> Option<Seq<char>> {
    match first_open(s.open) {
        Some(idx) => match s.content {
            None => Some(name + " before Start"@),
            Some(c) => if tolerate && open_are_tool_calls(c, s.open) {
                None
            } else {
                Some(with_number(name + " received with unterminated content block at index "@, idx, Seq::empty()))
            },
        },
        None => None,
    }
}

pub open spec fn start_block(s: AccState, c: Seq<ContentBlockV>, ci: nat, name: Seq<char>, block: ContentBlockV) -> Result<AccState, Seq<char>> {
    if ci != c.len() {
        Err(with_number(name + " content_index "@, ci, " != content length "@ + crate::text::decimal(c.len())))
    } else {
        Ok(AccState { content: Some(c.push(block)), open: s.open.push(true), ..s })
    }
}

/// Refused when the block exists and was already closed.
pub open spec fn closed_error(s: AccState, ci: nat, name: Seq<char>) -> Option<Seq<char>> {
    if ci < s.open.len() && !s.open[ci as int] {
        Some(with_number(name + ": block at index "@, ci, " is already closed"@))
    } else {
        None
    }
}

pub open spec fn invalid_index(name: Seq<char>, ci: nat) -> Seq<char> {
    with_number(name + ": invalid content_index "@, ci, Seq::empty())
}

pub open spec fn wrong_kind(name: Seq<char>, ci: nat, kind: Seq<char>) -> Seq<char> {
    with_number(name + ": block at index "@, ci, " is not "@ + kind)
}

pub open spec fn close(s: AccState, c: Seq<ContentBlockV>, ci: nat) -> AccState {
    AccState { content: Some(c), open: s.open.update(ci as int, false), ..s }
}

/// One accumulation step on an event that addresses a block (state after
/// `Start`, before any terminal event).
pub open spec fn block_step(s: AccState, c: Seq<ContentBlockV>, e: EventV, tolerate: bool) -> Result<AccState, Seq<char>> {
    match e {
        EventV::TextStart { ci } => start_block(s, c, ci, "TextStart"@, ContentBlockV::Text { text: Seq::empty() }),
        EventV::ThinkingStart { ci } => start_block(s, c, ci, "ThinkingStart"@, ContentBlockV::Thinking { thinking: Seq::empty(), signature: None }),
        EventV::ToolCallStart { ci, id, name } => start_block(s, c, ci, "ToolCallStart"@, ContentBlockV::ToolCall { id, name, arguments: json_literal("null"@), partial_json: Some(Seq::empty()) }),
        EventV::TextDelta { ci, delta } => match closed_error(s, ci, "TextDelta"@) {
            Some(err) => Err(err),
            None => if ci >= c.len() {
                Err(invalid_index("TextDelta"@, ci))
            } else {
                match c[ci as int] {
                    ContentBlockV::Text { text } => Ok(AccState { content: Some(c.update(ci as int, ContentBlockV::Text { text: text + delta })), ..s }),
                    _ => Err(wrong_kind("TextDelta"@, ci, "Text"@)),
                }
            },
        },
        EventV::TextEnd { ci } => if ci >= c.len() {
            Err(invalid_index("TextEnd"@, ci))
        } else if !(c[ci as int] is Text) {
            Err(wrong_kind("TextEnd"@, ci, "Text"@))
        } else {
            match closed_error(s, ci, "TextEnd"@) {
                Some(err) => Err(err),
                None => Ok(close(s, c, ci)),
            }
        },
        EventV::ThinkingDelta { ci, delta } => match closed_error(s, ci, "ThinkingDelta"@) {
            Some(err) => Err(err),
            None => if ci >= c.len() {
                Err(invalid_index("ThinkingDelta"@, ci))
            } else {
                match c[ci as int] {
                    ContentBlockV::Thinking { thinking, signature } => Ok(AccState { content: Some(c.update(ci as int, ContentBlockV::Thinking { thinking: thinking + delta, signature })), ..s }),
                    _ => Err(wrong_kind("ThinkingDelta"@, ci, "Thinking"@)),
                }
            },
        },
        EventV::ThinkingEnd { ci, signature } => match closed_error(s, ci, "ThinkingEnd"@) {
            Some(err) => Err(err),
            None => if ci >= c.len() {
                Err(invalid_index("ThinkingEnd"@, ci))
            } else {
                match c[ci as int] {
                    ContentBlockV::Thinking { thinking, .. } => Ok(close(s, c.update(ci as int, ContentBlockV::Thinking { thinking, signature }), ci)),
                    _ => Err(wrong_kind("ThinkingEnd"@, ci, "Thinking"@)),
                }
            },
        },
        EventV::ToolCallDelta { ci, delta } => match closed_error(s, ci, "ToolCallDelta"@) {
            Some(err) => Err(err),
            None => if ci >= c.len() {
                Err(invalid_index("ToolCallDelta"@, ci))
            } else {
                match c[ci as int] {
                    ContentBlockV::ToolCall { id, name, arguments, partial_json } => match partial_json {
                        Some(pj) => Ok(AccState { content: Some(c.update(ci as int, ContentBlockV::ToolCall { id, name, arguments, partial_json: Some(pj + delta) })), ..s }),
                        None => Err("ToolCallDelta: partial_json already consumed"@),
                    },
                    _ => Err(wrong_kind("ToolCallDelta"@, ci, "ToolCall"@)),
                }
            },
        },
        EventV::ToolCallEnd { ci } => if ci >= c.len() {
            Err(invalid_index("ToolCallEnd"@, ci))
        } else {
            match closed_error(s, ci, "ToolCallEnd"@) {
                Some(err) => Err(err),
                None => match c[ci as int] {
                    ContentBlockV::ToolCall { id, name, arguments, partial_json } => match partial_json {
                        None => Err("ToolCallEnd: partial_json already consumed"@),
                        Some(pj) => if pj.len() == 0 {
                            Ok(close(s, c.update(ci as int, ContentBlockV::ToolCall { id, name, arguments: json_literal("{}"@), partial_json: None }), ci))
                        } else {
                            match json_parse_outcome(pj) {
                                Ok(v) => Ok(close(s, c.update(ci as int, ContentBlockV::ToolCall { id, name, arguments: v, partial_json: None }), ci)),
                                Err(msg) => if tolerate {
                                    Ok(close(s, c, ci))
                                } else {
                                    Err("ToolCallEnd: failed to parse arguments JSON: "@ + msg)
                                },
                            }
                        },
                    },
                    _ => Err(wrong_kind("ToolCallEnd"@, ci, "ToolCall"@)),
                },
            }
        },
        _ => Ok(s),
    }
}

/// One accumulation step.
pub open spec fn acc_step(s: AccState, e: EventV, tolerate: bool) -> Result<AccState, Seq<char>> {
    if s.saw_terminal {
        if is_content_event(e) {
            Err("content event after terminal event"@)
        } else if e is Start {
            Err("Start event after terminal event"@)
        } else {
            Err("duplicate terminal event"@)
        }
    } else {
        match e {
            EventV::Start => if s.content is Some {
                Err("duplicate Start event"@)
            } else {
                Ok(AccState { content: Some(Seq::empty()), ..s })
            },
            EventV::Done { stop_reason, usage } => match check_terminal("Done"@, s, tolerate) {
                Some(err) => Err(err),
                None => Ok(AccState { stop_reason: Some(stop_reason), usage: Some(usage), saw_terminal: true, ..s }),
            },
            EventV::Error { stop_reason, error_message, usage, error_kind } => match check_terminal("Error"@, s, false) {
                Some(err) => Err(err),
                None => Ok(AccState {
                    stop_reason: Some(stop_reason),
                    error_message: Some(error_message),
                    error_kind,
                    usage: match usage { Some(u) => Some(u), None => s.usage },
                    saw_terminal: true,
                    ..s
                }),
            },
            _ => match s.content {
                None => Err(event_name(e) + " before Start"@),
                Some(c) => block_step(s, c, e, tolerate),
            },
        }
    }
}

pub open spec fn event_name(e: EventV) -> Seq<char> {
    match e {
        EventV::Start => "Start"@,
        EventV::TextStart { .. } => "TextStart"@,
        EventV::TextDelta { .. } => "TextDelta"@,
        EventV::TextEnd { .. } => "TextEnd"@,
        EventV::ThinkingStart { .. } => "ThinkingStart"@,
        EventV::ThinkingDelta { .. } => "ThinkingDelta"@,
        EventV::ThinkingEnd { .. } => "ThinkingEnd"@,
        EventV::ToolCallStart { .. } => "ToolCallStart"@,
        EventV::ToolCallDelta { .. } => "ToolCallDelta"@,
        EventV::ToolCallEnd { .. } => "ToolCallEnd"@,
        EventV::Done { .. } => "Done"@,
        EventV::Error { .. } => "Error"@,
    }
}

/// Accumulation over a whole event sequence, stopping at the first refusal.
pub open spec fn acc_run(events: Seq<EventV>, tolerate: bool) -> Result<AccState, Seq<char>>
    decreases events.len(),
{
    if events.len() == 0 {
        Ok(acc_init())
    } else {
        match acc_run(events.drop_last(), tolerate) {
            Ok(s) => acc_step(s, events.last(), tolerate),
            Err(e) => Err(e),
        }
    }
}

/// The outcome of accumulation: the refusal text, or the finished message's
/// fields other than its timestamp (content, usage, stop reason, error).
pub open spec fn accumulate_spec(events: Seq<EventV>) -> Result<AccState, Seq<char>> {
    match acc_run(events, tolerates_truncation(events)) {
        Err(e) => Err(e),
        Ok(s) => if s.content is None {
            Err("no Start event found"@)
        } else if s.stop_reason is None {
            Err("no terminal event (Done or Error) found"@)
        } else {
            Ok(s)
        },
    }
}

/// The message built from a successful accumulation.
pub open spec fn built_message(m: AssistantMessageV, s: AccState, provider: Seq<char>, model_id: Seq<char>) -> bool {
    &&& s.content == Some(m.content)
    &&& m.provider == provider
    &&& m.model_id == model_id
    &&& m.usage == match s.usage { Some(u) => u, None => Usage::spec_zero() }
    &&& s.stop_reason == Some(m.stop_reason)
    &&& m.error_message == s.error_message
    &&& m.error_kind == s.error_kind
    &&& m.cache_hint is None
}

proof fn lemma_first_open(open: Seq<bool>)
    ensures
        first_open(open) is Some ==> {
            let k = first_open(open)->0;
            &&& k < open.len()
            &&& open[k as int]
            &&& forall|j: int| 0 <= j < k ==> !#[trigger] open[j]
        },
        first_open(open) is None ==> forall|j: int| 0 <= j < open.len() ==> !#[trigger] open[j],
    decreases open.len(),
{
    if open.len() > 0 {
        lemma_first_open(open.drop_last());
        assert forall|j: int| 0 <= j < open.len() - 1 implies open.drop_last()[j] == open[j] by {}
    }
}

fn start_block_error(name: &str, ci: usize, len: usize) -> (r: String)
    ensures
        r@ == with_number(name@ + " content_index "@, ci as nat, " != content length "@ + crate::text::decimal(len as nat)),
{
    let head = concat(name, " content_index ");
    let tail = text_with_number(" != content length ", len, "");
    proof {
        reveal_strlit("");
        assert(tail@ =~= " != content length "@ + crate::text::decimal(len as nat));
    }
    text_with_number(head.as_str(), ci, tail.as_str())
}

fn closed_error_text(name: &str, ci: usize) -> (r: String)
    ensures
        r@ == with_number(name@ + ": block at index "@, ci as nat, " is already closed"@),
{
    let head = concat(name, ": block at index ");
    text_with_number(head.as_str(), ci, " is already closed")
}

fn invalid_index_text(name: &str, ci: usize) -> (r: String)
    ensures
        r@ == invalid_index(name@, ci as nat),
{
    let head = concat(name, ": invalid content_index ");
    proof {
        reveal_strlit("");
    }
    let r = text_with_number(head.as_str(), ci, "");
    assert(r@ =~= invalid_index(name@, ci as nat));
    r
}

fn wrong_kind_text(name: &str, ci: usize, kind: &str) -> (r: String)
    ensures
        r@ == wrong_kind(name@, ci as nat, kind@),
{
    let head = concat(name, ": block at index ");
    let tail = concat(" is not ", kind);
    text_with_number(head.as_str(), ci, tail.as_str())
}

/// The state of an accumulation in progress.
pub struct Accumulator {
    started: bool,
    content: Vec<ContentBlock>,
    open: Vec<bool>,
    stop_reason: Option<StopReason>,
    usage: Option<Usage>,
    error_message: Option<String>,
    error_kind: Option<StreamErrorKind>,
    saw_terminal: bool,
}

impl View for Accumulator {
    type V = AccState;

    closed spec fn view(&self) -> AccState {
        AccState {
            content: if self.started { Some(blocks_view(self.content@)) } else { None },
            open: self.open@,
            stop_reason: self.stop_reason,
            usage: self.usage,
            error_message: opt_view(self.error_message),
            error_kind: self.error_kind,
            saw_terminal: self.saw_terminal,
        }
    }
}

impl Accumulator {
    pub closed spec fn inv(&self) -> bool {
        &&& self.open@.len() == self.content@.len()
        &&& !self.started ==> self.content@.len() == 0
    }

    /// An accumulation that has seen no event.
    pub fn new() -> (r: Self)
        ensures
            r.inv(),
            r@ == acc_init(),
    {
        let r = Accumulator {
            started: false,
            content: Vec::new(),
            open: Vec::new(),
            stop_reason: None,
            usage: None,
            error_message: None,
            error_kind: None,
            saw_terminal: false,
        };
        assert(r@.open =~= acc_init().open);
        r
    }

    fn first_open_block(&self) -> (r: Option<usize>)
        ensures
            match r {
                Some(i) => first_open(self.open@) == Some(i as nat),
                None => first_open(self.open@) is None,
            },
    {
        proof {
            lemma_first_open(self.open@);
        }
        let mut i: usize = 0;
        while i < self.open.len()
            invariant
                i <= self.open@.len(),
                forall|j: int| 0 <= j < i ==> !self.open@[j],
            decreases self.open@.len() - i,
        {
            if self.open[i] {
                proof {
                    lemma_first_open(self.open@);
                    if first_open(self.open@) is Some {
                        let k = first_open(self.open@)->0;
                        if k < i {
                            assert(!self.open@[k as int]);
                        } else if k > i {
                            assert(!self.open@[i as int]);
                        }
                    } else {
                        assert(!self.open@[i as int]);
                    }
                }
                return Some(i);
            }
            i = i + 1;
        }
        None
    }

    fn open_blocks_are_tool_calls(&self) -> (r: bool)
        requires
            self.inv(),
        ensures
            r == open_are_tool_calls(blocks_view(self.content@), self.open@),
    {
        let mut i: usize = 0;
        while i < self.open.len()
            invariant
                self.inv(),
                i <= self.open@.len(),
                forall|j: int| 0 <= j < i && #[trigger] self.open@[j] ==> blocks_view(self.content@)[j] is ToolCall,
            decreases self.open@.len() - i,
        {
            if self.open[i] && !self.content[i].is_tool_call() {
                return false;
            }
            i = i + 1;
        }
        true
    }

    fn check_terminal(&self, name: &str, tolerate: bool) -> (r: Option<String>)
        requires
            self.inv(),
        ensures
            opt_view(r) == check_terminal(name@, self@, tolerate),
    {
        match self.first_open_block() {
            None => None,
            Some(idx) => {
                if !self.started {
                    Some(concat(name, " before Start"))
                } else if tolerate && self.open_blocks_are_tool_calls() {
                    None
                } else {
                    let head = concat(name, " received with unterminated content block at index ");
                    proof {
                        reveal_strlit("");
                    }
                    let t = text_with_number(head.as_str(), idx, "");
                    assert(t@ =~= with_number(name@ + " received with unterminated content block at index "@, idx as nat, Seq::empty()));
                    Some(t)
                }
            },
        }
    }

    fn closed_error(&self, name: &str, ci: usize) -> (r: Option<String>)
        ensures
            opt_view(r) == closed_error(self@, ci as nat, name@),
    {
        if ci < self.open.len() && !self.open[ci] {
            Some(closed_error_text(name, ci))
        } else {
            None
        }
    }

    fn start_block(&mut self, name: &str, ci: usize, block: ContentBlock) -> (r: Result<(), String>)
        requires
            old(self).inv(),
            old(self).started,
        ensures
            final(self).inv(),
            match start_block(old(self)@, blocks_view(old(self).content@), ci as nat, name@, block@) {
                Ok(s) => r is Ok && final(self)@ == s,
                Err(m) => r matches Err(x) && x@ == m,
            },
    {
        if ci != self.content.len() {
            return Err(start_block_error(name, ci, self.content.len()));
        }
        self.content.push(block);
        self.open.push(true);
        assert(blocks_view(self.content@) =~= blocks_view(old(self).content@).push(block@));
        Ok(())
    }

    fn text_delta(&mut self, ci: usize, delta: &str) -> (r: Result<(), String>)
        requires
            old(self).inv(),
            old(self).started,
        ensures
            final(self).inv(),
            final(self).started,
            match block_step(old(self)@, blocks_view(old(self).content@), EventV::TextDelta { ci: ci as nat, delta: delta@ }, false) {
                Ok(s) => r is Ok && final(self)@ == s,
                Err(m) => r matches Err(x) && x@ == m,
            },
    {
        if let Some(e) = self.closed_error("TextDelta", ci) {
            return Err(e);
        }
        if ci >= self.content.len() {
            return Err(invalid_index_text("TextDelta", ci));
        }
        let ghost old_content = self.content@;
        match &mut self.content[ci] {
            ContentBlock::Text { text } => {
                text.push_str(delta);
            },
            _ => {
                return Err(wrong_kind_text("TextDelta", ci, "Text"));
            },
        }
        assert(blocks_view(self.content@) =~= blocks_view(old_content).update(ci as int, self.content@[ci as int]@));
        Ok(())
    }

    fn text_end(&mut self, ci: usize) -> (r: Result<(), String>)
        requires
            old(self).inv(),
            old(self).started,
        ensures
            final(self).inv(),
            final(self).started,
            match block_step(old(self)@, blocks_view(old(self).content@), EventV::TextEnd { ci: ci as nat }, false) {
                Ok(s) => r is Ok && final(self)@ == s,
                Err(m) => r matches Err(x) && x@ == m,
            },
    {
        if ci >= self.content.len() {
            return Err(invalid_index_text("TextEnd", ci));
        }
        match &self.content[ci] {
            ContentBlock::Text { .. } => {},
            _ => {
                return Err(wrong_kind_text("TextEnd", ci, "Text"));
            },
        }
        if let Some(e) = self.closed_error("TextEnd", ci) {
            return Err(e);
        }
        self.close(ci);
        Ok(())
    }

    fn thinking_delta(&mut self, ci: usize, delta: &str) -> (r: Result<(), String>)
        requires
            old(self).inv(),
            old(self).started,
        ensures
            final(self).inv(),
            final(self).started,
            match block_step(old(self)@, blocks_view(old(self).content@), EventV::ThinkingDelta { ci: ci as nat, delta: delta@ }, false) {
                Ok(s) => r is Ok && final(self)@ == s,
                Err(m) => r matches Err(x) && x@ == m,
            },
    {
        if let Some(e) = self.closed_error("ThinkingDelta", ci) {
            return Err(e);
        }
        if ci >= self.content.len() {
            return Err(invalid_index_text("ThinkingDelta", ci));
        }
        let ghost old_content = self.content@;
        match &mut self.content[ci] {
            ContentBlock::Thinking { thinking, .. } => {
                thinking.push_str(delta);
            },
            _ => {
                return Err(wrong_kind_text("ThinkingDelta", ci, "Thinking"));
            },
        }
        assert(blocks_view(self.content@) =~= blocks_view(old_content).update(ci as int, self.content@[ci as int]@));
        Ok(())
    }

    fn thinking_end(&mut self, ci: usize, signature: &Option<String>) -> (r: Result<(), String>)
        requires
            old(self).inv(),
            old(self).started,
        ensures
            final(self).inv(),
            final(self).started,
            match block_step(old(self)@, blocks_view(old(self).content@), EventV::ThinkingEnd { ci: ci as nat, signature: opt_view(*signature) }, false) {
                Ok(s) => r is Ok && final(self)@ == s,
                Err(m) => r matches Err(x) && x@ == m,
            },
    {
        if let Some(e) = self.closed_error("ThinkingEnd", ci) {
            return Err(e);
        }
        if ci >= self.content.len() {
            return Err(invalid_index_text("ThinkingEnd", ci));
        }
        let ghost old_content = self.content@;
        match &mut self.content[ci] {
            ContentBlock::Thinking { signature: sig, .. } => {
                *sig = crate::types::clone_opt_string(signature);
            },
            _ => {
                return Err(wrong_kind_text("ThinkingEnd", ci, "Thinking"));
            },
        }
        assert(blocks_view(self.content@) =~= blocks_view(old_content).update(ci as int, self.content@[ci as int]@));
        self.close(ci);
        Ok(())
    }

    fn tool_call_delta(&mut self, ci: usize, delta: &str) -> (r: Result<(), String>)
        requires
            old(self).inv(),
            old(self).started,
        ensures
            final(self).inv(),
            final(self).started,
            match block_step(old(self)@, blocks_view(old(self).content@), EventV::ToolCallDelta { ci: ci as nat, delta: delta@ }, false) {
                Ok(s) => r is Ok && final(self)@ == s,
                Err(m) => r matches Err(x) && x@ == m,
            },
    {
        if let Some(e) = self.closed_error("ToolCallDelta", ci) {
            return Err(e);
        }
        if ci >= self.content.len() {
            return Err(invalid_index_text("ToolCallDelta", ci));
        }
        let ghost old_content = self.content@;
        match &mut self.content[ci] {
            ContentBlock::ToolCall { partial_json, .. } => {
                match partial_json {
                    Some(pj) => {
                        pj.push_str(delta);
                    },
                    None => {
                        return Err("ToolCallDelta: partial_json already consumed".to_owned());
                    },
                }
            },
            _ => {
                return Err(wrong_kind_text("ToolCallDelta", ci, "ToolCall"));
            },
        }
        assert(blocks_view(self.content@) =~= blocks_view(old_content).update(ci as int, self.content@[ci as int]@));
        Ok(())
    }

    fn tool_call_end(&mut self, ci: usize, tolerate: bool) -> (r: Result<(), String>)
        requires
            old(self).inv(),
            old(self).started,
        ensures
            final(self).inv(),
            final(self).started,
            match block_step(old(self)@, blocks_view(old(self).content@), EventV::ToolCallEnd { ci: ci as nat }, tolerate) {
                Ok(s) => r is Ok && final(self)@ == s,
                Err(m) => r matches Err(x) && x@ == m,
            },
    {
        if ci >= self.content.len() {
            return Err(invalid_index_text("ToolCallEnd", ci));
        }
        if let Some(e) = self.closed_error("ToolCallEnd", ci) {
            return Err(e);
        }
        let ghost old_content = self.content@;
        match &mut self.content[ci] {
            ContentBlock::ToolCall { arguments, partial_json, .. } => {
                let json_text = match partial_json {
                    Some(pj) => pj.clone(),
                    None => {
                        return Err("ToolCallEnd: partial_json already consumed".to_owned());
                    },
                };
                if json_text.as_str().is_empty() {
                    *arguments = json_empty_object();
                    *partial_json = None;
                } else {
                    match json_parse(json_text.as_str()) {
                        Ok(v) => {
                            *arguments = v;
                            *partial_json = None;
                        },
                        Err(e) => {
                            if !tolerate {
                                return Err(concat("ToolCallEnd: failed to parse arguments JSON: ", e.as_str()));
                            }
                            assert(json_parse_outcome(json_text@) is Err);
                        },
                    }
                }
            },
            _ => {
                return Err(wrong_kind_text("ToolCallEnd", ci, "ToolCall"));
            },
        }
        assert(blocks_view(self.content@) =~= blocks_view(old_content).update(ci as int, self.content@[ci as int]@));
        assert(old_content[ci as int]@ is ToolCall);
        proof {
            let ob = old_content[ci as int]@;
            let nb = self.content@[ci as int]@;
            assert(nb is ToolCall);
            assert(nb->ToolCall_id == ob->ToolCall_id);
            assert(nb->ToolCall_name == ob->ToolCall_name);
            assert(ob->ToolCall_partial_json is Some);
            let pj = ob->ToolCall_partial_json->0;
            if pj.len() == 0 {
                assert(nb->ToolCall_arguments == json_literal("{}"@));
                assert(nb->ToolCall_partial_json is None);
            } else {
                match json_parse_outcome(pj) {
                    Ok(v) => {
                        assert(nb->ToolCall_arguments == v);
                        assert(nb->ToolCall_partial_json is None);
                    },
                    Err(_) => {
                        assert(tolerate);
                        assert(nb == ob);
                        assert(blocks_view(old_content).update(ci as int, ob) =~= blocks_view(old_content));
                    },
                }
            }
        }
        self.close(ci);
        Ok(())
    }

    /// Apply one event.
    pub fn apply(&mut self, e: &AssistantMessageEvent, tolerate: bool) -> (r: Result<(), String>)
        requires
            old(self).inv(),
        ensures
            final(self).inv(),
            match acc_step(old(self)@, e@, tolerate) {
                Ok(s) => r is Ok && final(self)@ == s,
                Err(m) => r matches Err(x) && x@ == m,
            },
    {
        if self.saw_terminal {
            return match e {
                AssistantMessageEvent::Start => Err("Start event after terminal event".to_owned()),
                AssistantMessageEvent::Done { .. } => Err("duplicate terminal event".to_owned()),
                AssistantMessageEvent::Error { .. } => Err("duplicate terminal event".to_owned()),
                _ => Err("content event after terminal event".to_owned()),
            };
        }
        match e {
            AssistantMessageEvent::Start => {
                if self.started {
                    return Err("duplicate Start event".to_owned());
                }
                self.started = true;
                assert(blocks_view(self.content@) =~= Seq::<ContentBlockV>::empty());
                Ok(())
            },
            AssistantMessageEvent::Done { stop_reason, usage } => {
                if let Some(err) = self.check_terminal("Done", tolerate) {
                    return Err(err);
                }
                self.stop_reason = Some(*stop_reason);
                self.usage = Some(*usage);
                self.saw_terminal = true;
                Ok(())
            },
            AssistantMessageEvent::Error { stop_reason, error_message, usage, error_kind, .. } => {
                if let Some(err) = self.check_terminal("Error", false) {
                    return Err(err);
                }
                self.stop_reason = Some(*stop_reason);
                self.error_message = Some(error_message.clone());
                self.error_kind = *error_kind;
                if let Some(u) = usage {
                    self.usage = Some(*u);
                }
                self.saw_terminal = true;
                Ok(())
            },
            _ => {
                if !self.started {
                    let name = match e {
                        AssistantMessageEvent::TextStart { .. } => "TextStart",
                        AssistantMessageEvent::TextDelta { .. } => "TextDelta",
                        AssistantMessageEvent::TextEnd { .. } => "TextEnd",
                        AssistantMessageEvent::ThinkingStart { .. } => "ThinkingStart",
                        AssistantMessageEvent::ThinkingDelta { .. } => "ThinkingDelta",
                        AssistantMessageEvent::ThinkingEnd { .. } => "ThinkingEnd",
                        AssistantMessageEvent::ToolCallStart { .. } => "ToolCallStart",
                        AssistantMessageEvent::ToolCallDelta { .. } => "ToolCallDelta",
                        _ => "ToolCallEnd",
                    };
                    return Err(concat(name, " before Start"));
                }
                match e {
                    AssistantMessageEvent::TextStart { content_index } => self.start_block(
                        "TextStart",
                        *content_index,
                        ContentBlock::Text { text: String::new() },
                    ),
                    AssistantMessageEvent::ThinkingStart { content_index } => self.start_block(
                        "ThinkingStart",
                        *content_index,
                        ContentBlock::Thinking { thinking: String::new(), signature: None },
                    ),
                    AssistantMessageEvent::ToolCallStart { content_index, id, name } => self.start_block(
                        "ToolCallStart",
                        *content_index,
                        ContentBlock::ToolCall {
                            id: id.clone(),
                            name: name.clone(),
                            arguments: json_null(),
                            partial_json: Some(String::new()),
                        },
                    ),
                    AssistantMessageEvent::TextDelta { content_index, delta } => self.text_delta(
                        *content_index,
                        delta.as_str(),
                    ),
                    AssistantMessageEvent::TextEnd { content_index } => self.text_end(*content_index),
                    AssistantMessageEvent::ThinkingDelta { content_index, delta } => self.thinking_delta(
                        *content_index,
                        delta.as_str(),
                    ),
                    AssistantMessageEvent::ThinkingEnd { content_index, signature } => self.thinking_end(
                        *content_index,
                        signature,
                    ),
                    AssistantMessageEvent::ToolCallDelta { content_index, delta } => self.tool_call_delta(
                        *content_index,
                        delta.as_str(),
                    ),
                    _ => {
                        let ci = match e {
                            AssistantMessageEvent::ToolCallEnd { content_index } => *content_index,
                            _ => 0,
                        };
                        self.tool_call_end(ci, tolerate)
                    },
                }
            },
        }
    }

    /// Finish: the message, or why the stream was incomplete.
    pub fn finish(self, provider: &str, model_id: &str) -> (r: Result<AssistantMessage, String>)
        requires
            self.inv(),
            !(self@.content is None),
        ensures
            self@.stop_reason is None ==> (r matches Err(x) && x@ == "no terminal event (Done or Error) found"@),
            self@.stop_reason is Some ==> (r matches Ok(m) && built_message(m@, self@, provider@, model_id@)),
    {
        let stop_reason = match self.stop_reason {
            Some(sr) => sr,
            None => {
                return Err("no terminal event (Done or Error) found".to_owned());
            },
        };
        let usage = match self.usage {
            Some(u) => u,
            None => Usage::zero(),
        };
        Ok(AssistantMessage {
            content: self.content,
            provider: provider.to_owned(),
            model_id: model_id.to_owned(),
            usage,
            stop_reason,
            error_message: self.error_message,
            error_kind: self.error_kind,
            timestamp: now_timestamp(),
            cache_hint: None,
        })
    }

    pub fn started(&self) -> (r: bool)
        ensures
            r == !(self@.content is None),
    {
        self.started
    }

    fn close(&mut self, ci: usize)
        requires
            old(self).inv(),
            ci < old(self).open@.len(),
        ensures
            final(self).inv(),
            final(self).content@ == old(self).content@,
            final(self)@ == (AccState { open: old(self)@.open.update(ci as int, false), ..old(self)@ }),
    {
        self.open.set(ci, false);
    }
}

/// Whether a block is a tool call whose arguments are unusable: still partial,
/// or not a JSON object.
pub open spec fn needs_fix(b: ContentBlockV) -> bool {
    match b {
        ContentBlockV::ToolCall { arguments, partial_json, .. } => partial_json is Some
            || !json_is_object(arguments),
        _ => false,
    }
}

/// A block with unusable tool-call arguments replaced by an empty object.
pub open spec fn fixed_block(b: ContentBlockV) -> ContentBlockV {
    if needs_fix(b) {
        ContentBlockV::ToolCall {
            id: b->ToolCall_id,
            name: b->ToolCall_name,
            arguments: json_literal("{}"@),
            partial_json: None,
        }
    } else {
        b
    }
}

/// How many blocks need fixing.
pub open spec fn count_needing_fix(c: Seq<ContentBlockV>) -> nat
    decreases c.len(),
{
    if c.len() == 0 {
        0
    } else {
        count_needing_fix(c.drop_last()) + if needs_fix(c.last()) { 1nat } else { 0nat }
    }
}

/// Coerce every tool call whose arguments are still partial, or are not a JSON
/// object, into a call with empty-object arguments, so that providers accept
/// it on the next turn. Returns how many blocks were changed; afterwards no
/// block needs fixing, so a second call changes nothing.
pub fn sanitize_incomplete_tool_calls(message: &mut AssistantMessage) -> (r: usize)
    ensures
        final(message)@ == (AssistantMessageV {
            content: old(message)@.content.map_values(|b: ContentBlockV| fixed_block(b)),
            ..old(message)@
        }),
        r == count_needing_fix(old(message)@.content),
        count_needing_fix(final(message)@.content) == 0,
{
    let ghost orig = blocks_view(message.content@);
    let mut fixed: usize = 0;
    let mut i: usize = 0;
    while i < message.content.len()
        invariant
            orig == blocks_view(old(message).content@),
            message.content@.len() == orig.len(),
            i <= orig.len(),
            forall|j: int| 0 <= j < i ==> (#[trigger] message.content@[j])@ == fixed_block(orig[j]),
            forall|j: int| 0 <= j < i ==> !needs_fix(#[trigger] message.content@[j]@),
            forall|j: int| i <= j < orig.len() ==> (#[trigger] message.content@[j])@ == orig[j],
            fixed == count_needing_fix(orig.take(i as int)),
            fixed <= i,
            message.provider == old(message).provider,
            message.model_id == old(message).model_id,
            message.usage == old(message).usage,
            message.stop_reason == old(message).stop_reason,
            message.error_message == old(message).error_message,
            message.error_kind == old(message).error_kind,
            message.timestamp == old(message).timestamp,
            message.cache_hint == old(message).cache_hint,
        decreases orig.len() - i,
    {
        assert(orig.take(i + 1).drop_last() =~= orig.take(i as int));
        let ghost before = message.content@;
        match &mut message.content[i] {
            ContentBlock::ToolCall { arguments, partial_json, .. } => {
                let is_obj = json_value_is_object(arguments);
                if partial_json.is_some() || !is_obj {
                    *arguments = json_empty_object();
                    *partial_json = None;
                    fixed = fixed + 1;
                }
            },
            _ => {},
        }
        assert forall|j: int| 0 <= j < orig.len() && j != i implies message.content@[j] == before[j] by {}
        i = i + 1;
    }
    assert(orig.take(orig.len() as int) =~= orig);
    proof {
        lemma_no_fix_needed(blocks_view(message.content@));
    }
    assert(blocks_view(message.content@) =~= orig.map_values(|b: ContentBlockV| fixed_block(b)));
    fixed
}

proof fn lemma_no_fix_needed(c: Seq<ContentBlockV>)
    requires
        forall|j: int| 0 <= j < c.len() ==> !needs_fix(#[trigger] c[j]),
    ensures
        count_needing_fix(c) == 0,
    decreases c.len(),
{
    if c.len() > 0 {
        lemma_no_fix_needed(c.drop_last());
    }
}

/// A refusal is final: once a prefix of the events is refused, so is every
/// longer sequence, with the same text.
proof fn lemma_run_error_sticks(events: Seq<EventV>, n: int, tolerate: bool)
    requires
        0 <= n <= events.len(),
        acc_run(events.take(n), tolerate) is Err,
    ensures
        acc_run(events, tolerate) == acc_run(events.take(n), tolerate),
    decreases events.len() - n,
{
    if n < events.len() {
        assert(events.take(n + 1).drop_last() =~= events.take(n));
        lemma_run_error_sticks(events, n + 1, tolerate);
    } else {
        assert(events.take(n) =~= events);
    }
}

/// Whether some event is a `Done` that stopped on the length limit.
pub fn stream_tolerates_truncation(events: &Vec<AssistantMessageEvent>) -> (r: bool)
    ensures
        r == tolerates_truncation(events_view(events@)),
{
    let mut i: usize = 0;
    while i < events.len()
        invariant
            i <= events@.len(),
            forall|j: int| 0 <= j < i ==> !(#[trigger] events_view(events@)[j] matches EventV::Done { stop_reason, .. } && stop_reason == StopReason::Length),
        decreases events@.len() - i,
    {
        match &events[i] {
            AssistantMessageEvent::Done { stop_reason: StopReason::Length, .. } => {
                assert(events_view(events@)[i as int] matches EventV::Done { stop_reason, .. } && stop_reason == StopReason::Length);
                return true;
            },
            _ => {},
        }
        i = i + 1;
    }
    false
}

/// Reconstruct a finished assistant message from the events of one stream.
///
/// Returns a description of the first protocol violation when the sequence is
/// malformed: a delta for a block that does not exist or is closed, a block of
/// the wrong kind, events after the terminal one, a missing `Start` or
/// terminal event, or a block still open at the end. When the stream stopped
/// on the length limit, tool calls cut short are kept with their partial
/// arguments instead of being refused.
pub fn accumulate_message(events: Vec<AssistantMessageEvent>, provider: &str, model_id: &str) -> (r: Result<AssistantMessage, String>)
    ensures
        match accumulate_spec(events_view(events@)) {
            Ok(s) => r matches Ok(m) && built_message(m@, s, provider@, model_id@),
            Err(e) => r matches Err(x) && x@ == e,
        },
{
    let ghost evs = events_view(events@);
    let tolerate = stream_tolerates_truncation(&events);
    let mut acc = Accumulator::new();
    let mut i: usize = 0;
    assert(evs.take(0) =~= Seq::<EventV>::empty());
    while i < events.len()
        invariant
            evs == events_view(events@),
            tolerate == tolerates_truncation(evs),
            i <= events@.len(),
            acc.inv(),
            acc_run(evs.take(i as int), tolerate) == Ok::<AccState, Seq<char>>(acc@),
        decreases events@.len() - i,
    {
        assert(evs.take(i + 1).drop_last() =~= evs.take(i as int));
        assert(evs.take(i + 1).last() == events@[i as int]@);
        match acc.apply(&events[i], tolerate) {
            Ok(()) => {},
            Err(e) => {
                proof {
                    lemma_run_error_sticks(evs, i + 1, tolerate);
                }
                return Err(e);
            },
        }
        i = i + 1;
    }
    assert(evs.take(events@.len() as int) =~= evs);
    if !acc.started() {
        return Err("no Start event found".to_owned());
    }
    acc.finish(provider, model_id)
}


/// Before its terminal event a stream has set no stop reason, usage or error.
proof fn lemma_nothing_before_terminal(events: Seq<EventV>, tolerate: bool)
    ensures
        match acc_run(events, tolerate) {
            Ok(s) => !s.saw_terminal ==> s.stop_reason is None && s.usage is None && s.error_message is None
                && s.error_kind is None,
            Err(_) => true,
        },
    decreases events.len(),
{
    if events.len() > 0 {
        lemma_nothing_before_terminal(events.drop_last(), tolerate);
    }
}

/// A stream that accumulates successfully ends with its terminal event, and
/// the message takes its stop reason, usage and error from that event: a
/// `Done` gives its stop reason and usage and no error; an `Error` gives its
/// stop reason, text and kind, and its usage when it reports one (a failed
/// call still bills what it used), zero usage otherwise.
pub proof fn law_terminal_event_decides_outcome(events: Seq<EventV>, provider: Seq<char>, model_id: Seq<char>, m: AssistantMessageV)
    ensures
        (accumulate_spec(events) matches Ok(s) && built_message(m, s, provider, model_id)) ==> {
            &&& (events.last() matches EventV::Done { stop_reason, usage } ==> m.usage == usage
                && m.stop_reason == stop_reason && m.error_message is None && m.error_kind is None)
            &&& (events.last() matches EventV::Error { stop_reason, error_message, usage, error_kind } ==> m.usage == match usage {
                Some(u) => u,
                None => Usage::spec_zero(),
            } && m.stop_reason == stop_reason && m.error_message == Some(error_message) && m.error_kind == error_kind)
            &&& m.provider == provider && m.model_id == model_id
        },
{
    if events.len() > 0 {
        let tolerate = tolerates_truncation(events);
        let prev = acc_run(events.drop_last(), tolerate);
        lemma_nothing_before_terminal(events.drop_last(), tolerate);
        assert(acc_run(events, tolerate) == match prev {
            Ok(p) => acc_step(p, events.last(), tolerate),
            Err(e) => Err(e),
        });
    } else {
        assert(acc_run(events, tolerates_truncation(events)) == Ok::<AccState, Seq<char>>(acc_init()));
    }
}

/// A text response is a valid stream: it accumulates to one closed text
/// block holding exactly `text`, stopped normally, with zero usage and no
/// error.
pub proof fn lemma_text_response_accumulates(text: Seq<char>)
    ensures
        accumulate_spec(text_response_events(text)) == Ok::<AccState, Seq<char>>(AccState {
            content: Some(seq![ContentBlockV::Text { text }]),
            open: seq![false],
            stop_reason: Some(StopReason::Stop),
            usage: Some(Usage::spec_zero()),
            error_message: None,
            error_kind: None,
            saw_terminal: true,
        }),
{
    let evs = text_response_events(text);
    assert forall|i: int| 0 <= i < evs.len() implies !(#[trigger] evs[i] matches EventV::Done {
        stop_reason,
        ..
    } && stop_reason == StopReason::Length) by {}
    assert(!tolerates_truncation(evs));
    let s0 = acc_init();
    let s1 = AccState { content: Some(Seq::<ContentBlockV>::empty()), ..s0 };
    let s2 = AccState {
        content: Some(seq![ContentBlockV::Text { text: Seq::empty() }]),
        open: seq![true],
        ..s1
    };
    let s3 = AccState { content: Some(seq![ContentBlockV::Text { text }]), ..s2 };
    let s4 = AccState { open: seq![false], ..s3 };
    assert(evs.take(0) =~= Seq::<EventV>::empty());
    assert(acc_run(evs.take(0), false) == Ok::<AccState, Seq<char>>(s0));
    assert(evs.take(1).drop_last() =~= evs.take(0));
    assert(evs.take(1).last() == EventV::Start);
    assert(acc_run(evs.take(1), false) == Ok::<AccState, Seq<char>>(s1));
    assert(evs.take(2).drop_last() =~= evs.take(1));
    assert(evs.take(2).last() == EventV::TextStart { ci: 0 });
    assert(Seq::<ContentBlockV>::empty().push(ContentBlockV::Text { text: Seq::empty() })
        =~= seq![ContentBlockV::Text { text: Seq::empty() }]);
    assert(Seq::<bool>::empty().push(true) =~= seq![true]);
    assert(acc_run(evs.take(2), false) == Ok::<AccState, Seq<char>>(s2));
    assert(evs.take(3).drop_last() =~= evs.take(2));
    assert(evs.take(3).last() == EventV::TextDelta { ci: 0, delta: text });
    assert(Seq::<char>::empty() + text =~= text);
    assert(seq![ContentBlockV::Text { text: Seq::empty() }].update(0, ContentBlockV::Text { text: Seq::<char>::empty() + text })
        =~= seq![ContentBlockV::Text { text }]);
    assert(acc_run(evs.take(3), false) == Ok::<AccState, Seq<char>>(s3));
    assert(evs.take(4).drop_last() =~= evs.take(3));
    assert(evs.take(4).last() == EventV::TextEnd { ci: 0 });
    assert(seq![true].update(0, false) =~= seq![false]);
    assert(acc_run(evs.take(4), false) == Ok::<AccState, Seq<char>>(s4));
    assert(evs.take(5).drop_last() =~= evs.take(4));
    assert(seq![false].drop_last() =~= Seq::<bool>::empty());
    assert(first_open(seq![false]) is None);
    assert(evs.take(5) =~= evs);
}

} // verus!

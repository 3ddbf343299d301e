//! Classification of provider stream errors and the terminal assistant
//! messages the loop records for failed or cancelled turns.
use std::sync::Arc;

use vstd::prelude::*;

use crate::error::{format_error_with_sources, AgentError, AgentErrorV};
use crate::stream_error_kind::StreamErrorKind;
use crate::text::{chars_of, contains_str, has_sub, lowercase_of, to_lowercase};
use crate::types::{
    opt_view, AssistantMessage, AssistantMessageV, ModelSpec, ModelSpecV, StopReason,
    ThinkingLevel, Usage,
};

verus! {

/// Seconds since the Unix epoch, read from the system clock.
#[verifier::external_body]
pub fn now_timestamp() -> (r: u64) {
    std::time::SystemTime::now()
        .duration_since(std::time::UNIX_EPOCH)
        .map(|d| d.as_secs())
        .unwrap_or(0)
}

/// The message recorded when a turn is cancelled.
pub open spec fn abort_text() -> Seq<char> {
    "operation aborted via cancellation token"@
}

pub open spec fn mentions_context_overflow(lower: Seq<char>) -> bool {
    has_sub(lower, "context window"@) || has_sub(lower, "context_length_exceeded"@)
}

pub open spec fn mentions_throttling(lower: Seq<char>) -> bool {
    has_sub(lower, "rate limit"@) || has_sub(lower, "429"@) || has_sub(lower, "throttl"@)
}

pub open spec fn mentions_cache_miss(lower: Seq<char>) -> bool {
    has_sub(lower, "cache miss"@) || has_sub(lower, "cache not found"@) || has_sub(
        lower,
        "cache_miss"@,
    )
}

pub open spec fn mentions_content_filter(lower: Seq<char>) -> bool {
    has_sub(lower, "content filter"@) || has_sub(lower, "content_filter"@)
}

/// Authentication failures are recognised by wording, never by a bare status
/// code: token counts and identifiers contain "401"/"403" too easily.
pub open spec fn mentions_auth_failure(lower: Seq<char>) -> bool {
    ||| has_sub(lower, "unauthorized"@)
    ||| has_sub(lower, "invalid api key"@)
    ||| has_sub(lower, "invalid_api_key"@)
    ||| has_sub(lower, "authentication"@)
    ||| has_sub(lower, "forbidden"@)
}

/// A plain mention of "model" is not enough: retirement needs one of the
/// provider phrasings for a decommissioned model.
pub open spec fn mentions_model_retired(lower: Seq<char>) -> bool {
    ||| has_sub(lower, "model_not_found"@)
    ||| has_sub(lower, "decommissioned"@)
    ||| has_sub(lower, "has been retired"@)
}

/// How a stream error is classified. `message` is the provider's text,
/// `lower` its lowercase form, `model` the model to name in an overflow.
/// A structural kind, when present, decides alone; otherwise the wording of
/// the lowercase text decides, in a fixed order of precedence.
pub open spec fn classify_spec(
    model: Seq<char>,
    message: Seq<char>,
    lower: Seq<char>,
    stop_reason: StopReason,
    kind: Option<StreamErrorKind>,
) -> AgentErrorV {
    match kind {
        Some(StreamErrorKind::Throttled) => AgentErrorV::ModelThrottled,
        Some(StreamErrorKind::ContextWindowExceeded) => AgentErrorV::ContextWindowOverflow {
            model,
        },
        Some(StreamErrorKind::Auth) => AgentErrorV::Auth { message },
        Some(StreamErrorKind::Network) => AgentErrorV::NetworkError { message },
        Some(StreamErrorKind::ContentFiltered) => AgentErrorV::ContentFiltered,
        Some(StreamErrorKind::ModelRetired) => AgentErrorV::ModelRetired { message },
        None => if mentions_context_overflow(lower) {
            AgentErrorV::ContextWindowOverflow { model }
        } else if mentions_throttling(lower) {
            AgentErrorV::ModelThrottled
        } else if mentions_cache_miss(lower) {
            AgentErrorV::CacheMiss
        } else if mentions_content_filter(lower) {
            AgentErrorV::ContentFiltered
        } else if mentions_auth_failure(lower) {
            AgentErrorV::Auth { message }
        } else if mentions_model_retired(lower) {
            AgentErrorV::ModelRetired { message }
        } else if stop_reason == StopReason::Aborted {
            AgentErrorV::Aborted
        } else {
            AgentErrorV::StreamError { message }
        },
    }
}

/// Classify a stream error, given the lowercase form of its text.
pub fn classify_lowered_stream_error(
    model: &str,
    error_message: &str,
    lowered: &str,
    stop_reason: StopReason,
    error_kind: Option<StreamErrorKind>,
) -> (r: AgentError)
    ensures
        r@ == classify_spec(model@, error_message@, lowered@, stop_reason, error_kind),
{
    if let Some(kind) = error_kind {
        return match kind {
            StreamErrorKind::Throttled => AgentError::ModelThrottled,
            StreamErrorKind::ContextWindowExceeded => AgentError::ContextWindowOverflow {
                model: model.to_owned(),
            },
            StreamErrorKind::Auth => AgentError::Auth { message: error_message.to_owned() },
            StreamErrorKind::Network => AgentError::network(error_message),
            StreamErrorKind::ContentFiltered => AgentError::ContentFiltered,
            StreamErrorKind::ModelRetired => AgentError::ModelRetired {
                message: error_message.to_owned(),
            },
        };
    }
    let lower = chars_of(lowered);
    if contains_str(&lower, "context window") || contains_str(&lower, "context_length_exceeded") {
        return AgentError::ContextWindowOverflow { model: model.to_owned() };
    }
    if contains_str(&lower, "rate limit") || contains_str(&lower, "429") || contains_str(
        &lower,
        "throttl",
    ) {
        return AgentError::ModelThrottled;
    }
    if contains_str(&lower, "cache miss") || contains_str(&lower, "cache not found")
        || contains_str(&lower, "cache_miss") {
        return AgentError::CacheMiss;
    }
    if contains_str(&lower, "content filter") || contains_str(&lower, "content_filter") {
        return AgentError::ContentFiltered;
    }
    if contains_str(&lower, "unauthorized") || contains_str(&lower, "invalid api key")
        || contains_str(&lower, "invalid_api_key") || contains_str(&lower, "authentication")
        || contains_str(&lower, "forbidden") {
        return AgentError::Auth { message: error_message.to_owned() };
    }
    if contains_str(&lower, "model_not_found") || contains_str(&lower, "decommissioned")
        || contains_str(&lower, "has been retired") {
        return AgentError::ModelRetired { message: error_message.to_owned() };
    }
    if stop_reason == StopReason::Aborted {
        return AgentError::Aborted;
    }
    AgentError::StreamError { message: error_message.to_owned() }
}

/// Classify a stream error, naming `model` when the context window overflowed.
///
/// When `error_kind` is present, structural classification takes priority
/// over string matching on the error message.
pub fn classify_stream_error_for_model(
    model: &str,
    error_message: &str,
    stop_reason: StopReason,
    error_kind: Option<StreamErrorKind>,
) -> (r: AgentError)
    ensures
        r@ == classify_spec(
            model@,
            error_message@,
            lowercase_of(error_message@),
            stop_reason,
            error_kind,
        ),
{
    let lowered = to_lowercase(error_message);
    classify_lowered_stream_error(model, error_message, lowered.as_str(), stop_reason, error_kind)
}

/// Classify a stream error into an [`AgentError`].
pub fn classify_stream_error(
    error_message: &str,
    stop_reason: StopReason,
    error_kind: Option<StreamErrorKind>,
) -> (r: AgentError)
    ensures
        r@ == classify_spec(
            Seq::empty(),
            error_message@,
            lowercase_of(error_message@),
            stop_reason,
            error_kind,
        ),
{
    let model = String::new();
    classify_stream_error_for_model(model.as_str(), error_message, stop_reason, error_kind)
}

/// Whether a failed response should make the loop try the next fallback
/// model: only retryable (throttled or network) failures do.
pub open spec fn fallback_eligible_spec(msg: AssistantMessageV) -> bool {
    match msg.error_message {
        Some(text) => classify_spec(
            Seq::empty(),
            text,
            lowercase_of(text),
            StopReason::Error,
            msg.error_kind,
        ).retryable(),
        None => false,
    }
}

/// Whether the failed response `msg` should trigger model fallback.
pub fn is_fallback_eligible_error(msg: &AssistantMessage) -> (r: bool)
    ensures
        r == fallback_eligible_spec(msg@),
{
    match &msg.error_message {
        Some(text) => {
            let err = classify_stream_error(text.as_str(), StopReason::Error, msg.error_kind);
            err.is_retryable()
        },
        None => false,
    }
}

/// The shape of a terminal message: no content, zero usage, the given stop
/// reason and error text; only the timestamp is left to the clock.
pub open spec fn is_terminal_message(
    m: AssistantMessageV,
    model: ModelSpecV,
    stop_reason: StopReason,
    text: Seq<char>,
) -> bool {
    &&& m.content.len() == 0
    &&& m.provider == model.provider
    &&& m.model_id == model.model_id
    &&& m.usage == Usage::spec_zero()
    &&& m.stop_reason == stop_reason
    &&& m.error_message == Some(text)
    &&& m.error_kind is None
    &&& m.cache_hint is None
}

/// Build a terminal assistant message with the given stop reason and text.
pub fn build_terminal_message(
    model: &ModelSpec,
    stop_reason: StopReason,
    error_message: String,
) -> (r: AssistantMessage)
    ensures
        is_terminal_message(r@, model@, stop_reason, error_message@),
{
    AssistantMessage {
        content: Vec::new(),
        provider: model.provider.clone(),
        model_id: model.model_id.clone(),
        usage: Usage::zero(),
        stop_reason,
        error_message: Some(error_message),
        error_kind: None,
        timestamp: now_timestamp(),
        cache_hint: None,
    }
}

/// Build the message recorded for a cancelled turn.
pub fn build_abort_message(model: &ModelSpec) -> (r: AssistantMessage)
    ensures
        is_terminal_message(r@, model@, StopReason::Aborted, abort_text()),
{
    build_terminal_message(
        model,
        StopReason::Aborted,
        "operation aborted via cancellation token".to_owned(),
    )
}

/// Build the message recorded for a failed turn.
pub fn build_error_message(model: &ModelSpec, error: &AgentError) -> (r: AssistantMessage)
    ensures
        is_terminal_message(r@, model@, StopReason::Error, error@.full_text()),
{
    build_terminal_message(model, StopReason::Error, format_error_with_sources(error))
}

/// A copy of `message` marked as aborted: same content and usage, the abort
/// text as error, no error kind, and a fresh timestamp.
pub fn mark_assistant_message_aborted(message: &AssistantMessage) -> (r: AssistantMessage)
    ensures
        r@ == (AssistantMessageV {
            stop_reason: StopReason::Aborted,
            error_message: Some(abort_text()),
            error_kind: None,
            timestamp: r@.timestamp,
            ..message@
        }),
{
    let mut aborted = message.clone();
    aborted.stop_reason = StopReason::Aborted;
    aborted.error_message = Some("operation aborted via cancellation token".to_owned());
    aborted.error_kind = None;
    aborted.timestamp = now_timestamp();
    aborted
}

/// The spec the loop actually sends: when capabilities are declared and
/// thinking is not among them, thinking is forced off; otherwise unchanged.
pub open spec fn capability_overrides_spec(model: ModelSpecV) -> ModelSpecV {
    match model.capabilities {
        Some(caps) => if !caps.supports_thinking && model.thinking_level != ThinkingLevel::Off {
            ModelSpecV { thinking_level: ThinkingLevel::Off, ..model }
        } else {
            model
        },
        None => model,
    }
}

/// Apply capability-based overrides to a model spec.
pub fn apply_capability_overrides(model: &ModelSpec) -> (r: ModelSpec)
    ensures
        r@ == capability_overrides_spec(model@),
{
    let mut spec = model.clone();
    if let Some(caps) = model.capabilities {
        if !caps.supports_thinking && model.thinking_level != ThinkingLevel::Off {
            spec.thinking_level = ThinkingLevel::Off;
        }
    }
    spec
}

/// A structural error kind decides the classification on its own: the text
/// and the stop reason play no part, apart from being carried along as the
/// error's message. A throttled kind always gives a throttling error, an
/// exceeded context window an overflow naming the model, a network kind a
/// network error carrying the text.
pub proof fn law_structured_kind_decides(
    model: Seq<char>,
    message: Seq<char>,
    lower1: Seq<char>,
    lower2: Seq<char>,
    stop1: StopReason,
    stop2: StopReason,
    kind: StreamErrorKind,
)
    ensures
        classify_spec(model, message, lower1, stop1, Some(kind)) == classify_spec(model, message, lower2, stop2, Some(kind)),
        classify_spec(model, message, lower1, stop1, Some(StreamErrorKind::Throttled)) == AgentErrorV::ModelThrottled,
        classify_spec(model, message, lower1, stop1, Some(StreamErrorKind::ContextWindowExceeded))
            == (AgentErrorV::ContextWindowOverflow { model }),
        classify_spec(model, message, lower1, stop1, Some(StreamErrorKind::Network))
            == (AgentErrorV::NetworkError { message }),
        classify_spec(model, message, lower1, stop1, Some(StreamErrorKind::ContentFiltered)) == AgentErrorV::ContentFiltered,
        classify_spec(model, message, lower1, stop1, Some(StreamErrorKind::Auth)) == (AgentErrorV::Auth { message }),
        classify_spec(model, message, lower1, stop1, Some(StreamErrorKind::ModelRetired))
            == (AgentErrorV::ModelRetired { message }),
{
}

/// Without a structural kind, the recognised phrasings are tried in a fixed
/// order (context window, rate limit, cache miss, content filter,
/// authentication, retired model) and the first one the lowercase text
/// mentions decides the error.
pub proof fn law_wording_precedence(model: Seq<char>, message: Seq<char>, lower: Seq<char>, stop: StopReason)
    ensures
        ({
            let overflow = has_sub(lower, "context window"@) || has_sub(lower, "context_length_exceeded"@);
            let throttled = has_sub(lower, "rate limit"@) || has_sub(lower, "429"@) || has_sub(lower, "throttl"@);
            let cache = has_sub(lower, "cache miss"@) || has_sub(lower, "cache not found"@) || has_sub(lower, "cache_miss"@);
            let filtered = has_sub(lower, "content filter"@) || has_sub(lower, "content_filter"@);
            let auth = has_sub(lower, "unauthorized"@) || has_sub(lower, "invalid api key"@)
                || has_sub(lower, "invalid_api_key"@) || has_sub(lower, "authentication"@) || has_sub(lower, "forbidden"@);
            let retired = has_sub(lower, "model_not_found"@) || has_sub(lower, "decommissioned"@)
                || has_sub(lower, "has been retired"@);
            let e = classify_spec(model, message, lower, stop, None);
            &&& !overflow && !throttled && cache ==> e == AgentErrorV::CacheMiss
            &&& !overflow && !throttled && !cache && filtered ==> e == AgentErrorV::ContentFiltered
            &&& !overflow && !throttled && !cache && !filtered && auth ==> e == (AgentErrorV::Auth { message })
            &&& !overflow && !throttled && !cache && !filtered && !auth && retired ==> e == (AgentErrorV::ModelRetired { message })
        }),
{
}

/// Without a structural kind, any text whose lowercase form mentions the
/// context window ("context window" or "context_length_exceeded") is a
/// context-window overflow naming the model, whatever else it says and
/// whatever the stop reason; this is what triggers overflow recovery.
pub proof fn law_context_window_wording_is_overflow(
    model: Seq<char>,
    message: Seq<char>,
    lower: Seq<char>,
    stop: StopReason,
)
    ensures
        has_sub(lower, "context window"@) ==> classify_spec(model, message, lower, stop, None)
            == (AgentErrorV::ContextWindowOverflow { model }),
        has_sub(lower, "context_length_exceeded"@) ==> classify_spec(model, message, lower, stop, None)
            == (AgentErrorV::ContextWindowOverflow { model }),
        classify_spec(model, message, lower, stop, None) is ContextWindowOverflow ==> has_sub(lower, "context window"@)
            || has_sub(lower, "context_length_exceeded"@),
{
}

/// Without a structural kind, rate-limit wording ("rate limit", "429",
/// "throttl") gives a throttling error unless the text also mentions the
/// context window; and a text that mentions none of the recognised phrasings
/// is a plain stream error carrying the text (or a cancellation when the
/// stream stopped as aborted). Text alone never yields a network error.
pub proof fn law_wording_classification(
    model: Seq<char>,
    message: Seq<char>,
    lower: Seq<char>,
    stop: StopReason,
)
    ensures
        !has_sub(lower, "context window"@) && !has_sub(lower, "context_length_exceeded"@)
            && (has_sub(lower, "rate limit"@) || has_sub(lower, "429"@) || has_sub(lower, "throttl"@))
            ==> classify_spec(model, message, lower, stop, None) == AgentErrorV::ModelThrottled,
        !(classify_spec(model, message, lower, stop, None) is NetworkError),
        !has_sub(lower, "context window"@) && !has_sub(lower, "context_length_exceeded"@)
            && !has_sub(lower, "rate limit"@) && !has_sub(lower, "429"@) && !has_sub(lower, "throttl"@)
            && !has_sub(lower, "cache miss"@) && !has_sub(lower, "cache not found"@) && !has_sub(lower, "cache_miss"@)
            && !has_sub(lower, "content filter"@) && !has_sub(lower, "content_filter"@)
            && !has_sub(lower, "unauthorized"@) && !has_sub(lower, "invalid api key"@)
            && !has_sub(lower, "invalid_api_key"@) && !has_sub(lower, "authentication"@) && !has_sub(lower, "forbidden"@)
            && !has_sub(lower, "model_not_found"@) && !has_sub(lower, "decommissioned"@) && !has_sub(lower, "has been retired"@)
            ==> classify_spec(model, message, lower, stop, None) == if stop == StopReason::Aborted {
                AgentErrorV::Aborted
            } else {
                AgentErrorV::StreamError { message }
            },
{
}

/// A failed response sends the loop to the next fallback model exactly when
/// its error is a transient one, throttling or network: a response without
/// error text never does; one whose structural kind is throttled or network
/// always does; one with any other structural kind never does; and without a
/// kind, it does exactly when the text has rate-limit wording and does not
/// mention the context window.
pub proof fn law_fallback_on_transient_failures(msg: AssistantMessageV)
    ensures
        msg.error_message is None ==> !fallback_eligible_spec(msg),
        msg.error_message is Some && msg.error_kind == Some(StreamErrorKind::Network) ==> fallback_eligible_spec(msg),
        msg.error_message is Some && msg.error_kind == Some(StreamErrorKind::Throttled) ==> fallback_eligible_spec(msg),
        (msg.error_kind matches Some(k) && k != StreamErrorKind::Network && k != StreamErrorKind::Throttled)
            ==> !fallback_eligible_spec(msg),
        (msg.error_message matches Some(t) && msg.error_kind is None) ==> (fallback_eligible_spec(msg) <==> {
            let lower = lowercase_of(msg.error_message->0);
            &&& !has_sub(lower, "context window"@)
            &&& !has_sub(lower, "context_length_exceeded"@)
            &&& (has_sub(lower, "rate limit"@) || has_sub(lower, "429"@) || has_sub(lower, "throttl"@))
        }),
{
}

/// The spec sent for a model: a model that declares capabilities without
/// thinking support is sent with thinking off; any other model is sent as
/// it is; and only the thinking level can ever change.
pub proof fn law_capability_overrides(model: ModelSpecV)
    ensures
        (model.capabilities matches Some(c) && !c.supports_thinking)
            ==> capability_overrides_spec(model).thinking_level == ThinkingLevel::Off,
        !(model.capabilities matches Some(c) && !c.supports_thinking) ==> capability_overrides_spec(model) == model,
        capability_overrides_spec(model) == (ModelSpecV { thinking_level: capability_overrides_spec(model).thinking_level, ..model }),
        capability_overrides_spec(model).thinking_level == model.thinking_level
            || capability_overrides_spec(model).thinking_level == ThinkingLevel::Off,
{
}

/// Filter the tool list by model capabilities: a model that declares it cannot
/// use tools is offered none; otherwise every tool passes.
pub fn capability_filter_tools<T: ?Sized>(model: &ModelSpec, tools: &[Arc<T>]) -> (r: Vec<
    Arc<T>,
>)
    ensures
        (match model.capabilities {
            Some(caps) => !caps.supports_tool_use,
            None => false,
        }) ==> r@.len() == 0,
        !(match model.capabilities {
            Some(caps) => !caps.supports_tool_use,
            None => false,
        }) ==> r@ == tools@,
{
    if let Some(caps) = model.capabilities {
        if !caps.supports_tool_use {
            return Vec::new();
        }
    }
    let mut r: Vec<Arc<T>> = Vec::new();
    let mut i: usize = 0;
    while i < tools.len()
        invariant
            i <= tools@.len(),
            r@ == tools@.take(i as int),
        decreases tools@.len() - i,
    {
        let t = tools[i].clone();
        r.push(t);
        assert(r@ =~= tools@.take(i + 1));
        i = i + 1;
    }
    assert(tools@.take(tools@.len() as int) =~= tools@);
    r
}

} // verus!

//! Per-call streaming configuration: transport, caching, reasoning effort,
//! and which serving options a provider adapter honors.
use std::time::Duration;

use vstd::prelude::*;

use crate::text::{chars_of, contains_str, has_prefix, has_sub, same_text, starts_with_str};

verus! {

/// `Duration::clone` from std: `Duration` is `Copy`, so its clone is the
/// value itself.
pub assume_specification[<Duration as Clone>::clone](d: &Duration) -> (r: Duration)
    ensures
        r == *d,
;

/// Transport protocol for streaming responses.
#[derive(Debug, Clone, Copy, PartialEq, Eq, Default)]
pub enum StreamTransport {
    /// Server-Sent Events (default).
    #[default]
    Sse,
}

/// Provider-agnostic caching configuration; adapters translate it to their
/// own cache markers, and those that cannot cache ignore it.
#[derive(Debug, Clone, Default)]
pub enum CacheStrategy {
    /// No caching (default): no cache markers are injected.
    #[default]
    Disabled,
    /// The adapter picks the cache points.
    Auto,
    /// Ephemeral cache markers on the system prompt and tool definitions.
    Anthropic,
    /// A cached-content resource kept for the given time.
    Google { ttl: Duration },
}

/// How much reasoning a model should spend, from none to the most the
/// provider offers.
#[derive(Clone, Copy, Debug, PartialEq, Eq)]
pub enum ReasoningEffort {
    Off,
    Minimal,
    Low,
    Medium,
    High,
    XHigh,
    Max,
}

/// Which serving options a stream function's request shape honors; a `false`
/// field means the adapter ignores that option.
#[derive(Debug, Clone, Copy, PartialEq, Eq, Structural)]
pub struct ServingOptionSupport {
    pub context_length: bool,
    pub top_p: bool,
    pub keep_alive: bool,
    pub format: bool,
    pub reasoning_effort: bool,
    pub extra: bool,
}

impl ServingOptionSupport {
    /// Every field honored.
    pub fn all() -> (r: Self)
        ensures
            r == (ServingOptionSupport {
                context_length: true,
                top_p: true,
                keep_alive: true,
                format: true,
                reasoning_effort: true,
                extra: true,
            }),
    {
        ServingOptionSupport {
            context_length: true,
            top_p: true,
            keep_alive: true,
            format: true,
            reasoning_effort: true,
            extra: true,
        }
    }

    /// No field honored.
    pub fn none() -> (r: Self)
        ensures
            r == (ServingOptionSupport {
                context_length: false,
                top_p: false,
                keep_alive: false,
                format: false,
                reasoning_effort: false,
                extra: false,
            }),
    {
        ServingOptionSupport {
            context_length: false,
            top_p: false,
            keep_alive: false,
            format: false,
            reasoning_effort: false,
            extra: false,
        }
    }

    /// Set whether `context_length` is honored.
    pub fn with_context_length(self, supported: bool) -> (r: Self)
        ensures
            r == (ServingOptionSupport { context_length: supported, ..self }),
    {
        ServingOptionSupport { context_length: supported, ..self }
    }

    /// Set whether `top_p` is honored.
    pub fn with_top_p(self, supported: bool) -> (r: Self)
        ensures
            r == (ServingOptionSupport { top_p: supported, ..self }),
    {
        ServingOptionSupport { top_p: supported, ..self }
    }

    /// Set whether `keep_alive` is honored.
    pub fn with_keep_alive(self, supported: bool) -> (r: Self)
        ensures
            r == (ServingOptionSupport { keep_alive: supported, ..self }),
    {
        ServingOptionSupport { keep_alive: supported, ..self }
    }

    /// Set whether `format` is honored.
    pub fn with_format(self, supported: bool) -> (r: Self)
        ensures
            r == (ServingOptionSupport { format: supported, ..self }),
    {
        ServingOptionSupport { format: supported, ..self }
    }

    /// Set whether `reasoning_effort` is honored.
    pub fn with_reasoning_effort(self, supported: bool) -> (r: Self)
        ensures
            r == (ServingOptionSupport { reasoning_effort: supported, ..self }),
    {
        ServingOptionSupport { reasoning_effort: supported, ..self }
    }

    /// Set whether `extra` is honored.
    pub fn with_extra(self, supported: bool) -> (r: Self)
        ensures
            r == (ServingOptionSupport { extra: supported, ..self }),
    {
        ServingOptionSupport { extra: supported, ..self }
    }
}

/// Which serving options a request sets: `extra` is set when it has at least
/// one entry, every other option when it is present.
#[derive(Debug, Clone, Copy, PartialEq, Eq, Structural)]
pub struct ServingFieldsSet {
    pub context_length: bool,
    pub top_p: bool,
    pub keep_alive: bool,
    pub format: bool,
    pub reasoning_effort: bool,
    pub extra: bool,
}

/// `name` when the option is set but not honored, nothing otherwise.
pub open spec fn dropped_if(set: bool, honored: bool, name: Seq<char>) -> Seq<Seq<char>> {
    if set && !honored {
        seq![name]
    } else {
        Seq::empty()
    }
}

/// Names of the options set but not honored, in field order.
pub open spec fn unsupported_spec(set: ServingFieldsSet, support: ServingOptionSupport) -> Seq<Seq<char>> {
    dropped_if(set.context_length, support.context_length, "context_length"@)
        + dropped_if(set.top_p, support.top_p, "top_p"@)
        + dropped_if(set.keep_alive, support.keep_alive, "keep_alive"@)
        + dropped_if(set.format, support.format, "format"@)
        + dropped_if(set.reasoning_effort, support.reasoning_effort, "reasoning_effort"@)
        + dropped_if(set.extra, support.extra, "extra"@)
}

pub open spec fn names_view(v: Seq<&'static str>) -> Seq<Seq<char>> {
    v.map_values(|s: &'static str| s@)
}

fn drop_if(dropped: &mut Vec<&'static str>, set: bool, honored: bool, name: &'static str)
    ensures
        names_view(final(dropped)@) == names_view(old(dropped)@) + dropped_if(set, honored, name@),
{
    let ghost before = dropped@;
    if set && !honored {
        dropped.push(name);
        assert(names_view(dropped@) =~= names_view(before) + seq![name@]);
    } else {
        assert(names_view(dropped@) =~= names_view(before) + Seq::<Seq<char>>::empty());
    }
}

/// Names of the fields set on a request that `support` does not honor, so a
/// host can warn exactly about the options a request shape will drop.
pub fn unsupported_fields(set: ServingFieldsSet, support: ServingOptionSupport) -> (r: Vec<&'static str>)
    ensures
        names_view(r@) == unsupported_spec(set, support),
{
    let mut dropped: Vec<&'static str> = Vec::new();
    assert(names_view(dropped@) =~= Seq::<Seq<char>>::empty());
    drop_if(&mut dropped, set.context_length, support.context_length, "context_length");
    drop_if(&mut dropped, set.top_p, support.top_p, "top_p");
    drop_if(&mut dropped, set.keep_alive, support.keep_alive, "keep_alive");
    drop_if(&mut dropped, set.format, support.format, "format");
    drop_if(&mut dropped, set.reasoning_effort, support.reasoning_effort, "reasoning_effort");
    drop_if(&mut dropped, set.extra, support.extra, "extra");
    assert(names_view(dropped@) =~= unsupported_spec(set, support));
    dropped
}

/// Whether a (lower-cased) response header carries rate-limit information:
/// its name mentions `ratelimit` or `rate-limit`, starts with `x-codex-`, or
/// is `retry-after`.
pub open spec fn is_rate_limit_header_spec(name: Seq<char>) -> bool {
    has_sub(name, "ratelimit"@) || has_sub(name, "rate-limit"@) || has_prefix(name, "x-codex-"@)
        || name == "retry-after"@
}

/// See [`is_rate_limit_header_spec`].
pub fn is_rate_limit_header(name: &str) -> (r: bool)
    ensures
        r == is_rate_limit_header_spec(name@),
{
    let chars = chars_of(name);
    contains_str(&chars, "ratelimit") || contains_str(&chars, "rate-limit") || starts_with_str(&chars, "x-codex-")
        || same_text(name, "retry-after")
}

/// Which field of a rate-limit snapshot a (lower-cased) header fills.
#[derive(Debug, Clone, Copy, PartialEq, Eq, Structural)]
pub enum RateLimitField {
    /// Share of the primary quota window consumed.
    UsedPercent,
    RemainingRequests,
    RemainingTokens,
    /// Time until the window resets.
    ResetsIn,
    /// A retry hint that only fills the reset time when nothing more specific
    /// did.
    RetryAfter,
    /// Length of the quota window, in minutes.
    WindowMinutes,
    /// The plan or tier label.
    Plan,
    /// Kept verbatim only.
    Other,
}

pub open spec fn rate_limit_field_spec(name: Seq<char>) -> RateLimitField {
    if name == "x-codex-primary-used-percent"@ {
        RateLimitField::UsedPercent
    } else if name == "x-ratelimit-remaining-requests"@ || name == "anthropic-ratelimit-requests-remaining"@ {
        RateLimitField::RemainingRequests
    } else if name == "x-ratelimit-remaining-tokens"@ || name == "anthropic-ratelimit-tokens-remaining"@ {
        RateLimitField::RemainingTokens
    } else if name == "x-codex-primary-reset-after-seconds"@ || name == "x-ratelimit-reset-requests"@ {
        RateLimitField::ResetsIn
    } else if name == "retry-after"@ {
        RateLimitField::RetryAfter
    } else if name == "x-codex-primary-window-minutes"@ {
        RateLimitField::WindowMinutes
    } else if name == "x-codex-plan-type"@ {
        RateLimitField::Plan
    } else {
        RateLimitField::Other
    }
}

/// See [`rate_limit_field_spec`].
pub fn rate_limit_field(name: &str) -> (r: RateLimitField)
    ensures
        r == rate_limit_field_spec(name@),
{
    if same_text(name, "x-codex-primary-used-percent") {
        RateLimitField::UsedPercent
    } else if same_text(name, "x-ratelimit-remaining-requests") || same_text(name, "anthropic-ratelimit-requests-remaining") {
        RateLimitField::RemainingRequests
    } else if same_text(name, "x-ratelimit-remaining-tokens") || same_text(name, "anthropic-ratelimit-tokens-remaining") {
        RateLimitField::RemainingTokens
    } else if same_text(name, "x-codex-primary-reset-after-seconds") || same_text(name, "x-ratelimit-reset-requests") {
        RateLimitField::ResetsIn
    } else if same_text(name, "retry-after") {
        RateLimitField::RetryAfter
    } else if same_text(name, "x-codex-primary-window-minutes") {
        RateLimitField::WindowMinutes
    } else if same_text(name, "x-codex-plan-type") {
        RateLimitField::Plan
    } else {
        RateLimitField::Other
    }
}

} // verus!

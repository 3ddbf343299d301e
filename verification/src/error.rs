//! The agent's error type.
use vstd::prelude::*;

use crate::text::{chars_of, contains_chars, has_sub};

verus! {

/// Errors surfaced by the agent loop and its helpers.
#[derive(Debug)]
pub enum AgentError {
    /// The provider throttled the request (rate limit).
    ModelThrottled,
    /// The request did not fit the model's context window.
    ContextWindowOverflow { model: String },
    /// Authentication or authorization failed.
    Auth { message: String },
    /// A transient network or server failure.
    NetworkError { message: String },
    /// Any other failure while streaming a response.
    StreamError { message: String },
    /// The provider's safety filter blocked the response.
    ContentFiltered,
    /// The provider-side prompt cache was missing.
    CacheMiss,
    /// The operation was cancelled.
    Aborted,
    /// The provider no longer serves the requested model.
    ModelRetired { message: String },
    /// A component of the agent (plugin, orchestrator, messaging) failed.
    Plugin { name: String, message: String },
}

/// The mathematical content of an [`AgentError`].
pub enum AgentErrorV {
    ModelThrottled,
    ContextWindowOverflow { model: Seq<char> },
    Auth { message: Seq<char> },
    NetworkError { message: Seq<char> },
    StreamError { message: Seq<char> },
    ContentFiltered,
    CacheMiss,
    Aborted,
    ModelRetired { message: Seq<char> },
    Plugin { name: Seq<char>, message: Seq<char> },
}

impl View for AgentError {
    type V = AgentErrorV;

    open spec fn view(&self) -> AgentErrorV {
        match self {
            AgentError::ModelThrottled => AgentErrorV::ModelThrottled,
            AgentError::ContextWindowOverflow { model } => AgentErrorV::ContextWindowOverflow {
                model: model@,
            },
            AgentError::Auth { message } => AgentErrorV::Auth { message: message@ },
            AgentError::NetworkError { message } => AgentErrorV::NetworkError { message: message@ },
            AgentError::StreamError { message } => AgentErrorV::StreamError { message: message@ },
            AgentError::ContentFiltered => AgentErrorV::ContentFiltered,
            AgentError::CacheMiss => AgentErrorV::CacheMiss,
            AgentError::Aborted => AgentErrorV::Aborted,
            AgentError::ModelRetired { message } => AgentErrorV::ModelRetired { message: message@ },
            AgentError::Plugin { name, message } => AgentErrorV::Plugin {
                name: name@,
                message: message@,
            },
        }
    }
}

impl AgentErrorV {
    /// Only transient failures (throttling and network errors) are worth retrying.
    pub open spec fn retryable(self) -> bool {
        self is ModelThrottled || self is NetworkError
    }

    /// The error's own description, without its underlying cause.
    pub open spec fn head(self) -> Seq<char> {
        match self {
            AgentErrorV::ModelThrottled => "model request throttled by provider"@,
            AgentErrorV::ContextWindowOverflow { model } => "context window overflow for model "@
                + model,
            AgentErrorV::Auth { message } => "authentication failed: "@ + message,
            AgentErrorV::NetworkError { .. } => "network error"@,
            AgentErrorV::StreamError { .. } => "stream error"@,
            AgentErrorV::ContentFiltered => "response blocked by provider content filter"@,
            AgentErrorV::CacheMiss => "provider cache miss"@,
            AgentErrorV::Aborted => "operation aborted"@,
            AgentErrorV::ModelRetired { message } => "model retired: "@ + message,
            AgentErrorV::Plugin { name, .. } => "plugin error in "@ + name,
        }
    }

    /// The underlying cause, for the variants that wrap one.
    pub open spec fn source(self) -> Option<Seq<char>> {
        match self {
            AgentErrorV::NetworkError { message } => Some(message),
            AgentErrorV::StreamError { message } => Some(message),
            AgentErrorV::Plugin { message, .. } => Some(message),
            _ => None,
        }
    }

    /// The description followed by every cause that adds something new.
    pub open spec fn full_text(self) -> Seq<char> {
        match self.source() {
            Some(src) => if src.len() != 0 && !has_sub(self.head(), src) {
                self.head() + ": "@ + src
            } else {
                self.head()
            },
            None => self.head(),
        }
    }
}

impl AgentError {
    /// Build a network error around the given cause.
    pub fn network(message: &str) -> (r: AgentError)
        ensures
            r@ == (AgentErrorV::NetworkError { message: message@ }),
    {
        AgentError::NetworkError { message: message.to_owned() }
    }

    /// Build a component error for the named component.
    pub fn plugin(name: &str, message: &str) -> (r: AgentError)
        ensures
            r@ == (AgentErrorV::Plugin { name: name@, message: message@ }),
    {
        AgentError::Plugin { name: name.to_owned(), message: message.to_owned() }
    }

    /// Whether retrying the failed operation may succeed.
    pub fn is_retryable(&self) -> (r: bool)
        ensures
            r == self@.retryable(),
    {
        match self {
            AgentError::ModelThrottled => true,
            AgentError::NetworkError { .. } => true,
            _ => false,
        }
    }

    /// The error's own description, without its cause.
    pub fn head_text(&self) -> (r: String)
        ensures
            r@ == self@.head(),
    {
        match self {
            AgentError::ModelThrottled => "model request throttled by provider".to_owned(),
            AgentError::ContextWindowOverflow { model } => {
                let mut s = "context window overflow for model ".to_owned();
                s.push_str(model.as_str());
                s
            },
            AgentError::Auth { message } => {
                let mut s = "authentication failed: ".to_owned();
                s.push_str(message.as_str());
                s
            },
            AgentError::NetworkError { .. } => "network error".to_owned(),
            AgentError::StreamError { .. } => "stream error".to_owned(),
            AgentError::ContentFiltered => "response blocked by provider content filter".to_owned(),
            AgentError::CacheMiss => "provider cache miss".to_owned(),
            AgentError::Aborted => "operation aborted".to_owned(),
            AgentError::ModelRetired { message } => {
                let mut s = "model retired: ".to_owned();
                s.push_str(message.as_str());
                s
            },
            AgentError::Plugin { name, .. } => {
                let mut s = "plugin error in ".to_owned();
                s.push_str(name.as_str());
                s
            },
        }
    }

    /// The underlying cause, if this error wraps one.
    pub fn source_text(&self) -> (r: Option<&str>)
        ensures
            match r {
                Some(s) => self@.source() == Some(s@),
                None => self@.source() is None,
            },
    {
        match self {
            AgentError::NetworkError { message } => Some(message.as_str()),
            AgentError::StreamError { message } => Some(message.as_str()),
            AgentError::Plugin { message, .. } => Some(message.as_str()),
            _ => None,
        }
    }
}

/// Render an error with its cause appended, unless the cause is empty or
/// already part of the description.
pub fn format_error_with_sources(error: &AgentError) -> (r: String)
    ensures
        r@ == error@.full_text(),
{
    let mut message = error.head_text();
    if let Some(src) = error.source_text() {
        let head = chars_of(message.as_str());
        let src_chars = chars_of(src);
        if src_chars.len() != 0 && !contains_chars(&head, &src_chars) {
            message.push_str(": ");
            message.push_str(src);
        }
    }
    message
}

} // verus!

//! The provider seam's plain data: conversation messages with image
//! attachments, tool calls, why a turn stopped, and provider failures.

use vstd::prelude::*;
use crate::text::{concat2, dec, owned, push_dec};

verus! {

/// An image attached to a message. Raw encoded bytes (PNG or JPEG);
/// base64 encoding happens at the provider boundary, never earlier.
/// Images are per-turn working memory: the runtime budgets them per
/// request and strips them from session history.
#[derive(Debug, Clone, PartialEq)]
pub struct ImagePart {
    /// MIME type: "image/png" or "image/jpeg".
    pub media_type: String,
    /// Raw encoded bytes.
    pub data: Vec<u8>,
    /// Short human label for transcripts and placeholders, e.g. "timeline at 12.40s".
    pub label: String,
}

impl ImagePart {
    /// A PNG attachment.
    pub fn png(data: Vec<u8>, label: &str) -> (r: Self)
        ensures
            r.media_type@ == "image/png"@,
            r.data@ == data@,
            r.label@ == label@,
    {
        ImagePart { media_type: owned("image/png"), data, label: owned(label) }
    }

    /// A JPEG attachment.
    pub fn jpeg(data: Vec<u8>, label: &str) -> (r: Self)
        ensures
            r.media_type@ == "image/jpeg"@,
            r.data@ == data@,
            r.label@ == label@,
    {
        ImagePart { media_type: owned("image/jpeg"), data, label: owned(label) }
    }
}

/// A tool invocation the model requested. `arguments` holds the call's
/// JSON arguments as text.
#[derive(Debug, Clone, PartialEq)]
pub struct ToolCall {
    /// Provider-assigned id; echoed back in the matching [`Message::ToolResult`].
    pub id: String,
    pub name: String,
    pub arguments: String,
}

/// One entry in the conversation, provider-agnostic.
#[derive(Debug, Clone, PartialEq)]
pub enum Message {
    System { content: String },
    User { content: String, images: Vec<ImagePart> },
    /// A prior model turn (text and/or the tool calls it made).
    Assistant { content: String, tool_calls: Vec<ToolCall> },
    /// The outcome of one tool call, fed back to the model.
    ToolResult { call_id: String, content: String, images: Vec<ImagePart> },
}

impl Message {
    /// A system message.
    pub fn system(content: &str) -> (r: Self)
        ensures
            r matches Message::System { content: c } && c@ == content@,
    {
        Message::System { content: owned(content) }
    }

    /// A user message without images.
    pub fn user(content: &str) -> (r: Self)
        ensures
            r matches Message::User { content: c, images } && c@ == content@ && images@.len() == 0,
    {
        Message::User { content: owned(content), images: Vec::new() }
    }

    /// An assistant message without tool calls.
    pub fn assistant_text(content: &str) -> (r: Self)
        ensures
            r matches Message::Assistant { content: c, tool_calls } && c@ == content@
                && tool_calls@.len() == 0,
    {
        Message::Assistant { content: owned(content), tool_calls: Vec::new() }
    }

    /// A tool result without images.
    pub fn tool_result(call_id: &str, content: &str) -> (r: Self)
        ensures
            r matches Message::ToolResult { call_id: id, content: c, images } && id@ == call_id@
                && c@ == content@ && images@.len() == 0,
    {
        Message::ToolResult { call_id: owned(call_id), content: owned(content), images: Vec::new() }
    }
}

/// Why the model stopped.
#[derive(Debug, Clone, Copy, PartialEq, Eq)]
pub enum FinishReason {
    /// Natural end of a text answer.
    Stop,
    /// The model wants its tool calls executed.
    ToolCalls,
    /// Token limit hit; the turn is truncated.
    Length,
    Other,
}

/// Provider failures, kept distinct so the UI can say "Ollama isn't
/// running at localhost:11434" instead of "something failed".
#[derive(Debug, Clone, PartialEq, Eq)]
pub enum ProviderError {
    /// No `[ai]` config, or it is unusable (missing key, bad env var).
    NotConfigured(String),
    /// Could not reach the endpoint at all.
    Network(String),
    /// The endpoint answered with an error (HTTP status, rate limit, ...).
    Provider { status: u16, message: String },
    /// The endpoint answered with something we could not parse.
    Protocol(String),
    /// The cancel flag was raised mid-stream.
    Cancelled,
}

/// The user-facing sentence for a provider failure.
pub open spec fn provider_error_text(e: ProviderError) -> Seq<char> {
    match e {
        ProviderError::NotConfigured(m) => "AI is not configured: "@ + m@,
        ProviderError::Network(m) => "could not reach the AI provider: "@ + m@,
        ProviderError::Provider { status, message } =>
            "the AI provider returned HTTP "@ + dec(status as nat) + ": "@ + message@,
        ProviderError::Protocol(m) => "unexpected response from the AI provider: "@ + m@,
        ProviderError::Cancelled => "cancelled"@,
    }
}

impl ProviderError {
    /// The user-facing sentence for this failure.
    pub fn message(&self) -> (r: String)
        ensures
            r@ == provider_error_text(*self),
    {
        match self {
            ProviderError::NotConfigured(m) => concat2("AI is not configured: ", m.as_str()),
            ProviderError::Network(m) => concat2("could not reach the AI provider: ", m.as_str()),
            ProviderError::Provider { status, message } => {
                let mut r = owned("the AI provider returned HTTP ");
                push_dec(&mut r, *status as u64);
                r.append(": ");
                r.append(message.as_str());
                r
            },
            ProviderError::Protocol(m) => concat2("unexpected response from the AI provider: ", m.as_str()),
            ProviderError::Cancelled => owned("cancelled"),
        }
    }
}

/// One provider stream delta. Reasoning summaries stay a distinct channel so
/// callers cannot accidentally append them to assistant text or model history.
#[derive(Debug, Clone, Copy, PartialEq, Eq)]
pub enum ProviderStreamEvent<'a> {
    TextDelta(&'a str),
    ReasoningSummaryDelta(&'a str),
}

} // verus!

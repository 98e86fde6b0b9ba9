//! The data types spoken between the terminal and a model provider.
//!
//! The providers themselves do network I/O and live with the embedding layer;
//! the message, response and error shapes they exchange are plain values and
//! stand here.

use vstd::prelude::*;

verus! {

/// Who said one message of a conversation.
#[derive(Debug, Clone, Copy, PartialEq, Eq, Structural)]
pub enum MessageRole {
    System,
    User,
    Assistant,
}

/// One message of a conversation.
#[derive(Debug, Clone)]
pub struct Message {
    pub role: MessageRole,
    pub content: String,
}

impl Message {
    /// A message with this role and content.
    pub fn new(role: MessageRole, content: String) -> (m: Message)
        ensures
            m.role == role,
            m.content == content,
    {
        Message { role, content }
    }
}

/// Token accounting of one completion.
#[derive(Debug, Clone, Copy, PartialEq, Eq, Structural)]
pub struct Usage {
    pub prompt_tokens: u32,
    pub completion_tokens: u32,
    pub total_tokens: u32,
}

/// One completed answer from a provider.
#[derive(Debug, Clone)]
pub struct ChatResponse {
    pub content: String,
    pub model: String,
    pub finish_reason: Option<String>,
    pub usage: Option<Usage>,
}

/// What went wrong talking to a provider.
#[derive(Debug, Clone)]
pub enum AiError {
    NotConfigured(String),
    ApiError(String),
    NetworkError(String),
    RateLimitExceeded,
    InvalidRequest(String),
    ModelNotFound(String),
    StreamError(String),
    Unknown(String),
}

/// The rendering of an error for a human.
pub open spec fn error_text(e: AiError) -> Seq<char> {
    match e {
        AiError::NotConfigured(s) => "Provider not configured: "@ + s@,
        AiError::ApiError(s) => "API error: "@ + s@,
        AiError::NetworkError(s) => "Network error: "@ + s@,
        AiError::RateLimitExceeded => "Rate limit exceeded"@,
        AiError::InvalidRequest(s) => "Invalid request: "@ + s@,
        AiError::ModelNotFound(s) => "Model not found: "@ + s@,
        AiError::StreamError(s) => "Streaming error: "@ + s@,
        AiError::Unknown(s) => "Unknown error: "@ + s@,
    }
}

impl AiError {
    /// Render the error for a human.
    pub fn message(&self) -> (r: String)
        ensures
            r@ == error_text(*self),
    {
        match self {
            AiError::NotConfigured(s) => String::from_str("Provider not configured: ").concat(
                s.as_str(),
            ),
            AiError::ApiError(s) => String::from_str("API error: ").concat(s.as_str()),
            AiError::NetworkError(s) => String::from_str("Network error: ").concat(s.as_str()),
            AiError::RateLimitExceeded => String::from_str("Rate limit exceeded"),
            AiError::InvalidRequest(s) => String::from_str("Invalid request: ").concat(s.as_str()),
            AiError::ModelNotFound(s) => String::from_str("Model not found: ").concat(s.as_str()),
            AiError::StreamError(s) => String::from_str("Streaming error: ").concat(s.as_str()),
            AiError::Unknown(s) => String::from_str("Unknown error: ").concat(s.as_str()),
        }
    }
}

} // verus!

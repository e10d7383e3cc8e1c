use vstd::prelude::*;
use crate::text::{concat_str, decimal_nat, push_decimal_u64, push_str_chars, string_from_chars};

verus! {

/// A failure of the language-model layer.
#[derive(Debug, Clone)]
pub enum LLMError {
    ApiError(String),
    NetworkError(String),
    AuthenticationError(String),
    JsonError(String),
    ConfigError(String),
    TimeoutError { seconds: u64 },
    RateLimitError(String),
    StreamError(String),
}

/// The abstract content of an [`LLMError`].
pub enum LLMErrorView {
    ApiError(Seq<char>),
    NetworkError(Seq<char>),
    AuthenticationError(Seq<char>),
    JsonError(Seq<char>),
    ConfigError(Seq<char>),
    TimeoutError(u64),
    RateLimitError(Seq<char>),
    StreamError(Seq<char>),
}

impl View for LLMError {
    type V = LLMErrorView;

    open spec fn view(&self) -> LLMErrorView {
        match self {
            LLMError::ApiError(s) => LLMErrorView::ApiError(s@),
            LLMError::NetworkError(s) => LLMErrorView::NetworkError(s@),
            LLMError::AuthenticationError(s) => LLMErrorView::AuthenticationError(s@),
            LLMError::JsonError(s) => LLMErrorView::JsonError(s@),
            LLMError::ConfigError(s) => LLMErrorView::ConfigError(s@),
            LLMError::TimeoutError { seconds } => LLMErrorView::TimeoutError(*seconds),
            LLMError::RateLimitError(s) => LLMErrorView::RateLimitError(s@),
            LLMError::StreamError(s) => LLMErrorView::StreamError(s@),
        }
    }
}

/// The message a language-model error is displayed with.
pub open spec fn llm_message(e: LLMErrorView) -> Seq<char> {
    match e {
        LLMErrorView::ApiError(s) => "API error: "@ + s,
        LLMErrorView::NetworkError(s) => "Network error: "@ + s,
        LLMErrorView::AuthenticationError(s) => "Authentication failed: "@ + s,
        LLMErrorView::JsonError(s) => "JSON parsing error: "@ + s,
        LLMErrorView::ConfigError(s) => "Configuration error: "@ + s,
        LLMErrorView::TimeoutError(t) =>
            "Timeout error: request timed out after "@ + decimal_nat(t as nat) + " seconds"@,
        LLMErrorView::RateLimitError(s) => "Rate limit exceeded: "@ + s,
        LLMErrorView::StreamError(s) => "Streaming error: "@ + s,
    }
}

impl LLMError {
    /// The message this error is displayed with.
    pub fn message(&self) -> (m: String)
        ensures
            m@ == llm_message(self@),
    {
        match self {
            LLMError::ApiError(s) => concat_str("API error: ", s.as_str()),
            LLMError::NetworkError(s) => concat_str("Network error: ", s.as_str()),
            LLMError::AuthenticationError(s) => concat_str("Authentication failed: ", s.as_str()),
            LLMError::JsonError(s) => concat_str("JSON parsing error: ", s.as_str()),
            LLMError::ConfigError(s) => concat_str("Configuration error: ", s.as_str()),
            LLMError::TimeoutError { seconds } => {
                let mut out: Vec<char> = Vec::new();
                push_str_chars(&mut out, "Timeout error: request timed out after ");
                push_decimal_u64(*seconds, &mut out);
                push_str_chars(&mut out, " seconds");
                string_from_chars(out.as_slice())
            },
            LLMError::RateLimitError(s) => concat_str("Rate limit exceeded: ", s.as_str()),
            LLMError::StreamError(s) => concat_str("Streaming error: ", s.as_str()),
        }
    }

    /// The API error that reports a boxed failure, given the failure's displayed message.
    pub fn from_box_error(message: String) -> (e: LLMError)
        ensures
            e@ == LLMErrorView::ApiError(message@),
    {
        LLMError::ApiError(message)
    }
}

} // verus!

//! Error taxonomy: a typed router error plus provider, configuration,
//! network and authentication errors.
use vstd::prelude::*;
use vstd::string::*;

verus! {

/// Kinds of failure the router distinguishes.
#[derive(Debug, Clone, Copy, PartialEq, Eq, Structural)]
pub enum ErrorType {
    ConfigurationError,
    ProviderError,
    ValidationError,
    NetworkError,
    TranslationError,
    StreamingError,
    InternalError,
    AuthenticationError,
    RateLimitError,
    TimeoutError,
    InvalidRequestError,
    ModelNotFoundError,
    ToolExecutionError,
}

impl ErrorType {
    /// The HTTP status that answers an error of this kind.
    pub open spec fn spec_status(self) -> u16 {
        match self {
            ErrorType::ConfigurationError => 400,
            ErrorType::ProviderError => 502,
            ErrorType::ValidationError => 400,
            ErrorType::NetworkError => 502,
            ErrorType::TranslationError => 400,
            ErrorType::StreamingError => 400,
            ErrorType::InternalError => 500,
            ErrorType::AuthenticationError => 401,
            ErrorType::RateLimitError => 429,
            ErrorType::TimeoutError => 408,
            ErrorType::InvalidRequestError => 400,
            ErrorType::ModelNotFoundError => 404,
            ErrorType::ToolExecutionError => 400,
        }
    }

    /// The variant's name, as it is printed.
    pub open spec fn spec_name(self) -> Seq<char> {
        match self {
            ErrorType::ConfigurationError => "ConfigurationError"@,
            ErrorType::ProviderError => "ProviderError"@,
            ErrorType::ValidationError => "ValidationError"@,
            ErrorType::NetworkError => "NetworkError"@,
            ErrorType::TranslationError => "TranslationError"@,
            ErrorType::StreamingError => "StreamingError"@,
            ErrorType::InternalError => "InternalError"@,
            ErrorType::AuthenticationError => "AuthenticationError"@,
            ErrorType::RateLimitError => "RateLimitError"@,
            ErrorType::TimeoutError => "TimeoutError"@,
            ErrorType::InvalidRequestError => "InvalidRequestError"@,
            ErrorType::ModelNotFoundError => "ModelNotFoundError"@,
            ErrorType::ToolExecutionError => "ToolExecutionError"@,
        }
    }

    /// The variant's name.
    pub fn name(&self) -> (s: &'static str)
        ensures
            s@ == self.spec_name(),
    {
        match self {
            ErrorType::ConfigurationError => "ConfigurationError",
            ErrorType::ProviderError => "ProviderError",
            ErrorType::ValidationError => "ValidationError",
            ErrorType::NetworkError => "NetworkError",
            ErrorType::TranslationError => "TranslationError",
            ErrorType::StreamingError => "StreamingError",
            ErrorType::InternalError => "InternalError",
            ErrorType::AuthenticationError => "AuthenticationError",
            ErrorType::RateLimitError => "RateLimitError",
            ErrorType::TimeoutError => "TimeoutError",
            ErrorType::InvalidRequestError => "InvalidRequestError",
            ErrorType::ModelNotFoundError => "ModelNotFoundError",
            ErrorType::ToolExecutionError => "ToolExecutionError",
        }
    }
}

/// Custom error type for the router
#[derive(Debug, Clone, PartialEq)]
pub struct RouterError {
    pub error_type: ErrorType,
    pub message: String,
    pub details: Option<String>,
}

/// The text of a displayed source error.
pub open spec fn displayed<E: core::fmt::Display>(source: &E, text: Seq<char>) -> bool {
    exists|s: String| s@ == text && to_string_from_display_ensures::<E>(source, s)
}

/// Displays `source` (its `Display` form).
fn display_text<E: core::fmt::Display>(source: &E) -> (r: String)
    ensures
        displayed(source, r@),
{
    source.to_string()
}

impl RouterError {
    /// The error as it is displayed: "{type}: {message}", then
    /// " ({details})" when there are details.
    pub open spec fn spec_display(&self) -> Seq<char> {
        let head = self.error_type.spec_name() + ": "@ + self.message@;
        match self.details {
            Some(d) => head + " ("@ + d@ + ")"@,
            None => head,
        }
    }

    /// The HTTP status that answers this error.
    pub open spec fn spec_status_code(&self) -> u16 {
        self.error_type.spec_status()
    }

    /// Create a new router error
    pub fn new(error_type: ErrorType, message: &str) -> (r: Self)
        ensures
            r.error_type == error_type,
            r.message@ == message@,
            r.details is None,
    {
        Self { error_type, message: String::from_str(message), details: None }
    }

    /// Create a new router error with details
    pub fn with_details(error_type: ErrorType, message: &str, details: &str) -> (r: Self)
        ensures
            r.error_type == error_type,
            r.message@ == message@,
            r.details matches Some(d) && d@ == details@,
    {
        Self {
            error_type,
            message: String::from_str(message),
            details: Some(String::from_str(details)),
        }
    }

    /// Create a new router error whose details are a source error's text
    pub fn with_source<E: core::fmt::Display>(error_type: ErrorType, message: &str, source: E) -> (r: Self)
        ensures
            r.error_type == error_type,
            r.message@ == message@,
            r.details matches Some(d) && displayed(&source, d@),
    {
        Self {
            error_type,
            message: String::from_str(message),
            details: Some(display_text(&source)),
        }
    }

    /// Get HTTP status code for this error
    pub fn status_code(&self) -> (r: u16)
        ensures
            r == self.spec_status_code(),
    {
        match self.error_type {
            ErrorType::ConfigurationError => 400,
            ErrorType::ProviderError => 502,
            ErrorType::ValidationError => 400,
            ErrorType::NetworkError => 502,
            ErrorType::TranslationError => 400,
            ErrorType::StreamingError => 400,
            ErrorType::InternalError => 500,
            ErrorType::AuthenticationError => 401,
            ErrorType::RateLimitError => 429,
            ErrorType::TimeoutError => 408,
            ErrorType::InvalidRequestError => 400,
            ErrorType::ModelNotFoundError => 404,
            ErrorType::ToolExecutionError => 400,
        }
    }

    /// Add context to the error: it leads the existing details, or becomes
    /// the details when there are none.
    pub fn context(self, context: &str) -> (r: Self)
        ensures
            r.error_type == self.error_type,
            r.message == self.message,
            r.details matches Some(d) && d@ == match self.details {
                Some(old) => context@ + ": "@ + old@,
                None => context@,
            },
    {
        let mut this = self;
        let details = match this.details {
            Some(old) => {
                let mut d = String::from_str(context);
                d.append(": ");
                d.append(old.as_str());
                d
            },
            None => String::from_str(context),
        };
        this.details = Some(details);
        this
    }

    /// Chain another error as context: its text follows the existing
    /// details, or becomes the details when there are none.
    pub fn caused_by<E: core::fmt::Display>(self, source: E) -> (r: Self)
        ensures
            r.error_type == self.error_type,
            r.message == self.message,
            r.details matches Some(d) && match self.details {
                Some(old) => d@.len() >= old@.len() + 2 && d@.take(old@.len() + 2int) == old@ + ": "@
                    && displayed(&source, d@.skip(old@.len() + 2int)),
                None => displayed(&source, d@),
            },
    {
        let mut this = self;
        let text = display_text(&source);
        proof {
            reveal_strlit(": ");
        }
        let details = match this.details {
            Some(old) => {
                let mut d = old;
                d.append(": ");
                let ghost prefix = d@;
                d.append(text.as_str());
                assert(d@.take(prefix.len() as int) == prefix);
                assert(d@.skip(prefix.len() as int) == text@);
                d
            },
            None => text,
        };
        this.details = Some(details);
        this
    }

    /// The error as it is displayed.
    pub fn to_string(&self) -> (r: String)
        ensures
            r@ == self.spec_display(),
    {
        let mut s = String::from_str(self.error_type.name());
        s.append(": ");
        s.append(self.message.as_str());
        if let Some(d) = &self.details {
            s.append(" (");
            s.append(d.as_str());
            s.append(")");
        }
        s
    }
}

/// " (source: {source})" when there is a source, else nothing.
pub open spec fn source_suffix(source: Option<String>) -> Seq<char> {
    match source {
        Some(s) => " (source: "@ + s@ + ")"@,
        None => Seq::empty(),
    }
}

fn append_source(s: &mut String, source: &Option<String>)
    ensures
        final(s)@ == old(s)@ + source_suffix(*source),
{
    if let Some(src) = source {
        s.append(" (source: ");
        s.append(src.as_str());
        s.append(")");
    }
}

/// Configuration error
#[derive(Debug, Clone, PartialEq)]
pub struct ConfigError {
    pub message: String,
    /// The text of the error that caused this one.
    pub source: Option<String>,
}

impl ConfigError {
    pub fn new(message: &str) -> (r: Self)
        ensures
            r.message@ == message@,
            r.source is None,
    {
        Self { message: String::from_str(message), source: None }
    }

    pub fn with_source<E: core::fmt::Display>(message: &str, source: E) -> (r: Self)
        ensures
            r.message@ == message@,
            r.source matches Some(s) && displayed(&source, s@),
    {
        Self { message: String::from_str(message), source: Some(display_text(&source)) }
    }

    /// "Configuration error: {message}", then " (source: {source})".
    pub fn to_string(&self) -> (r: String)
        ensures
            r@ == "Configuration error: "@ + self.message@ + source_suffix(self.source),
    {
        let mut s = String::from_str("Configuration error: ");
        s.append(self.message.as_str());
        append_source(&mut s, &self.source);
        s
    }
}

/// Provider error
#[derive(Debug, Clone, PartialEq)]
pub struct ProviderError {
    pub provider: String,
    pub message: String,
    /// The text of the error that caused this one.
    pub source: Option<String>,
}

impl ProviderError {
    pub fn new(provider: &str, message: &str) -> (r: Self)
        ensures
            r.provider@ == provider@,
            r.message@ == message@,
            r.source is None,
    {
        Self { provider: String::from_str(provider), message: String::from_str(message), source: None }
    }

    pub fn with_source<E: core::fmt::Display>(provider: &str, message: &str, source: E) -> (r: Self)
        ensures
            r.provider@ == provider@,
            r.message@ == message@,
            r.source matches Some(s) && displayed(&source, s@),
    {
        Self {
            provider: String::from_str(provider),
            message: String::from_str(message),
            source: Some(display_text(&source)),
        }
    }

    /// "Provider '{provider}' error: {message}", then " (source: {source})".
    pub fn to_string(&self) -> (r: String)
        ensures
            r@ == "Provider '"@ + self.provider@ + "' error: "@ + self.message@ + source_suffix(
                self.source,
            ),
    {
        let mut s = String::from_str("Provider '");
        s.append(self.provider.as_str());
        s.append("' error: ");
        s.append(self.message.as_str());
        append_source(&mut s, &self.source);
        s
    }
}

/// Network error
#[derive(Debug, Clone, PartialEq)]
pub struct NetworkError {
    pub message: String,
    /// The text of the error that caused this one.
    pub source: Option<String>,
}

impl NetworkError {
    pub fn new(message: &str) -> (r: Self)
        ensures
            r.message@ == message@,
            r.source is None,
    {
        Self { message: String::from_str(message), source: None }
    }

    pub fn with_source<E: core::fmt::Display>(message: &str, source: E) -> (r: Self)
        ensures
            r.message@ == message@,
            r.source matches Some(s) && displayed(&source, s@),
    {
        Self { message: String::from_str(message), source: Some(display_text(&source)) }
    }

    /// "Network error: {message}", then " (source: {source})".
    pub fn to_string(&self) -> (r: String)
        ensures
            r@ == "Network error: "@ + self.message@ + source_suffix(self.source),
    {
        let mut s = String::from_str("Network error: ");
        s.append(self.message.as_str());
        append_source(&mut s, &self.source);
        s
    }
}

/// Authentication error
#[derive(Debug, Clone, PartialEq)]
pub struct AuthenticationError {
    pub message: String,
    /// The text of the error that caused this one.
    pub source: Option<String>,
}

impl AuthenticationError {
    pub fn new(message: &str) -> (r: Self)
        ensures
            r.message@ == message@,
            r.source is None,
    {
        Self { message: String::from_str(message), source: None }
    }

    pub fn with_source<E: core::fmt::Display>(message: &str, source: E) -> (r: Self)
        ensures
            r.message@ == message@,
            r.source matches Some(s) && displayed(&source, s@),
    {
        Self { message: String::from_str(message), source: Some(display_text(&source)) }
    }

    /// "Authentication error: {message}", then " (source: {source})".
    pub fn to_string(&self) -> (r: String)
        ensures
            r@ == "Authentication error: "@ + self.message@ + source_suffix(self.source),
    {
        let mut s = String::from_str("Authentication error: ");
        s.append(self.message.as_str());
        append_source(&mut s, &self.source);
        s
    }
}

} // verus!

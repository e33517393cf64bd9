use vstd::prelude::*;

verus! {

/// The errors that cross the library's boundary.
#[derive(Debug, Clone, PartialEq, Eq)]
pub enum Error {
    /// The requested operation is invalid in the current state.
    InvalidState(String),
    /// A configuration error: a domain is missing or the configuration is invalid.
    Config(String),
    /// The persistence backend failed.
    Persistence(String),
    /// The language-model provider failed; `retryable` is passed on from the client.
    LlmProvider { provider: String, details: String, retryable: bool },
    /// The prompt renderer failed.
    TemplateRendering(String),
    /// A path was refused or a file operation failed.
    FileSystem(String),
    /// A red flag raised by a validator; the sample collector turns it into a rejected sample.
    RedFlag { flagger: String, reason: String },
    /// Budget exhaustion and other failures of the system.
    System(String),
}

impl Error {
    /// The message a user sees for this error.
    pub fn message(&self) -> (r: String)
        ensures
            self matches Error::InvalidState(m) ==> r@ == "Invalid state: "@ + m@,
            self matches Error::Config(m) ==> r@ == "Configuration error: "@ + m@,
            self matches Error::Persistence(m) ==> r@ == "Persistence error: "@ + m@,
            self matches Error::LlmProvider { provider, details, .. } ==> r@ == "LLM error ("@
                + provider@ + "): "@ + details@,
            self matches Error::TemplateRendering(m) ==> r@ == "Template error: "@ + m@,
            self matches Error::FileSystem(m) ==> r@ == "File system error: "@ + m@,
            self matches Error::RedFlag { flagger, reason } ==> r@ == "Red flag raised by "@
                + flagger@ + ": "@ + reason@,
            self matches Error::System(m) ==> r@ == "System error: "@ + m@,
    {
        match self {
            Error::InvalidState(msg) => String::from_str("Invalid state: ").concat(msg.as_str()),
            Error::Config(msg) => String::from_str("Configuration error: ").concat(msg.as_str()),
            Error::Persistence(msg) => String::from_str("Persistence error: ").concat(
                msg.as_str(),
            ),
            Error::LlmProvider { provider, details, .. } => String::from_str("LLM error (").concat(
                provider.as_str(),
            ).concat("): ").concat(details.as_str()),
            Error::TemplateRendering(msg) => String::from_str("Template error: ").concat(
                msg.as_str(),
            ),
            Error::FileSystem(msg) => String::from_str("File system error: ").concat(msg.as_str()),
            Error::RedFlag { flagger, reason } => String::from_str("Red flag raised by ").concat(
                flagger.as_str(),
            ).concat(": ").concat(reason.as_str()),
            Error::System(msg) => String::from_str("System error: ").concat(msg.as_str()),
        }
    }
}

} // verus!

//! Error types for the dotprompt library.

use vstd::prelude::*;

verus! {

/// Result type alias for dotprompt operations.
pub type Result<T> = core::result::Result<T, DotpromptError>;

/// Errors that can occur when working with prompt templates.
#[derive(Debug, Clone, PartialEq, Eq)]
pub enum DotpromptError {
    /// Failed to parse the YAML frontmatter.
    FrontmatterParseError(String),
    /// Failed to parse JSON data.
    JsonParseError(String),
    /// Template compilation failed.
    CompilationError(String),
    /// Template rendering failed.
    RenderError(String),
    /// A required field is missing.
    MissingField(String),
    /// Invalid template format.
    InvalidFormat(String),
    /// Picoschema conversion failed.
    PicoschemaError(String),
    /// Tool resolution failed.
    ToolResolutionError(String),
    /// Schema resolution failed.
    SchemaResolutionError(String),
    /// A prompt name failed validation.
    InvalidPromptName(String),
    /// A store operation failed.
    StoreError(String),
}

impl DotpromptError {
    /// The detail text the error carries.
    pub fn detail(&self) -> (r: &String)
        ensures
            r@ == self.detail_model(),
    {
        match self {
            DotpromptError::FrontmatterParseError(s) => s,
            DotpromptError::JsonParseError(s) => s,
            DotpromptError::CompilationError(s) => s,
            DotpromptError::RenderError(s) => s,
            DotpromptError::MissingField(s) => s,
            DotpromptError::InvalidFormat(s) => s,
            DotpromptError::PicoschemaError(s) => s,
            DotpromptError::ToolResolutionError(s) => s,
            DotpromptError::SchemaResolutionError(s) => s,
            DotpromptError::InvalidPromptName(s) => s,
            DotpromptError::StoreError(s) => s,
        }
    }

    /// The model of the detail text.
    pub open spec fn detail_model(&self) -> Seq<char> {
        match self {
            DotpromptError::FrontmatterParseError(s) => s@,
            DotpromptError::JsonParseError(s) => s@,
            DotpromptError::CompilationError(s) => s@,
            DotpromptError::RenderError(s) => s@,
            DotpromptError::MissingField(s) => s@,
            DotpromptError::InvalidFormat(s) => s@,
            DotpromptError::PicoschemaError(s) => s@,
            DotpromptError::ToolResolutionError(s) => s@,
            DotpromptError::SchemaResolutionError(s) => s@,
            DotpromptError::InvalidPromptName(s) => s@,
            DotpromptError::StoreError(s) => s@,
        }
    }
}

} // verus!

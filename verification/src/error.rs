//! What can go wrong, and how it is told to the user.
use vstd::prelude::*;

verus! {

/// A failure that ends a run of `ai`.
#[derive(Debug, PartialEq)]
pub enum AiError {
    /// No prompt was given.
    MissingPrompt,
    /// The rounds are used up and no command was settled on.
    TooManyRounds,
    /// The API key cannot stand in an HTTP header, for this cause.
    InvalidApiKey(String),
    /// The reply of the API is not a chat response.
    InvalidReply,
    /// The stored reply is not a chat response.
    InvalidCachedReply,
    /// The chat response has no choice.
    NoChoices,
    /// The model's answer is not a plan. This is the text that was to be one.
    InvalidPlan(String),
    /// The answer to a clarification is blank.
    EmptyAnswer,
    /// There is no home directory to look for files in.
    HomeNotSet,
    /// There was no configuration, so a template was written to this path.
    ConfigCreated(String),
    /// The configuration at this path does not parse.
    ConfigNotParsed(String),
    /// The path to list is not a directory.
    NotADirectory(String),
    /// The listing of this path did not start.
    ListingNotRun(String),
    /// The listing of this path failed, with what it said on its error stream.
    ListingFailed { path: String, stderr: String },
    /// The shell command ended with this status.
    CommandFailed(String),
}

impl AiError {
    /// What the user is told.
    pub open spec fn said(self) -> Seq<char> {
        match self {
            AiError::MissingPrompt => "missing prompt"@,
            AiError::TooManyRounds => "too many clarification rounds without a command"@,
            AiError::InvalidApiKey(_) => "invalid API key header value"@,
            AiError::InvalidReply => "failed to parse LLM API response"@,
            AiError::InvalidCachedReply => "cached LLM response was not valid response JSON"@,
            AiError::NoChoices => "LLM API response did not include any choices"@,
            AiError::InvalidPlan(_) => "model response was not valid plan JSON"@,
            AiError::EmptyAnswer => "clarification answer cannot be empty"@,
            AiError::HomeNotSet => "HOME is not set"@,
            AiError::ConfigCreated(path) => "created config template at "@ + path@
                + ". Fill in api_key and model, then run ai again"@,
            AiError::ConfigNotParsed(path) => "failed to parse "@ + path@,
            AiError::NotADirectory(path) => "--ls path is not a directory: "@ + path@,
            AiError::ListingNotRun(path) => "failed to run ls -la "@ + path@,
            AiError::ListingFailed { path, stderr } => "ls -la "@ + path@ + " failed: "@ + stderr@,
            AiError::CommandFailed(status) => "command exited with status "@ + status@,
        }
    }

    /// What the user is told.
    pub fn message(&self) -> (text: String)
        ensures
            text@ == self.said(),
    {
        match self {
            AiError::MissingPrompt => "missing prompt".to_string(),
            AiError::TooManyRounds => "too many clarification rounds without a command".to_string(),
            AiError::InvalidApiKey(_) => "invalid API key header value".to_string(),
            AiError::InvalidReply => "failed to parse LLM API response".to_string(),
            AiError::InvalidCachedReply =>
                "cached LLM response was not valid response JSON".to_string(),
            AiError::NoChoices => "LLM API response did not include any choices".to_string(),
            AiError::InvalidPlan(_) => "model response was not valid plan JSON".to_string(),
            AiError::EmptyAnswer => "clarification answer cannot be empty".to_string(),
            AiError::HomeNotSet => "HOME is not set".to_string(),
            AiError::ConfigCreated(path) => "created config template at ".to_string().concat(
                path.as_str(),
            ).concat(". Fill in api_key and model, then run ai again"),
            AiError::ConfigNotParsed(path) => "failed to parse ".to_string().concat(path.as_str()),
            AiError::NotADirectory(path) => "--ls path is not a directory: ".to_string().concat(
                path.as_str(),
            ),
            AiError::ListingNotRun(path) => "failed to run ls -la ".to_string().concat(
                path.as_str(),
            ),
            AiError::ListingFailed { path, stderr } => "ls -la ".to_string().concat(
                path.as_str(),
            ).concat(" failed: ").concat(stderr.as_str()),
            AiError::CommandFailed(status) => "command exited with status ".to_string().concat(
                status.as_str(),
            ),
        }
    }
}

} // verus!

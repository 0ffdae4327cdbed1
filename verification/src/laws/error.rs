//! What the user is told when something fails.
use vstd::prelude::*;
use crate::error::AiError;

verus! {

/// A failure names what it is about: the path, what was said of it, or the status.
pub proof fn failures_name_what_they_are_about(path: String, said: String)
    ensures
        AiError::ConfigCreated(path).said() == "created config template at "@ + path@
            + ". Fill in api_key and model, then run ai again"@,
        AiError::ConfigNotParsed(path).said() == "failed to parse "@ + path@,
        AiError::NotADirectory(path).said() == "--ls path is not a directory: "@ + path@,
        AiError::ListingNotRun(path).said() == "failed to run ls -la "@ + path@,
        (AiError::ListingFailed { path, stderr: said }).said() == "ls -la "@ + path@ + " failed: "@
            + said@,
        AiError::CommandFailed(said).said() == "command exited with status "@ + said@,
{
}

/// The other failures are told in the same words whatever they carry.
pub proof fn other_failures_are_told_in_fixed_words(carried: String)
    ensures
        AiError::MissingPrompt.said() == "missing prompt"@,
        AiError::TooManyRounds.said() == "too many clarification rounds without a command"@,
        AiError::InvalidApiKey(carried).said() == "invalid API key header value"@,
        AiError::InvalidReply.said() == "failed to parse LLM API response"@,
        AiError::InvalidCachedReply.said() == "cached LLM response was not valid response JSON"@,
        AiError::NoChoices.said() == "LLM API response did not include any choices"@,
        AiError::InvalidPlan(carried).said() == "model response was not valid plan JSON"@,
        AiError::EmptyAnswer.said() == "clarification answer cannot be empty"@,
        AiError::HomeNotSet.said() == "HOME is not set"@,
{
}

} // verus!

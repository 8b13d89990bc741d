//! Decisions around the stored credentials: when a stored value is used,
//! when the user is asked for one, and when the lack of one is fatal.

use vstd::prelude::*;

verus! {

/// The credential store's service name.
pub const SERVICE: &'static str = "txcv";

/// The keys of the three stored credentials.
pub const SECRET_ID: &'static str = "secret_id";
pub const SECRET_KEY: &'static str = "secret_key";
pub const REGION: &'static str = "region";

/// What reading a credential from the store came to.
#[derive(Debug, Clone)]
pub enum Lookup {
    Found(String),
    NoEntry,
    Failed(String),
}

/// What to do next about one credential.
#[derive(Debug, Clone)]
pub enum CredentialStep {
    /// Use this stored value.
    Use(String),
    /// Ask the user, then store the answer.
    Ask,
    /// Input comes from a pipe, where nobody can be asked: fatal.
    MissingForStdin,
    /// The store failed: fatal, with its message.
    Fail(String),
}

/// Decides what to do about a credential from what the store gave. A stored
/// empty value counts as unset and is asked for again; an absent one is asked
/// for unless input comes from a pipe.
pub fn credential_step(lookup: Lookup, from_stdin: bool) -> (r: CredentialStep)
    ensures
        match lookup {
            Lookup::Found(v) => if v@.len() == 0 {
                r is Ask
            } else {
                r == CredentialStep::Use(v)
            },
            Lookup::NoEntry => if from_stdin {
                r is MissingForStdin
            } else {
                r is Ask
            },
            Lookup::Failed(m) => r == CredentialStep::Fail(m),
        },
{
    match lookup {
        Lookup::Found(v) => {
            if v.as_str().unicode_len() == 0 {
                CredentialStep::Ask
            } else {
                CredentialStep::Use(v)
            }
        },
        Lookup::NoEntry => {
            if from_stdin {
                CredentialStep::MissingForStdin
            } else {
                CredentialStep::Ask
            }
        },
        Lookup::Failed(m) => CredentialStep::Fail(m),
    }
}

/// Why an answer to a credential prompt was refused.
#[derive(Debug, Clone, Copy, PartialEq, Eq, Structural)]
pub enum PromptError {
    /// The prompt gave no text.
    NotString,
    /// The text was empty.
    Empty,
}

/// Accepts a prompted credential only if it is non-empty text.
pub fn check_answer(answer: Option<String>) -> (r: Result<String, PromptError>)
    ensures
        match answer {
            None => r == Err::<String, PromptError>(PromptError::NotString),
            Some(a) => if a@.len() == 0 {
                r == Err::<String, PromptError>(PromptError::Empty)
            } else {
                r == Ok::<String, PromptError>(a)
            },
        },
{
    match answer {
        None => Err(PromptError::NotString),
        Some(a) => {
            if a.as_str().unicode_len() == 0 {
                Err(PromptError::Empty)
            } else {
                Ok(a)
            }
        },
    }
}

/// What deleting a credential from the store came to.
#[derive(Debug, Clone)]
pub enum Deletion {
    Deleted,
    NoEntry,
    Failed(String),
}

/// The error that deleting a credential raises: none if it was deleted or
/// was not there.
pub fn deletion_error(outcome: Deletion) -> (r: Option<String>)
    ensures
        match outcome {
            Deletion::Failed(m) => r == Some(m),
            _ => r is None,
        },
{
    match outcome {
        Deletion::Failed(m) => Some(m),
        _ => None,
    }
}

} // verus!

//! The structured error that the command layer returns to the frontend.
use vstd::prelude::*;
use vstd::string::StringExecFns;

verus! {

/// A structured, serializable error returned to the frontend. `kind` is
/// machine-readable (for the frontend to branch on without string
/// matching); `message` is human-readable.
#[derive(Debug, Clone)]
pub struct CommandError {
    pub kind: String,
    pub message: String,
}

/// The `kind` of an error for a request that failed validation.
pub open spec fn kind_invalid_request() -> Seq<char> {
    seq!['i', 'n', 'v', 'a', 'l', 'i', 'd', 'R', 'e', 'q', 'u', 'e', 's', 't']
}

/// The `kind` of an error for something that does not exist.
pub open spec fn kind_not_found() -> Seq<char> {
    seq!['n', 'o', 't', 'F', 'o', 'u', 'n', 'd']
}

/// The `kind` of an error for a request that clashes with current state.
pub open spec fn kind_conflict() -> Seq<char> {
    seq!['c', 'o', 'n', 'f', 'l', 'i', 'c', 't']
}

/// The `kind` of an error inside the application.
pub open spec fn kind_internal() -> Seq<char> {
    seq!['i', 'n', 't', 'e', 'r', 'n', 'a', 'l']
}

/// The text that `Display` shows for an error: `kind: message`.
pub open spec fn display_text(kind: Seq<char>, message: Seq<char>) -> Seq<char> {
    kind + seq![':', ' '] + message
}

impl CommandError {
    pub fn invalid_request(message: &str) -> (e: Self)
        ensures
            e.kind@ == kind_invalid_request(),
            e.message@ == message@,
    {
        proof {
            reveal_strlit("invalidRequest");
        }
        CommandError { kind: String::from_str("invalidRequest"), message: String::from_str(message) }
    }

    pub fn not_found(message: &str) -> (e: Self)
        ensures
            e.kind@ == kind_not_found(),
            e.message@ == message@,
    {
        proof {
            reveal_strlit("notFound");
        }
        CommandError { kind: String::from_str("notFound"), message: String::from_str(message) }
    }

    pub fn conflict(message: &str) -> (e: Self)
        ensures
            e.kind@ == kind_conflict(),
            e.message@ == message@,
    {
        proof {
            reveal_strlit("conflict");
        }
        CommandError { kind: String::from_str("conflict"), message: String::from_str(message) }
    }

    pub fn internal(message: &str) -> (e: Self)
        ensures
            e.kind@ == kind_internal(),
            e.message@ == message@,
    {
        proof {
            reveal_strlit("internal");
        }
        CommandError { kind: String::from_str("internal"), message: String::from_str(message) }
    }

    /// The text that the error displays as: its kind, `": "`, its message.
    pub fn to_display_string(&self) -> (s: String)
        ensures
            s@ == display_text(self.kind@, self.message@),
    {
        proof {
            reveal_strlit(": ");
        }
        let mut s = self.kind.clone();
        s.append(": ");
        s.append(self.message.as_str());
        s
    }
}

/// What a repository call run off the async executor comes to: the call's
/// own outcome, whose error is given by its message, when the blocking task
/// completed; the join failure's message when it did not. Every failure is
/// reported as an internal error carrying that message.
pub fn blocking_result<T>(joined: Result<Result<T, String>, String>) -> (r: Result<T, CommandError>)
    ensures
        match joined {
            Ok(Ok(v)) => r == Ok::<T, CommandError>(v),
            Ok(Err(m)) => r matches Err(e) && e.kind@ == kind_internal() && e.message@ == m@,
            Err(m) => r matches Err(e) && e.kind@ == kind_internal() && e.message@ == m@,
        },
{
    match joined {
        Ok(Ok(v)) => Ok(v),
        Ok(Err(m)) => Err(CommandError::internal(m.as_str())),
        Err(m) => Err(CommandError::internal(m.as_str())),
    }
}

} // verus!

use vstd::prelude::*;
use vstd::string::StringExecFns;

verus! {

/// Why a listing, fetch or client set-up failed.
#[derive(Debug, PartialEq, Eq)]
pub enum ListError {
    /// The network request failed; it is not retried.
    Transport(String),
    /// A second redirect arrived after the endpoint had already been corrected.
    RedirectLoop,
    /// A response body could not be read as a listing.
    Parse(String),
    /// A setting that the store needs is missing.
    Config(String),
}

impl ListError {
    /// The error as text.
    pub open spec fn spec_message(&self) -> Seq<char> {
        match self {
            ListError::Transport(m) => m@,
            ListError::RedirectLoop => "Redirected more than once"@,
            ListError::Parse(m) => m@,
            ListError::Config(m) => m@,
        }
    }

    pub fn message(&self) -> (r: String)
        ensures
            r@ == self.spec_message(),
    {
        match self {
            ListError::Transport(m) => m.clone(),
            ListError::RedirectLoop => String::from_str("Redirected more than once"),
            ListError::Parse(m) => m.clone(),
            ListError::Config(m) => m.clone(),
        }
    }
}

impl Clone for ListError {
    fn clone(&self) -> (r: Self)
        ensures
            r == *self,
    {
        match self {
            ListError::Transport(m) => ListError::Transport(m.clone()),
            ListError::RedirectLoop => ListError::RedirectLoop,
            ListError::Parse(m) => ListError::Parse(m.clone()),
            ListError::Config(m) => ListError::Config(m.clone()),
        }
    }
}

} // verus!

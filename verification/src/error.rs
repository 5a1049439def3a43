//! Fatal error taxonomy.
//!
//! Every variant maps to a distinct process exit code so that callers can
//! branch on *why* the run failed without scraping stderr. Exit code 2 is
//! deliberately absent: it belongs to usage errors.

use vstd::prelude::*;

verus! {

#[derive(Debug)]
pub enum Error {
    /// The target repository could not be determined, or was malformed.
    Repo(String),
    /// No credential was found, or GitHub rejected the one we had.
    Auth(String),
    /// The repository or pull request does not exist, or is not visible to us.
    NotFound(String),
    /// Transport-level failure, or GitHub asked us to back off.
    Network(String),
    /// GitHub accepted the request but the response carried errors.
    Api(String),
    /// A filesystem failure, by its message.
    Io(String),
}

pub type Result<T> = core::result::Result<T, Error>;

/// The view of an [`Error`]: its kind and its message.
pub enum ErrorView {
    Repo(Seq<char>),
    Auth(Seq<char>),
    NotFound(Seq<char>),
    Network(Seq<char>),
    Api(Seq<char>),
    Io(Seq<char>),
}

impl View for Error {
    type V = ErrorView;

    open spec fn view(&self) -> ErrorView {
        match self {
            Error::Repo(m) => ErrorView::Repo(m@),
            Error::Auth(m) => ErrorView::Auth(m@),
            Error::NotFound(m) => ErrorView::NotFound(m@),
            Error::Network(m) => ErrorView::Network(m@),
            Error::Api(m) => ErrorView::Api(m@),
            Error::Io(m) => ErrorView::Io(m@),
        }
    }
}

/// The process exit code for each kind of failure.
pub open spec fn spec_exit_code(e: Error) -> u8 {
    match e {
        Error::Repo(_) => 3,
        Error::Auth(_) => 4,
        Error::NotFound(_) => 5,
        Error::Network(_) => 6,
        Error::Api(_) | Error::Io(_) => 1,
    }
}

/// The message an error carries.
pub open spec fn spec_message(e: Error) -> Seq<char> {
    match e {
        Error::Repo(m) | Error::Auth(m) | Error::NotFound(m) | Error::Network(m) | Error::Api(m)
        | Error::Io(m) => m@,
    }
}

impl Error {
    pub fn exit_code(&self) -> (c: u8)
        ensures
            c == spec_exit_code(*self),
    {
        match self {
            Error::Repo(_) => 3,
            Error::Auth(_) => 4,
            Error::NotFound(_) => 5,
            Error::Network(_) => 6,
            Error::Api(_) | Error::Io(_) => 1,
        }
    }

    /// What the error says, as it is shown to the user.
    pub fn message(&self) -> (m: String)
        ensures
            m@ == spec_message(*self),
    {
        match self {
            Error::Repo(m) | Error::Auth(m) | Error::NotFound(m) | Error::Network(m)
            | Error::Api(m) | Error::Io(m) => m.clone(),
        }
    }
}

/// No failure exits with 0, which is success, or 2, which is bad arguments;
/// and each kind of failure has its own code, but for unexpected API
/// responses and filesystem errors, which share 1.
pub proof fn lemma_exit_codes(e: Error)
    ensures
        spec_exit_code(e) != 0,
        spec_exit_code(e) != 2,
        spec_exit_code(e) == 3 <==> e is Repo,
        spec_exit_code(e) == 4 <==> e is Auth,
        spec_exit_code(e) == 5 <==> e is NotFound,
        spec_exit_code(e) == 6 <==> e is Network,
        spec_exit_code(e) == 1 <==> (e is Api || e is Io),
{
}

} // verus!

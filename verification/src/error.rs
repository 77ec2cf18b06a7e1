//! The errors of the repository and of the connection to the store.

use vstd::prelude::*;
use vstd::string::StringExecFns;

verus! {

/// Why a repository operation failed, as a mathematical value.
pub enum RepositoryErrorView {
    NotFound,
    MalformedRow,
    Execution(Seq<char>),
}

/// Why a repository operation failed.
#[derive(Debug, Clone, PartialEq, Eq)]
pub enum RepositoryError {
    /// No record of the name asked for is in the store.
    NotFound,
    /// A row of the reply lacks an attribute, or holds one that is not of the
    /// attribute's type.
    MalformedRow,
    /// The store did not run the statement; the text says why.
    Execution(String),
}

impl View for RepositoryError {
    type V = RepositoryErrorView;

    open spec fn view(&self) -> RepositoryErrorView {
        match self {
            RepositoryError::NotFound => RepositoryErrorView::NotFound,
            RepositoryError::MalformedRow => RepositoryErrorView::MalformedRow,
            RepositoryError::Execution(cause) => RepositoryErrorView::Execution(cause@),
        }
    }
}

/// The text of an error, for a reader.
pub open spec fn error_message(error: RepositoryErrorView) -> Seq<char> {
    match error {
        RepositoryErrorView::NotFound => "no style of that name was found"@,
        RepositoryErrorView::MalformedRow => "a row of the reply is not a style"@,
        RepositoryErrorView::Execution(cause) => "the statement was not run: "@ + cause,
    }
}

impl RepositoryError {
    /// The text of the error, for a reader.
    pub fn message(&self) -> (text: String)
        ensures
            text@ == error_message(self@),
    {
        match self {
            RepositoryError::NotFound => String::from_str("no style of that name was found"),
            RepositoryError::MalformedRow => String::from_str("a row of the reply is not a style"),
            RepositoryError::Execution(cause) => {
                let mut text = String::from_str("the statement was not run: ");
                text.append(cause.as_str());
                text
            },
        }
    }
}

/// Why no connection to the store was made.
#[derive(Debug, Clone, PartialEq, Eq)]
pub enum ConnectionError {
    /// The user name, the password or the server's address is not given.
    MissingConfig,
    /// The server did not accept the connection; the text says why.
    ConnectFailed(String),
}

/// Why no connection to the store was made, as a mathematical value.
pub enum ConnectionErrorView {
    MissingConfig,
    ConnectFailed(Seq<char>),
}

impl View for ConnectionError {
    type V = ConnectionErrorView;

    open spec fn view(&self) -> ConnectionErrorView {
        match self {
            ConnectionError::MissingConfig => ConnectionErrorView::MissingConfig,
            ConnectionError::ConnectFailed(cause) => ConnectionErrorView::ConnectFailed(cause@),
        }
    }
}

/// The text of a connection error, for a reader.
pub open spec fn connection_error_message(error: ConnectionErrorView) -> Seq<char> {
    match error {
        ConnectionErrorView::MissingConfig => "the configuration of the connection is incomplete"@,
        ConnectionErrorView::ConnectFailed(cause) => "the store refused the connection: "@ + cause,
    }
}

impl ConnectionError {
    /// The text of the error, for a reader.
    pub fn message(&self) -> (text: String)
        ensures
            text@ == connection_error_message(self@),
    {
        match self {
            ConnectionError::MissingConfig => String::from_str(
                "the configuration of the connection is incomplete",
            ),
            ConnectionError::ConnectFailed(cause) => {
                let mut text = String::from_str("the store refused the connection: ");
                text.append(cause.as_str());
                text
            },
        }
    }
}

} // verus!

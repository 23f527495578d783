//! The failures that the library reports.

use vstd::prelude::*;

verus! {

/// The text of an unexpected failure.
pub const EXCEPTION_ERROR_MESSAGE: &'static str = "An unexpected error occurred.";

/// A failure of the library.
#[derive(Debug, PartialEq, Eq)]
pub enum MocksError {
    FailedReadFile(String),
    FailedWriteFile(String),
    InvalidArgs(String),
    Exception(String),
    ResourceNotFound,
    ObjectNotFound,
    MethodNotAllowed,
    InvalidRequest,
    DuplicateId,
    QueryParamsNotAllowed,
    InvalidSearchValue,
    InvalidMatchType,
    InvalidQueryParam,
    MatchTypeRequired,
    Aborted,
}

/// The mathematical value of a failure: its kind, and its text where it
/// carries one.
pub ghost enum Failure {
    FailedReadFile(Seq<char>),
    FailedWriteFile(Seq<char>),
    InvalidArgs(Seq<char>),
    Exception(Seq<char>),
    ResourceNotFound,
    ObjectNotFound,
    MethodNotAllowed,
    InvalidRequest,
    DuplicateId,
    QueryParamsNotAllowed,
    InvalidSearchValue,
    InvalidMatchType,
    InvalidQueryParam,
    MatchTypeRequired,
    Aborted,
}

impl Failure {
    /// The text shown for the failure.
    pub open spec fn message(self) -> Seq<char> {
        match self {
            Failure::FailedReadFile(t) => t,
            Failure::FailedWriteFile(t) => t,
            Failure::InvalidArgs(t) => t,
            Failure::Exception(t) => t,
            Failure::ResourceNotFound => "Resource not found."@,
            Failure::ObjectNotFound => "Object not found."@,
            Failure::MethodNotAllowed => "Method not allowed."@,
            Failure::InvalidRequest => "Invalid request."@,
            Failure::DuplicateId => "Duplicate ID."@,
            Failure::QueryParamsNotAllowed => "Query parameters not allowed."@,
            Failure::InvalidSearchValue => "Cannot search on complex values (objects or arrays)."@,
            Failure::InvalidMatchType => "Invalid match type. Use: exact, startswith, endswith, contains."@,
            Failure::InvalidQueryParam => "Invalid query parameter format."@,
            Failure::MatchTypeRequired => "Match type is required. Use: field.exact, field.startswith, field.endswith, or field.contains."@,
            Failure::Aborted => "Operation aborted by user."@,
        }
    }

    /// The advice that goes with the failure, where there is any.
    pub open spec fn hint(self) -> Option<Seq<char>> {
        match self {
            Failure::FailedReadFile(_) => Some("Check if the file exists and is readable"@),
            Failure::FailedWriteFile(_) => Some("Check file permissions and disk space"@),
            Failure::InvalidArgs(_) => Some("Run with --help to see usage information"@),
            _ => None,
        }
    }

    /// The HTTP status under which the failure is reported.
    pub open spec fn status_code(self) -> int {
        match self {
            Failure::FailedReadFile(_) => 500,
            Failure::FailedWriteFile(_) => 500,
            Failure::InvalidArgs(_) => 500,
            Failure::Exception(_) => 500,
            Failure::ResourceNotFound => 404,
            Failure::ObjectNotFound => 404,
            Failure::MethodNotAllowed => 405,
            Failure::InvalidRequest => 400,
            Failure::DuplicateId => 409,
            Failure::QueryParamsNotAllowed => 400,
            Failure::InvalidSearchValue => 400,
            Failure::InvalidMatchType => 400,
            Failure::InvalidQueryParam => 400,
            Failure::MatchTypeRequired => 400,
            Failure::Aborted => 500,
        }
    }
}

impl View for MocksError {
    type V = Failure;

    open spec fn view(&self) -> Failure {
        match self {
            MocksError::FailedReadFile(t) => Failure::FailedReadFile(t@),
            MocksError::FailedWriteFile(t) => Failure::FailedWriteFile(t@),
            MocksError::InvalidArgs(t) => Failure::InvalidArgs(t@),
            MocksError::Exception(t) => Failure::Exception(t@),
            MocksError::ResourceNotFound => Failure::ResourceNotFound,
            MocksError::ObjectNotFound => Failure::ObjectNotFound,
            MocksError::MethodNotAllowed => Failure::MethodNotAllowed,
            MocksError::InvalidRequest => Failure::InvalidRequest,
            MocksError::DuplicateId => Failure::DuplicateId,
            MocksError::QueryParamsNotAllowed => Failure::QueryParamsNotAllowed,
            MocksError::InvalidSearchValue => Failure::InvalidSearchValue,
            MocksError::InvalidMatchType => Failure::InvalidMatchType,
            MocksError::InvalidQueryParam => Failure::InvalidQueryParam,
            MocksError::MatchTypeRequired => Failure::MatchTypeRequired,
            MocksError::Aborted => Failure::Aborted,
        }
    }
}

impl MocksError {
    /// The text shown for the failure.
    pub fn message(&self) -> (r: String)
        ensures
            r@ == self@.message(),
    {
        match self {
            MocksError::FailedReadFile(t) => t.clone(),
            MocksError::FailedWriteFile(t) => t.clone(),
            MocksError::InvalidArgs(t) => t.clone(),
            MocksError::Exception(t) => t.clone(),
            MocksError::ResourceNotFound => "Resource not found.".to_owned(),
            MocksError::ObjectNotFound => "Object not found.".to_owned(),
            MocksError::MethodNotAllowed => "Method not allowed.".to_owned(),
            MocksError::InvalidRequest => "Invalid request.".to_owned(),
            MocksError::DuplicateId => "Duplicate ID.".to_owned(),
            MocksError::QueryParamsNotAllowed => "Query parameters not allowed.".to_owned(),
            MocksError::InvalidSearchValue => "Cannot search on complex values (objects or arrays).".to_owned(),
            MocksError::InvalidMatchType => "Invalid match type. Use: exact, startswith, endswith, contains.".to_owned(),
            MocksError::InvalidQueryParam => "Invalid query parameter format.".to_owned(),
            MocksError::MatchTypeRequired => "Match type is required. Use: field.exact, field.startswith, field.endswith, or field.contains.".to_owned(),
            MocksError::Aborted => "Operation aborted by user.".to_owned(),
        }
    }

    /// The text shown for the failure.
    pub fn to_string(&self) -> (r: String)
        ensures
            r@ == self@.message(),
    {
        self.message()
    }

    /// The advice that goes with the failure, where there is any.
    pub fn hint(&self) -> (r: Option<String>)
        ensures
            match r {
                Some(text) => self@.hint() == Some(text@),
                None => self@.hint() is None,
            },
    {
        match self {
            MocksError::FailedReadFile(_) => Some(
                "Check if the file exists and is readable".to_owned(),
            ),
            MocksError::FailedWriteFile(_) => Some("Check file permissions and disk space".to_owned()),
            MocksError::InvalidArgs(_) => Some("Run with --help to see usage information".to_owned()),
            _ => None,
        }
    }

    /// The failure that caused this one: there is never one.
    pub fn source(&self) -> (r: Option<&MocksError>)
        ensures
            r is None,
    {
        None
    }

    /// The answer to a request that failed: the status of the failure, and
    /// its text under `error`.
    pub fn into_response(self) -> (r: (u16, crate::json::Json))
        ensures
            r.0 == self@.status_code(),
            r.1@ == crate::json::object_of(
                seq![("error"@, crate::json::JsonV::String(self@.message()))],
            ),
    {
        let status = self.status_code();
        let message = self.message();
        let pairs = vec![("error", crate::json::Json::String(message))];
        assert(crate::json::pairs_view(pairs@) =~= seq![
            ("error"@, crate::json::JsonV::String(self@.message())),
        ]);
        (status, crate::json::Json::object(pairs))
    }

    /// The HTTP status under which the failure is reported.
    pub fn status_code(&self) -> (r: u16)
        ensures
            r == self@.status_code(),
    {
        match self {
            MocksError::FailedReadFile(_) => 500,
            MocksError::FailedWriteFile(_) => 500,
            MocksError::InvalidArgs(_) => 500,
            MocksError::Exception(_) => 500,
            MocksError::ResourceNotFound => 404,
            MocksError::ObjectNotFound => 404,
            MocksError::MethodNotAllowed => 405,
            MocksError::InvalidRequest => 400,
            MocksError::DuplicateId => 409,
            MocksError::QueryParamsNotAllowed => 400,
            MocksError::InvalidSearchValue => 400,
            MocksError::InvalidMatchType => 400,
            MocksError::InvalidQueryParam => 400,
            MocksError::MatchTypeRequired => 400,
            MocksError::Aborted => 500,
        }
    }
}

/// What an operation hands back, with the value taken by its view.
pub open spec fn outcome(r: Result<crate::json::Json, MocksError>) -> Result<crate::json::JsonV, Failure> {
    match r {
        Ok(v) => Ok(v@),
        Err(e) => Err(e@),
    }
}

} // verus!

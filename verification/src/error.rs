//! The error taxonomy: every failure carries a kind tag and a
//! human-readable description, and surfaces to the top-level caller.

use vstd::prelude::*;

verus! {

/// Outcome of an operation that yields no value.
pub type Return = Result<(), Error>;

/// The kind of a failure, with the plain data that identifies the failing
/// thing: a command name, a file path, a field name, an exit code.
#[derive(Debug)]
pub enum ErrorKind {
    Command(String),
    Filesystem(String),
    Generic,
    InvalidValue(String),
    Io(String),
    Json(String),
    Process(Option<i32>),
}

/// Mathematical model of an error kind.
pub enum ErrorKindModel {
    Command(Seq<char>),
    Filesystem(Seq<char>),
    Generic,
    InvalidValue(Seq<char>),
    Io(Seq<char>),
    Json(Seq<char>),
    Process(Option<int>),
}

impl View for ErrorKind {
    type V = ErrorKindModel;

    open spec fn view(&self) -> ErrorKindModel {
        match self {
            ErrorKind::Command(name) => ErrorKindModel::Command(name@),
            ErrorKind::Filesystem(path) => ErrorKindModel::Filesystem(path@),
            ErrorKind::Generic => ErrorKindModel::Generic,
            ErrorKind::InvalidValue(field) => ErrorKindModel::InvalidValue(field@),
            ErrorKind::Io(detail) => ErrorKindModel::Io(detail@),
            ErrorKind::Json(source) => ErrorKindModel::Json(source@),
            ErrorKind::Process(code) => ErrorKindModel::Process(
                match code {
                    Some(c) => Some(*c as int),
                    None => None,
                },
            ),
        }
    }
}

/// Error structure: a human-readable description and a kind tag.
#[derive(Debug)]
pub struct Error {
    pub description: String,
    pub kind: ErrorKind,
}

/// Mathematical model of an error.
pub struct ErrorModel {
    pub description: Seq<char>,
    pub kind: ErrorKindModel,
}

impl View for Error {
    type V = ErrorModel;

    open spec fn view(&self) -> ErrorModel {
        ErrorModel { description: self.description@, kind: self.kind@ }
    }
}

impl Error {
    /// A command could not be spawned.
    pub fn command(command_name: &str, description: &str) -> (r: Self)
        ensures
            r@.description == description@,
            r@.kind == ErrorKindModel::Command(command_name@),
    {
        Self {
            description: description.to_owned(),
            kind: ErrorKind::Command(command_name.to_owned()),
        }
    }

    /// A filesystem operation on a path failed.
    pub fn filesystem(path: &str, description: &str) -> (r: Self)
        ensures
            r@.description == description@,
            r@.kind == ErrorKindModel::Filesystem(path@),
    {
        Self {
            description: description.to_owned(),
            kind: ErrorKind::Filesystem(path.to_owned()),
        }
    }

    /// An unrecoverable condition with only a description.
    pub fn generic(description: &str) -> (r: Self)
        ensures
            r@.description == description@,
            r@.kind == ErrorKindModel::Generic,
    {
        Self { description: description.to_owned(), kind: ErrorKind::Generic }
    }

    /// A configuration field held an invalid value.
    pub fn invalid_value(field: &str) -> (r: Self)
        ensures
            r@.description.len() == 0,
            r@.kind == ErrorKindModel::InvalidValue(field@),
    {
        Self { description: String::new(), kind: ErrorKind::InvalidValue(field.to_owned()) }
    }

    /// An input/output operation failed.
    pub fn io(description: &str, detail: &str) -> (r: Self)
        ensures
            r@.description == description@,
            r@.kind == ErrorKindModel::Io(detail@),
    {
        Self { description: description.to_owned(), kind: ErrorKind::Io(detail.to_owned()) }
    }

    /// A configuration document could not be read or written.
    pub fn json(source: &str, description: &str) -> (r: Self)
        ensures
            r@.description == description@,
            r@.kind == ErrorKindModel::Json(source@),
    {
        Self { description: description.to_owned(), kind: ErrorKind::Json(source.to_owned()) }
    }

    /// A command ran but exited unsuccessfully.
    pub fn process(code: Option<i32>, name: &str) -> (r: Self)
        ensures
            r@.description == name@,
            r@.kind == ErrorKindModel::Process(
                match code {
                    Some(c) => Some(c as int),
                    None => None,
                },
            ),
    {
        Self { description: name.to_owned(), kind: ErrorKind::Process(code) }
    }
}

} // verus!

//! The ways a path, a template or a base directory can be refused.
//!
//! Validation reports a [`PathValidationError`], registration and base-path
//! resolution a [`PathRegistrationError`]. Both list the same faults, and both
//! are viewed as a [`PathFault`], so that one contract language serves them all.

use vstd::prelude::*;
use vstd::std_specs::convert::FromSpecImpl;
use vstd::string::StringExecFns;

verus! {

/// What went wrong, with every text as a sequence of characters.
pub ghost enum PathFault {
    /// Nothing is left of the path once white space is trimmed.
    EmptyPath,
    /// The path starts with `~`.
    TildeNotAllowed,
    /// The path is anchored at a root or a drive.
    AbsolutePathNotAllowed,
    /// A component of the path is `.` or `..`.
    RelativeNavigationNotAllowed,
    /// The component holds a forbidden character, is a reserved device name, or
    /// ends with a space or a dot.
    InvalidComponent(Seq<char>),
    /// The base path exists but is no directory.
    BasePathNotADirectory(Seq<char>),
    /// The base path could not be brought into canonical form; the second text
    /// is the cause the host gave.
    BasePathCanonicalizationFailed(Seq<char>, Seq<char>),
    /// The base path is the root of the file system.
    BasePathIsRoot(Seq<char>),
    /// The base directory could not be created; the second text is the cause
    /// the host gave.
    CreateDirFailed(Seq<char>, Seq<char>),
}

/// The sentence shown to a person for a fault.
pub open spec fn fault_message(f: PathFault) -> Seq<char> {
    match f {
        PathFault::EmptyPath => "Registered path cannot be empty."@,
        PathFault::TildeNotAllowed => "Registered path cannot start with a tilde '~'."@,
        PathFault::AbsolutePathNotAllowed => "Registered path must be relative, but an absolute path was provided."@,
        PathFault::RelativeNavigationNotAllowed => "Registered path cannot contain relative navigation like '.' or '..'."@,
        PathFault::InvalidComponent(name) => "Path component '"@ + name
            + "' contains invalid characters or is a reserved name on Windows."@,
        PathFault::BasePathNotADirectory(path) => "The provided base path '"@ + path
            + "' must be a directory, but it is a file."@,
        PathFault::BasePathCanonicalizationFailed(path, cause) => "Failed to resolve the canonical path for '"@
            + path + "'. IO Error: "@ + cause,
        PathFault::BasePathIsRoot(path) => "The base path resolved to the file system root '"@ + path
            + "', which is disallowed."@,
        PathFault::CreateDirFailed(path, cause) => "Failed to create the base path directory '"@ + path
            + "'. IO Error: "@ + cause,
    }
}

/// Why a path template was refused.
#[derive(Debug, Clone, PartialEq, Eq)]
pub enum PathValidationError {
    /// The path string was empty.
    EmptyPath,
    /// The path started with a tilde `~`.
    TildeNotAllowed,
    /// The path was absolute, but a relative path was expected.
    AbsolutePathNotAllowed,
    /// The path contains `.` or `..` components.
    RelativeNavigationNotAllowed,
    /// A path component contains invalid characters or is a reserved name.
    InvalidComponent(String),
    /// The base path exists but is not a directory.
    BasePathNotADirectory(String),
    /// The base path could not be canonicalized; the second field is the cause.
    BasePathCanonicalizationFailed(String, String),
    /// The base path resolved to the file system root.
    BasePathIsRoot(String),
    /// The base path directory could not be created; the second field is the cause.
    CreateDirFailed(String, String),
}

/// Why a registration, or the search for the base path, was refused.
#[derive(Debug, Clone, PartialEq, Eq)]
pub enum PathRegistrationError {
    /// The path string was empty.
    EmptyPath,
    /// The path started with a tilde `~`.
    TildeNotAllowed,
    /// The path was absolute, but a relative path was expected.
    AbsolutePathNotAllowed,
    /// The path contains `.` or `..` components.
    RelativeNavigationNotAllowed,
    /// A path component contains invalid characters or is a reserved name.
    InvalidComponent(String),
    /// The base path exists but is not a directory.
    BasePathNotADirectory(String),
    /// The base path could not be canonicalized; the second field is the cause.
    BasePathCanonicalizationFailed(String, String),
    /// The base path resolved to the file system root.
    BasePathIsRoot(String),
    /// The base path directory could not be created; the second field is the cause.
    CreateDirFailed(String, String),
}

impl View for PathValidationError {
    type V = PathFault;

    open spec fn view(&self) -> PathFault {
        match *self {
            PathValidationError::EmptyPath => PathFault::EmptyPath,
            PathValidationError::TildeNotAllowed => PathFault::TildeNotAllowed,
            PathValidationError::AbsolutePathNotAllowed => PathFault::AbsolutePathNotAllowed,
            PathValidationError::RelativeNavigationNotAllowed => PathFault::RelativeNavigationNotAllowed,
            PathValidationError::InvalidComponent(name) => PathFault::InvalidComponent(name@),
            PathValidationError::BasePathNotADirectory(path) => PathFault::BasePathNotADirectory(
                path@,
            ),
            PathValidationError::BasePathCanonicalizationFailed(path, cause) => {
                PathFault::BasePathCanonicalizationFailed(path@, cause@)
            },
            PathValidationError::BasePathIsRoot(path) => PathFault::BasePathIsRoot(path@),
            PathValidationError::CreateDirFailed(path, cause) => PathFault::CreateDirFailed(
                path@,
                cause@,
            ),
        }
    }
}

impl View for PathRegistrationError {
    type V = PathFault;

    open spec fn view(&self) -> PathFault {
        match *self {
            PathRegistrationError::EmptyPath => PathFault::EmptyPath,
            PathRegistrationError::TildeNotAllowed => PathFault::TildeNotAllowed,
            PathRegistrationError::AbsolutePathNotAllowed => PathFault::AbsolutePathNotAllowed,
            PathRegistrationError::RelativeNavigationNotAllowed => PathFault::RelativeNavigationNotAllowed,
            PathRegistrationError::InvalidComponent(name) => PathFault::InvalidComponent(name@),
            PathRegistrationError::BasePathNotADirectory(path) => PathFault::BasePathNotADirectory(
                path@,
            ),
            PathRegistrationError::BasePathCanonicalizationFailed(path, cause) => {
                PathFault::BasePathCanonicalizationFailed(path@, cause@)
            },
            PathRegistrationError::BasePathIsRoot(path) => PathFault::BasePathIsRoot(path@),
            PathRegistrationError::CreateDirFailed(path, cause) => PathFault::CreateDirFailed(
                path@,
                cause@,
            ),
        }
    }
}

/// `head`, `a` and `tail` one after the other.
fn around(head: &str, a: &str, tail: &str) -> (s: String)
    ensures
        s@ == head@ + a@ + tail@,
{
    String::from_str(head).concat(a).concat(tail)
}

/// `head`, `a`, `mid` and `b` one after the other.
fn around_two(head: &str, a: &str, mid: &str, b: &str) -> (s: String)
    ensures
        s@ == head@ + a@ + mid@ + b@,
{
    String::from_str(head).concat(a).concat(mid).concat(b)
}

impl PathValidationError {
    /// The sentence that describes this error.
    pub fn message(&self) -> (s: String)
        ensures
            s@ == fault_message(self@),
    {
        match self {
            PathValidationError::EmptyPath => String::from_str("Registered path cannot be empty."),
            PathValidationError::TildeNotAllowed => String::from_str(
                "Registered path cannot start with a tilde '~'.",
            ),
            PathValidationError::AbsolutePathNotAllowed => String::from_str(
                "Registered path must be relative, but an absolute path was provided.",
            ),
            PathValidationError::RelativeNavigationNotAllowed => String::from_str(
                "Registered path cannot contain relative navigation like '.' or '..'.",
            ),
            PathValidationError::InvalidComponent(name) => around(
                "Path component '",
                name.as_str(),
                "' contains invalid characters or is a reserved name on Windows.",
            ),
            PathValidationError::BasePathNotADirectory(path) => around(
                "The provided base path '",
                path.as_str(),
                "' must be a directory, but it is a file.",
            ),
            PathValidationError::BasePathCanonicalizationFailed(path, cause) => around_two(
                "Failed to resolve the canonical path for '",
                path.as_str(),
                "'. IO Error: ",
                cause.as_str(),
            ),
            PathValidationError::BasePathIsRoot(path) => around(
                "The base path resolved to the file system root '",
                path.as_str(),
                "', which is disallowed.",
            ),
            PathValidationError::CreateDirFailed(path, cause) => around_two(
                "Failed to create the base path directory '",
                path.as_str(),
                "'. IO Error: ",
                cause.as_str(),
            ),
        }
    }
}

impl PathRegistrationError {
    /// The sentence that describes this error.
    pub fn message(&self) -> (s: String)
        ensures
            s@ == fault_message(self@),
    {
        match self {
            PathRegistrationError::EmptyPath => String::from_str(
                "Registered path cannot be empty.",
            ),
            PathRegistrationError::TildeNotAllowed => String::from_str(
                "Registered path cannot start with a tilde '~'.",
            ),
            PathRegistrationError::AbsolutePathNotAllowed => String::from_str(
                "Registered path must be relative, but an absolute path was provided.",
            ),
            PathRegistrationError::RelativeNavigationNotAllowed => String::from_str(
                "Registered path cannot contain relative navigation like '.' or '..'.",
            ),
            PathRegistrationError::InvalidComponent(name) => around(
                "Path component '",
                name.as_str(),
                "' contains invalid characters or is a reserved name on Windows.",
            ),
            PathRegistrationError::BasePathNotADirectory(path) => around(
                "The provided base path '",
                path.as_str(),
                "' must be a directory, but it is a file.",
            ),
            PathRegistrationError::BasePathCanonicalizationFailed(path, cause) => around_two(
                "Failed to resolve the canonical path for '",
                path.as_str(),
                "'. IO Error: ",
                cause.as_str(),
            ),
            PathRegistrationError::BasePathIsRoot(path) => around(
                "The base path resolved to the file system root '",
                path.as_str(),
                "', which is disallowed.",
            ),
            PathRegistrationError::CreateDirFailed(path, cause) => around_two(
                "Failed to create the base path directory '",
                path.as_str(),
                "'. IO Error: ",
                cause.as_str(),
            ),
        }
    }
}

impl From<PathValidationError> for PathRegistrationError {
    /// The same fault, as a registration error.
    fn from(e: PathValidationError) -> (r: PathRegistrationError) {
        match e {
            PathValidationError::EmptyPath => PathRegistrationError::EmptyPath,
            PathValidationError::TildeNotAllowed => PathRegistrationError::TildeNotAllowed,
            PathValidationError::AbsolutePathNotAllowed => PathRegistrationError::AbsolutePathNotAllowed,
            PathValidationError::RelativeNavigationNotAllowed => PathRegistrationError::RelativeNavigationNotAllowed,
            PathValidationError::InvalidComponent(name) => PathRegistrationError::InvalidComponent(
                name,
            ),
            PathValidationError::BasePathNotADirectory(path) => PathRegistrationError::BasePathNotADirectory(
                path,
            ),
            PathValidationError::BasePathCanonicalizationFailed(path, cause) => {
                PathRegistrationError::BasePathCanonicalizationFailed(path, cause)
            },
            PathValidationError::BasePathIsRoot(path) => PathRegistrationError::BasePathIsRoot(path),
            PathValidationError::CreateDirFailed(path, cause) => PathRegistrationError::CreateDirFailed(
                path,
                cause,
            ),
        }
    }
}

impl FromSpecImpl<PathValidationError> for PathRegistrationError {
    open spec fn obeys_from_spec() -> bool {
        true
    }

    open spec fn from_spec(e: PathValidationError) -> PathRegistrationError {
        match e {
            PathValidationError::EmptyPath => PathRegistrationError::EmptyPath,
            PathValidationError::TildeNotAllowed => PathRegistrationError::TildeNotAllowed,
            PathValidationError::AbsolutePathNotAllowed => PathRegistrationError::AbsolutePathNotAllowed,
            PathValidationError::RelativeNavigationNotAllowed => PathRegistrationError::RelativeNavigationNotAllowed,
            PathValidationError::InvalidComponent(name) => PathRegistrationError::InvalidComponent(
                name,
            ),
            PathValidationError::BasePathNotADirectory(path) => PathRegistrationError::BasePathNotADirectory(
                path,
            ),
            PathValidationError::BasePathCanonicalizationFailed(path, cause) => {
                PathRegistrationError::BasePathCanonicalizationFailed(path, cause)
            },
            PathValidationError::BasePathIsRoot(path) => PathRegistrationError::BasePathIsRoot(path),
            PathValidationError::CreateDirFailed(path, cause) => PathRegistrationError::CreateDirFailed(
                path,
                cause,
            ),
        }
    }
}

impl PathRegistrationError {
    /// The registration error that reports the fault of `e`.
    pub fn from_validation(e: PathValidationError) -> (r: PathRegistrationError)
        ensures
            r@ == e@,
    {
        PathRegistrationError::from(e)
    }
}

} // verus!

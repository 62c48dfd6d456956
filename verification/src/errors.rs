//! The errors that validation, loading and authorization report.

use crate::text::{decimal, decimal_of, push_char};
use vstd::prelude::*;
use vstd::string::StringExecFns;

verus! {

/// Why an input was refused.
#[derive(Debug, PartialEq, Eq)]
pub enum Error {
    /// The command line is not one of the accepted forms; the text says why.
    UsageInvalid(&'static str),
    /// The user name holds a character that is not alphanumeric.
    UserInvalid(String),
    /// The repository identifier is malformed; the text gives the first reason found.
    RepoInvalid((String, &'static str)),
    /// A permission line starts with a character that is no permission marker.
    PermissionInvalid(char),
    /// The permission table does not grant what the command needs.
    AccessDenied(&'static str),
    /// A permission line lacks the space after its marker; the line's number, counted
    /// from one, and its text.
    ConfigMalformed((usize, String)),
}

/// An [`Error`] with its texts as sequences of characters.
pub enum ErrorView {
    UsageInvalid(Seq<char>),
    UserInvalid(Seq<char>),
    RepoInvalid(Seq<char>, Seq<char>),
    PermissionInvalid(char),
    AccessDenied(Seq<char>),
    ConfigMalformed(nat, Seq<char>),
}

impl ErrorView {
    /// The error in words.
    pub open spec fn message(self) -> Seq<char> {
        match self {
            ErrorView::UsageInvalid(why) => "Usage invalid: "@ + why,
            ErrorView::UserInvalid(name) => "User Invalid "@ + name,
            ErrorView::RepoInvalid(raw, why) => "Repo Invalid \""@ + raw + "\": "@ + why,
            ErrorView::PermissionInvalid(marker) => "Permission Invalid "@.push(marker),
            ErrorView::AccessDenied(why) => "Access denied "@ + why,
            ErrorView::ConfigMalformed(number, line) => "Config malformed at line "@ + decimal(
                number,
            ) + ": "@ + line,
        }
    }
}

impl Error {
    /// The error in words.
    pub fn message(&self) -> (text: String)
        ensures
            text@ == self@.message(),
    {
        match self {
            Error::UsageInvalid(why) => String::from_str("Usage invalid: ").concat(why),
            Error::UserInvalid(name) => String::from_str("User Invalid ").concat(name.as_str()),
            Error::RepoInvalid((raw, why)) => String::from_str("Repo Invalid \"").concat(
                raw.as_str(),
            ).concat("\": ").concat(why),
            Error::PermissionInvalid(marker) => {
                let mut text = String::from_str("Permission Invalid ");
                push_char(&mut text, *marker);
                text
            },
            Error::AccessDenied(why) => String::from_str("Access denied ").concat(why),
            Error::ConfigMalformed((number, line)) => String::from_str(
                "Config malformed at line ",
            ).concat(decimal_of(*number).as_str()).concat(": ").concat(line.as_str()),
        }
    }
}

impl View for Error {
    type V = ErrorView;

    open spec fn view(&self) -> ErrorView {
        match *self {
            Error::UsageInvalid(why) => ErrorView::UsageInvalid(why@),
            Error::UserInvalid(name) => ErrorView::UserInvalid(name@),
            Error::RepoInvalid((raw, why)) => ErrorView::RepoInvalid(raw@, why@),
            Error::PermissionInvalid(marker) => ErrorView::PermissionInvalid(marker),
            Error::AccessDenied(why) => ErrorView::AccessDenied(why@),
            Error::ConfigMalformed((number, line)) => ErrorView::ConfigMalformed(
                number as nat,
                line@,
            ),
        }
    }
}

/// The categories of failure. Each has a number, with which the process ends, and a
/// fixed text for the diagnostic.
#[derive(Debug, Clone, Copy, PartialEq, Eq, Structural)]
pub enum ErrorCode {
    FailedReadingCmdArgs,
    NoHomeEnvironment,
    ExecutingCommandFailed,
    UserNotFound,
    NoSshOriginalCommand,
    PathOfRepositoryInvalid,
    UnknownGitCommand,
    PermissionCheckFailed,
    CannotReadDbFile,
}

impl ErrorCode {
    /// The number of the category: the categories are numbered from one, in the order
    /// in which they are declared.
    pub open spec fn number(self) -> int {
        match self {
            ErrorCode::FailedReadingCmdArgs => 1,
            ErrorCode::NoHomeEnvironment => 2,
            ErrorCode::ExecutingCommandFailed => 3,
            ErrorCode::UserNotFound => 4,
            ErrorCode::NoSshOriginalCommand => 5,
            ErrorCode::PathOfRepositoryInvalid => 6,
            ErrorCode::UnknownGitCommand => 7,
            ErrorCode::PermissionCheckFailed => 8,
            ErrorCode::CannotReadDbFile => 9,
        }
    }

    /// The text of the category's diagnostic.
    pub open spec fn text(self) -> Seq<char> {
        match self {
            ErrorCode::FailedReadingCmdArgs => "failed reading command arguments"@,
            ErrorCode::NoHomeEnvironment => "no HOME environment found"@,
            ErrorCode::ExecutingCommandFailed => "executing command failed"@,
            ErrorCode::UserNotFound => "user not found"@,
            ErrorCode::NoSshOriginalCommand => "no SSH_ORIGINAL_COMMAND found"@,
            ErrorCode::PathOfRepositoryInvalid => "path of repository invalid"@,
            ErrorCode::UnknownGitCommand => "unknown git command"@,
            ErrorCode::PermissionCheckFailed => "Permission insufficient"@,
            ErrorCode::CannotReadDbFile => "cannot read db file"@,
        }
    }

    /// The text of the category's diagnostic.
    pub fn print(&self) -> (text: &'static str)
        ensures
            text@ == self.text(),
    {
        match self {
            ErrorCode::FailedReadingCmdArgs => "failed reading command arguments",
            ErrorCode::NoHomeEnvironment => "no HOME environment found",
            ErrorCode::ExecutingCommandFailed => "executing command failed",
            ErrorCode::UserNotFound => "user not found",
            ErrorCode::NoSshOriginalCommand => "no SSH_ORIGINAL_COMMAND found",
            ErrorCode::PathOfRepositoryInvalid => "path of repository invalid",
            ErrorCode::UnknownGitCommand => "unknown git command",
            ErrorCode::PermissionCheckFailed => "Permission insufficient",
            ErrorCode::CannotReadDbFile => "cannot read db file",
        }
    }

    /// The status with which the process ends on a failure of this category.
    pub fn exit_status(&self) -> (status: i32)
        ensures
            status == self.number(),
    {
        match self {
            ErrorCode::FailedReadingCmdArgs => 1,
            ErrorCode::NoHomeEnvironment => 2,
            ErrorCode::ExecutingCommandFailed => 3,
            ErrorCode::UserNotFound => 4,
            ErrorCode::NoSshOriginalCommand => 5,
            ErrorCode::PathOfRepositoryInvalid => 6,
            ErrorCode::UnknownGitCommand => 7,
            ErrorCode::PermissionCheckFailed => 8,
            ErrorCode::CannotReadDbFile => 9,
        }
    }
}

/// Why a connection is turned away before the git transport is launched.
#[derive(Debug, PartialEq, Eq)]
pub enum Rejection {
    /// The permission table of the user is empty: the user is unknown or has no grants.
    UserNotFound,
    /// No forced command was handed over.
    NoSshOriginalCommand,
    /// The forced command is none of the git transports; the command as it came.
    UnknownGitCommand(String),
    /// The repository that the command names is malformed.
    PathOfRepositoryInvalid(Error),
    /// The table does not grant what the command needs.
    PermissionCheckFailed(Error),
}

/// A [`Rejection`] with its texts as sequences of characters.
pub enum RejectionView {
    UserNotFound,
    NoSshOriginalCommand,
    UnknownGitCommand(Seq<char>),
    PathOfRepositoryInvalid(ErrorView),
    PermissionCheckFailed(ErrorView),
}

impl RejectionView {
    /// The category of failure under which the rejection is reported.
    pub open spec fn code(self) -> ErrorCode {
        match self {
            RejectionView::UserNotFound => ErrorCode::UserNotFound,
            RejectionView::NoSshOriginalCommand => ErrorCode::NoSshOriginalCommand,
            RejectionView::UnknownGitCommand(_) => ErrorCode::UnknownGitCommand,
            RejectionView::PathOfRepositoryInvalid(_) => ErrorCode::PathOfRepositoryInvalid,
            RejectionView::PermissionCheckFailed(_) => ErrorCode::PermissionCheckFailed,
        }
    }
}

impl View for Rejection {
    type V = RejectionView;

    open spec fn view(&self) -> RejectionView {
        match *self {
            Rejection::UserNotFound => RejectionView::UserNotFound,
            Rejection::NoSshOriginalCommand => RejectionView::NoSshOriginalCommand,
            Rejection::UnknownGitCommand(command) => RejectionView::UnknownGitCommand(command@),
            Rejection::PathOfRepositoryInvalid(error) => RejectionView::PathOfRepositoryInvalid(
                error@,
            ),
            Rejection::PermissionCheckFailed(error) => RejectionView::PermissionCheckFailed(
                error@,
            ),
        }
    }
}

impl Rejection {
    /// The category of failure under which the rejection is reported.
    pub fn code(&self) -> (code: ErrorCode)
        ensures
            code == self@.code(),
    {
        match self {
            Rejection::UserNotFound => ErrorCode::UserNotFound,
            Rejection::NoSshOriginalCommand => ErrorCode::NoSshOriginalCommand,
            Rejection::UnknownGitCommand(_) => ErrorCode::UnknownGitCommand,
            Rejection::PathOfRepositoryInvalid(_) => ErrorCode::PathOfRepositoryInvalid,
            Rejection::PermissionCheckFailed(_) => ErrorCode::PermissionCheckFailed,
        }
    }
}

} // verus!

//! Typed failures, and what a caller is told of each.

use vstd::prelude::*;
use vstd::string::StringExecFns;
use crate::json::{json_string, json_string_of, needs_no_escape, quoted};
use crate::text::text_equal;

verus! {

/// Why an operation on the relationship between two accounts was refused.
#[derive(Clone, Copy, Debug, PartialEq, Eq, Structural)]
pub enum RelationError {
    /// The two accounts of a pair are the same account.
    InvalidPair,
    /// An account asked for its own friendship.
    SelfRequest,
    /// The pair already has a relationship, whatever its status.
    AlreadyExists,
    /// No pending request addressed to the acting account was found.
    NoSuchRequest,
    /// The pair is not in the `Friends` status.
    NotFriends,
    /// The storage behind the relationships could not be reached.
    StorageUnavailable,
}

/// Why a stored column value could not be read back as one of the service's
/// enumerations.
#[derive(Clone, Copy, Debug, PartialEq, Eq, Structural)]
pub enum ColumnError {
    /// The column held no value.
    UnexpectedNull,
    /// The column held a label that names no variant.
    UnrecognizedVariant,
}

/// A rule of the data that the database enforces by a named constraint.
#[derive(Clone, Copy, Debug, PartialEq, Eq, Structural)]
pub enum ConstraintViolation {
    AuthorOwnsJournal,
    ProperEmail,
    EditAfterDay,
    EditTimestamp,
    ArePublic,
    HandleNotAvailable,
}

impl ConstraintViolation {
    /// The name of the constraint in the database.
    pub open spec fn constraint_name(self) -> Seq<char> {
        match self {
            ConstraintViolation::AuthorOwnsJournal => "author_owns_journal"@,
            ConstraintViolation::ProperEmail => "proper_email"@,
            ConstraintViolation::EditAfterDay => "edit_after_day"@,
            ConstraintViolation::EditTimestamp => "edit_timestamp"@,
            ConstraintViolation::ArePublic => "are_public"@,
            ConstraintViolation::HandleNotAvailable => "handle_not_available"@,
        }
    }

    /// The rule that a constraint of this name enforces, if it is one of
    /// those known here.
    pub open spec fn named_by(name: Seq<char>) -> Option<ConstraintViolation> {
        if name == ConstraintViolation::AuthorOwnsJournal.constraint_name() {
            Some(ConstraintViolation::AuthorOwnsJournal)
        } else if name == ConstraintViolation::ProperEmail.constraint_name() {
            Some(ConstraintViolation::ProperEmail)
        } else if name == ConstraintViolation::EditAfterDay.constraint_name() {
            Some(ConstraintViolation::EditAfterDay)
        } else if name == ConstraintViolation::EditTimestamp.constraint_name() {
            Some(ConstraintViolation::EditTimestamp)
        } else if name == ConstraintViolation::ArePublic.constraint_name() {
            Some(ConstraintViolation::ArePublic)
        } else if name == ConstraintViolation::HandleNotAvailable.constraint_name() {
            Some(ConstraintViolation::HandleNotAvailable)
        } else {
            None
        }
    }

    /// What the user is told when the rule is broken.
    pub open spec fn message(self) -> Seq<char> {
        match self {
            ConstraintViolation::AuthorOwnsJournal => "user does not own journal"@,
            ConstraintViolation::ProperEmail => "please provide a valid email address"@,
            ConstraintViolation::EditAfterDay =>
                "cannot edit the content of an entry 24 hours after it's creation"@,
            ConstraintViolation::EditTimestamp => "cannot edit a timestamp"@,
            ConstraintViolation::ArePublic => "both users must have non-private profiles"@,
            ConstraintViolation::HandleNotAvailable =>
                "there are too many users with that name already"@,
        }
    }

    /// Reads the rule from the name of the constraint that was violated.
    pub fn try_from(value: &str) -> (rule: Result<ConstraintViolation, ()>)
        ensures
            rule == match ConstraintViolation::named_by(value@) {
                Some(v) => Ok::<ConstraintViolation, ()>(v),
                None => Err(()),
            },
    {
        if text_equal(value, "author_owns_journal") {
            Ok(ConstraintViolation::AuthorOwnsJournal)
        } else if text_equal(value, "proper_email") {
            Ok(ConstraintViolation::ProperEmail)
        } else if text_equal(value, "edit_after_day") {
            Ok(ConstraintViolation::EditAfterDay)
        } else if text_equal(value, "edit_timestamp") {
            Ok(ConstraintViolation::EditTimestamp)
        } else if text_equal(value, "are_public") {
            Ok(ConstraintViolation::ArePublic)
        } else if text_equal(value, "handle_not_available") {
            Ok(ConstraintViolation::HandleNotAvailable)
        } else {
            Err(())
        }
    }
}

/// Each rule is read back from the name of its own constraint.
pub proof fn constraint_name_round_trip(rule: ConstraintViolation)
    ensures
        ConstraintViolation::named_by(rule.constraint_name()) == Some(rule),
{
    reveal_strlit("author_owns_journal");
    reveal_strlit("proper_email");
    reveal_strlit("edit_after_day");
    reveal_strlit("edit_timestamp");
    reveal_strlit("are_public");
    reveal_strlit("handle_not_available");
    assert("author_owns_journal"@.len() == 19);
    assert("proper_email"@.len() == 12);
    assert("edit_after_day"@.len() == 14);
    assert("edit_timestamp"@.len() == 14);
    assert("are_public"@.len() == 10);
    assert("handle_not_available"@.len() == 20);
    assert("edit_after_day"@[5] == 'a' && "edit_timestamp"@[5] == 't');
}

/// A failure as the caller of a request sees it.
#[derive(Clone, Debug, PartialEq, Eq)]
pub enum Error {
    InternalServerError,
    BadRequest(String),
    Unauthorized,
    Forbidden,
    NotFound,
}

/// An `Error` with the text of its message.
pub enum ErrorView {
    InternalServerError,
    BadRequest(Seq<char>),
    Unauthorized,
    Forbidden,
    NotFound,
}

impl View for Error {
    type V = ErrorView;

    open spec fn view(&self) -> ErrorView {
        match self {
            Error::InternalServerError => ErrorView::InternalServerError,
            Error::BadRequest(message) => ErrorView::BadRequest(message@),
            Error::Unauthorized => ErrorView::Unauthorized,
            Error::Forbidden => ErrorView::Forbidden,
            Error::NotFound => ErrorView::NotFound,
        }
    }
}

/// The class of an error that the database reported.
#[derive(Clone, Copy, Debug, PartialEq, Eq, Structural)]
pub enum DbErrorKind {
    UniqueViolation,
    ForeignKeyViolation,
    Other,
}

/// A failed query, as far as the service reads it.
#[derive(Clone, Debug, PartialEq, Eq)]
pub enum DbFailure {
    /// The database ran the statement and refused it.
    Database {
        kind: DbErrorKind,
        message: String,
        details: Option<String>,
        constraint_name: Option<String>,
    },
    /// The query was to return a row and found none.
    NotFound,
    /// Anything else, a lost connection among it.
    Other,
}

/// A `DbFailure` with the text of its strings.
pub enum DbFailureView {
    Database {
        kind: DbErrorKind,
        message: Seq<char>,
        details: Option<Seq<char>>,
        constraint_name: Option<Seq<char>>,
    },
    NotFound,
    Other,
}

pub open spec fn text_of(text: Option<String>) -> Option<Seq<char>> {
    match text {
        Some(t) => Some(t@),
        None => None,
    }
}

impl View for DbFailure {
    type V = DbFailureView;

    open spec fn view(&self) -> DbFailureView {
        match self {
            DbFailure::Database { kind, message, details, constraint_name } =>
                DbFailureView::Database {
                kind: *kind,
                message: message@,
                details: text_of(*details),
                constraint_name: text_of(*constraint_name),
            },
            DbFailure::NotFound => DbFailureView::NotFound,
            DbFailure::Other => DbFailureView::Other,
        }
    }
}

impl ErrorView {
    /// What the caller is told of a broken rule.
    pub open spec fn of_violation(rule: ConstraintViolation) -> ErrorView {
        ErrorView::BadRequest(rule.message())
    }

    /// What the caller is told of a refused relationship operation.
    pub open spec fn of_relation(refusal: RelationError) -> ErrorView {
        match refusal {
            RelationError::InvalidPair => ErrorView::BadRequest("provided own userid"@),
            RelationError::SelfRequest => ErrorView::BadRequest("provided own userid"@),
            RelationError::AlreadyExists => ErrorView::BadRequest(
                "a relationship with that user already exists"@,
            ),
            RelationError::NoSuchRequest => ErrorView::BadRequest("no request from that user"@),
            RelationError::NotFriends => ErrorView::BadRequest("not friends with that user"@),
            RelationError::StorageUnavailable => ErrorView::InternalServerError,
        }
    }

    /// What the caller is told of a failed query. A violated uniqueness or
    /// foreign key is passed on in the database's own words, its details
    /// where it gave any; a violated constraint that is known here by name
    /// gets that rule's message; nothing else is disclosed.
    pub open spec fn of_db(failure: DbFailureView) -> ErrorView {
        match failure {
            DbFailureView::Database { kind, message, details, constraint_name } => match kind {
                DbErrorKind::UniqueViolation | DbErrorKind::ForeignKeyViolation =>
                    ErrorView::BadRequest(
                    match details {
                        Some(d) => d,
                        None => message,
                    },
                ),
                DbErrorKind::Other => match constraint_name {
                    Some(name) => match ConstraintViolation::named_by(name) {
                        Some(rule) => ErrorView::of_violation(rule),
                        None => ErrorView::InternalServerError,
                    },
                    None => ErrorView::InternalServerError,
                },
            },
            DbFailureView::NotFound => ErrorView::NotFound,
            DbFailureView::Other => ErrorView::InternalServerError,
        }
    }

    /// The HTTP status that answers the error.
    pub open spec fn status_code(self) -> u16 {
        match self {
            ErrorView::InternalServerError => 500,
            ErrorView::BadRequest(_) => 400,
            ErrorView::Unauthorized => 401,
            ErrorView::Forbidden => 403,
            ErrorView::NotFound => 404,
        }
    }

    /// The text that the JSON body of the answer encodes; `NotFound` is
    /// answered without a body.
    pub open spec fn body_text(self) -> Option<Seq<char>> {
        match self {
            ErrorView::InternalServerError => Some("Internal Server Error, Please try later"@),
            ErrorView::BadRequest(message) => Some(message),
            ErrorView::Unauthorized => Some("Login required"@),
            ErrorView::Forbidden => Some("Forbidden"@),
            ErrorView::NotFound => None,
        }
    }

    /// The error in words.
    pub open spec fn description(self) -> Seq<char> {
        match self {
            ErrorView::InternalServerError => "Internal Server Error"@,
            ErrorView::BadRequest(message) => "BadRequest: "@ + message,
            ErrorView::Unauthorized => "Unauthorized"@,
            ErrorView::Forbidden => "Forbidden"@,
            ErrorView::NotFound => "Not Found"@,
        }
    }
}

impl Error {
    /// The error for a broken rule of the data.
    pub fn from_violation(rule: ConstraintViolation) -> (error: Error)
        ensures
            error@ == ErrorView::of_violation(rule),
    {
        let message = match rule {
            ConstraintViolation::AuthorOwnsJournal => "user does not own journal",
            ConstraintViolation::ProperEmail => "please provide a valid email address",
            ConstraintViolation::EditAfterDay =>
                "cannot edit the content of an entry 24 hours after it's creation",
            ConstraintViolation::EditTimestamp => "cannot edit a timestamp",
            ConstraintViolation::ArePublic => "both users must have non-private profiles",
            ConstraintViolation::HandleNotAvailable =>
                "there are too many users with that name already",
        };
        Error::BadRequest(message.to_owned())
    }

    /// The error for a refused relationship operation.
    pub fn from_relation(refusal: RelationError) -> (error: Error)
        ensures
            error@ == ErrorView::of_relation(refusal),
    {
        match refusal {
            RelationError::InvalidPair | RelationError::SelfRequest => Error::BadRequest(
                "provided own userid".to_owned(),
            ),
            RelationError::AlreadyExists => Error::BadRequest(
                "a relationship with that user already exists".to_owned(),
            ),
            RelationError::NoSuchRequest => Error::BadRequest(
                "no request from that user".to_owned(),
            ),
            RelationError::NotFriends => Error::BadRequest("not friends with that user".to_owned()),
            RelationError::StorageUnavailable => Error::InternalServerError,
        }
    }

    /// The error for a failed query.
    pub fn from_db(failure: DbFailure) -> (error: Error)
        ensures
            error@ == ErrorView::of_db(failure@),
    {
        match failure {
            DbFailure::Database { kind, message, details, constraint_name } => {
                match kind {
                    DbErrorKind::UniqueViolation | DbErrorKind::ForeignKeyViolation => {
                        match details {
                            Some(d) => Error::BadRequest(d),
                            None => Error::BadRequest(message),
                        }
                    },
                    DbErrorKind::Other => {
                        match constraint_name {
                            Some(name) => match ConstraintViolation::try_from(name.as_str()) {
                                Ok(rule) => Error::from_violation(rule),
                                Err(_) => Error::InternalServerError,
                            },
                            None => Error::InternalServerError,
                        }
                    },
                }
            },
            DbFailure::NotFound => Error::NotFound,
            DbFailure::Other => Error::InternalServerError,
        }
    }

    /// The HTTP status that answers the error.
    pub fn status_code(&self) -> (code: u16)
        ensures
            code == self@.status_code(),
    {
        match self {
            Error::InternalServerError => 500,
            Error::BadRequest(_) => 400,
            Error::Unauthorized => 401,
            Error::Forbidden => 403,
            Error::NotFound => 404,
        }
    }

    /// The JSON body of the answer, if it has one: the text as a JSON string,
    /// which for a text that needs no escaping is the text between double
    /// quotes.
    pub fn response_body(&self) -> (body: Option<String>)
        ensures
            match body {
                Some(json) => self@.body_text() matches Some(text) && json@ == json_string_of(
                    text,
                ) && (needs_no_escape(text) ==> json@ == quoted(text)),
                None => self@.body_text() is None,
            },
    {
        match self {
            Error::InternalServerError => json_string("Internal Server Error, Please try later"),
            Error::BadRequest(message) => json_string(message.as_str()),
            Error::Unauthorized => json_string("Login required"),
            Error::Forbidden => json_string("Forbidden"),
            Error::NotFound => None,
        }
    }

    /// The error in words.
    pub fn describe(&self) -> (text: String)
        ensures
            text@ == self@.description(),
    {
        match self {
            Error::InternalServerError => "Internal Server Error".to_owned(),
            Error::BadRequest(message) => "BadRequest: ".to_owned().concat(message.as_str()),
            Error::Unauthorized => "Unauthorized".to_owned(),
            Error::Forbidden => "Forbidden".to_owned(),
            Error::NotFound => "Not Found".to_owned(),
        }
    }
}

} // verus!

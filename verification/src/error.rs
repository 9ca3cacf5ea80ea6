//! The failures of the deck: those the renderer itself reports, and those of
//! the collaborators round it, carried through unchanged.

use vstd::prelude::*;
use vstd::std_specs::convert::FromSpecImpl;

verus! {

/// `std::io::Error`, carried as an opaque value.
#[verifier::external_type_specification]
#[verifier::external_body]
pub struct ExIoError(std::io::Error);

/// `std::sync::mpsc::RecvError`, carried as an opaque value.
#[verifier::external_type_specification]
#[verifier::external_body]
pub struct ExRecvError(std::sync::mpsc::RecvError);

/// `syntect::LoadingError`, carried as an opaque value.
#[verifier::external_type_specification]
#[verifier::external_body]
pub struct ExLoadingError(syntect::LoadingError);

/// `serde_json::Error`, carried as an opaque value.
#[verifier::external_type_specification]
#[verifier::external_body]
pub struct ExJsonError(serde_json::Error);

/// `notify::Error`, carried as an opaque value.
#[verifier::external_type_specification]
#[verifier::external_body]
pub struct ExNotifyError(notify::Error);

/// `tokio::task::JoinError`, carried as an opaque value.
#[verifier::external_type_specification]
#[verifier::external_body]
pub struct ExJoinError(tokio::task::JoinError);

/// A theme definition that could not be loaded, with the path it came from.
#[derive(Debug)]
pub struct ThemeLoadError {
    pub path: String,
    pub cause: syntect::LoadingError,
}

/// Everything that can go wrong while building or serving a deck.
#[derive(Debug)]
pub enum DeckError {
    /// Reading or writing a file failed.
    Io(std::io::Error),
    /// The assembled page could not be minified safely.
    Minification(&'static str),
    /// A theme definition file was malformed or unreadable.
    Syntect(ThemeLoadError),
    /// A value could not be written as JSON.
    JsonSerialization(serde_json::Error),
    /// The named theme is not in the catalog.
    ThemeNotFound,
    /// The filesystem watch could not be established.
    Notify(notify::Error),
    /// A background task did not run to its end.
    TokioJoin(tokio::task::JoinError),
    /// A channel closed while a value was awaited.
    MpscRecv(std::sync::mpsc::RecvError),
}

/// What `DeckError::message` says of an absent theme.
pub open spec fn theme_not_found_text() -> Seq<char> {
    "Theme not found"@
}

/// Whether `text` is what the failure `cause` shows of itself: the text that
/// its `Display` writes.
pub open spec fn shown<T: std::fmt::Display>(cause: T, text: String) -> bool {
    vstd::string::to_string_from_display_ensures::<T>(&cause, text)
}

impl DeckError {
    /// The text shown to the operator for this failure. A theme that could
    /// not be loaded is named by its path before the cause.
    pub fn message(&self) -> (text: String)
        ensures
            self matches DeckError::ThemeNotFound ==> text@ == theme_not_found_text(),
            self matches DeckError::Minification(reason) ==> text@ == reason@,
            self matches DeckError::Syntect(err) ==> exists|cause: String|
                #[trigger] shown(err.cause, cause) && text@ == err.path@ + ": "@ + cause@,
            self matches DeckError::Io(err) ==> shown(*err, text),
            self matches DeckError::JsonSerialization(err) ==> shown(*err, text),
            self matches DeckError::Notify(err) ==> shown(*err, text),
            self matches DeckError::TokioJoin(err) ==> shown(*err, text),
            self matches DeckError::MpscRecv(err) ==> shown(*err, text),
    {
        match self {
            DeckError::Io(err) => err.to_string(),
            DeckError::Minification(reason) => String::from_str(reason),
            DeckError::Syntect(err) => {
                let mut text = err.path.clone();
                text.append(": ");
                let cause = err.cause.to_string();
                text.append(cause.as_str());
                assert(shown(err.cause, cause));
                text
            },
            DeckError::JsonSerialization(err) => err.to_string(),
            DeckError::ThemeNotFound => String::from_str("Theme not found"),
            DeckError::Notify(err) => err.to_string(),
            DeckError::TokioJoin(err) => err.to_string(),
            DeckError::MpscRecv(err) => err.to_string(),
        }
    }
}

impl From<std::io::Error> for DeckError {
    fn from(err: std::io::Error) -> (out: DeckError) {
        DeckError::Io(err)
    }
}

impl FromSpecImpl<std::io::Error> for DeckError {
    open spec fn obeys_from_spec() -> bool {
        true
    }

    open spec fn from_spec(err: std::io::Error) -> DeckError {
        DeckError::Io(err)
    }
}

impl From<ThemeLoadError> for DeckError {
    fn from(err: ThemeLoadError) -> (out: DeckError) {
        DeckError::Syntect(err)
    }
}

impl FromSpecImpl<ThemeLoadError> for DeckError {
    open spec fn obeys_from_spec() -> bool {
        true
    }

    open spec fn from_spec(err: ThemeLoadError) -> DeckError {
        DeckError::Syntect(err)
    }
}

impl From<serde_json::Error> for DeckError {
    fn from(err: serde_json::Error) -> (out: DeckError) {
        DeckError::JsonSerialization(err)
    }
}

impl FromSpecImpl<serde_json::Error> for DeckError {
    open spec fn obeys_from_spec() -> bool {
        true
    }

    open spec fn from_spec(err: serde_json::Error) -> DeckError {
        DeckError::JsonSerialization(err)
    }
}

impl From<notify::Error> for DeckError {
    fn from(err: notify::Error) -> (out: DeckError) {
        DeckError::Notify(err)
    }
}

impl FromSpecImpl<notify::Error> for DeckError {
    open spec fn obeys_from_spec() -> bool {
        true
    }

    open spec fn from_spec(err: notify::Error) -> DeckError {
        DeckError::Notify(err)
    }
}

impl From<tokio::task::JoinError> for DeckError {
    fn from(err: tokio::task::JoinError) -> (out: DeckError) {
        DeckError::TokioJoin(err)
    }
}

impl FromSpecImpl<tokio::task::JoinError> for DeckError {
    open spec fn obeys_from_spec() -> bool {
        true
    }

    open spec fn from_spec(err: tokio::task::JoinError) -> DeckError {
        DeckError::TokioJoin(err)
    }
}

impl From<std::sync::mpsc::RecvError> for DeckError {
    fn from(err: std::sync::mpsc::RecvError) -> (out: DeckError) {
        DeckError::MpscRecv(err)
    }
}

impl FromSpecImpl<std::sync::mpsc::RecvError> for DeckError {
    open spec fn obeys_from_spec() -> bool {
        true
    }

    open spec fn from_spec(err: std::sync::mpsc::RecvError) -> DeckError {
        DeckError::MpscRecv(err)
    }
}

} // verus!

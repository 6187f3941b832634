//! The connector's errors.
use vstd::prelude::*;

verus! {

/// What went wrong, with a message for the user.
#[derive(Debug, PartialEq, Eq)]
pub enum ScaffoldingError {
    /// A room code has the wrong form.
    RoomCodeInvalid(String),
    /// The virtual network could not be started.
    EasyTierStart(String),
    /// The virtual network did not come up in time.
    EasyTierTimeout(String),
    /// No center was found in the virtual network.
    CenterNotFound(String),
    /// The connection to the center failed.
    CenterConnection(String),
    /// The protocol was violated, or a request failed.
    Protocol(String),
    /// A heartbeat was not answered in time.
    HeartbeatTimeout(String),
}

/// The kind of an error and its message.
#[verifier::ext_equal]
pub enum ErrorView {
    RoomCodeInvalid(Seq<char>),
    EasyTierStart(Seq<char>),
    EasyTierTimeout(Seq<char>),
    CenterNotFound(Seq<char>),
    CenterConnection(Seq<char>),
    Protocol(Seq<char>),
    HeartbeatTimeout(Seq<char>),
}

impl View for ScaffoldingError {
    type V = ErrorView;

    open spec fn view(&self) -> ErrorView {
        match self {
            ScaffoldingError::RoomCodeInvalid(m) => ErrorView::RoomCodeInvalid(m@),
            ScaffoldingError::EasyTierStart(m) => ErrorView::EasyTierStart(m@),
            ScaffoldingError::EasyTierTimeout(m) => ErrorView::EasyTierTimeout(m@),
            ScaffoldingError::CenterNotFound(m) => ErrorView::CenterNotFound(m@),
            ScaffoldingError::CenterConnection(m) => ErrorView::CenterConnection(m@),
            ScaffoldingError::Protocol(m) => ErrorView::Protocol(m@),
            ScaffoldingError::HeartbeatTimeout(m) => ErrorView::HeartbeatTimeout(m@),
        }
    }
}

impl ErrorView {
    /// The message for the user.
    pub open spec fn message(self) -> Seq<char> {
        match self {
            ErrorView::RoomCodeInvalid(m) => m,
            ErrorView::EasyTierStart(m) => m,
            ErrorView::EasyTierTimeout(m) => m,
            ErrorView::CenterNotFound(m) => m,
            ErrorView::CenterConnection(m) => m,
            ErrorView::Protocol(m) => m,
            ErrorView::HeartbeatTimeout(m) => m,
        }
    }
}

impl Clone for ScaffoldingError {
    fn clone(&self) -> (copy: Self)
        ensures
            copy@ == self@,
    {
        match self {
            ScaffoldingError::RoomCodeInvalid(m) => ScaffoldingError::RoomCodeInvalid(m.clone()),
            ScaffoldingError::EasyTierStart(m) => ScaffoldingError::EasyTierStart(m.clone()),
            ScaffoldingError::EasyTierTimeout(m) => ScaffoldingError::EasyTierTimeout(m.clone()),
            ScaffoldingError::CenterNotFound(m) => ScaffoldingError::CenterNotFound(m.clone()),
            ScaffoldingError::CenterConnection(m) => ScaffoldingError::CenterConnection(m.clone()),
            ScaffoldingError::Protocol(m) => ScaffoldingError::Protocol(m.clone()),
            ScaffoldingError::HeartbeatTimeout(m) => ScaffoldingError::HeartbeatTimeout(m.clone()),
        }
    }
}

impl ScaffoldingError {
    /// The message for the user, whatever the kind of the error.
    pub fn message(&self) -> (message: &str)
        ensures
            message@ == self@.message(),
    {
        match self {
            ScaffoldingError::RoomCodeInvalid(m) => m.as_str(),
            ScaffoldingError::EasyTierStart(m) => m.as_str(),
            ScaffoldingError::EasyTierTimeout(m) => m.as_str(),
            ScaffoldingError::CenterNotFound(m) => m.as_str(),
            ScaffoldingError::CenterConnection(m) => m.as_str(),
            ScaffoldingError::Protocol(m) => m.as_str(),
            ScaffoldingError::HeartbeatTimeout(m) => m.as_str(),
        }
    }
}

/// A result over views: what a fallible function returns, with strings as their characters.
pub open spec fn outcome<T: View>(result: Result<T, ScaffoldingError>) -> Result<T::V, ErrorView> {
    match result {
        Ok(value) => Ok(value@),
        Err(error) => Err(error@),
    }
}

} // verus!

//! The failures that end a request.

use vstd::prelude::*;
use vstd::string::*;

verus! {

/// Why a request was given up.
#[derive(Debug, PartialEq, Eq)]
pub enum ManagerError {
    /// Storage could not be reached or rejected a write.
    Persistence(String),
    /// A notification or a publication could not be delivered.
    Transport(String),
}

/// What a [`ManagerError`] holds, as mathematical values.
pub enum ManagerErrorView {
    Persistence(Seq<char>),
    Transport(Seq<char>),
}

impl View for ManagerError {
    type V = ManagerErrorView;

    open spec fn view(&self) -> ManagerErrorView {
        match self {
            ManagerError::Persistence(reason) => ManagerErrorView::Persistence(reason@),
            ManagerError::Transport(reason) => ManagerErrorView::Transport(reason@),
        }
    }
}

impl ManagerErrorView {
    /// The text of the error: its class, then the reason that was given.
    pub open spec fn message(self) -> Seq<char> {
        match self {
            ManagerErrorView::Persistence(reason) => "persistence error: "@ + reason,
            ManagerErrorView::Transport(reason) => "transport error: "@ + reason,
        }
    }
}

impl ManagerError {
    /// The text of the error: its class, then the reason that was given.
    pub fn message(&self) -> (text: String)
        ensures
            text@ == self@.message(),
    {
        match self {
            ManagerError::Persistence(reason) => {
                let mut text = String::from_str("persistence error: ");
                text.append(reason.as_str());
                text
            },
            ManagerError::Transport(reason) => {
                let mut text = String::from_str("transport error: ");
                text.append(reason.as_str());
                text
            },
        }
    }
}

/// The view of the answer to a piece of outside work: done, or the reason
/// why not.
pub open spec fn reply_view(reply: Result<(), String>) -> Result<(), Seq<char>> {
    match reply {
        Ok(_) => Ok(()),
        Err(reason) => Err(reason@),
    }
}

impl Clone for ManagerError {
    fn clone(&self) -> (error: ManagerError)
        ensures
            error@ == self@,
    {
        match self {
            ManagerError::Persistence(reason) => ManagerError::Persistence(reason.clone()),
            ManagerError::Transport(reason) => ManagerError::Transport(reason.clone()),
        }
    }
}

} // verus!

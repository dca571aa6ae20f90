//! The ways in which a menu operation can fail.

use vstd::prelude::*;

verus! {

/// Why an operation on a menu, a vote or a tally did not go through.
#[derive(Clone, Copy, Debug, PartialEq, Eq, Structural)]
pub enum MenuError {
    /// The keyed store or the relational store could not be reached.
    StoreUnavailable,
    /// No menu is live for the message that was reacted to.
    MenuNotFound,
    /// The reaction stands for no candidate of the menu.
    UnmappedEmoji,
    /// The stored mapping of a menu could not be read back.
    MalformedMenuRecord,
    /// A vote was closed while nothing was nominated.
    NoCandidates,
    /// The rendered menu is empty or longer than a message may be.
    ContentRejected,
}

/// The message that goes with each failure.
pub open spec fn error_text(error: MenuError) -> Seq<char> {
    match error {
        MenuError::StoreUnavailable => "store unavailable"@,
        MenuError::MenuNotFound => "no menu found for this message"@,
        MenuError::UnmappedEmoji => "reaction does not belong to the menu"@,
        MenuError::MalformedMenuRecord => "stored menu mapping is malformed"@,
        MenuError::NoCandidates => "no movies are nominated"@,
        MenuError::ContentRejected => "menu content cannot be shown"@,
    }
}

impl MenuError {
    /// The message for this failure.
    pub fn describe(&self) -> (text: &'static str)
        ensures
            text@ == error_text(*self),
    {
        match self {
            MenuError::StoreUnavailable => "store unavailable",
            MenuError::MenuNotFound => "no menu found for this message",
            MenuError::UnmappedEmoji => "reaction does not belong to the menu",
            MenuError::MalformedMenuRecord => "stored menu mapping is malformed",
            MenuError::NoCandidates => "no movies are nominated",
            MenuError::ContentRejected => "menu content cannot be shown",
        }
    }

    /// Whether the failure is a stray reaction that is dropped in silence
    /// rather than reported.
    pub fn is_silent(&self) -> (silent: bool)
        ensures
            silent == (*self == MenuError::MenuNotFound || *self == MenuError::UnmappedEmoji),
    {
        match self {
            MenuError::MenuNotFound => true,
            MenuError::UnmappedEmoji => true,
            _ => false,
        }
    }
}

} // verus!

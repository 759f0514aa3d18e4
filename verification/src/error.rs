//! The error that loading and running programs report.
use vstd::prelude::*;

verus! {

/// A failure with its message.
#[derive(Clone, Debug)]
pub enum LycanError {
    Runtime { msg: String },
}

pub type LycanResult<T> = Result<T, LycanError>;

impl LycanError {
    /// The message as a character sequence.
    pub open spec fn text(self) -> Seq<char> {
        match self {
            LycanError::Runtime { msg } => msg@,
        }
    }

    /// The message.
    pub fn message(&self) -> (s: String)
        ensures
            s@ == self.text(),
    {
        match self {
            LycanError::Runtime { msg } => msg.clone(),
        }
    }
}

/// An error with this message.
pub fn runtime_error(msg: String) -> (e: LycanError)
    ensures
        e.text() == msg@,
{
    LycanError::Runtime { msg }
}

} // verus!

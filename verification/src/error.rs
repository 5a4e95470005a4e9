use vstd::prelude::*;

verus! {

/// What can go wrong in the library.
#[derive(Debug, PartialEq, Eq)]
pub enum CustomError {
    /// A failure told in words.
    Message(String),
    /// The item is no photo: only photos can be fetched.
    UnsupportedMediaKind,
    /// A worker pool of no workers was asked for.
    InvalidPoolSize,
}

pub type CustomResult<T> = Result<T, CustomError>;

impl CustomError {
    /// The error in words.
    pub open spec fn message(&self) -> Seq<char> {
        match self {
            CustomError::Message(text) => text@,
            CustomError::UnsupportedMediaKind => "unsupported media kind"@,
            CustomError::InvalidPoolSize => "invalid worker pool size"@,
        }
    }

    /// The error in words.
    pub fn description(&self) -> (text: String)
        ensures
            text@ == self.message(),
    {
        match self {
            CustomError::Message(text) => text.clone(),
            CustomError::UnsupportedMediaKind => "unsupported media kind".to_owned(),
            CustomError::InvalidPoolSize => "invalid worker pool size".to_owned(),
        }
    }
}

} // verus!

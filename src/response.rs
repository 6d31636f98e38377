//! The envelope in which the command layer hands results to the UI shell, and
//! the wrapper under which cached values are stored.

use vstd::prelude::*;

verus! {

/// A command's answer: its data on success, its message on failure.
#[derive(Clone, Debug)]
pub enum ApiResponse<T> {
    Success { data: T, message: Option<String> },
    Error { data: Option<T>, message: String },
}

impl<T> ApiResponse<T> {
    /// A success that carries `data` and no message.
    pub fn success(data: T) -> (r: Self)
        ensures
            r == (ApiResponse::Success { data, message: None }),
    {
        ApiResponse::Success { data, message: None }
    }

    /// A failure that carries `message` and no data.
    pub fn error(message: String) -> (r: Self)
        ensures
            r == (ApiResponse::<T>::Error { data: None, message }),
    {
        ApiResponse::Error { data: None, message }
    }
}

/// A value as it is stored in the cache.
#[derive(Clone, Debug)]
pub struct CachedData<T> {
    pub data: T,
}

} // verus!

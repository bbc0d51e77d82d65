//! Response body types shared by controllers.

use vstd::prelude::*;

verus! {

/// The base error response body: a message, and an optional detail value
/// of the caller's choosing.
#[derive(Debug, Clone)]
pub struct BaseErrorResponse<T> {
    pub message: String,
    pub detail: Option<T>,
}

impl<T> BaseErrorResponse<T> {
    /// An error response from its message and optional detail.
    pub fn new(message: String, detail: Option<T>) -> (r: BaseErrorResponse<T>)
        ensures
            r.message@ == message@,
            r.detail == detail,
    {
        BaseErrorResponse { message, detail }
    }
}

} // verus!

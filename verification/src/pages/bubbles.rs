//! The small error and notification bubbles that pages swap in.
use vstd::prelude::*;

verus! {

/// An error bubble showing `message`.
pub struct ErrorBubbleTemplate<'a> {
    pub message: &'a str,
}

/// A notification bubble showing `message`.
pub struct NotificationBubbleResponse<'a> {
    pub message: &'a str,
}

impl<'a> ErrorBubbleTemplate<'a> {
    /// The bubble for `message`, shown as it is.
    pub fn new(message: &'a str) -> (r: Self)
        ensures
            r.message@ == message@,
    {
        ErrorBubbleTemplate { message }
    }
}

impl<'a> NotificationBubbleResponse<'a> {
    /// The bubble for `message`, shown as it is.
    pub fn new(message: &'a str) -> (r: Self)
        ensures
            r.message@ == message@,
    {
        NotificationBubbleResponse { message }
    }
}

} // verus!

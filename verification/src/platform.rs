//! Platform services of the desktop shell.

use crate::text::concat;
use vstd::prelude::*;

verus! {

#[derive(Debug, Clone)]
pub enum PlatformError {
    Inner(String),
}

impl PlatformError {
    /// The error's message: `platform error: ` and its detail.
    pub fn to_text(&self) -> (r: String)
        ensures
            r@ == "platform error: "@ + match *self {
                PlatformError::Inner(s) => s@,
            },
    {
        match self {
            PlatformError::Inner(s) => concat("platform error: ", s.as_str()),
        }
    }
}

} // verus!

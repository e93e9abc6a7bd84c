//! Errors reported by the bridge.

use vstd::prelude::*;
use vstd::string::StringExecFns;

verus! {

/// The message reported when an object's private slot is empty: the value was
/// already reclaimed, or was never attached.
pub open spec fn missing_private_message(name: Seq<char>) -> Seq<char> {
    "Could not get private value in "@ + name + ". It may have been destroyed."@
}

/// An error raised by the bridge, carrying a human-readable message.
#[derive(Debug)]
pub struct Error {
    pub message: String,
}

impl Error {
    /// Builds the error reported when a private slot is empty, naming the
    /// class whose instance was consulted.
    pub fn missing_private(name: &String) -> (e: Error)
        ensures
            e.message@ == missing_private_message(name@),
    {
        let mut message = <String as StringExecFns>::from_str("Could not get private value in ");
        message.append(name.as_str());
        message.append(". It may have been destroyed.");
        Error { message }
    }
}

} // verus!

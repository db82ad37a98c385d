//! The greeting that the user interface shows on its first call.

use vstd::prelude::*;
use vstd::string::*;

verus! {

/// Greets `name`.
pub fn greet(name: &str) -> (text: String)
    ensures
        text@ == "Hello, "@ + name@ + "! You've been greeted from Rust!"@,
{
    let mut text = String::from_str("Hello, ");
    text.append(name);
    text.append("! You've been greeted from Rust!");
    text
}

} // verus!

//! A one-line description of the running process.

use crate::text::{decimal_seq, push_decimal};
use vstd::prelude::*;

verus! {

/// The description of a process with the identifier `pid`, run by the Rust
/// release `version`.
pub open spec fn details_text(pid: nat, version: Seq<char>) -> Seq<char> {
    "Process ID: "@ + decimal_seq(pid) + " | Rust version: "@ + version
}

/// Describes the running process.
pub struct ProcessDetails;

impl ProcessDetails {
    /// The line `Process ID: <pid> | Rust version: <version>`.
    pub fn details(pid: u32, version: &str) -> (r: String)
        ensures
            r@ == details_text(pid as nat, version@),
    {
        let mut text = String::from_str("Process ID: ");
        push_decimal(&mut text, pid as u64);
        text.append(" | Rust version: ");
        text.append(version);
        text
    }
}

} // verus!

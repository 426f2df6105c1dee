//! Atomic file writes: generated manifests and configuration are written to
//! a temporary file beside the target, synced, then renamed over it, so a
//! partial file never appears at the final path.

use crate::text::{concat3, decimal, push_str, u64_to_decimal};
use vstd::prelude::*;

verus! {

/// Writes files atomically; the writing itself is file I/O done by the
/// application shell.
pub struct AtomicWriter;

/// The name of the temporary file that process `pid` writes beside a target
/// named `name`.
pub open spec fn temp_name(name: Seq<char>, pid: u32) -> Seq<char> {
    "."@ + name + ".tmp-"@ + decimal(pid as int)
}

impl AtomicWriter {
    /// The name of the temporary file that process `pid` writes beside a
    /// target whose file name is `file_name`: `.<name>.tmp-<pid>`, with
    /// `tmp` for the name when the target has none.
    pub fn temp_file_name(file_name: Option<&str>, pid: u32) -> (r: String)
        ensures
            r@ == temp_name(
                match file_name {
                    Some(n) => n@,
                    None => "tmp"@,
                },
                pid,
            ),
    {
        let name = match file_name {
            Some(n) => n,
            None => "tmp",
        };
        let mut s = concat3(".", name, ".tmp-");
        let digits = u64_to_decimal(pid as u64);
        push_str(&mut s, digits.as_str());
        s
    }
}

} // verus!

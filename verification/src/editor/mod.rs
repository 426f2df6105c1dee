//! The Neovim editor host: locating the bundled binary and reporting the
//! editor's state; the msgpack-RPC messages it exchanges are in `rpc`.

pub mod rpc;

use crate::paths::{join_path, path_join};
use crate::text::{concat, owned};
use vstd::prelude::*;

verus! {

#[derive(Debug, Clone)]
pub enum EditorError {
    BinaryNotFound(String),
    StartFailed(String),
    Rpc(String),
    UserConfig(String),
}

/// The message of an error, as `Display` writes it.
pub open spec fn editor_error_text(e: EditorError) -> Seq<char> {
    match e {
        EditorError::BinaryNotFound(s) => "neovim binary not found: "@ + s@,
        EditorError::StartFailed(s) => "failed to start neovim: "@ + s@,
        EditorError::Rpc(s) => "rpc error: "@ + s@,
        EditorError::UserConfig(s) => "user config error: "@ + s@,
    }
}

impl EditorError {
    /// The error's message.
    pub fn to_text(&self) -> (r: String)
        ensures
            r@ == editor_error_text(*self),
    {
        match self {
            EditorError::BinaryNotFound(s) => concat("neovim binary not found: ", s.as_str()),
            EditorError::StartFailed(s) => concat("failed to start neovim: ", s.as_str()),
            EditorError::Rpc(s) => concat("rpc error: ", s.as_str()),
            EditorError::UserConfig(s) => concat("user config error: ", s.as_str()),
        }
    }
}

/// What the front end is told about the editor.
#[derive(Debug, Clone)]
pub struct EditorStatus {
    pub alive: bool,
    pub runtime_path: String,
    pub safe_mode: bool,
}

/// The Neovim binary bundled under a runtime directory.
pub open spec fn bundled_binary(runtime: Seq<char>) -> Seq<char> {
    path_join(path_join(runtime, "bin"@), "nvim"@)
}

/// Where the Neovim binary of a runtime directory is bundled.
pub fn bundled_binary_path(runtime_path: &str) -> (r: String)
    ensures
        r@ == bundled_binary(runtime_path@),
{
    let bin = join_path(runtime_path, "bin");
    join_path(bin.as_str(), "nvim")
}

/// The binary to launch: the bundled one when it exists, else the one found
/// on the `PATH`; `BinaryNotFound` when there is neither.
pub fn choose_binary(runtime_path: &str, bundled_exists: bool, on_path: Option<String>) -> (r: Result<
    String,
    EditorError,
>)
    ensures
        bundled_exists ==> (r matches Ok(p) && p@ == bundled_binary(runtime_path@)),
        !bundled_exists ==> match on_path {
            Some(p) => r matches Ok(q) && q@ == p@,
            None => r matches Err(EditorError::BinaryNotFound(m)) && m@
                == "nvim not found in bundled runtime or PATH"@,
        },
{
    if bundled_exists {
        return Ok(bundled_binary_path(runtime_path));
    }
    match on_path {
        Some(p) => Ok(p),
        None => Err(EditorError::BinaryNotFound(owned("nvim not found in bundled runtime or PATH"))),
    }
}

} // verus!

//! Language servers: which servers can be launched and with what, where
//! managed installs live, what the front end is told about each server,
//! and the limits on running servers and their messages.

use crate::paths::{join_path, path_join};
use crate::text::{
    chars_of, concat, concat3, decimal, owned, owned_all, str_eq, strings_view, strs_view,
    u64_to_decimal,
};
use vstd::prelude::*;

verus! {

/// The largest message, in bytes, exchanged with a language server.
pub const MAX_MESSAGE: usize = 16 * 1024 * 1024;

/// The program and arguments that launch a server, for the servers that
/// can be launched.
pub open spec fn launch_spec(server: Seq<char>) -> Option<(Seq<char>, Seq<Seq<char>>)> {
    if server == "typescript"@ {
        Some(("typescript-language-server"@, seq!["--stdio"@]))
    } else if server == "python"@ {
        Some(("pyright-langserver"@, seq!["--stdio"@]))
    } else if server == "rust"@ {
        Some(("rust-analyzer"@, seq![]))
    } else if server == "json"@ {
        Some(("vscode-json-language-server"@, seq!["--stdio"@]))
    } else {
        None
    }
}

/// The program and arguments that launch `server`; only the TypeScript,
/// Python, Rust and JSON servers can be launched.
pub fn executable(server: &str) -> (r: Result<(&'static str, Vec<&'static str>), String>)
    ensures
        match launch_spec(server@) {
            Some(l) => r matches Ok(p) && p.0@ == l.0 && strs_view(p.1@) == l.1,
            None => r matches Err(e) && e@ == "Unsupported language server"@,
        },
{
    if crate::text::str_eq(server, "typescript") {
        let args = vec!["--stdio"];
        assert(strs_view(args@) =~= seq!["--stdio"@]);
        Ok(("typescript-language-server", args))
    } else if crate::text::str_eq(server, "python") {
        let args = vec!["--stdio"];
        assert(strs_view(args@) =~= seq!["--stdio"@]);
        Ok(("pyright-langserver", args))
    } else if crate::text::str_eq(server, "rust") {
        let args: Vec<&'static str> = Vec::new();
        assert(strs_view(args@) =~= Seq::<Seq<char>>::empty());
        Ok(("rust-analyzer", args))
    } else if crate::text::str_eq(server, "json") {
        let args = vec!["--stdio"];
        assert(strs_view(args@) =~= seq!["--stdio"@]);
        Ok(("vscode-json-language-server", args))
    } else {
        Err(owned("Unsupported language server"))
    }
}

/// The servers the front end is told about, in order.
pub open spec fn known_servers() -> Seq<Seq<char>> {
    seq!["typescript"@, "python"@, "rust"@, "json"@]
}

/// The servers the front end is told about, in order.
pub fn server_ids() -> (r: Vec<&'static str>)
    ensures
        strs_view(r@) == known_servers(),
{
    let r = vec!["typescript", "python", "rust", "json"];
    assert(strs_view(r@) =~= known_servers());
    r
}

/// Where managed language servers are installed under the home directory.
pub fn install_root(home: Option<String>) -> (r: Result<String, String>)
    ensures
        match home {
            Some(h) => r matches Ok(p) && p@ == path_join(h@, ".ginger/language-servers"@),
            None => r matches Err(e) && e@ == "Home directory unavailable"@,
        },
{
    match home {
        Some(h) => Ok(join_path(h.as_str(), ".ginger/language-servers")),
        None => Err(owned("Home directory unavailable")),
    }
}

/// Where a managed install of `program` lives under the install root.
pub fn managed_path(install_root: &str, program: &str) -> (r: String)
    ensures
        r@ == path_join(path_join(install_root@, "node_modules/.bin"@), program@),
{
    let bin = join_path(install_root, "node_modules/.bin");
    join_path(bin.as_str(), program)
}

/// The message shown when `program` cannot be found.
pub fn not_installed(program: &str) -> (r: String)
    ensures
        r@ == program@ + " is not installed. Open Language servers from Commands to install it."@,
{
    concat(program, " is not installed. Open Language servers from Commands to install it.")
}

/// The packages npm installs for a server.
pub open spec fn npm_packages(id: Seq<char>) -> Seq<Seq<char>> {
    if id == "typescript"@ {
        seq!["typescript@6.0.3"@, "typescript-language-server"@]
    } else if id == "python"@ {
        seq!["pyright"@]
    } else if id == "json"@ {
        seq!["vscode-langservers-extracted"@]
    } else {
        seq![]
    }
}

/// The arguments of the command that installs a server: a rustup component
/// for Rust, an npm install into the install root otherwise.
pub open spec fn install_args(id: Seq<char>, install_root: Seq<char>) -> Seq<Seq<char>> {
    if id == "rust"@ {
        seq!["component"@, "add"@, "rust-analyzer"@, "rust-src"@]
    } else {
        seq!["install"@, "--prefix"@, install_root, "--no-audit"@, "--no-fund"@] + npm_packages(id)
    }
}

/// What the front end is told about a server.
#[derive(Debug, Clone)]
pub struct ServerInfo {
    pub id: String,
    pub executable: String,
    pub available: bool,
    pub path: Option<String>,
    pub install_program: String,
    pub install_args: Vec<String>,
}

/// The description of the known server `id`, resolved to `path` when it is
/// installed, whose managed installs go under `install_root`.
pub fn server_info(id: &str, path: Option<String>, install_root: &str) -> (r: ServerInfo)
    requires
        known_servers().contains(id@),
    ensures
        r.id@ == id@,
        r.executable@ == (launch_spec(id@)->0).0,
        r.available == path is Some,
        r.path == path,
        r.install_program@ == (if id@ == "rust"@ {
            "rustup"@
        } else {
            "npm"@
        }),
        strings_view(r.install_args@) == install_args(id@, install_root@),
{
    let program = match executable(id) {
        Ok(p) => p.0,
        Err(_) => "",
    };
    let is_rust = crate::text::str_eq(id, "rust");
    let args: Vec<String> = if is_rust {
        let a = owned_all(&["component", "add", "rust-analyzer", "rust-src"]);
        assert(strings_view(a@) =~= install_args(id@, install_root@));
        a
    } else {
        let mut a = owned_all(&["install", "--prefix"]);
        let ghost a0 = strings_view(a@);
        a.push(owned(install_root));
        let tail = owned_all(&["--no-audit", "--no-fund"]);
        let ghost t = strings_view(tail@);
        let mut k: usize = 0;
        while k < tail.len()
            invariant
                k <= tail@.len(),
                t == strings_view(tail@),
                strings_view(a@) == a0.push(install_root@) + t.take(k as int),
            decreases tail.len() - k,
        {
            let ghost before = strings_view(a@);
            a.push(tail[k].clone());
            assert(strings_view(a@) =~= before.push(t[k as int]));
            assert(t.take(k + 1) =~= t.take(k as int).push(t[k as int]));
            k = k + 1;
        }
        let packages: Vec<String> = if crate::text::str_eq(id, "typescript") {
            owned_all(&["typescript@6.0.3", "typescript-language-server"])
        } else if crate::text::str_eq(id, "python") {
            owned_all(&["pyright"])
        } else if crate::text::str_eq(id, "json") {
            owned_all(&["vscode-langservers-extracted"])
        } else {
            Vec::new()
        };
        assert(strings_view(packages@) =~= npm_packages(id@));
        let ghost head = strings_view(a@);
        let mut j: usize = 0;
        while j < packages.len()
            invariant
                j <= packages@.len(),
                strings_view(a@) == head + strings_view(packages@).take(j as int),
            decreases packages.len() - j,
        {
            let ghost before = strings_view(a@);
            a.push(packages[j].clone());
            assert(strings_view(a@) =~= before.push(strings_view(packages@)[j as int]));
            assert(strings_view(packages@).take(j + 1) =~= strings_view(packages@).take(
                j as int,
            ).push(strings_view(packages@)[j as int]));
            j = j + 1;
        }
        assert(strings_view(packages@).take(j as int) =~= strings_view(packages@));
        assert(t.take(k as int) =~= t);
        assert(strings_view(a@) =~= install_args(id@, install_root@));
        a
    };
    let available = path.is_some();
    ServerInfo {
        id: owned(id),
        executable: owned(program),
        available,
        path,
        install_program: if is_rust {
            owned("rustup")
        } else {
            owned("npm")
        },
        install_args: args,
    }
}

/// An event of a running server: a message it sent, or its exit.
#[derive(Debug, Clone)]
pub struct ServerEvent {
    pub id: u64,
    pub kind: &'static str,
    pub data: String,
}

/// Whether a server may start for the workspace at `root` when the open
/// workspace is `current`: a folder must be open, and it must still be the
/// one the request was made for.
pub fn check_workspace(current: Option<&str>, root: &str) -> (r: Result<(), String>)
    ensures
        current is None ==> (r matches Err(e) && e@ == "Open a folder first"@),
        current matches Some(c) && c@ == root@ ==> r is Ok,
        current matches Some(c) && c@ != root@ ==> (r matches Err(e) && e@ == "Workspace changed"@),
{
    match current {
        None => Err(owned("Open a folder first")),
        Some(c) => {
            if str_eq(c, root) {
                Ok(())
            } else {
                Err(owned("Workspace changed"))
            }
        },
    }
}

/// Whether another server may start when `running` are running: at most
/// four per workspace.
pub fn check_capacity(running: usize) -> (r: Result<(), String>)
    ensures
        running >= 4 ==> (r matches Err(e) && e@ == "Maximum four language servers per workspace"@),
        running < 4 ==> r is Ok,
{
    if running >= 4 {
        Err(owned("Maximum four language servers per workspace"))
    } else {
        Ok(())
    }
}

/// Whether a message of `len` bytes may be sent: at most `MAX_MESSAGE`.
pub fn check_message_size(len: usize) -> (r: Result<(), String>)
    ensures
        len > MAX_MESSAGE ==> (r matches Err(e) && e@ == "Language server message too large"@),
        len <= MAX_MESSAGE ==> r is Ok,
{
    if len > MAX_MESSAGE {
        Err(owned("Language server message too large"))
    } else {
        Ok(())
    }
}

/// Whether a message sent to `server` is the TypeScript server's
/// `initialize` request, which gets the bundled `tsserver` as fallback.
pub fn needs_tsserver_fallback(server: &str, method: Option<&str>) -> (r: bool)
    ensures
        r == (server@ == "typescript"@ && (method matches Some(m) && m@ == "initialize"@)),
{
    crate::text::str_eq(server, "typescript") && match method {
        Some(m) => crate::text::str_eq(m, "initialize"),
        None => false,
    }
}

/// The bundled `tsserver` under the install root.
pub fn tsserver_path(install_root: &str) -> (r: String)
    ensures
        r@ == path_join(install_root@, "node_modules/typescript/lib/tsserver.js"@),
{
    join_path(install_root, "node_modules/typescript/lib/tsserver.js")
}


/// The number of bytes `c` takes in UTF-8.
pub open spec fn utf8_width(c: char) -> nat {
    let n = c as int;
    if n < 0x80 {
        1
    } else if n < 0x800 {
        2
    } else if n < 0x10000 {
        3
    } else {
        4
    }
}

/// The number of bytes `s` takes in UTF-8, which is what `str::len` counts.
pub open spec fn utf8_len(s: Seq<char>) -> nat
    decreases s.len(),
{
    if s.len() == 0 {
        0
    } else {
        utf8_len(s.drop_last()) + utf8_width(s.last())
    }
}

proof fn lemma_utf8_len_bound(s: Seq<char>)
    ensures
        utf8_len(s) <= 4 * s.len(),
    decreases s.len(),
{
    if s.len() > 0 {
        lemma_utf8_len_bound(s.drop_last());
    }
}

/// The length of `s` in UTF-8 bytes.
pub fn utf8_length(s: &str) -> (r: usize)
    requires
        4 * s@.len() <= usize::MAX,
    ensures
        r == utf8_len(s@),
{
    let cs = chars_of(s);
    let mut n: usize = 0;
    let mut i: usize = 0;
    while i < cs.len()
        invariant
            i <= cs@.len(),
            cs@ == s@,
            4 * s@.len() <= usize::MAX,
            n == utf8_len(cs@.take(i as int)),
        decreases cs.len() - i,
    {
        proof {
            assert(cs@.take(i + 1).drop_last() =~= cs@.take(i as int));
            lemma_utf8_len_bound(cs@.take(i as int));
        }
        let c = cs[i];
        let w: usize = if '\u{80}' > c {
            1
        } else if '\u{800}' > c {
            2
        } else if '\u{FFFF}' >= c {
            3
        } else {
            4
        };
        n = n + w;
        i = i + 1;
    }
    assert(cs@.take(i as int) =~= cs@);
    n
}

/// The frame that carries `message` to a server: a `Content-Length` header
/// with its length in UTF-8 bytes, an empty line, then the message.
pub fn frame_message(message: &str) -> (r: String)
    requires
        4 * message@.len() <= usize::MAX,
    ensures
        r@ == "Content-Length: "@ + decimal(utf8_len(message@) as int) + "\r\n\r\n"@ + message@,
{
    let n = utf8_length(message);
    let d = u64_to_decimal(n as u64);
    let head = concat3("Content-Length: ", d.as_str(), "\r\n\r\n");
    concat(head.as_str(), message)
}

/// The most bytes of a server's error output kept for its exit report.
pub const STDERR_TAIL: usize = 4096;

/// The last `STDERR_TAIL` bytes of `s`, or all of it when it is shorter.
pub open spec fn last_bytes(s: Seq<u8>) -> Seq<u8> {
    if s.len() > STDERR_TAIL {
        s.subrange(s.len() - STDERR_TAIL, s.len() as int)
    } else {
        s
    }
}

/// Appends `chunk` to the kept error output, dropping the oldest bytes
/// beyond `STDERR_TAIL`.
pub fn keep_tail(tail: &mut Vec<u8>, chunk: &[u8])
    ensures
        final(tail)@ == last_bytes(old(tail)@ + chunk@),
{
    let ghost all = tail@ + chunk@;
    let mut i: usize = 0;
    while i < chunk.len()
        invariant
            i <= chunk@.len(),
            all == old(tail)@ + chunk@,
            tail@ == all.take(old(tail)@.len() + i),
        decreases chunk.len() - i,
    {
        tail.push(chunk[i]);
        assert(all.take(old(tail)@.len() + i + 1) =~= all.take(old(tail)@.len() + i).push(chunk@[i as int]));
        i = i + 1;
    }
    assert(all.take(old(tail)@.len() + i) =~= all);
    if tail.len() > STDERR_TAIL {
        let extra = tail.len() - STDERR_TAIL;
        let kept = crate::text::byte_range(tail.as_slice(), extra, tail.len());
        *tail = kept;
    }
}

/// The text reported when a server exits: why, then its last error output.
pub fn exit_report(reason: &str, detail: &str) -> (r: String)
    ensures
        r@ == reason@ + "\n"@ + detail@,
{
    concat3(reason, "\n", detail)
}

} // verus!

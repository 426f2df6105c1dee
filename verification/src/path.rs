//! The path boundary of the backend: paths are canonicalized, symbolic
//! links resolved and roots checked by components, never by string
//! concatenation.

use crate::paths::{
    byte_chars, canonical_bytes, is_absolute, is_normalized, join_path, path_join,
    path_starts_with, starts_with_path_bytes,
};
use vstd::prelude::*;

verus! {

pub struct PathValidator;

impl PathValidator {
    /// The canonical form of `path` on disk, as the bytes the operating
    /// system stores, or `None` when it cannot be resolved. Which path it is
    /// depends on what is on disk; it is always absolute, with no `.` or `..`
    /// component.
    pub fn canonicalize(path: &str) -> (r: Option<Vec<u8>>)
        ensures
            r matches Some(c) ==> is_normalized(byte_chars(c@)),
    {
        canonical_bytes(path)
    }

    /// Whether a candidate lies inside a root, given the canonical forms of
    /// both: both must exist and the root's components must begin the
    /// candidate's.
    pub fn within_canonical(root: &Option<Vec<u8>>, candidate: &Option<Vec<u8>>) -> (r: bool)
        ensures
            r == canon_within(*root, *candidate),
    {
        match (root, candidate) {
            (Some(rc), Some(cc)) => starts_with_path_bytes(cc.as_slice(), rc.as_slice()),
            _ => false,
        }
    }

    /// Whether `candidate` lies inside `root` once both are canonicalized;
    /// `false` when either cannot be. Which canonical forms come back
    /// depends on what is on disk, so the answer is `within_canonical` of
    /// forms that are not named here; when it is yes, those forms are
    /// normalized absolute paths and the root's components begin the
    /// candidate's.
    pub fn is_within(root: &str, candidate: &str) -> (r: bool)
        ensures
            r ==> exists|rc: Seq<u8>, cc: Seq<u8>|
                is_normalized(byte_chars(rc)) && is_normalized(byte_chars(cc))
                    && #[trigger] path_starts_with(byte_chars(cc), byte_chars(rc)),
    {
        let rc = canonical_bytes(root);
        let cc = canonical_bytes(candidate);
        let r = Self::within_canonical(&rc, &cc);
        proof {
            if r {
                let a = rc->0@;
                let b = cc->0@;
                assert(is_normalized(byte_chars(a)) && is_normalized(byte_chars(b))
                    && path_starts_with(byte_chars(b), byte_chars(a)));
            }
        }
        r
    }

    /// The result of `safe_join` for the joined path `joined`, given the
    /// canonical forms of the root and of `joined`: `joined` when both exist
    /// and the root's components begin those of the joined path, `None`
    /// otherwise.
    pub fn join_if_within(joined: String, root_canon: &Option<Vec<u8>>, joined_canon: &Option<
        Vec<u8>,
    >) -> (r: Option<String>)
        ensures
            r is Some <==> canon_within(*root_canon, *joined_canon),
            r matches Some(p) ==> p@ == joined@,
    {
        if Self::within_canonical(root_canon, joined_canon) {
            Some(joined)
        } else {
            None
        }
    }

    /// `relative` joined onto `root`, when it is relative and the joined path
    /// lies inside `root` on disk; `None` otherwise. This is the boundary
    /// that rejects path traversal: the root and the joined path are
    /// canonicalized, and `join_if_within` decides from the two canonical
    /// forms, so a joined path is only returned when its canonical form lies
    /// under the canonical root.
    pub fn safe_join(root: &str, relative: &str) -> (r: Option<String>)
        ensures
            is_absolute(relative@) ==> r is None,
            r matches Some(p) ==> p@ == path_join(root@, relative@),
            r is Some ==> exists|rc: Seq<u8>, cc: Seq<u8>|
                is_normalized(byte_chars(rc)) && is_normalized(byte_chars(cc))
                    && #[trigger] path_starts_with(byte_chars(cc), byte_chars(rc)),
    {
        let rel = crate::text::chars_of(relative);
        if rel.len() > 0 && rel[0] == '/' {
            return None;
        }
        let joined = join_path(root, relative);
        let rc = canonical_bytes(root);
        let cc = canonical_bytes(joined.as_str());
        let r = Self::join_if_within(joined, &rc, &cc);
        proof {
            if r is Some {
                let a = rc->0@;
                let b = cc->0@;
                assert(is_normalized(byte_chars(a)) && is_normalized(byte_chars(b))
                    && path_starts_with(byte_chars(b), byte_chars(a)));
            }
        }
        r
    }
}

/// Both canonical forms exist and the root's components begin the
/// candidate's.
pub open spec fn canon_within(root: Option<Vec<u8>>, candidate: Option<Vec<u8>>) -> bool {
    root is Some && candidate is Some && path_starts_with(
        byte_chars(candidate->0@),
        byte_chars(root->0@),
    )
}

} // verus!

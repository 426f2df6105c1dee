//! Unix path arithmetic on strings: joining, components, prefixes and file
//! names, as `std::path` defines them, and the canonical form of a path on
//! disk.

use crate::text::{chars_of, push_str, split_char, split_on, string_of};
use vstd::prelude::*;

verus! {

/// `p` is absolute: it starts at the root.
pub open spec fn is_absolute(p: Seq<char>) -> bool {
    p.len() > 0 && p[0] == '/'
}

/// `part` joined onto `base`: an absolute `part` replaces `base`; otherwise
/// a separator is put between them unless `base` is empty or already ends
/// with one.
pub open spec fn path_join(base: Seq<char>, part: Seq<char>) -> Seq<char> {
    if is_absolute(part) {
        part
    } else if base.len() == 0 || base.last() == '/' {
        base + part
    } else {
        base + seq!['/'] + part
    }
}

/// The join of `part` onto `base`.
pub fn join_path(base: &str, part: &str) -> (r: String)
    ensures
        r@ == path_join(base@, part@),
{
    let p = chars_of(part);
    if p.len() > 0 && p[0] == '/' {
        return part.to_owned();
    }
    let b = chars_of(base);
    let mut out = base.to_owned();
    if !(b.len() == 0 || b[b.len() - 1] == '/') {
        push_str(&mut out, "/");
        proof {
            reveal_strlit("/");
        }
    }
    push_str(&mut out, part);
    out
}

/// The pieces of `p` that name something: neither empty nor `.`.
pub open spec fn named_pieces(p: Seq<char>) -> Seq<Seq<char>> {
    split_char(p, '/').filter(|x: Seq<char>| x.len() > 0 && x != seq!['.'])
}

/// What precedes the named pieces: the root of an absolute path, or the `.`
/// a relative path starts with.
pub open spec fn lead(p: Seq<char>) -> Seq<Seq<char>> {
    if is_absolute(p) {
        seq![seq!['/']]
    } else if p.len() > 0 && p[0] == '.' && (p.len() == 1 || p[1] == '/') {
        seq![seq!['.']]
    } else {
        seq![]
    }
}

/// The components of `p`, as `Path::components` yields them: the root as
/// `/`, a leading current directory as `.`, then each named piece.
pub open spec fn path_components(p: Seq<char>) -> Seq<Seq<char>> {
    lead(p) + named_pieces(p)
}

/// `p` is in the form `Path::canonicalize` documents: absolute, with no
/// `.` or `..` component.
pub open spec fn is_normalized(p: Seq<char>) -> bool {
    &&& is_absolute(p)
    &&& forall|k: int|
        0 <= k < path_components(p).len() ==> #[trigger] path_components(p)[k] != seq!['.']
            && path_components(p)[k] != seq!['.', '.']
}

/// The components of `base` begin the components of `p`, as
/// `Path::starts_with` decides.
pub open spec fn path_starts_with(p: Seq<char>, base: Seq<char>) -> bool {
    let c = path_components(p);
    let b = path_components(base);
    b.len() <= c.len() && c.take(b.len() as int) == b
}

/// The last component of `p` when it names something, as `Path::file_name`
/// gives it.
pub open spec fn file_name(p: Seq<char>) -> Option<Seq<char>> {
    let c = path_components(p);
    if c.len() > 0 && c.last() != seq!['/'] && c.last() != seq!['.'] && c.last() != seq!['.', '.'] {
        Some(c.last())
    } else {
        None
    }
}

fn is_named(x: &Vec<char>) -> (r: bool)
    ensures
        r == (x@.len() > 0 && x@ != seq!['.']),
{
    if x.len() == 0 {
        return false;
    }
    if x.len() == 1 && x[0] == '.' {
        assert(x@ =~= seq!['.']);
        return false;
    }
    true
}

/// The components of `p`.
pub fn components(p: &str) -> (r: Vec<Vec<char>>)
    ensures
        r@.map_values(|x: Vec<char>| x@) == path_components(p@),
{
    let cs = chars_of(p);
    components_of_chars(cs.as_slice())
}

/// The components of the path spelled by `cs`.
fn components_of_chars(cs: &[char]) -> (r: Vec<Vec<char>>)
    ensures
        r@.map_values(|x: Vec<char>| x@) == path_components(cs@),
{
    let ghost p = cs@;
    let pieces = split_on(cs, '/');
    let ghost pv = pieces@.map_values(|x: Vec<char>| x@);
    let ghost pred = |x: Seq<char>| x.len() > 0 && x != seq!['.'];
    let mut out: Vec<Vec<char>> = Vec::new();
    if cs.len() > 0 && cs[0] == '/' {
        let v = vec!['/'];
        assert(v@ =~= seq!['/']);
        out.push(v);
    } else if cs.len() > 0 && cs[0] == '.' && (cs.len() == 1 || cs[1] == '/') {
        let v = vec!['.'];
        assert(v@ =~= seq!['.']);
        out.push(v);
    }
    let ghost lead_v = out@.map_values(|x: Vec<char>| x@);
    assert(lead_v =~= lead(p));
    let mut i: usize = 0;
    assert(pv.subrange(0, 0) =~= Seq::<Seq<char>>::empty());
    assert(out@.map_values(|x: Vec<char>| x@) =~= lead_v + pv.subrange(0, 0).filter(pred));
    while i < pieces.len()
        invariant
            i <= pieces@.len(),
            pv == pieces@.map_values(|x: Vec<char>| x@),
            pv == split_char(p, '/'),
            pred == (|x: Seq<char>| x.len() > 0 && x != seq!['.']),
            out@.map_values(|x: Vec<char>| x@) == lead_v + pv.subrange(0, i as int).filter(pred),
        decreases pieces.len() - i,
    {
        let ghost prev = out@.map_values(|x: Vec<char>| x@);
        proof {
            assert(pv.subrange(0, i + 1) =~= pv.subrange(0, i as int).push(pv[i as int]));
            pv.subrange(0, i as int).lemma_filter_push(pv[i as int], pred);
        }
        if is_named(&pieces[i]) {
            let piece = pieces[i].clone();
            assert(piece@ == pv[i as int]);
            out.push(piece);
            assert(out@.map_values(|x: Vec<char>| x@) =~= prev.push(pv[i as int]));
        }
        i = i + 1;
    }
    assert(pv.subrange(0, i as int) =~= pv);
    out
}

/// Whether the components of `base` begin those of `p`.
pub fn starts_with_path(p: &str, base: &str) -> (r: bool)
    ensures
        r == path_starts_with(p@, base@),
{
    let pc = chars_of(p);
    let bc = chars_of(base);
    starts_with_chars(pc.as_slice(), bc.as_slice())
}

/// Whether the components of the path spelled by `base` begin those of the
/// path spelled by `p`.
fn starts_with_chars(p: &[char], base: &[char]) -> (r: bool)
    ensures
        r == path_starts_with(p@, base@),
{
    let c = components_of_chars(p);
    let b = components_of_chars(base);
    let ghost cv = c@.map_values(|x: Vec<char>| x@);
    let ghost bv = b@.map_values(|x: Vec<char>| x@);
    if b.len() > c.len() {
        return false;
    }
    let mut i: usize = 0;
    while i < b.len()
        invariant
            i <= b@.len(),
            b@.len() <= c@.len(),
            cv == c@.map_values(|x: Vec<char>| x@),
            bv == b@.map_values(|x: Vec<char>| x@),
            cv == path_components(p@),
            bv == path_components(base@),
            cv.take(i as int) == bv.take(i as int),
        decreases b.len() - i,
    {
        let same = chars_equal(&c[i], &b[i]);
        assert(cv[i as int] == c@[i as int]@);
        assert(bv[i as int] == b@[i as int]@);
        if !same {
            assert(cv.take(bv.len() as int)[i as int] != bv[i as int]);
            return false;
        }
        assert(cv.take(i + 1) =~= cv.take(i as int).push(cv[i as int]));
        assert(bv.take(i + 1) =~= bv.take(i as int).push(bv[i as int]));
        i = i + 1;
    }
    assert(bv.take(i as int) =~= bv);
    true
}

fn chars_equal(a: &Vec<char>, b: &Vec<char>) -> (r: bool)
    ensures
        r == (a@ == b@),
{
    if a.len() != b.len() {
        return false;
    }
    let mut i: usize = 0;
    while i < a.len()
        invariant
            i <= a@.len(),
            a@.len() == b@.len(),
            a@.take(i as int) == b@.take(i as int),
        decreases a.len() - i,
    {
        if a[i] != b[i] {
            return false;
        }
        assert(a@.take(i + 1) =~= a@.take(i as int).push(a@[i as int]));
        assert(b@.take(i + 1) =~= b@.take(i as int).push(b@[i as int]));
        i = i + 1;
    }
    assert(a@.take(i as int) =~= a@);
    assert(b@.take(i as int) =~= b@);
    true
}

/// The file name of `p`, if its last component names something.
pub fn file_name_of(p: &str) -> (r: Option<String>)
    ensures
        r matches Some(s) ==> file_name(p@) == Some(s@),
        r is None ==> file_name(p@) is None,
{
    let c = components(p);
    let ghost cv = c@.map_values(|x: Vec<char>| x@);
    if c.len() == 0 {
        return None;
    }
    let last = &c[c.len() - 1];
    assert(last@ == cv.last());
    let root = vec!['/'];
    let cur = vec!['.'];
    let up = vec!['.', '.'];
    if chars_equal(last, &root) || chars_equal(last, &cur) || chars_equal(last, &up) {
        assert(root@ =~= seq!['/']);
        assert(cur@ =~= seq!['.']);
        assert(up@ =~= seq!['.', '.']);
        return None;
    }
    assert(root@ =~= seq!['/']);
    assert(cur@ =~= seq!['.']);
    assert(up@ =~= seq!['.', '.']);
    Some(string_of(last.as_slice()))
}

/// The bytes of an operating-system path, each read as the character with
/// the same number. `/` and `.` keep their meaning and distinct byte
/// strings stay distinct, so the components of this view compare as
/// `Path` compares the components of the bytes on Unix, valid UTF-8 or not.
pub open spec fn byte_chars(b: Seq<u8>) -> Seq<char> {
    b.map_values(|x: u8| x as char)
}

/// The characters `byte_chars` reads from `b`.
fn chars_of_bytes(b: &[u8]) -> (r: Vec<char>)
    ensures
        r@ == byte_chars(b@),
{
    let mut out: Vec<char> = Vec::new();
    let mut i: usize = 0;
    while i < b.len()
        invariant
            i <= b@.len(),
            out@ == byte_chars(b@.take(i as int)),
        decreases b.len() - i,
    {
        let c = b[i] as char;
        out.push(c);
        assert(byte_chars(b@.take(i + 1)) =~= byte_chars(b@.take(i as int)).push(b@[i as int] as char));
        i = i + 1;
    }
    assert(b@.take(i as int) =~= b@);
    out
}

/// Whether the components of the path with the bytes `base` begin those of
/// the path with the bytes `p`.
pub fn starts_with_path_bytes(p: &[u8], base: &[u8]) -> (r: bool)
    ensures
        r == path_starts_with(byte_chars(p@), byte_chars(base@)),
{
    let pc = chars_of_bytes(p);
    let bc = chars_of_bytes(base);
    starts_with_chars(pc.as_slice(), bc.as_slice())
}

/// `Path::canonicalize`, with the canonical path as the bytes the operating
/// system stores (`OsString::into_encoded_bytes`), or `None` when it fails
/// (a missing file, a permission denied). Which of the two comes back, and
/// which path, depends on what is on disk; what is stated is what the
/// documentation promises of every outcome: the path is absolute (on the
/// Unix targets of this library it begins with `/`) and its intermediate
/// components are normalized, so none is `.` or `..`. That symbolic links
/// are resolved is not stated: it depends on the disk.
#[verifier::external_body]
pub(crate) fn canonical_bytes(p: &str) -> (r: Option<Vec<u8>>)
    ensures
        r matches Some(b) ==> is_normalized(byte_chars(b@)),
{
    match std::path::Path::new(p).canonicalize() {
        Ok(c) => Some(c.into_os_string().into_encoded_bytes()),
        Err(_) => None,
    }
}

/// What `String::from_utf8_lossy` makes of some bytes: a function of the
/// bytes alone.
pub uninterp spec fn utf8_lossy(bytes: Seq<u8>) -> Seq<char>;

/// `String::from_utf8_lossy`, owned: the bytes as text, each invalid UTF-8
/// sequence replaced by U+FFFD. Its result is named by `utf8_lossy`.
#[verifier::external_body]
pub(crate) fn lossy_text(bytes: &[u8]) -> (r: String)
    ensures
        r@ == utf8_lossy(bytes@),
{
    String::from_utf8_lossy(bytes).into_owned()
}

} // verus!

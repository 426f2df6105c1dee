//! Text primitives shared by the parsers and formatters of the library:
//! character sequences, prefixes, substring search, decimal and hexadecimal
//! rendering, unsigned integer parsing and line splitting.

use vstd::prelude::*;

verus! {

// ---------------------------------------------------------------------------
// Conversions between strings and character vectors
// ---------------------------------------------------------------------------

/// The characters of `s`, in order.
pub fn chars_of(s: &str) -> (r: Vec<char>)
    ensures
        r@ == s@,
{
    let mut r: Vec<char> = Vec::new();
    for c in it: s.chars()
        invariant
            it.seq() == s@,
            r@ == s@.take(it.index() as int),
    {
        assert(s@.take(it.index() + 1) =~= s@.take(it.index() as int).push(c));
        r.push(c);
    }
    assert(r@ =~= s@);
    r
}

/// The string made of `cs`, in order.
pub fn string_of(cs: &[char]) -> (r: String)
    ensures
        r@ == cs@,
{
    let mut r = String::new();
    let mut i: usize = 0;
    while i < cs.len()
        invariant
            i <= cs@.len(),
            r@ == cs@.take(i as int),
        decreases cs.len() - i,
    {
        push_char(&mut r, cs[i]);
        assert(cs@.take(i + 1) =~= cs@.take(i as int).push(cs@[i as int]));
        i = i + 1;
    }
    assert(cs@.take(i as int) =~= cs@);
    r
}

/// `String::push`: appends one character.
#[verifier::external_body]
pub(crate) fn push_char(s: &mut String, c: char)
    ensures
        final(s)@ == old(s)@.push(c),
{
    s.push(c)
}

/// Appends a string slice.
pub fn push_str(s: &mut String, t: &str)
    ensures
        final(s)@ == old(s)@ + t@,
{
    s.append(t)
}

/// `str::to_owned`: an owned copy of a string slice.
pub fn owned(s: &str) -> (r: String)
    ensures
        r@ == s@,
{
    s.to_owned()
}

/// A copy of a string.
pub fn copy_string(s: &String) -> (r: String)
    ensures
        r@ == s@,
{
    s.clone()
}

/// Equality of two string slices by their characters.
pub fn str_eq(a: &str, b: &str) -> (r: bool)
    ensures
        r == (a@ == b@),
{
    let x = a.to_owned();
    let y = b.to_owned();
    x == y
}

/// The string made of the concatenation of `a` and `b`.
pub fn concat(a: &str, b: &str) -> (r: String)
    ensures
        r@ == a@ + b@,
{
    let mut s = a.to_owned();
    push_str(&mut s, b);
    s
}

/// The string made of the concatenation of `a`, `b` and `c`.
pub fn concat3(a: &str, b: &str, c: &str) -> (r: String)
    ensures
        r@ == a@ + b@ + c@,
{
    let mut s = a.to_owned();
    push_str(&mut s, b);
    push_str(&mut s, c);
    s
}

/// A copy of a vector of strings.
pub fn copy_strings(v: &[String]) -> (r: Vec<String>)
    ensures
        strings_view(r@) == strings_view(v@),
        r@.len() == v@.len(),
{
    let mut out: Vec<String> = Vec::new();
    let mut i: usize = 0;
    while i < v.len()
        invariant
            i <= v.len(),
            out@.len() == i,
            forall|j: int| 0 <= j < i ==> #[trigger] out@[j]@ == v@[j]@,
        decreases v.len() - i,
    {
        out.push(v[i].clone());
        i = i + 1;
    }
    assert(strings_view(out@) =~= strings_view(v@));
    out
}

/// The character sequences of a sequence of strings.
pub open spec fn strings_view(v: Seq<String>) -> Seq<Seq<char>> {
    v.map_values(|s: String| s@)
}

/// The character sequences of a sequence of string slices.
pub open spec fn strs_view(s: Seq<&str>) -> Seq<Seq<char>> {
    s.map_values(|t: &str| t@)
}

/// Owned copies of string slices, in order.
pub fn owned_all(items: &[&str]) -> (r: Vec<String>)
    ensures
        strings_view(r@) == strs_view(items@),
{
    let mut out: Vec<String> = Vec::new();
    let mut i: usize = 0;
    while i < items.len()
        invariant
            i <= items@.len(),
            strings_view(out@) == strs_view(items@.subrange(0, i as int)),
        decreases items.len() - i,
    {
        let ghost prev = strings_view(out@);
        let t = items[i];
        out.push(owned(t));
        assert(strings_view(out@) =~= prev.push(t@));
        assert(strs_view(items@.subrange(0, i + 1)) =~= strs_view(items@.subrange(0, i as int)).push(t@));
        i = i + 1;
    }
    assert(items@.subrange(0, i as int) =~= items@);
    out
}

/// Unicode lowercase mapping of a character sequence, as `str::to_lowercase`
/// computes it.
pub uninterp spec fn lowercase(s: Seq<char>) -> Seq<char>;

/// `str::to_lowercase`: the lowercase form of `s`.
#[verifier::external_body]
pub(crate) fn to_lowercase(s: &str) -> (r: String)
    ensures
        r@ == lowercase(s@),
{
    s.to_lowercase()
}

// ---------------------------------------------------------------------------
// Prefixes and substrings
// ---------------------------------------------------------------------------

/// `p` is a prefix of `s`.
pub open spec fn has_prefix(s: Seq<char>, p: Seq<char>) -> bool {
    p.len() <= s.len() && s.subrange(0, p.len() as int) == p
}

/// `n` occurs in `s` at position `i`.
pub open spec fn occurs_at(s: Seq<char>, n: Seq<char>, i: int) -> bool {
    0 <= i && i + n.len() <= s.len() && s.subrange(i, i + n.len()) == n
}

/// `n` occurs somewhere in `s`.
pub open spec fn has_substring(s: Seq<char>, n: Seq<char>) -> bool {
    exists|i: int| occurs_at(s, n, i)
}

/// Whether `p` occurs in `s` at position `at`.
pub fn matches_at(s: &[char], p: &[char], at: usize) -> (r: bool)
    ensures
        r == occurs_at(s@, p@, at as int),
{
    if at > s.len() || p.len() > s.len() - at {
        return false;
    }
    let mut k: usize = 0;
    while k < p.len()
        invariant
            at + p@.len() <= s@.len(),
            s@.len() <= usize::MAX,
            k <= p@.len(),
            forall|j: int| 0 <= j < k ==> s@[at + j] == p@[j],
        decreases p.len() - k,
    {
        if s[at + k] != p[k] {
            assert(s@.subrange(at as int, at + p@.len())[k as int] != p@[k as int]);
            return false;
        }
        k = k + 1;
    }
    assert(s@.subrange(at as int, at + p@.len()) =~= p@);
    true
}

/// Whether `p` is a prefix of `s`.
pub fn starts_with(s: &[char], p: &[char]) -> (r: bool)
    ensures
        r == has_prefix(s@, p@),
{
    matches_at(s, p, 0)
}

/// Whether `n` occurs in `s`.
pub fn contains(s: &[char], n: &[char]) -> (r: bool)
    ensures
        r == has_substring(s@, n@),
{
    if n.len() > s.len() {
        assert forall|i: int| !occurs_at(s@, n@, i) by {}
        return false;
    }
    if n.len() == 0 {
        assert(s@.subrange(0, 0) =~= n@);
        assert(occurs_at(s@, n@, 0));
        return true;
    }
    let last = s.len() - n.len();
    let mut i: usize = 0;
    while i <= last
        invariant
            last + n@.len() == s@.len(),
            n@.len() > 0,
            s@.len() <= usize::MAX,
            i <= last + 1,
            forall|j: int| 0 <= j < i ==> !occurs_at(s@, n@, j),
        decreases last + 1 - i,
    {
        if matches_at(s, n, i) {
            return true;
        }
        i = i + 1;
    }
    assert forall|j: int| !occurs_at(s@, n@, j) by {}
    false
}

/// Whether the characters of `s` contain the characters of the literal `n`.
pub fn str_contains(s: &str, n: &str) -> (r: bool)
    ensures
        r == has_substring(s@, n@),
{
    let sc = chars_of(s);
    let nc = chars_of(n);
    contains(sc.as_slice(), nc.as_slice())
}

/// The characters of `s` from position `from` on, as a string.
pub fn suffix_from(s: &[char], from: usize) -> (r: String)
    requires
        from <= s@.len(),
    ensures
        r@ == s@.subrange(from as int, s@.len() as int),
{
    let mut out: Vec<char> = Vec::new();
    let mut i = from;
    while i < s.len()
        invariant
            from <= i <= s@.len(),
            out@ == s@.subrange(from as int, i as int),
        decreases s.len() - i,
    {
        out.push(s[i]);
        assert(s@.subrange(from as int, i + 1) =~= s@.subrange(from as int, i as int).push(s@[i as int]));
        i = i + 1;
    }
    string_of(out.as_slice())
}

/// The characters of `s` in `[from, to)`, as a character vector.
pub fn slice_chars(s: &[char], from: usize, to: usize) -> (r: Vec<char>)
    requires
        from <= to <= s@.len(),
    ensures
        r@ == s@.subrange(from as int, to as int),
{
    let mut out: Vec<char> = Vec::new();
    let mut i = from;
    while i < to
        invariant
            from <= i <= to <= s@.len(),
            out@ == s@.subrange(from as int, i as int),
        decreases to - i,
    {
        out.push(s[i]);
        assert(s@.subrange(from as int, i + 1) =~= s@.subrange(from as int, i as int).push(s@[i as int]));
        i = i + 1;
    }
    out
}

// ---------------------------------------------------------------------------
// Decimal and hexadecimal rendering
// ---------------------------------------------------------------------------

/// The character of a digit value below sixteen, in lowercase hexadecimal
/// (and so, below ten, in decimal).
pub open spec fn digit_char(d: nat) -> char
    recommends
        d < 16,
{
    if d < 10 {
        (48 + d) as char
    } else {
        (87 + d) as char
    }
}

/// The digits of `n` in base `b`, most significant first, without leading
/// zeros (so `0` is written as a single digit).
pub open spec fn digits(n: nat, b: nat) -> Seq<char>
    recommends
        2 <= b <= 16,
    decreases n,
    when 2 <= b
{
    if n < b {
        seq![digit_char(n)]
    } else {
        proof {
            assert(n / b < n) by (nonlinear_arith)
                requires
                    n >= b,
                    b >= 2,
            {
            }
        }
        digits(n / b, b).push(digit_char(n % b))
    }
}

/// The decimal rendering of an integer, as `Display` writes it.
pub open spec fn decimal(n: int) -> Seq<char> {
    if n < 0 {
        seq!['-'] + digits((-n) as nat, 10)
    } else {
        digits(n as nat, 10)
    }
}

/// The lowercase hexadecimal rendering of a natural number, as `LowerHex`
/// writes it.
pub open spec fn hex(n: nat) -> Seq<char> {
    digits(n, 16)
}

fn digit_exec(d: u64) -> (c: char)
    requires
        d < 16,
    ensures
        c == digit_char(d as nat),
{
    if d < 10 {
        ((48 + d) as u8) as char
    } else {
        ((87 + d) as u8) as char
    }
}

/// The digits of `n` in base `b`.
pub fn render_digits(n: u64, b: u64) -> (r: Vec<char>)
    requires
        2 <= b <= 16,
    ensures
        r@ == digits(n as nat, b as nat),
{
    let mut q = n;
    let mut acc: Vec<char> = Vec::new();
    while q >= b
        invariant
            2 <= b <= 16,
            digits(n as nat, b as nat) == digits(q as nat, b as nat) + acc@,
        decreases q,
    {
        let d = digit_exec(q % b);
        let ghost old_acc = acc@;
        acc.insert(0, d);
        assert(acc@ =~= seq![d] + old_acc);
        assert(digits(q as nat, b as nat) == digits((q / b) as nat, b as nat).push(d));
        assert(digits((q / b) as nat, b as nat).push(d) + old_acc =~= digits((q / b) as nat, b as nat) + acc@);
        q = q / b;
    }
    let d = digit_exec(q);
    let ghost old_acc = acc@;
    acc.insert(0, d);
    assert(acc@ =~= seq![d] + old_acc);
    assert(digits(q as nat, b as nat) == seq![d]);
    acc
}

/// The decimal rendering of an unsigned integer.
pub fn u64_to_decimal(n: u64) -> (r: String)
    ensures
        r@ == decimal(n as int),
{
    let v = render_digits(n, 10);
    string_of(v.as_slice())
}

/// The decimal rendering of a signed integer.
pub fn i64_to_decimal(n: i64) -> (r: String)
    ensures
        r@ == decimal(n as int),
{
    if n < 0 {
        let m: u64 = if n == i64::MIN {
            9223372036854775808u64
        } else {
            (-n) as u64
        };
        let v = render_digits(m, 10);
        let mut out: Vec<char> = Vec::new();
        out.push('-');
        let mut i: usize = 0;
        while i < v.len()
            invariant
                i <= v@.len(),
                out@ == seq!['-'] + v@.subrange(0, i as int),
            decreases v.len() - i,
        {
            out.push(v[i]);
            assert(seq!['-'] + v@.subrange(0, i + 1) =~= (seq!['-'] + v@.subrange(0, i as int)).push(v@[i as int]));
            i = i + 1;
        }
        assert(v@.subrange(0, v@.len() as int) =~= v@);
        string_of(out.as_slice())
    } else {
        u64_to_decimal(n as u64)
    }
}

/// The lowercase hexadecimal rendering of an unsigned integer.
pub fn u64_to_hex(n: u64) -> (r: String)
    ensures
        r@ == hex(n as nat),
{
    let v = render_digits(n, 16);
    string_of(v.as_slice())
}

/// Two lowercase hexadecimal digits per byte, most significant nibble first.
pub open spec fn hex_bytes(b: Seq<u8>) -> Seq<char>
    decreases b.len(),
{
    if b.len() == 0 {
        seq![]
    } else {
        hex_bytes(b.drop_last()) + seq![
            digit_char((b.last() / 16) as nat),
            digit_char((b.last() % 16) as nat),
        ]
    }
}

/// The lowercase hexadecimal rendering of a byte string, two digits per byte.
pub fn bytes_to_hex(b: &[u8]) -> (r: String)
    ensures
        r@ == hex_bytes(b@),
{
    let mut out: Vec<char> = Vec::new();
    let mut i: usize = 0;
    while i < b.len()
        invariant
            i <= b@.len(),
            out@ == hex_bytes(b@.subrange(0, i as int)),
        decreases b.len() - i,
    {
        let x = b[i];
        let hi = digit_exec((x / 16) as u64);
        let lo = digit_exec((x % 16) as u64);
        let ghost prev = out@;
        out.push(hi);
        out.push(lo);
        assert(b@.subrange(0, i + 1).drop_last() =~= b@.subrange(0, i as int));
        assert(out@ =~= prev + seq![hi, lo]);
        i = i + 1;
    }
    assert(b@.subrange(0, b@.len() as int) =~= b@);
    string_of(out.as_slice())
}

// ---------------------------------------------------------------------------
// Unsigned integer parsing
// ---------------------------------------------------------------------------

/// `c` is an ASCII decimal digit.
pub open spec fn is_digit(c: char) -> bool {
    '0' <= c <= '9'
}

/// Every character of `s` is an ASCII decimal digit.
pub open spec fn all_digits(s: Seq<char>) -> bool {
    forall|i: int| 0 <= i < s.len() ==> is_digit(#[trigger] s[i])
}

/// The value of a sequence of decimal digits.
pub open spec fn digits_value(s: Seq<char>) -> nat
    decreases s.len(),
{
    if s.len() == 0 {
        0
    } else {
        digits_value(s.drop_last()) * 10 + ((s.last() as int) - 48) as nat
    }
}

/// What `str::parse` gives for an unsigned integer type whose largest value
/// is `max`: an optional `+` sign, then one or more decimal digits whose
/// value does not exceed `max`.
pub open spec fn parse_unsigned(s: Seq<char>, max: nat) -> Option<nat> {
    let body = if s.len() > 0 && s[0] == '+' {
        s.drop_first()
    } else {
        s
    };
    if body.len() == 0 || !all_digits(body) || digits_value(body) > max {
        None
    } else {
        Some(digits_value(body))
    }
}

pub proof fn lemma_digits_value_monotone(s: Seq<char>, k: int)
    requires
        0 <= k <= s.len(),
        all_digits(s),
    ensures
        digits_value(s.subrange(0, k)) <= digits_value(s),
    decreases s.len() - k,
{
    if k < s.len() {
        lemma_digits_value_monotone(s, k + 1);
        let p = s.subrange(0, k + 1);
        assert(p.drop_last() =~= s.subrange(0, k));
        assert(is_digit(s[k]));
    } else {
        assert(s.subrange(0, k) =~= s);
    }
}

/// Parses the characters of `s` as an unsigned integer not above `max`, as
/// `str::parse` does for the unsigned type whose largest value is `max`.
pub fn parse_unsigned_chars(s: &[char], max: u64) -> (r: Option<u64>)
    ensures
        r matches Some(v) ==> parse_unsigned(s@, max as nat) == Some(v as nat),
        r is None ==> parse_unsigned(s@, max as nat) is None,
{
    let start: usize = if s.len() > 0 && s[0] == '+' {
        1
    } else {
        0
    };
    let ghost body = if s@.len() > 0 && s@[0] == '+' {
        s@.drop_first()
    } else {
        s@
    };
    assert(body =~= s@.subrange(start as int, s@.len() as int));
    if start == s.len() {
        return None;
    }
    let mut value: u64 = 0;
    let mut i = start;
    while i < s.len()
        invariant
            start <= i <= s@.len(),
            body == s@.subrange(start as int, s@.len() as int),
            body == (if s@.len() > 0 && s@[0] == '+' {
                s@.drop_first()
            } else {
                s@
            }),
            body.len() > 0,
            value as nat == digits_value(s@.subrange(start as int, i as int)),
            value <= max,
            all_digits(s@.subrange(start as int, i as int)),
        decreases s.len() - i,
    {
        let c = s[i];
        let ghost pre = s@.subrange(start as int, i as int);
        let ghost next = s@.subrange(start as int, i + 1);
        assert(next.drop_last() =~= pre);
        if !('0' <= c && c <= '9') {
            assert(body[i - start] == c);
            assert(!is_digit(body[i - start]));
            return None;
        }
        let d = (c as u64) - 48;
        assert(digits_value(next) == digits_value(pre) * 10 + d);
        if d > max || value > (max - d) / 10 {
            proof {
                if d <= max {
                    assert(value * 10 + d > max) by (nonlinear_arith)
                        requires
                            value > (max - d) / 10,
                            d <= max,
                    {
                    }
                }
                assert(digits_value(next) > max);
                if all_digits(body) {
                    assert(next =~= body.subrange(0, i + 1 - start));
                    lemma_digits_value_monotone(body, i + 1 - start);
                }
            }
            return None;
        }
        proof {
            assert(value * 10 + d <= max) by (nonlinear_arith)
                requires
                    value <= (max - d) / 10,
                    d <= 9,
                    d <= max,
            {
            }
        }
        value = value * 10 + d;
        assert(all_digits(next)) by {
            assert forall|j: int| 0 <= j < next.len() implies is_digit(#[trigger] next[j]) by {
                if j < pre.len() {
                    assert(next[j] == pre[j]);
                }
            }
        }
        i = i + 1;
    }
    Some(value)
}

// ---------------------------------------------------------------------------
// Lines
// ---------------------------------------------------------------------------

/// A line without its terminator: a trailing `\n`, and then a `\r` just
/// before it, are removed.
pub open spec fn strip_line_end(piece: Seq<char>) -> Seq<char> {
    if piece.len() > 0 && piece.last() == '\n' {
        let l = piece.drop_last();
        if l.len() > 0 && l.last() == '\r' {
            l.drop_last()
        } else {
            l
        }
    } else {
        piece
    }
}

/// Position of the first `\n` in `s` at or after `from`, or `s.len()`.
pub open spec fn next_newline(s: Seq<char>, from: int) -> int
    decreases s.len() - from,
{
    if from >= s.len() || from < 0 {
        s.len() as int
    } else if s[from] == '\n' {
        from
    } else {
        next_newline(s, from + 1)
    }
}

/// The lines of `s` from position `from` on, as `str::lines` yields them:
/// pieces that end with (and include) a `\n`, or the final piece, each with
/// its terminator stripped; an empty final piece is not a line.
pub open spec fn lines_from(s: Seq<char>, from: int) -> Seq<Seq<char>>
    decreases s.len() - from,
{
    if from >= s.len() || from < 0 {
        seq![]
    } else {
        proof {
            lemma_next_newline_bounds(s, from);
        }
        let nl = next_newline(s, from);
        let end = if nl < s.len() {
            nl + 1
        } else {
            nl
        };
        seq![strip_line_end(s.subrange(from, end))] + lines_from(s, end)
    }
}

/// The lines of `s`, as `str::lines` yields them.
pub open spec fn lines(s: Seq<char>) -> Seq<Seq<char>> {
    lines_from(s, 0)
}

pub proof fn lemma_next_newline_bounds(s: Seq<char>, from: int)
    requires
        0 <= from <= s.len(),
    ensures
        from <= next_newline(s, from) <= s.len(),
        next_newline(s, from) < s.len() ==> s[next_newline(s, from)] == '\n',
        forall|j: int| from <= j < next_newline(s, from) ==> s[j] != '\n',
    decreases s.len() - from,
{
    if from < s.len() && s[from] != '\n' {
        lemma_next_newline_bounds(s, from + 1);
    }
}

/// The text made of the lines `ls`, each followed by a `\n`.
pub open spec fn joined(ls: Seq<Seq<char>>) -> Seq<char>
    decreases ls.len(),
{
    if ls.len() == 0 {
        seq![]
    } else {
        joined(ls.drop_last()) + ls.last() + seq!['\n']
    }
}

/// A line that `str::lines` gives back unchanged once a `\n` follows it:
/// it holds no `\n` and does not end in `\r`.
pub open spec fn plain_line(l: Seq<char>) -> bool {
    (forall|j: int| 0 <= j < l.len() ==> l[j] != '\n') && !(l.len() > 0 && l.last() == '\r')
}

pub proof fn lemma_joined_concat(a: Seq<Seq<char>>, b: Seq<Seq<char>>)
    ensures
        joined(a + b) == joined(a) + joined(b),
    decreases b.len(),
{
    if b.len() == 0 {
        assert(a + b =~= a);
        assert(joined(a) + joined(b) =~= joined(a));
    } else {
        assert((a + b).drop_last() =~= a + b.drop_last());
        lemma_joined_concat(a, b.drop_last());
        assert(joined(a + b) =~= joined(a) + joined(b));
    }
}

proof fn lemma_next_newline_prefix(x: Seq<char>, s: Seq<char>, from: int)
    requires
        0 <= from < x.len(),
        x.len() <= s.len(),
        x == s.subrange(0, x.len() as int),
        x.last() == '\n',
    ensures
        next_newline(s, from) == next_newline(x, from),
        next_newline(x, from) < x.len(),
    decreases x.len() - from,
{
    assert(s[from] == x[from]);
    if x[from] != '\n' {
        if from + 1 < x.len() {
            lemma_next_newline_prefix(x, s, from + 1);
        } else {
            assert(x[from] == x.last());
        }
    }
}

/// A line holds no `\n`.
pub open spec fn no_newline(l: Seq<char>) -> bool {
    forall|j: int| 0 <= j < l.len() ==> l[j] != '\n'
}

/// A line without one trailing `\r`, as `str::lines` gives it back.
pub open spec fn without_cr(l: Seq<char>) -> Seq<char> {
    if l.len() > 0 && l.last() == '\r' {
        l.drop_last()
    } else {
        l
    }
}

proof fn lemma_lines_from_append(x: Seq<char>, l: Seq<char>, from: int)
    requires
        no_newline(l),
        x.len() == 0 || x.last() == '\n',
        0 <= from <= x.len(),
        from == 0 || x[from - 1] == '\n',
    ensures
        lines_from(x + l + seq!['\n'], from) == lines_from(x, from) + seq![without_cr(l)],
    decreases x.len() - from,
{
    let s = x + l + seq!['\n'];
    if from == x.len() {
        lemma_next_newline_bounds(s, from);
        assert forall|j: int| from <= j < s.len() - 1 implies s[j] != '\n' by {
            assert(s[j] == l[j - from]);
        }
        if next_newline(s, from) < s.len() - 1 {
            assert(s[next_newline(s, from)] != '\n');
        }
        assert(s[s.len() - 1] == '\n');
        assert(next_newline(s, from) == s.len() - 1);
        let piece = s.subrange(from, s.len() as int);
        assert(piece.drop_last() =~= l);
        assert(strip_line_end(piece) == without_cr(l));
        assert(lines_from(s, s.len() as int) == Seq::<Seq<char>>::empty());
        assert(lines_from(x, from) == Seq::<Seq<char>>::empty());
        assert(lines_from(s, from) =~= seq![without_cr(l)]);
    } else {
        assert(x =~= s.subrange(0, x.len() as int));
        lemma_next_newline_prefix(x, s, from);
        lemma_next_newline_bounds(x, from);
        let nl = next_newline(x, from);
        assert(s.subrange(from, nl + 1) =~= x.subrange(from, nl + 1));
        lemma_lines_from_append(x, l, nl + 1);
        assert(lines_from(s, from) =~= seq![strip_line_end(x.subrange(from, nl + 1))] + lines_from(s, nl + 1));
        assert(lines_from(x, from) =~= seq![strip_line_end(x.subrange(from, nl + 1))] + lines_from(x, nl + 1));
    }
}

/// Splitting joined lines gives each back without one trailing carriage
/// return, when none holds a line break.
pub proof fn lemma_lines_of_joined_cr(ls: Seq<Seq<char>>)
    requires
        forall|i: int| 0 <= i < ls.len() ==> no_newline(#[trigger] ls[i]),
    ensures
        lines(joined(ls)) == ls.map_values(|l: Seq<char>| without_cr(l)),
    decreases ls.len(),
{
    let m = ls.map_values(|l: Seq<char>| without_cr(l));
    if ls.len() == 0 {
        assert(lines(joined(ls)) =~= m);
    } else {
        let init = ls.drop_last();
        assert forall|i: int| 0 <= i < init.len() implies no_newline(#[trigger] init[i]) by {
            assert(init[i] == ls[i]);
        }
        lemma_lines_of_joined_cr(init);
        assert(no_newline(ls[ls.len() - 1]));
        let x = joined(init);
        if init.len() > 0 {
            assert(x.last() == '\n');
        }
        lemma_lines_from_append(x, ls.last(), 0);
        assert(init.map_values(|l: Seq<char>| without_cr(l)) =~= m.drop_last());
        assert(lines(joined(ls)) =~= m);
    }
}

/// Position of the first `\n` at or after `from`, or the length of `s`.
fn find_newline(s: &[char], from: usize) -> (r: usize)
    requires
        from <= s@.len(),
    ensures
        r as int == next_newline(s@, from as int),
{
    let mut i = from;
    while i < s.len() && s[i] != '\n'
        invariant
            from <= i <= s@.len(),
            next_newline(s@, from as int) == next_newline(s@, i as int),
        decreases s.len() - i,
    {
        i = i + 1;
    }
    i
}

/// Removes the line terminator of a piece ending at `end`.
fn strip_end(s: &[char], from: usize, end: usize) -> (r: Vec<char>)
    requires
        from <= end <= s@.len(),
    ensures
        r@ == strip_line_end(s@.subrange(from as int, end as int)),
{
    let piece = slice_chars(s, from, end);
    let mut stop = end;
    if stop > from && s[stop - 1] == '\n' {
        stop = stop - 1;
        if stop > from && s[stop - 1] == '\r' {
            stop = stop - 1;
        }
    }
    let r = slice_chars(s, from, stop);
    proof {
        let p = s@.subrange(from as int, end as int);
        if p.len() > 0 && p.last() == '\n' {
            let l = p.drop_last();
            assert(l =~= s@.subrange(from as int, end - 1));
            if l.len() > 0 && l.last() == '\r' {
                assert(l.drop_last() =~= s@.subrange(from as int, end - 2));
            }
        }
    }
    r
}

/// The lines of `s`, as `str::lines` yields them.
pub fn split_lines(s: &[char]) -> (r: Vec<Vec<char>>)
    ensures
        r@.map_values(|l: Vec<char>| l@) == lines(s@),
{
    let mut out: Vec<Vec<char>> = Vec::new();
    let mut from: usize = 0;
    while from < s.len()
        invariant
            from <= s@.len(),
            out@.map_values(|l: Vec<char>| l@) + lines_from(s@, from as int) == lines(s@),
        decreases s.len() - from,
    {
        let nl = find_newline(s, from);
        proof {
            lemma_next_newline_bounds(s@, from as int);
        }
        let end = if nl < s.len() {
            nl + 1
        } else {
            nl
        };
        let line = strip_end(s, from, end);
        let ghost before = out@.map_values(|l: Vec<char>| l@);
        out.push(line);
        assert(out@.map_values(|l: Vec<char>| l@) =~= before.push(line@));
        assert(lines_from(s@, from as int) == seq![line@] + lines_from(s@, end as int));
        assert(before + lines_from(s@, from as int) =~= before.push(line@) + lines_from(
            s@,
            end as int,
        ));
        from = end;
    }
    assert(out@.map_values(|l: Vec<char>| l@) + lines_from(s@, from as int) =~= out@.map_values(
        |l: Vec<char>| l@,
    ));
    out
}


// ---------------------------------------------------------------------------
// Splitting on a character and trimming repeated prefixes
// ---------------------------------------------------------------------------

/// Position of the first `c` in `s` at or after `from`, or `s.len()`.
pub open spec fn next_char(s: Seq<char>, c: char, from: int) -> int
    decreases s.len() - from,
{
    if from >= s.len() || from < 0 {
        s.len() as int
    } else if s[from] == c {
        from
    } else {
        next_char(s, c, from + 1)
    }
}

pub proof fn lemma_next_char_bounds(s: Seq<char>, c: char, from: int)
    requires
        0 <= from <= s.len(),
    ensures
        from <= next_char(s, c, from) <= s.len(),
        next_char(s, c, from) < s.len() ==> s[next_char(s, c, from)] == c,
    decreases s.len() - from,
{
    if from < s.len() && s[from] != c {
        lemma_next_char_bounds(s, c, from + 1);
    }
}

/// The pieces of `s` from `from` on between occurrences of `c`, as
/// `str::split` with a character pattern yields them.
pub open spec fn split_from(s: Seq<char>, c: char, from: int) -> Seq<Seq<char>>
    decreases s.len() - from,
{
    if from < 0 || from > s.len() {
        seq![]
    } else {
        proof {
            lemma_next_char_bounds(s, c, from);
        }
        let k = next_char(s, c, from);
        if k >= s.len() {
            seq![s.subrange(from, s.len() as int)]
        } else {
            seq![s.subrange(from, k)] + split_from(s, c, k + 1)
        }
    }
}

/// The pieces of `s` between occurrences of `c`, as `str::split` yields them.
pub open spec fn split_char(s: Seq<char>, c: char) -> Seq<Seq<char>> {
    split_from(s, c, 0)
}

/// Position of the first `c` at or after `from`, or the length of `s`.
pub fn find_char(s: &[char], c: char, from: usize) -> (r: usize)
    requires
        from <= s@.len(),
    ensures
        r as int == next_char(s@, c, from as int),
{
    let mut i = from;
    while i < s.len() && s[i] != c
        invariant
            from <= i <= s@.len(),
            next_char(s@, c, from as int) == next_char(s@, c, i as int),
        decreases s.len() - i,
    {
        i = i + 1;
    }
    i
}

/// The pieces of `s` between occurrences of `c`.
pub fn split_on(s: &[char], c: char) -> (r: Vec<Vec<char>>)
    ensures
        r@.map_values(|p: Vec<char>| p@) == split_char(s@, c),
        r@.len() >= 1,
{
    let mut out: Vec<Vec<char>> = Vec::new();
    let mut from: usize = 0;
    loop
        invariant
            from <= s@.len(),
            out@.map_values(|p: Vec<char>| p@) + split_from(s@, c, from as int) == split_char(s@, c),
        decreases s@.len() - from,
    {
        let k = find_char(s, c, from);
        proof {
            lemma_next_char_bounds(s@, c, from as int);
        }
        let piece = slice_chars(s, from, k);
        let ghost before = out@.map_values(|p: Vec<char>| p@);
        out.push(piece);
        assert(out@.map_values(|p: Vec<char>| p@) =~= before.push(piece@));
        if k >= s.len() {
            assert(split_from(s@, c, from as int) == seq![piece@]);
            assert(before + split_from(s@, c, from as int) =~= before.push(piece@));
            return out;
        }
        assert(split_from(s@, c, from as int) == seq![piece@] + split_from(s@, c, k + 1));
        assert(before + split_from(s@, c, from as int) =~= before.push(piece@) + split_from(
            s@,
            c,
            k + 1,
        ));
        from = k + 1;
    }
}

/// `s` with every leading repetition of `p` removed, as
/// `str::trim_start_matches` computes it.
pub open spec fn trim_prefix_all(s: Seq<char>, p: Seq<char>) -> Seq<char>
    decreases s.len(),
{
    if p.len() > 0 && has_prefix(s, p) {
        trim_prefix_all(s.subrange(p.len() as int, s.len() as int), p)
    } else {
        s
    }
}

/// `s` with every leading repetition of `p` removed.
pub fn trim_prefix_repeated(s: &[char], p: &[char]) -> (r: Vec<char>)
    ensures
        r@ == trim_prefix_all(s@, p@),
{
    let mut at: usize = 0;
    if p.len() == 0 {
        return slice_chars(s, 0, s.len());
    }
    let n = s.len();
    assert(s@.subrange(0, n as int) =~= s@);
    while matches_at(s, p, at)
        invariant
            at <= s@.len(),
            s@.len() <= usize::MAX,
            p@.len() > 0,
            trim_prefix_all(s@, p@) == trim_prefix_all(s@.subrange(at as int, s@.len() as int), p@),
        decreases s@.len() - at,
    {
        let ghost rest = s@.subrange(at as int, s@.len() as int);
        assert(rest.subrange(0, p@.len() as int) =~= s@.subrange(at as int, at + p@.len()));
        assert(rest.subrange(p@.len() as int, rest.len() as int) =~= s@.subrange(
            at + p@.len(),
            s@.len() as int,
        ));
        at = at + p.len();
    }
    proof {
        let rest = s@.subrange(at as int, s@.len() as int);
        if has_prefix(rest, p@) {
            assert(rest.subrange(0, p@.len() as int) =~= s@.subrange(at as int, at + p@.len()));
        }
    }
    slice_chars(s, at, s.len())
}


// ---------------------------------------------------------------------------
// Searching sequences of strings
// ---------------------------------------------------------------------------

/// Index of the first entry of `canon` equal to `c`, or `canon.len()`.
pub open spec fn first_match(canon: Seq<Seq<char>>, c: Seq<char>) -> int
    decreases canon.len(),
{
    if canon.len() == 0 {
        0
    } else {
        let k = first_match(canon.drop_last(), c);
        if k < canon.len() - 1 {
            k
        } else if canon.last() == c {
            canon.len() - 1
        } else {
            canon.len() as int
        }
    }
}

pub proof fn lemma_first_match_found(canon: Seq<Seq<char>>, c: Seq<char>)
    ensures
        0 <= first_match(canon, c) <= canon.len(),
        first_match(canon, c) < canon.len() <==> canon.contains(c),
        first_match(canon, c) < canon.len() ==> canon[first_match(canon, c)] == c,
    decreases canon.len(),
{
    if canon.len() > 0 {
        let init = canon.drop_last();
        lemma_first_match_found(init, c);
        if init.contains(c) {
            let k = choose|k: int| 0 <= k < init.len() && init[k] == c;
            assert(canon[k] == c);
        }
        if canon.contains(c) && !init.contains(c) {
            let k = choose|k: int| 0 <= k < canon.len() && canon[k] == c;
            if k < canon.len() - 1 {
                assert(init[k] == c);
            }
        }
        if first_match(canon, c) < canon.len() {
            assert(canon.contains(c));
        }
    }
}

/// Index of the first string of `v` equal to `s`, or `v.len()`.
pub fn first_index_of(v: &Vec<String>, s: &String) -> (r: usize)
    ensures
        r as int == first_match(strings_view(v@), s@),
{
    let ghost sv = strings_view(v@);
    let mut k: usize = 0;
    while k < v.len()
        invariant
            k <= v@.len(),
            sv == strings_view(v@),
            first_match(sv.subrange(0, k as int), s@) == k,
        decreases v.len() - k,
    {
        assert(sv.subrange(0, k + 1).drop_last() =~= sv.subrange(0, k as int));
        if v[k] == *s {
            assert(first_match(sv.subrange(0, k + 1), s@) == k);
            proof {
                lemma_first_match_prefix(sv, s@, k + 1);
            }
            return k;
        }
        k = k + 1;
    }
    assert(sv.subrange(0, k as int) =~= sv);
    k
}

/// Once a match is found in a prefix, it is the first match of the whole.
pub proof fn lemma_first_match_prefix(canon: Seq<Seq<char>>, c: Seq<char>, n: int)
    requires
        0 <= n <= canon.len(),
        first_match(canon.subrange(0, n), c) < n,
    ensures
        first_match(canon, c) == first_match(canon.subrange(0, n), c),
    decreases canon.len() - n,
{
    if n < canon.len() {
        let p = canon.subrange(0, n + 1);
        assert(p.drop_last() =~= canon.subrange(0, n));
        lemma_first_match_prefix(canon, c, n + 1);
    } else {
        assert(canon.subrange(0, n) =~= canon);
    }
}


/// A match at `k` with none before it is the first match.
pub proof fn lemma_first_match_is(canon: Seq<Seq<char>>, c: Seq<char>, k: int)
    requires
        0 <= k <= canon.len(),
        forall|j: int| 0 <= j < k ==> canon[j] != c,
        k < canon.len() ==> canon[k] == c,
    ensures
        first_match(canon, c) == k,
    decreases canon.len(),
{
    if canon.len() > 0 {
        let init = canon.drop_last();
        if k < canon.len() {
            if k < canon.len() - 1 {
                lemma_first_match_is(init, c, k);
            } else {
                lemma_first_match_is(init, c, init.len() as int);
            }
        } else {
            lemma_first_match_is(init, c, init.len() as int);
        }
    }
}

/// No entry before the first match equals the sought one.
pub proof fn lemma_first_match_before(canon: Seq<Seq<char>>, c: Seq<char>, j: int)
    requires
        0 <= j < first_match(canon, c),
    ensures
        canon[j] != c,
    decreases canon.len(),
{
    lemma_first_match_found(canon, c);
    if canon.len() > 0 {
        let init = canon.drop_last();
        lemma_first_match_found(init, c);
        let k = first_match(init, c);
        if k < init.len() {
            lemma_first_match_before(init, c, j);
        } else if j < init.len() {
            if init[j] == c {
                assert(init.contains(c));
            }
        }
    }
}

/// Digits are never empty, and a number at least the base has at least two.
pub proof fn lemma_digits_len(n: nat, b: nat)
    requires
        2 <= b <= 16,
    ensures
        digits(n, b).len() >= 1,
        n >= b ==> digits(n, b).len() >= 2,
    decreases n,
{
    if n >= b {
        assert(n / b < n) by (nonlinear_arith)
            requires
                n >= b,
                b >= 2,
        ;
        lemma_digits_len(n / b, b);
    }
}

proof fn lemma_digit_char_injective(x: nat, y: nat)
    requires
        x < 16,
        y < 16,
        digit_char(x) == digit_char(y),
    ensures
        x == y,
{
    let cx = if x < 10 { 48 + x } else { 87 + x };
    let cy = if y < 10 { 48 + y } else { 87 + y };
    assert(digit_char(x) as int == cx);
    assert(digit_char(y) as int == cy);
}

/// Different numbers have different digits: the rendering in a base is
/// injective.
pub proof fn lemma_digits_injective(x: nat, y: nat, b: nat)
    requires
        2 <= b <= 16,
        digits(x, b) == digits(y, b),
    ensures
        x == y,
    decreases x,
{
    lemma_digits_len(x, b);
    lemma_digits_len(y, b);
    if x < b && y < b {
        assert(digits(x, b) == seq![digit_char(x)]);
        assert(digits(y, b) == seq![digit_char(y)]);
        assert(seq![digit_char(x)][0] == digit_char(x));
        assert(seq![digit_char(y)][0] == digit_char(y));
        lemma_digit_char_injective(x, y);
    } else if x >= b && y >= b {
        let dx = digits(x / b, b);
        let dy = digits(y / b, b);
        assert(digits(x, b) == dx.push(digit_char(x % b)));
        assert(digits(y, b) == dy.push(digit_char(y % b)));
        assert(dx =~= digits(x, b).drop_last());
        assert(dy =~= digits(y, b).drop_last());
        assert(x / b < x) by (nonlinear_arith)
            requires
                x >= b,
                b >= 2,
        ;
        lemma_digits_injective(x / b, y / b, b);
        assert(digits(x, b).last() == digits(y, b).last());
        assert(digits(x, b).last() == digit_char(x % b));
        assert(digits(y, b).last() == digit_char(y % b));
        lemma_digit_char_injective(x % b, y % b);
        assert(x == b * (x / b) + x % b) by (nonlinear_arith)
            requires
                b >= 2,
        ;
        assert(y == b * (y / b) + y % b) by (nonlinear_arith)
            requires
                b >= 2,
        ;
    } else {
        assert(digits(x, b).len() != digits(y, b).len());
    }
}

/// The decimal rendering of naturals is injective, also behind a common
/// prefix.
pub proof fn lemma_prefixed_decimal_injective(p: Seq<char>, x: nat, y: nat)
    requires
        p + decimal(x as int) == p + decimal(y as int),
    ensures
        x == y,
{
    let a = p + decimal(x as int);
    let b = p + decimal(y as int);
    assert(decimal(x as int) =~= a.subrange(p.len() as int, a.len() as int));
    assert(decimal(y as int) =~= b.subrange(p.len() as int, b.len() as int));
    lemma_digits_injective(x, y, 10);
}


// ---------------------------------------------------------------------------
// Lexicographic order
// ---------------------------------------------------------------------------

/// `a` comes no later than `b` when compared character by character, a
/// proper prefix first; this is how `str` orders strings.
pub open spec fn lex_le(a: Seq<char>, b: Seq<char>) -> bool
    decreases a.len(),
{
    if a.len() == 0 {
        true
    } else if b.len() == 0 {
        false
    } else if a[0] != b[0] {
        (a[0] as int) < (b[0] as int)
    } else {
        lex_le(a.drop_first(), b.drop_first())
    }
}

/// Any two strings are ordered one way or the other.
pub proof fn lemma_lex_total(a: Seq<char>, b: Seq<char>)
    ensures
        lex_le(a, b) || lex_le(b, a),
    decreases a.len(),
{
    if a.len() > 0 && b.len() > 0 && a[0] == b[0] {
        lemma_lex_total(a.drop_first(), b.drop_first());
    }
}

/// The order is transitive.
pub proof fn lemma_lex_trans(a: Seq<char>, b: Seq<char>, c: Seq<char>)
    requires
        lex_le(a, b),
        lex_le(b, c),
    ensures
        lex_le(a, c),
    decreases a.len(),
{
    if a.len() > 0 && b.len() > 0 && c.len() > 0 && a[0] == b[0] && b[0] == c[0] {
        lemma_lex_trans(a.drop_first(), b.drop_first(), c.drop_first());
    }
}

/// Two strings each ordered before the other are equal.
pub proof fn lemma_lex_antisym(a: Seq<char>, b: Seq<char>)
    requires
        lex_le(a, b),
        lex_le(b, a),
    ensures
        a == b,
    decreases a.len(),
{
    if a.len() > 0 && b.len() > 0 {
        lemma_lex_antisym(a.drop_first(), b.drop_first());
        assert(a =~= seq![a[0]] + a.drop_first());
        assert(b =~= seq![b[0]] + b.drop_first());
    }
}

proof fn lemma_lex_skip(a: Seq<char>, b: Seq<char>, i: int)
    requires
        0 <= i <= a.len(),
        i <= b.len(),
        a.take(i) == b.take(i),
    ensures
        lex_le(a, b) == lex_le(a.skip(i), b.skip(i)),
    decreases i,
{
    if i > 0 {
        assert(a[0] == a.take(i)[0]);
        assert(b[0] == b.take(i)[0]);
        assert(a.drop_first().take(i - 1) =~= a.take(i).drop_first());
        assert(b.drop_first().take(i - 1) =~= b.take(i).drop_first());
        lemma_lex_skip(a.drop_first(), b.drop_first(), i - 1);
        assert(a.drop_first().skip(i - 1) =~= a.skip(i));
        assert(b.drop_first().skip(i - 1) =~= b.skip(i));
    } else {
        assert(a.skip(0) =~= a);
        assert(b.skip(0) =~= b);
    }
}

/// Whether `a` comes no later than `b`.
pub fn str_lex_le(a: &str, b: &str) -> (r: bool)
    ensures
        r == lex_le(a@, b@),
{
    let x = chars_of(a);
    let y = chars_of(b);
    let mut i: usize = 0;
    while i < x.len() && i < y.len() && x[i] == y[i]
        invariant
            i <= x@.len(),
            i <= y@.len(),
            x@.take(i as int) == y@.take(i as int),
        decreases x.len() - i,
    {
        assert(x@.take(i + 1) =~= x@.take(i as int).push(x@[i as int]));
        assert(y@.take(i + 1) =~= y@.take(i as int).push(y@[i as int]));
        i = i + 1;
    }
    proof {
        lemma_lex_skip(x@, y@, i as int);
    }
    if i == x.len() {
        true
    } else if i == y.len() {
        false
    } else {
        let cx = x[i];
        let cy = y[i];
        assert(x@.skip(i as int)[0] == cx);
        assert(y@.skip(i as int)[0] == cy);
        assert(cx != cy);
        cx < cy
    }
}


// ---------------------------------------------------------------------------
// Whitespace
// ---------------------------------------------------------------------------

/// `c` has the Unicode `White_Space` property, which is what
/// `char::is_whitespace` tests.
pub open spec fn is_white(c: char) -> bool {
    let n = c as int;
    (0x9 <= n <= 0xD) || n == 0x20 || n == 0x85 || n == 0xA0 || n == 0x1680 || (0x2000 <= n
        <= 0x200A) || n == 0x2028 || n == 0x2029 || n == 0x202F || n == 0x205F || n == 0x3000
}

/// Whether `c` is Unicode whitespace.
pub fn white(c: char) -> (r: bool)
    ensures
        r == is_white(c),
{
    ('\u{9}' <= c && c <= '\u{D}') || c == ' ' || c == '\u{85}' || c == '\u{A0}' || c
        == '\u{1680}' || ('\u{2000}' <= c && c <= '\u{200A}') || c == '\u{2028}' || c
        == '\u{2029}' || c == '\u{202F}' || c == '\u{205F}' || c == '\u{3000}'
}

/// `s` without its leading whitespace.
pub open spec fn trim_start(s: Seq<char>) -> Seq<char>
    decreases s.len(),
{
    if s.len() > 0 && is_white(s[0]) {
        trim_start(s.drop_first())
    } else {
        s
    }
}

/// `s` without its trailing whitespace.
pub open spec fn trim_end(s: Seq<char>) -> Seq<char>
    decreases s.len(),
{
    if s.len() > 0 && is_white(s.last()) {
        trim_end(s.drop_last())
    } else {
        s
    }
}

/// `s` without leading and trailing whitespace, as `str::trim` gives it.
pub open spec fn trim(s: Seq<char>) -> Seq<char> {
    trim_end(trim_start(s))
}

proof fn lemma_trim_start_from(s: Seq<char>, i: int)
    requires
        0 <= i <= s.len(),
        forall|j: int| 0 <= j < i ==> is_white(s[j]),
    ensures
        trim_start(s) == trim_start(s.subrange(i, s.len() as int)),
    decreases i,
{
    if i > 0 {
        assert(s.drop_first().subrange(i - 1, s.drop_first().len() as int) =~= s.subrange(
            i,
            s.len() as int,
        ));
        lemma_trim_start_from(s.drop_first(), i - 1);
    } else {
        assert(s.subrange(0, s.len() as int) =~= s);
    }
}

proof fn lemma_trim_end_to(s: Seq<char>, k: int)
    requires
        0 <= k <= s.len(),
        forall|j: int| k <= j < s.len() ==> is_white(s[j]),
    ensures
        trim_end(s) == trim_end(s.subrange(0, k)),
    decreases s.len() - k,
{
    if k < s.len() {
        assert(s.drop_last().subrange(0, k) =~= s.subrange(0, k));
        lemma_trim_end_to(s.drop_last(), k);
    } else {
        assert(s.subrange(0, k) =~= s);
    }
}

/// `s` without leading and trailing whitespace.
pub fn trim_chars(s: &[char]) -> (r: Vec<char>)
    ensures
        r@ == trim(s@),
{
    let mut i: usize = 0;
    while i < s.len() && white(s[i])
        invariant
            i <= s@.len(),
            forall|j: int| 0 <= j < i ==> is_white(s@[j]),
        decreases s.len() - i,
    {
        i = i + 1;
    }
    proof {
        lemma_trim_start_from(s@, i as int);
    }
    let ghost t = s@.subrange(i as int, s@.len() as int);
    assert(trim_start(t) == t);
    let mut k: usize = s.len();
    while k > i && white(s[k - 1])
        invariant
            i <= k <= s@.len(),
            t == s@.subrange(i as int, s@.len() as int),
            forall|j: int| k - i <= j < t.len() ==> is_white(t[j]),
        decreases k,
    {
        k = k - 1;
    }
    proof {
        lemma_trim_end_to(t, k - i);
        let u = t.subrange(0, k - i);
        if u.len() > 0 {
            assert(u.last() == s@[k - 1]);
        }
        assert(trim_end(u) == u);
    }
    slice_chars(s, i, k)
}


/// `s` without leading and trailing whitespace.
pub fn trim_text(s: &str) -> (r: String)
    ensures
        r@ == trim(s@),
{
    let cs = chars_of(s);
    let t = trim_chars(cs.as_slice());
    string_of(t.as_slice())
}


// ---------------------------------------------------------------------------
// Forms of camel-case identifiers
// ---------------------------------------------------------------------------

pub open spec fn is_upper(c: char) -> bool {
    'A' <= c <= 'Z'
}

/// `c` with an ASCII capital letter made small.
pub open spec fn lower(c: char) -> char {
    if is_upper(c) {
        ((c as int) + 32) as char
    } else {
        c
    }
}

/// The kebab-case form of a camel-case identifier: letters made small, and
/// a hyphen before each capital that starts a later word (`OpenFile` gives
/// `open-file`).
pub open spec fn kebab_case(s: Seq<char>) -> Seq<char>
    decreases s.len(),
{
    if s.len() == 0 {
        seq![]
    } else if is_upper(s.last()) && s.len() > 1 {
        kebab_case(s.drop_last()) + seq!['-', lower(s.last())]
    } else {
        kebab_case(s.drop_last()).push(lower(s.last()))
    }
}

/// The words of a camel-case identifier separated by spaces (`OpenFile`
/// gives `Open File`).
pub open spec fn spaced_words(s: Seq<char>) -> Seq<char>
    decreases s.len(),
{
    if s.len() == 0 {
        seq![]
    } else if is_upper(s.last()) && s.len() > 1 {
        spaced_words(s.drop_last()) + seq![' ', s.last()]
    } else {
        spaced_words(s.drop_last()).push(s.last())
    }
}

/// Where the first word of a camel-case identifier ends.
pub open spec fn first_word_end(s: Seq<char>) -> int
    decreases s.len(),
{
    if s.len() <= 1 {
        s.len() as int
    } else {
        let k = first_word_end(s.drop_last());
        if k < s.len() - 1 {
            k
        } else if is_upper(s.last()) {
            s.len() - 1
        } else {
            s.len() as int
        }
    }
}

/// The first word of a camel-case identifier (`OpenFile` gives `Open`).
pub open spec fn first_word(s: Seq<char>) -> Seq<char> {
    s.take(first_word_end(s))
}

fn lower_exec(c: char) -> (r: char)
    ensures
        r == lower(c),
{
    if 'A' <= c && c <= 'Z' {
        ((c as u8) + 32) as char
    } else {
        c
    }
}

/// The kebab-case form of a camel-case identifier.
pub fn to_kebab_case(s: &str) -> (r: String)
    ensures
        r@ == kebab_case(s@),
{
    let cs = chars_of(s);
    let mut out: Vec<char> = Vec::new();
    let mut i: usize = 0;
    while i < cs.len()
        invariant
            i <= cs@.len(),
            out@ == kebab_case(cs@.take(i as int)),
        decreases cs.len() - i,
    {
        let c = cs[i];
        assert(cs@.take(i + 1).drop_last() =~= cs@.take(i as int));
        if 'A' <= c && c <= 'Z' && i > 0 {
            out.push('-');
        }
        out.push(lower_exec(c));
        assert(out@ =~= kebab_case(cs@.take(i + 1)));
        i = i + 1;
    }
    assert(cs@.take(i as int) =~= cs@);
    string_of(out.as_slice())
}

/// The words of a camel-case identifier separated by spaces.
pub fn to_spaced_words(s: &str) -> (r: String)
    ensures
        r@ == spaced_words(s@),
{
    let cs = chars_of(s);
    let mut out: Vec<char> = Vec::new();
    let mut i: usize = 0;
    while i < cs.len()
        invariant
            i <= cs@.len(),
            out@ == spaced_words(cs@.take(i as int)),
        decreases cs.len() - i,
    {
        let c = cs[i];
        assert(cs@.take(i + 1).drop_last() =~= cs@.take(i as int));
        if 'A' <= c && c <= 'Z' && i > 0 {
            out.push(' ');
        }
        out.push(c);
        assert(out@ =~= spaced_words(cs@.take(i + 1)));
        i = i + 1;
    }
    assert(cs@.take(i as int) =~= cs@);
    string_of(out.as_slice())
}

proof fn lemma_first_word_end(s: Seq<char>, k: int)
    requires
        0 <= k <= s.len(),
        s.len() > 0 ==> k >= 1,
        forall|j: int| 1 <= j < k ==> !is_upper(#[trigger] s[j]),
        k < s.len() ==> is_upper(s[k]),
    ensures
        first_word_end(s) == k,
    decreases s.len(),
{
    if s.len() > 1 {
        let init = s.drop_last();
        if k < s.len() - 1 {
            lemma_first_word_end(init, k);
        } else {
            lemma_first_word_end(init, init.len() as int);
        }
    }
}

/// The first word of a camel-case identifier, in kebab-case.
pub fn first_word_kebab(s: &str) -> (r: String)
    ensures
        r@ == kebab_case(first_word(s@)),
{
    let cs = chars_of(s);
    let mut k: usize = if cs.len() == 0 {
        0
    } else {
        1
    };
    while k < cs.len() && !('A' <= cs[k] && cs[k] <= 'Z')
        invariant
            k <= cs@.len(),
            cs@.len() > 0 ==> k >= 1,
            forall|j: int| 1 <= j < k ==> !is_upper(#[trigger] cs@[j]),
        decreases cs.len() - k,
    {
        k = k + 1;
    }
    proof {
        lemma_first_word_end(cs@, k as int);
    }
    let w = slice_chars(cs.as_slice(), 0, k);
    let t = string_of(w.as_slice());
    assert(t@ =~= first_word(s@));
    to_kebab_case(t.as_str())
}


/// The first `n` bytes of `b`.
pub fn take_bytes(b: &[u8], n: usize) -> (r: Vec<u8>)
    requires
        n <= b@.len(),
    ensures
        r@ == b@.take(n as int),
{
    byte_range(b, 0, n)
}

/// The bytes of `b` from `from` up to `to`.
pub fn byte_range(b: &[u8], from: usize, to: usize) -> (r: Vec<u8>)
    requires
        from <= to <= b@.len(),
    ensures
        r@ == b@.subrange(from as int, to as int),
{
    let mut out: Vec<u8> = Vec::new();
    let mut i = from;
    while i < to
        invariant
            from <= i <= to,
            to <= b@.len(),
            out@ == b@.subrange(from as int, i as int),
        decreases to - i,
    {
        out.push(b[i]);
        assert(b@.subrange(from as int, i + 1) =~= b@.subrange(from as int, i as int).push(b@[i as int]));
        i = i + 1;
    }
    out
}

} // verus!

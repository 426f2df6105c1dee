//! The `Content-Length` framing of messages exchanged with language
//! servers: a header of `Key: value` lines ending with an empty line, then
//! exactly as many body bytes as the header announces.

use crate::language_servers::MAX_MESSAGE;
use crate::text::{
    all_digits, chars_of, digits_value, find_char, is_digit, lemma_digits_value_monotone,
    lemma_next_char_bounds, lower, next_char, owned, slice_chars, trim, trim_chars,
};
use vstd::prelude::*;

verus! {

/// The text a byte string decodes to as UTF-8, or the message of the
/// decoding error (`invalid utf-8 sequence of 1 bytes from index 3`, ...).
pub uninterp spec fn utf8_decoded(bytes: Seq<u8>) -> Result<Seq<char>, Seq<char>>;

/// `std::str::from_utf8`, owned on success and with the error written out
/// with `to_string` on failure. A function of the bytes alone, named by
/// `utf8_decoded`.
#[verifier::external_body]
fn decode_utf8(bytes: &[u8]) -> (r: Result<String, String>)
    ensures
        match utf8_decoded(bytes@) {
            Ok(t) => r matches Ok(s) && s@ == t,
            Err(m) => r matches Err(e) && e@ == m,
        },
{
    match std::str::from_utf8(bytes) {
        Ok(s) => Ok(s.to_owned()),
        Err(e) => Err(e.to_string()),
    }
}

/// The largest header, in bytes, a frame may have.
pub const MAX_HEADER: usize = 8192;

/// Why an unsigned number failed to parse.
#[derive(Debug, Clone, Copy, PartialEq, Eq, Structural)]
pub enum IntParseError {
    Empty,
    InvalidDigit,
    PosOverflow,
}

/// The message of a parse error, as `Display` writes it.
pub open spec fn int_error_text(e: IntParseError) -> Seq<char> {
    match e {
        IntParseError::Empty => "cannot parse integer from empty string"@,
        IntParseError::InvalidDigit => "invalid digit found in string"@,
        IntParseError::PosOverflow => "number too large to fit in target type"@,
    }
}

/// The position of the first character that is not a decimal digit, or the
/// length.
pub open spec fn first_non_digit(s: Seq<char>) -> int
    decreases s.len(),
{
    if s.len() == 0 {
        0
    } else {
        let k = first_non_digit(s.drop_last());
        if k < s.len() - 1 {
            k
        } else if is_digit(s.last()) {
            s.len() as int
        } else {
            s.len() - 1
        }
    }
}

/// What `str::parse` gives for an unsigned type whose largest value is
/// `max`: an error for an empty text or a lone `+`; otherwise the digits
/// after an optional `+` are read from the left, and the first digit that
/// takes the value past `max` overflows, while a character that is no digit
/// before that point is invalid.
pub open spec fn parse_with_error(s: Seq<char>, max: nat) -> Result<nat, IntParseError> {
    if s.len() == 0 {
        Err(IntParseError::Empty)
    } else {
        let body = if s[0] == '+' {
            s.drop_first()
        } else {
            s
        };
        let k = first_non_digit(body);
        if body.len() == 0 {
            Err(IntParseError::InvalidDigit)
        } else if digits_value(body.take(k)) > max {
            Err(IntParseError::PosOverflow)
        } else if k < body.len() {
            Err(IntParseError::InvalidDigit)
        } else {
            Ok(digits_value(body))
        }
    }
}

proof fn lemma_first_non_digit(s: Seq<char>, k: int)
    requires
        0 <= k <= s.len(),
        all_digits(s.take(k)),
        k < s.len() ==> !is_digit(s[k]),
    ensures
        first_non_digit(s) == k,
    decreases s.len(),
{
    if s.len() > 0 {
        let init = s.drop_last();
        if k < s.len() {
            if k < s.len() - 1 {
                assert(init.take(k) =~= s.take(k));
                lemma_first_non_digit(init, k);
            } else {
                assert(init.take(k) =~= s.take(k));
                assert(init =~= init.take(init.len() as int));
                lemma_first_non_digit(init, init.len() as int);
            }
        } else {
            assert(init.take(init.len() as int) =~= init);
            assert forall|j: int| 0 <= j < init.len() implies is_digit(#[trigger] init[j]) by {
                assert(s.take(k)[j] == init[j]);
            }
            assert(all_digits(init.take(init.len() as int)));
            lemma_first_non_digit(init, init.len() as int);
            assert(s.take(k)[s.len() - 1] == s.last());
        }
    }
}

/// Parses `s` as an unsigned number not above `max`, with the reason when
/// it is none.
pub fn parse_unsigned_checked(s: &[char], max: u64) -> (r: Result<u64, IntParseError>)
    ensures
        match parse_with_error(s@, max as nat) {
            Ok(v) => r matches Ok(x) && x as nat == v,
            Err(e) => r == Err::<u64, IntParseError>(e),
        },
        r matches Ok(x) ==> x <= max,
{
    if s.len() == 0 {
        return Err(IntParseError::Empty);
    }
    let start: usize = if s[0] == '+' {
        1
    } else {
        0
    };
    let ghost body = if s@[0] == '+' {
        s@.drop_first()
    } else {
        s@
    };
    assert(body =~= s@.subrange(start as int, s@.len() as int));
    if start == s.len() {
        return Err(IntParseError::InvalidDigit);
    }
    let mut value: u64 = 0;
    let mut i = start;
    while i < s.len()
        invariant
            1 <= s@.len(),
            start <= i <= s@.len(),
            start == 0 || start == 1,
            body == s@.subrange(start as int, s@.len() as int),
            body == (if s@[0] == '+' {
                s@.drop_first()
            } else {
                s@
            }),
            body.len() > 0,
            value as nat == digits_value(body.take(i - start)),
            value <= max,
            all_digits(body.take(i - start)),
        decreases s.len() - i,
    {
        let c = s[i];
        let ghost j = i - start;
        let ghost pre = body.take(j);
        let ghost next = body.take(j + 1);
        assert(next.drop_last() =~= pre);
        assert(body[j] == c);
        if !('0' <= c && c <= '9') {
            proof {
                lemma_first_non_digit(body, j);
            }
            return Err(IntParseError::InvalidDigit);
        }
        let d = (c as u64) - 48;
        assert(digits_value(next) == digits_value(pre) * 10 + d);
        if d > max || value > (max - d) / 10 {
            proof {
                if d <= max {
                    assert(value * 10 + d > max) by (nonlinear_arith)
                        requires
                            value > (max - d) / 10,
                            d <= max,
                    {
                    }
                }
                assert(digits_value(next) > max);
                assert forall|t: int| 0 <= t < j + 1 implies is_digit(#[trigger] next[t]) by {
                    if t < j {
                        assert(next[t] == pre[t]);
                    }
                }
                lemma_parse_overflow(body, j + 1, max as nat);
            }
            return Err(IntParseError::PosOverflow);
        }
        proof {
            assert(value * 10 + d <= max) by (nonlinear_arith)
                requires
                    value <= (max - d) / 10,
                    d <= 9,
                    d <= max,
            {
            }
            assert forall|t: int| 0 <= t < j + 1 implies is_digit(#[trigger] next[t]) by {
                if t < j {
                    assert(next[t] == pre[t]);
                }
            }
        }
        value = value * 10 + d;
        i = i + 1;
    }
    proof {
        assert(body.take(body.len() as int) =~= body);
        lemma_first_non_digit(body, body.len() as int);
    }
    Ok(value)
}

/// A prefix of digits whose value passes `max` makes the whole parse
/// overflow, whatever follows it.
proof fn lemma_parse_overflow(body: Seq<char>, n: int, max: nat)
    requires
        1 <= n <= body.len(),
        all_digits(body.take(n)),
        digits_value(body.take(n)) > max,
    ensures
        digits_value(body.take(first_non_digit(body))) > max,
        first_non_digit(body) >= n,
    decreases body.len(),
{
    lemma_first_non_digit_at_least(body, n);
    let k = first_non_digit(body);
    lemma_first_non_digit_prefix_digits(body);
    lemma_digits_value_monotone(body.take(k), n);
    assert(body.take(k).take(n) =~= body.take(n));
    assert(body.take(k).subrange(0, n) =~= body.take(n));
}

proof fn lemma_first_non_digit_bounds(s: Seq<char>)
    ensures
        0 <= first_non_digit(s) <= s.len(),
    decreases s.len(),
{
    if s.len() > 0 {
        lemma_first_non_digit_bounds(s.drop_last());
    }
}

proof fn lemma_first_non_digit_prefix_digits(s: Seq<char>)
    ensures
        all_digits(s.take(first_non_digit(s))),
        first_non_digit(s) < s.len() ==> !is_digit(s[first_non_digit(s)]),
    decreases s.len(),
{
    lemma_first_non_digit_bounds(s);
    if s.len() > 0 {
        let init = s.drop_last();
        lemma_first_non_digit_prefix_digits(init);
        lemma_first_non_digit_bounds(init);
        let k = first_non_digit(init);
        if k < init.len() {
            assert(s.take(k) =~= init.take(k));
            assert(s[k] == init[k]);
        } else {
            assert forall|j: int| 0 <= j < first_non_digit(s) implies is_digit(
                #[trigger] s.take(first_non_digit(s))[j],
            ) by {
                if j < init.len() {
                    assert(s.take(first_non_digit(s))[j] == init.take(k)[j]);
                }
            }
        }
    }
}

proof fn lemma_first_non_digit_at_least(s: Seq<char>, n: int)
    requires
        0 <= n <= s.len(),
        all_digits(s.take(n)),
    ensures
        first_non_digit(s) >= n,
    decreases s.len(),
{
    lemma_first_non_digit_bounds(s);
    lemma_first_non_digit_prefix_digits(s);
    let k = first_non_digit(s);
    if k < n {
        assert(s.take(n)[k] == s[k]);
    }
}


/// The position of the first `\r\n` at or after `from`, or the length.
pub open spec fn next_crlf(s: Seq<char>, from: int) -> int
    decreases s.len() - from,
{
    if from < 0 || from + 1 >= s.len() {
        s.len() as int
    } else if s[from] == '\r' && s[from + 1] == '\n' {
        from
    } else {
        next_crlf(s, from + 1)
    }
}

pub proof fn lemma_next_crlf_bounds(s: Seq<char>, from: int)
    requires
        0 <= from <= s.len(),
    ensures
        from <= next_crlf(s, from) <= s.len(),
        next_crlf(s, from) < s.len() ==> next_crlf(s, from) + 1 < s.len() && s[next_crlf(s, from)]
            == '\r' && s[next_crlf(s, from) + 1] == '\n',
    decreases s.len() - from,
{
    if from + 1 < s.len() && !(s[from] == '\r' && s[from + 1] == '\n') {
        lemma_next_crlf_bounds(s, from + 1);
    }
}

/// The lines of `s` from `from` on, as `str::split("\r\n")` yields them.
pub open spec fn crlf_lines_from(s: Seq<char>, from: int) -> Seq<Seq<char>>
    decreases s.len() - from,
{
    if from < 0 || from > s.len() {
        seq![]
    } else {
        proof {
            lemma_next_crlf_bounds(s, from);
        }
        let k = next_crlf(s, from);
        if k >= s.len() {
            seq![s.subrange(from, s.len() as int)]
        } else {
            seq![s.subrange(from, k)] + crlf_lines_from(s, k + 2)
        }
    }
}

/// `a` and `b` are equal once ASCII capitals are made small, as
/// `str::eq_ignore_ascii_case` decides.
pub open spec fn ascii_eq_ignore_case(a: Seq<char>, b: Seq<char>) -> bool {
    a.len() == b.len() && forall|i: int| 0 <= i < a.len() ==> lower(#[trigger] a[i]) == lower(b[i])
}

/// The length announced so far, after one more header line: a
/// `Content-Length` line, whatever the case of its key, gives the length
/// its trimmed value parses to, and may appear only once.
pub open spec fn header_step(acc: Result<Option<nat>, Seq<char>>, line: Seq<char>) -> Result<
    Option<nat>,
    Seq<char>,
> {
    match acc {
        Err(e) => Err(e),
        Ok(found) => {
            let i = next_char(line, ':', 0);
            if i < line.len() && ascii_eq_ignore_case(line.subrange(0, i), "Content-Length"@) {
                if found is Some {
                    Err("Duplicate Content-Length"@)
                } else {
                    match parse_with_error(
                        trim(line.subrange(i + 1, line.len() as int)),
                        usize::MAX as nat,
                    ) {
                        Ok(n) => Ok(Some(n)),
                        Err(e) => Err(int_error_text(e)),
                    }
                }
            } else {
                Ok(found)
            }
        },
    }
}

/// The length announced by a sequence of header lines, if any.
pub open spec fn scan_header(ls: Seq<Seq<char>>) -> Result<Option<nat>, Seq<char>>
    decreases ls.len(),
{
    if ls.len() == 0 {
        Ok(None)
    } else {
        header_step(scan_header(ls.drop_last()), ls.last())
    }
}

/// The body length a frame header announces, or why it announces none.
pub open spec fn frame_length(header: Seq<u8>) -> Result<nat, Seq<char>> {
    match utf8_decoded(header) {
        Err(m) => Err(m),
        Ok(text) => match scan_header(crlf_lines_from(text, 0)) {
            Err(e) => Err(e),
            Ok(None) => Err("Missing Content-Length"@),
            Ok(Some(n)) => if n > MAX_MESSAGE {
                Err("Language server message too large"@)
            } else {
                Ok(n)
            },
        },
    }
}

fn ascii_eq_ignore_case_exec(a: &[char], b: &str) -> (r: bool)
    ensures
        r == ascii_eq_ignore_case(a@, b@),
{
    let bc = chars_of(b);
    if a.len() != bc.len() {
        return false;
    }
    let mut i: usize = 0;
    while i < a.len()
        invariant
            i <= a@.len(),
            a@.len() == bc@.len(),
            bc@ == b@,
            forall|j: int| 0 <= j < i ==> lower(#[trigger] a@[j]) == lower(bc@[j]),
        decreases a.len() - i,
    {
        let x = a[i];
        let y = bc[i];
        let lx = if 'A' <= x && x <= 'Z' {
            ((x as u8) + 32) as char
        } else {
            x
        };
        let ly = if 'A' <= y && y <= 'Z' {
            ((y as u8) + 32) as char
        } else {
            y
        };
        assert(lx == lower(x) && ly == lower(y));
        if lx != ly {
            return false;
        }
        i = i + 1;
    }
    true
}

fn find_crlf(s: &[char], from: usize) -> (r: usize)
    requires
        from <= s@.len(),
    ensures
        r as int == next_crlf(s@, from as int),
{
    let mut i = from;
    while i < s.len() && i + 1 < s.len() && !(s[i] == '\r' && s[i + 1] == '\n')
        invariant
            from <= i <= s@.len(),
            next_crlf(s@, from as int) == next_crlf(s@, i as int),
        decreases s.len() - i,
    {
        i = i + 1;
    }
    if i < s.len() && i + 1 < s.len() {
        i
    } else {
        s.len()
    }
}

fn step_exec(found: Option<usize>, line: &[char]) -> (r: Result<Option<usize>, String>)
    ensures
        match header_step(
            Ok(
                match found {
                    Some(n) => Some(n as nat),
                    None => None,
                },
            ),
            line@,
        ) {
            Ok(Some(n)) => r matches Ok(Some(x)) && x as nat == n,
            Ok(None) => r matches Ok(None),
            Err(e) => r matches Err(m) && m@ == e,
        },
{
    let i = find_char(line, ':', 0);
    proof {
        lemma_next_char_bounds(line@, ':', 0);
    }
    if i < line.len() {
        let key = slice_chars(line, 0, i);
        if ascii_eq_ignore_case_exec(key.as_slice(), "Content-Length") {
            if found.is_some() {
                return Err(owned("Duplicate Content-Length"));
            }
            let value = slice_chars(line, i + 1, line.len());
            let t = trim_chars(value.as_slice());
            return match parse_unsigned_checked(t.as_slice(), usize::MAX as u64) {
                Ok(n) => Ok(Some(n as usize)),
                Err(e) => Err(
                    match e {
                        IntParseError::Empty => owned("cannot parse integer from empty string"),
                        IntParseError::InvalidDigit => owned("invalid digit found in string"),
                        IntParseError::PosOverflow => owned("number too large to fit in target type"),
                    },
                ),
            };
        }
    }
    Ok(found)
}

/// The body length the frame header `header` announces: the value of its
/// one `Content-Length` line, at most `MAX_MESSAGE`; otherwise why not.
pub fn content_length(header: &[u8]) -> (r: Result<usize, String>)
    ensures
        match frame_length(header@) {
            Ok(n) => r matches Ok(x) && x as nat == n,
            Err(e) => r matches Err(m) && m@ == e,
        },
{
    let text = match decode_utf8(header) {
        Ok(t) => t,
        Err(e) => {
            return Err(e);
        },
    };
    let cs = chars_of(text.as_str());
    let ghost t = cs@;
    let mut found: Option<usize> = None;
    let mut from: usize = 0;
    let ghost mut done: Seq<Seq<char>> = seq![];
    loop
        invariant_except_break
            0 <= from <= t.len(),
            crlf_lines_from(t, 0) == done + crlf_lines_from(t, from as int),
        invariant
            t == cs@,
            scan_header(done) == Ok::<Option<nat>, Seq<char>>(
                match found {
                    Some(n) => Some(n as nat),
                    None => None,
                },
            ),
            utf8_decoded(header@) == Ok::<Seq<char>, Seq<char>>(t),
        ensures
            crlf_lines_from(t, 0) == done,
        decreases t.len() - from,
    {
        proof {
            lemma_next_crlf_bounds(t, from as int);
        }
        let k = find_crlf(cs.as_slice(), from);
        let line = slice_chars(cs.as_slice(), from, k);
        let ghost lv = line@;
        let step = step_exec(found, line.as_slice());
        proof {
            assert(done.push(lv).drop_last() =~= done);
            assert(scan_header(done.push(lv)) == header_step(scan_header(done), lv));
        }
        match step {
            Err(e) => {
                proof {
                    let rest = if k < t.len() {
                        crlf_lines_from(t, k + 2)
                    } else {
                        seq![]
                    };
                    if k < t.len() {
                        assert(crlf_lines_from(t, from as int) =~= seq![lv] + rest);
                    } else {
                        assert(crlf_lines_from(t, from as int) =~= seq![lv] + rest);
                    }
                    assert(crlf_lines_from(t, 0) =~= done.push(lv) + rest);
                    lemma_scan_error_sticks(done.push(lv), rest);
                }
                return Err(e);
            },
            Ok(f) => {
                found = f;
            },
        }
        if k == cs.len() {
            proof {
                assert(crlf_lines_from(t, from as int) == seq![lv]);
                done = done.push(lv);
                assert(crlf_lines_from(t, 0) =~= done);
            }
            break;
        }
        proof {
            assert(crlf_lines_from(t, from as int) =~= seq![lv] + crlf_lines_from(t, k + 2));
            assert(done + crlf_lines_from(t, from as int) =~= done.push(lv) + crlf_lines_from(t, k + 2));
            done = done.push(lv);
        }
        from = k + 2;
    }
    match found {
        None => Err(owned("Missing Content-Length")),
        Some(n) => if n > MAX_MESSAGE {
            Err(owned("Language server message too large"))
        } else {
            Ok(n)
        },
    }
}

proof fn lemma_scan_error_sticks(a: Seq<Seq<char>>, b: Seq<Seq<char>>)
    requires
        scan_header(a) is Err,
    ensures
        scan_header(a + b) == scan_header(a),
    decreases b.len(),
{
    if b.len() > 0 {
        lemma_scan_error_sticks(a, b.drop_last());
        assert((a + b).drop_last() =~= a + b.drop_last());
    } else {
        assert(a + b =~= a);
    }
}



/// The header read so far ends with the empty line that closes it.
pub open spec fn ends_with_blank_line(h: Seq<u8>) -> bool {
    h.len() >= 4 && h.subrange(h.len() - 4, h.len() as int) == seq![13u8, 10u8, 13u8, 10u8]
}

/// Whether the header read so far is complete.
pub fn header_complete(header: &[u8]) -> (r: bool)
    ensures
        r == ends_with_blank_line(header@),
{
    let n = header.len();
    if n < 4 {
        return false;
    }
    let r = header[n - 4] == 13 && header[n - 3] == 10 && header[n - 2] == 13 && header[n - 1] == 10;
    proof {
        let tail = header@.subrange(n - 4, n as int);
        if r {
            assert(tail =~= seq![13u8, 10u8, 13u8, 10u8]);
        } else {
            if tail == seq![13u8, 10u8, 13u8, 10u8] {
                assert(tail[0] == header@[n - 4]);
                assert(tail[1] == header@[n - 3]);
                assert(tail[2] == header@[n - 2]);
                assert(tail[3] == header@[n - 1]);
            }
        }
    }
    r
}

/// Where reading a frame's header stops.
pub enum HeaderScan {
    /// The stream ended before the first byte.
    Ended,
    /// The stream ended inside the header.
    Truncated,
    /// The header reached `MAX_HEADER` bytes without ending.
    TooLarge,
    /// The header ends after this many bytes.
    Complete(nat),
}

/// Reading a header byte by byte from `n` bytes on.
pub open spec fn scan_from(input: Seq<u8>, n: nat) -> HeaderScan
    decreases input.len() - n,
{
    if n >= input.len() {
        if n == 0 {
            HeaderScan::Ended
        } else {
            HeaderScan::Truncated
        }
    } else {
        let m = (n + 1) as nat;
        if ends_with_blank_line(input.take(m as int)) {
            HeaderScan::Complete(m)
        } else if m >= MAX_HEADER {
            HeaderScan::TooLarge
        } else {
            scan_from(input, m)
        }
    }
}

/// The outcome of reading one message from a stream that holds `input` and
/// then ends, with the number of bytes consumed: nothing at the very end of
/// the stream, otherwise the message's text or why it cannot be read.
pub open spec fn frame_read(input: Seq<u8>) -> (Result<Option<Seq<char>>, Seq<char>>, nat) {
    match scan_from(input, 0) {
        HeaderScan::Ended => (Ok(None), 0),
        HeaderScan::Truncated => (Err("unexpected end of file"@), input.len()),
        HeaderScan::TooLarge => (Err("Language server header too large"@), MAX_HEADER as nat),
        HeaderScan::Complete(m) => match frame_length(input.take(m as int)) {
            Err(e) => (Err(e), m),
            Ok(len) => if m + len > input.len() {
                (Err("early eof"@), input.len())
            } else {
                match utf8_decoded(input.subrange(m as int, (m + len) as int)) {
                    Ok(t) => (Ok(Some(t)), (m + len) as nat),
                    Err(e) => (Err(e), (m + len) as nat),
                }
            },
        },
    }
}

/// The text of a message body, or the reason it is not UTF-8.
pub fn body_text(body: &[u8]) -> (r: Result<String, String>)
    ensures
        match utf8_decoded(body@) {
            Ok(t) => r matches Ok(s) && s@ == t,
            Err(m) => r matches Err(e) && e@ == m,
        },
{
    decode_utf8(body)
}

/// Reads one message from a stream holding `input` and then ending; the
/// second part is the number of bytes consumed, where the next message
/// starts.
pub fn read_frame(input: &[u8]) -> (r: (Result<Option<String>, String>, usize))
    ensures
        r.1 as nat == frame_read(input@).1,
        match frame_read(input@).0 {
            Ok(Some(t)) => r.0 matches Ok(Some(s)) && s@ == t,
            Ok(None) => r.0 matches Ok(None),
            Err(e) => r.0 matches Err(m) && m@ == e,
        },
{
    let mut n: usize = 0;
    let mut end: usize = 0;
    while n < input.len()
        invariant_except_break
            n <= input@.len(),
            n < MAX_HEADER,
            end == 0,
            scan_from(input@, 0) == scan_from(input@, n as nat),
        ensures
            end > 0 ==> scan_from(input@, 0) == HeaderScan::Complete(end as nat) && end <= input@.len(),
            end == 0 ==> n <= input@.len() && scan_from(input@, 0) == scan_from(input@, n as nat) && (n < MAX_HEADER
                || scan_from(input@, 0) == HeaderScan::TooLarge),
            end == 0 && n < input@.len() ==> scan_from(input@, 0) == HeaderScan::TooLarge,
        decreases input.len() - n,
    {
        let m = n + 1;
        let head = crate::text::take_bytes(input, m);
        if header_complete(head.as_slice()) {
            assert(scan_from(input@, n as nat) == HeaderScan::Complete(m as nat));
            end = m;
            break;
        }
        if m >= MAX_HEADER {
            break;
        }
        n = m;
    }
    if end == 0 {
        if n < input.len() {
            return (Err(owned("Language server header too large")), MAX_HEADER);
        }
        if n == 0 {
            return (Ok(None), 0);
        }
        return (Err(owned("unexpected end of file")), input.len());
    }
    let header = crate::text::take_bytes(input, end);
    let len = match content_length(header.as_slice()) {
        Ok(l) => l,
        Err(e) => {
            return (Err(e), end);
        },
    };
    if len > input.len() - end {
        return (Err(owned("early eof")), input.len());
    }
    let body = crate::text::byte_range(input, end, end + len);
    match body_text(body.as_slice()) {
        Ok(t) => (Ok(Some(t)), end + len),
        Err(e) => (Err(e), end + len),
    }
}


/// No frame is accepted whose announced body exceeds `MAX_MESSAGE`, and no
/// header is read past `MAX_HEADER` bytes.
pub proof fn frames_are_bounded(input: Seq<u8>)
    ensures
        frame_length(input) matches Ok(n) ==> n <= MAX_MESSAGE,
        scan_from(input, 0) matches HeaderScan::Complete(m) ==> m <= MAX_HEADER,
{
    lemma_scan_bounded(input, 0);
}

proof fn lemma_scan_bounded(input: Seq<u8>, n: nat)
    requires
        n < MAX_HEADER,
    ensures
        scan_from(input, n) matches HeaderScan::Complete(m) ==> m <= MAX_HEADER,
    decreases input.len() - n,
{
    if n < input.len() && n + 1 < MAX_HEADER {
        lemma_scan_bounded(input, (n + 1) as nat);
    }
}

} // verus!

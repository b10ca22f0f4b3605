//! Text primitives shared by the rest of the library: token estimates, decimal
//! numbers, Unicode whitespace, and small search helpers over character sequences.
use vstd::prelude::*;

verus! {

/// Length in bytes of the UTF-8 encoding of `s`.
pub open spec fn utf8_len(s: Seq<char>) -> nat {
    vstd::utf8::encode_utf8(s).len()
}

/// The length in bytes Rust reports for a string holding `s` (its UTF-8 length; a string's
/// length always fits in `usize`).
pub open spec fn byte_len(s: Seq<char>) -> nat {
    (vstd::utf8::encode_utf8(s).len() as usize) as nat
}

/// Approximate bytes in one model token.
pub const APPROX_BYTES_PER_TOKEN: usize = 4;

/// The approximate token count of text whose UTF-8 encoding has `byte_len` bytes.
/// The byte length plus three saturates at `usize::MAX` before the division.
pub open spec fn spec_approx_tokens(byte_len: nat) -> nat {
    if byte_len + 3 > usize::MAX {
        (usize::MAX / 4) as nat
    } else {
        (byte_len + 3) as nat / 4
    }
}

/// Approximate number of model tokens in `text`: its UTF-8 byte length, divided by four, rounded up.
pub fn approx_token_count(text: &str) -> (count: usize)
    ensures
        count == spec_approx_tokens(text.len() as nat),
{
    let len = text.len();
    if len > usize::MAX - 3 {
        usize::MAX / APPROX_BYTES_PER_TOKEN
    } else {
        (len + 3) / APPROX_BYTES_PER_TOKEN
    }
}

// ---------------------------------------------------------------------------
// Conversions between `str` and character vectors
// ---------------------------------------------------------------------------

/// The characters of `s`, in order.
pub fn chars_of(s: &str) -> (v: Vec<char>)
    ensures
        v@ == s@,
{
    let mut v: Vec<char> = Vec::new();
    for c in it: s.chars()
        invariant
            it.seq() == s@,
            v@ == it.seq().take(it.index() as int),
    {
        v.push(c);
    }
    v
}

/// Collects characters into a `String` (std's `FromIterator<char>` for `String`).
#[verifier::external_body]
pub fn string_of(chars: &Vec<char>) -> (s: String)
    ensures
        s@ == chars@,
{
    chars.iter().collect()
}

/// An owned copy of `s`.
pub fn owned(s: &str) -> (r: String)
    ensures
        r@ == s@,
{
    s.to_owned()
}

/// Structural copy of an optional string.
pub fn copy_opt_string(s: &Option<String>) -> (r: Option<String>)
    ensures
        r == *s,
{
    match s {
        Some(v) => Some(v.clone()),
        None => None,
    }
}

/// Structural copy of a vector of strings.
pub fn copy_strings(v: &Vec<String>) -> (r: Vec<String>)
    ensures
        r@ == v@,
{
    let mut r: Vec<String> = Vec::new();
    for i in 0..v.len()
        invariant
            r@ == v@.take(i as int),
    {
        r.push(v[i].clone());
        proof {
            assert(v@.take(i + 1) == v@.take(i as int).push(v@[i as int]));
        }
    }
    proof {
        assert(v@.take(v.len() as int) == v@);
    }
    r
}

/// `a` followed by `b`.
pub fn concat(a: &str, b: &str) -> (r: String)
    ensures
        r@ == a@ + b@,
{
    let mut r = a.to_owned();
    r.append(b);
    r
}

/// `a`, `b` and `c`, in order.
pub fn concat3(a: &str, b: &str, c: &str) -> (r: String)
    ensures
        r@ == a@ + b@ + c@,
{
    let mut r = a.to_owned();
    r.append(b);
    r.append(c);
    r
}

/// `a`, `b`, `c`, `d` and `e`, in order.
pub fn concat5(a: &str, b: &str, c: &str, d: &str, e: &str) -> (r: String)
    ensures
        r@ == a@ + b@ + c@ + d@ + e@,
{
    let mut r = a.to_owned();
    r.append(b);
    r.append(c);
    r.append(d);
    r.append(e);
    r
}

/// Whether two strings hold the same characters.
pub fn str_eq(a: &str, b: &str) -> (r: bool)
    ensures
        r == (a@ == b@),
{
    let x = owned(a);
    let y = owned(b);
    x == y
}

// ---------------------------------------------------------------------------
// Decimal digits
// ---------------------------------------------------------------------------

pub open spec fn is_digit(c: char) -> bool {
    '0' <= c && c <= '9'
}

pub open spec fn digit_value(c: char) -> nat {
    (c as int - '0' as int) as nat
}

pub open spec fn digit_char(d: nat) -> char {
    if d == 0 {
        '0'
    } else if d == 1 {
        '1'
    } else if d == 2 {
        '2'
    } else if d == 3 {
        '3'
    } else if d == 4 {
        '4'
    } else if d == 5 {
        '5'
    } else if d == 6 {
        '6'
    } else if d == 7 {
        '7'
    } else if d == 8 {
        '8'
    } else {
        '9'
    }
}

pub open spec fn all_digits(s: Seq<char>) -> bool {
    forall|i: int| 0 <= i < s.len() ==> is_digit(#[trigger] s[i])
}

/// The value of a string of decimal digits, most significant first.
pub open spec fn digits_value(s: Seq<char>) -> nat
    decreases s.len(),
{
    if s.len() == 0 {
        0
    } else {
        digits_value(s.drop_last()) * 10 + digit_value(s.last())
    }
}

/// What Rust's `str::parse` gives for an unsigned integer type whose largest value is `max`:
/// an optional leading `+`, then at least one decimal digit, and a value that fits.
pub open spec fn spec_parse_unsigned(s: Seq<char>, max: nat) -> Option<nat> {
    let body = if s.len() > 0 && s[0] == '+' {
        s.drop_first()
    } else {
        s
    };
    if body.len() > 0 && all_digits(body) && digits_value(body) <= max {
        Some(digits_value(body))
    } else {
        None
    }
}

/// The shortest decimal representation of `n`.
pub open spec fn decimal(n: nat) -> Seq<char>
    decreases n,
{
    if n < 10 {
        seq![digit_char(n)]
    } else {
        decimal(n / 10).push(digit_char(n % 10))
    }
}

/// Decimal representation of a signed value: a `-` before the magnitude when negative.
pub open spec fn signed_decimal(n: int) -> Seq<char> {
    if n < 0 {
        seq!['-'] + decimal((-n) as nat)
    } else {
        decimal(n as nat)
    }
}

proof fn lemma_digits_value_prefix_monotone(s: Seq<char>, i: int)
    requires
        0 <= i <= s.len(),
        all_digits(s),
    ensures
        digits_value(s.take(i)) <= digits_value(s),
    decreases s.len() - i,
{
    if i < s.len() {
        lemma_digits_value_prefix_monotone(s, i + 1);
        assert(s.take(i + 1).drop_last() == s.take(i));
        assert(digits_value(s.take(i + 1)) == digits_value(s.take(i)) * 10 + digit_value(
            s.take(i + 1).last(),
        ));
    } else {
        assert(s.take(i) == s);
    }
}

pub(crate) proof fn lemma_decimal_digits(n: nat)
    ensures
        all_digits(decimal(n)),
        decimal(n).len() >= 1,
    decreases n,
{
    if n >= 10 {
        lemma_decimal_digits(n / 10);
    }
}

/// Parses the decimal digits `v[start..end]` (all of them digits) with overflow detection.
fn parse_digits(v: &Vec<char>, start: usize, max: u64) -> (r: Option<u64>)
    requires
        start < v.len(),
    ensures
        r == (if all_digits(v@.skip(start as int)) && digits_value(v@.skip(start as int)) <= max {
            Some(digits_value(v@.skip(start as int)) as u64)
        } else {
            None::<u64>
        }),
{
    let ghost body = v@.skip(start as int);
    let mut value: u64 = 0;
    let mut i: usize = start;
    while i < v.len()
        invariant
            start <= i <= v.len(),
            body == v@.skip(start as int),
            all_digits(body.take(i - start)),
            value == digits_value(body.take(i - start)),
            value <= max,
        decreases v.len() - i,
    {
        let c = v[i];
        proof {
            assert(body[i - start] == c);
            assert(body.take(i - start + 1).drop_last() == body.take(i - start));
        }
        if !('0' <= c && c <= '9') {
            proof {
                assert(!is_digit(body[i - start]));
            }
            return None;
        }
        let d: u64 = ((c as u32) - ('0' as u32)) as u64;
        proof {
            assert(all_digits(body.take(i - start + 1)));
            assert(digits_value(body.take(i - start + 1)) == value * 10 + d);
        }
        if value > max / 10 || (value == max / 10 && d > max % 10) {
            proof {
                assert(value * 10 + d > max) by (nonlinear_arith)
                    requires
                        value > max / 10 || (value == max / 10 && d > max % 10),
                        d <= 9,
                ;
                let j = i - start + 1;
                let rest = v@.skip(start as int);
                if all_digits(rest) {
                    lemma_digits_value_prefix_monotone(rest, j);
                }
            }
            return None;
        }
        proof {
            assert(value * 10 + d <= max) by (nonlinear_arith)
                requires
                    !(value > max / 10 || (value == max / 10 && d > max % 10)),
                    d <= 9,
            ;
        }
        value = value * 10 + d;
        i = i + 1;
    }
    proof {
        assert(body.take(i - start) == body);
    }
    Some(value)
}

/// Rust's `str::parse::<u64>()`, as an `Option`.
pub fn parse_u64(s: &str) -> (r: Option<u64>)
    ensures
        r matches Some(v) ==> spec_parse_unsigned(s@, u64::MAX as nat) == Some(v as nat),
        r is None ==> spec_parse_unsigned(s@, u64::MAX as nat) is None,
{
    let v = chars_of(s);
    parse_unsigned_chars(&v, u64::MAX)
}

/// Rust's `str::parse::<usize>()`, as an `Option`.
pub fn parse_usize(s: &str) -> (r: Option<usize>)
    ensures
        r matches Some(v) ==> spec_parse_unsigned(s@, usize::MAX as nat) == Some(v as nat),
        r is None ==> spec_parse_unsigned(s@, usize::MAX as nat) is None,
{
    let v = chars_of(s);
    match parse_unsigned_chars(&v, usize::MAX as u64) {
        Some(n) => Some(n as usize),
        None => None,
    }
}

/// Unsigned decimal parsing over a character vector, bounded by `max`.
pub fn parse_unsigned_chars(v: &Vec<char>, max: u64) -> (r: Option<u64>)
    ensures
        r matches Some(n) ==> spec_parse_unsigned(v@, max as nat) == Some(n as nat),
        r is None ==> spec_parse_unsigned(v@, max as nat) is None,
{
    if v.len() == 0 {
        return None;
    }
    let start: usize = if v[0] == '+' {
        1
    } else {
        0
    };
    proof {
        if start == 1 {
            assert(v@.skip(1) == v@.drop_first());
        } else {
            assert(v@.skip(0) == v@);
        }
    }
    if start >= v.len() {
        return None;
    }
    parse_digits(v, start, max)
}

fn digit_str(d: u64) -> (s: &'static str)
    requires
        d < 10,
    ensures
        s@ == seq![digit_char(d as nat)],
{
    let s = match d {
        0 => "0",
        1 => "1",
        2 => "2",
        3 => "3",
        4 => "4",
        5 => "5",
        6 => "6",
        7 => "7",
        8 => "8",
        _ => "9",
    };
    proof {
        reveal_strlit("0");
        reveal_strlit("1");
        reveal_strlit("2");
        reveal_strlit("3");
        reveal_strlit("4");
        reveal_strlit("5");
        reveal_strlit("6");
        reveal_strlit("7");
        reveal_strlit("8");
        reveal_strlit("9");
    }
    s
}

/// Appends the decimal representation of `n` to `out`.
pub fn push_decimal(out: &mut String, n: u64)
    ensures
        final(out)@ == old(out)@ + decimal(n as nat),
    decreases n,
{
    if n < 10 {
        out.append(digit_str(n));
    } else {
        push_decimal(out, n / 10);
        out.append(digit_str(n % 10));
        proof {
            assert(old(out)@ + decimal(n as nat) == old(out)@ + decimal((n / 10) as nat) + seq![
                digit_char((n % 10) as nat),
            ]);
        }
    }
}

/// Appends the decimal representation of the signed value `n` to `out`.
pub fn push_signed_decimal(out: &mut String, n: i64)
    ensures
        final(out)@ == old(out)@ + signed_decimal(n as int),
{
    if n < 0 {
        out.append("-");
        proof {
            reveal_strlit("-");
        }
        let magnitude: u64 = if n == i64::MIN {
            9223372036854775808u64
        } else {
            (-n) as u64
        };
        push_decimal(out, magnitude);
        proof {
            assert(old(out)@ + seq!['-'] + decimal(magnitude as nat) == old(out)@ + (seq!['-']
                + decimal(magnitude as nat)));
        }
    } else {
        push_decimal(out, n as u64);
    }
}

/// The decimal representation of `n`, as Rust's `u64::to_string` writes it.
pub fn decimal_string(n: u64) -> (s: String)
    ensures
        s@ == decimal(n as nat),
{
    let mut s = String::new();
    push_decimal(&mut s, n);
    proof {
        assert(Seq::<char>::empty() + decimal(n as nat) == decimal(n as nat));
    }
    s
}

// ---------------------------------------------------------------------------
// Unicode whitespace, ASCII case
// ---------------------------------------------------------------------------

/// Rust's `char::is_whitespace`: the characters with the Unicode `White_Space` property.
pub open spec fn is_white(c: char) -> bool {
    ||| ('\u{9}' <= c && c <= '\u{d}')
    ||| c == ' '
    ||| c == '\u{85}'
    ||| c == '\u{a0}'
    ||| c == '\u{1680}'
    ||| ('\u{2000}' <= c && c <= '\u{200a}')
    ||| c == '\u{2028}'
    ||| c == '\u{2029}'
    ||| c == '\u{202f}'
    ||| c == '\u{205f}'
    ||| c == '\u{3000}'
}

pub fn is_whitespace(c: char) -> (r: bool)
    ensures
        r == is_white(c),
{
    ('\u{9}' <= c && c <= '\u{d}') || c == ' ' || c == '\u{85}' || c == '\u{a0}' || c == '\u{1680}'
        || ('\u{2000}' <= c && c <= '\u{200a}') || c == '\u{2028}' || c == '\u{2029}' || c
        == '\u{202f}' || c == '\u{205f}' || c == '\u{3000}'
}

/// `s` with leading whitespace removed.
pub open spec fn trim_start(s: Seq<char>) -> Seq<char>
    decreases s.len(),
{
    if s.len() > 0 && is_white(s[0]) {
        trim_start(s.drop_first())
    } else {
        s
    }
}

/// `s` with trailing whitespace removed.
pub open spec fn trim_end(s: Seq<char>) -> Seq<char>
    decreases s.len(),
{
    if s.len() > 0 && is_white(s.last()) {
        trim_end(s.drop_last())
    } else {
        s
    }
}

/// Rust's `str::trim`: whitespace removed at both ends.
pub open spec fn trim(s: Seq<char>) -> Seq<char> {
    trim_end(trim_start(s))
}

/// Whether every character of `s` is whitespace.
pub open spec fn all_white(s: Seq<char>) -> bool {
    forall|i: int| 0 <= i < s.len() ==> is_white(#[trigger] s[i])
}

proof fn lemma_trim_start_skip(s: Seq<char>, i: int)
    requires
        0 <= i <= s.len(),
        all_white(s.take(i)),
    ensures
        trim_start(s) == trim_start(s.skip(i)),
    decreases i,
{
    if i > 0 {
        assert(is_white(s.take(i)[0]));
        assert(s.drop_first().skip(i - 1) == s.skip(i));
        assert(all_white(s.drop_first().take(i - 1))) by {
            assert forall|k: int| 0 <= k < i - 1 implies is_white(
                #[trigger] s.drop_first().take(i - 1)[k],
            ) by {
                assert(s.drop_first().take(i - 1)[k] == s.take(i)[k + 1]);
            }
        }
        lemma_trim_start_skip(s.drop_first(), i - 1);
    } else {
        assert(s.skip(0) == s);
    }
}

proof fn lemma_trim_end_take(s: Seq<char>, j: int)
    requires
        0 <= j <= s.len(),
        all_white(s.skip(j)),
    ensures
        trim_end(s) == trim_end(s.take(j)),
    decreases s.len() - j,
{
    if j < s.len() {
        assert(is_white(s.skip(j)[s.len() - j - 1]));
        assert(s.drop_last().take(j) == s.take(j));
        assert(all_white(s.drop_last().skip(j))) by {
            assert forall|k: int| 0 <= k < s.len() - 1 - j implies is_white(
                #[trigger] s.drop_last().skip(j)[k],
            ) by {
                assert(s.drop_last().skip(j)[k] == s.skip(j)[k]);
            }
        }
        lemma_trim_end_take(s.drop_last(), j);
    } else {
        assert(s.take(j) == s);
    }
}

/// The bounds `[start, end)` of `trim(v)` within `v`.
pub fn trim_bounds(v: &Vec<char>) -> (r: (usize, usize))
    ensures
        r.0 <= r.1 <= v.len(),
        v@.subrange(r.0 as int, r.1 as int) == trim(v@),
{
    let mut start: usize = 0;
    while start < v.len() && is_whitespace(v[start])
        invariant
            start <= v.len(),
            all_white(v@.take(start as int)),
        decreases v.len() - start,
    {
        proof {
            assert forall|k: int| 0 <= k < start + 1 implies is_white(
                #[trigger] v@.take(start + 1)[k],
            ) by {
                if k < start {
                    assert(v@.take(start + 1)[k] == v@.take(start as int)[k]);
                }
            }
        }
        start = start + 1;
    }
    let ghost rest = v@.skip(start as int);
    proof {
        lemma_trim_start_skip(v@, start as int);
        if rest.len() > 0 {
            assert(rest[0] == v@[start as int]);
        }
        assert(trim_start(rest) == rest);
    }
    let mut end: usize = v.len();
    while end > start && is_whitespace(v[end - 1])
        invariant
            start <= end <= v.len(),
            rest == v@.skip(start as int),
            all_white(rest.skip(end - start)),
        decreases end,
    {
        proof {
            assert forall|k: int| 0 <= k < rest.len() - (end - 1 - start) implies is_white(
                #[trigger] rest.skip(end - 1 - start)[k],
            ) by {
                if k > 0 {
                    assert(rest.skip(end - 1 - start)[k] == rest.skip(end - start)[k - 1]);
                } else {
                    assert(rest.skip(end - 1 - start)[k] == v@[end - 1]);
                }
            }
        }
        end = end - 1;
    }
    proof {
        lemma_trim_end_take(rest, end - start);
        let t = rest.take(end - start);
        if t.len() > 0 {
            assert(t.last() == v@[end - 1]);
        }
        assert(trim_end(t) == t);
        assert(v@.subrange(start as int, end as int) == t);
    }
    (start, end)
}

proof fn lemma_trim_start_all_white(s: Seq<char>)
    ensures
        (trim_start(s).len() == 0) == all_white(s),
        trim_start(s).len() == 0 || !is_white(trim_start(s)[0]),
        (trim(s).len() == 0) == all_white(s),
    decreases s.len(),
{
    if s.len() > 0 && is_white(s[0]) {
        lemma_trim_start_all_white(s.drop_first());
        assert(all_white(s) == all_white(s.drop_first())) by {
            if all_white(s.drop_first()) {
                assert forall|i: int| 0 <= i < s.len() implies is_white(#[trigger] s[i]) by {
                    if i > 0 {
                        assert(s[i] == s.drop_first()[i - 1]);
                    }
                }
            }
            if all_white(s) {
                assert forall|i: int| 0 <= i < s.len() - 1 implies is_white(
                    #[trigger] s.drop_first()[i],
                ) by {
                    assert(s.drop_first()[i] == s[i + 1]);
                }
            }
        }
    } else {
        let t = trim_start(s);
        assert(t == s);
        if s.len() > 0 {
            lemma_trim_end_keeps_first(s);
        }
    }
}

proof fn lemma_trim_end_keeps_first(s: Seq<char>)
    requires
        s.len() > 0,
        !is_white(s[0]),
    ensures
        trim_end(s).len() > 0,
    decreases s.len(),
{
    if is_white(s.last()) {
        assert(s.len() > 1);
        assert(s.drop_last()[0] == s[0]);
        lemma_trim_end_keeps_first(s.drop_last());
    }
}

/// Whether `s` is empty after trimming (Rust's `s.trim().is_empty()`).
pub fn is_blank(s: &str) -> (r: bool)
    ensures
        r == (trim(s@).len() == 0),
        r == all_white(s@),
{
    proof {
        lemma_trim_start_all_white(s@);
    }
    let v = chars_of(s);
    let mut i: usize = 0;
    while i < v.len()
        invariant
            i <= v.len(),
            v@ == s@,
            all_white(v@.take(i as int)),
            (trim(s@).len() == 0) == all_white(s@),
        decreases v.len() - i,
    {
        if !is_whitespace(v[i]) {
            proof {
                assert(!is_white(s@[i as int]));
                assert(!all_white(s@));
            }
            return false;
        }
        proof {
            assert forall|k: int| 0 <= k < i + 1 implies is_white(#[trigger] v@.take(i + 1)[k]) by {
                if k < i {
                    assert(v@.take(i + 1)[k] == v@.take(i as int)[k]);
                }
            }
        }
        i = i + 1;
    }
    proof {
        assert(v@.take(i as int) == v@);
    }
    true
}

/// Rust's `str::trim`, as an owned string.
pub fn trimmed(s: &str) -> (r: String)
    ensures
        r@ == trim(s@),
{
    let v = chars_of(s);
    let (a, b) = trim_bounds(&v);
    let mut out: Vec<char> = Vec::new();
    let mut i = a;
    while i < b
        invariant
            a <= i <= b <= v.len(),
            out@ == v@.subrange(a as int, i as int),
        decreases b - i,
    {
        out.push(v[i]);
        proof {
            assert(v@.subrange(a as int, i + 1) == v@.subrange(a as int, i as int).push(v@[i as int]));
        }
        i = i + 1;
    }
    string_of(&out)
}

pub open spec fn ascii_lower(c: char) -> char {
    if 'A' <= c && c <= 'Z' {
        ((c as u8) + 32) as u8 as char
    } else {
        c
    }
}

pub open spec fn ascii_lower_seq(s: Seq<char>) -> Seq<char> {
    s.map_values(|c: char| ascii_lower(c))
}

/// Rust's `char::to_ascii_lowercase`.
pub fn to_ascii_lower(c: char) -> (r: char)
    ensures
        r == ascii_lower(c),
{
    if 'A' <= c && c <= 'Z' {
        ((c as u8) + 32) as char
    } else {
        c
    }
}

/// Rust's `str::to_ascii_lowercase`, as characters.
pub fn ascii_lowercase_chars(s: &str) -> (r: Vec<char>)
    ensures
        r@ == ascii_lower_seq(s@),
{
    let v = chars_of(s);
    let mut out: Vec<char> = Vec::new();
    for i in 0..v.len()
        invariant
            v@ == s@,
            out@ == ascii_lower_seq(v@.take(i as int)),
    {
        out.push(to_ascii_lower(v[i]));
        proof {
            assert(ascii_lower_seq(v@.take(i + 1)) == ascii_lower_seq(v@.take(i as int)).push(
                ascii_lower(v@[i as int]),
            ));
        }
    }
    proof {
        assert(v@.take(v.len() as int) == v@);
    }
    out
}

/// Whether two strings are equal ignoring ASCII case (Rust's `str::eq_ignore_ascii_case`).
pub fn eq_ignore_ascii_case(a: &str, b: &str) -> (r: bool)
    ensures
        r == (ascii_lower_seq(a@) == ascii_lower_seq(b@)),
{
    let x = ascii_lowercase_chars(a);
    let y = ascii_lowercase_chars(b);
    if x.len() != y.len() {
        proof {
            assert(ascii_lower_seq(a@).len() != ascii_lower_seq(b@).len());
        }
        return false;
    }
    for i in 0..x.len()
        invariant
            x.len() == y.len(),
            x@ == ascii_lower_seq(a@),
            y@ == ascii_lower_seq(b@),
            forall|k: int| 0 <= k < i ==> x@[k] == y@[k],
    {
        if x[i] != y[i] {
            return false;
        }
    }
    proof {
        assert(x@ =~= y@);
    }
    true
}

// ---------------------------------------------------------------------------
// Prefixes and substrings
// ---------------------------------------------------------------------------

pub open spec fn has_prefix(s: Seq<char>, p: Seq<char>) -> bool {
    p.len() <= s.len() && s.take(p.len() as int) == p
}

/// Whether `needle` occurs in `s` starting at index `i`.
pub open spec fn occurs_at(s: Seq<char>, needle: Seq<char>, i: int) -> bool {
    0 <= i && i + needle.len() <= s.len() && s.subrange(i, i + needle.len()) == needle
}

/// Rust's `str::contains` for a string pattern.
pub open spec fn contains_seq(s: Seq<char>, needle: Seq<char>) -> bool {
    exists|i: int| occurs_at(s, needle, i)
}

/// Whether `s` starts with `p`.
pub fn starts_with(s: &str, p: &str) -> (r: bool)
    ensures
        r == has_prefix(s@, p@),
{
    let a = chars_of(s);
    let b = chars_of(p);
    if b.len() > a.len() {
        return false;
    }
    for i in 0..b.len()
        invariant
            b.len() <= a.len(),
            a@ == s@,
            b@ == p@,
            forall|k: int| 0 <= k < i ==> a@[k] == b@[k],
    {
        if a[i] != b[i] {
            proof {
                assert(s@.take(p@.len() as int)[i as int] != p@[i as int]);
            }
            return false;
        }
    }
    proof {
        assert(s@.take(p@.len() as int) =~= p@);
    }
    true
}

/// Whether `needle` occurs in `s[i..]` at index `i` (over character vectors).
fn matches_at(s: &Vec<char>, needle: &Vec<char>, i: usize) -> (r: bool)
    requires
        i + needle.len() <= s.len(),
    ensures
        r == occurs_at(s@, needle@, i as int),
{
    for k in 0..needle.len()
        invariant
            i + needle.len() <= s.len(),
            forall|j: int| 0 <= j < k ==> s@[i + j] == needle@[j],
    {
        if s[i + k] != needle[k] {
            proof {
                assert(s@.subrange(i as int, i + needle.len())[k as int] != needle@[k as int]);
            }
            return false;
        }
    }
    proof {
        assert(s@.subrange(i as int, i + needle.len()) =~= needle@);
    }
    true
}

/// Rust's `str::contains` with a string pattern.
pub fn contains_str(s: &str, needle: &str) -> (r: bool)
    ensures
        r == contains_seq(s@, needle@),
{
    let a = chars_of(s);
    let b = chars_of(needle);
    if b.len() > a.len() {
        proof {
            assert forall|i: int| !occurs_at(s@, needle@, i) by {}
        }
        return false;
    }
    let last = a.len() - b.len();
    let mut i: usize = 0;
    loop
        invariant
            a@ == s@,
            b@ == needle@,
            last == a.len() - b.len(),
            i <= last,
            forall|j: int| 0 <= j < i ==> !occurs_at(s@, needle@, j),
        ensures
            forall|j: int| 0 <= j <= last ==> !occurs_at(s@, needle@, j),
        decreases last - i,
    {
        if matches_at(&a, &b, i) {
            return true;
        }
        if i == last {
            break;
        }
        i = i + 1;
    }
    proof {
        assert forall|j: int| !occurs_at(s@, needle@, j) by {
            if 0 <= j && j + needle@.len() <= s@.len() {
                assert(j <= last);
            }
        }
    }
    false
}


/// The characters `v[a..b]` as a `String`.
pub fn sub_string(v: &Vec<char>, a: usize, b: usize) -> (r: String)
    requires
        a <= b <= v.len(),
    ensures
        r@ == v@.subrange(a as int, b as int),
{
    let mut out: Vec<char> = Vec::new();
    let mut i = a;
    while i < b
        invariant
            a <= i <= b <= v.len(),
            out@ == v@.subrange(a as int, i as int),
        decreases b - i,
    {
        out.push(v[i]);
        proof {
            assert(v@.subrange(a as int, i + 1) == v@.subrange(a as int, i as int).push(v@[i as int]));
        }
        i = i + 1;
    }
    string_of(&out)
}

/// Index of the first character of `s` satisfying `is_white`, or `s.len()`.
pub open spec fn first_white(s: Seq<char>) -> int
    decreases s.len(),
{
    if s.len() == 0 {
        0
    } else if is_white(s[0]) {
        0
    } else {
        1 + first_white(s.drop_first())
    }
}

/// Index of the first character of `s` that is not a decimal digit, or `s.len()`.
pub open spec fn first_non_digit(s: Seq<char>) -> int
    decreases s.len(),
{
    if s.len() == 0 {
        0
    } else if !is_digit(s[0]) {
        0
    } else {
        1 + first_non_digit(s.drop_first())
    }
}

proof fn lemma_first_white_bounds(s: Seq<char>)
    ensures
        0 <= first_white(s) <= s.len(),
        forall|k: int| 0 <= k < first_white(s) ==> !is_white(#[trigger] s[k]),
        first_white(s) < s.len() ==> is_white(s[first_white(s)]),
    decreases s.len(),
{
    if s.len() > 0 && !is_white(s[0]) {
        lemma_first_white_bounds(s.drop_first());
        assert forall|k: int| 0 <= k < first_white(s) implies !is_white(#[trigger] s[k]) by {
            if k > 0 {
                assert(s[k] == s.drop_first()[k - 1]);
            }
        }
    }
}

proof fn lemma_first_white_char(s: Seq<char>, i: int)
    requires
        0 <= i <= s.len(),
        forall|k: int| 0 <= k < i ==> !is_white(#[trigger] s[k]),
        i == s.len() || is_white(s[i]),
    ensures
        first_white(s) == i,
    decreases s.len(),
{
    if i > 0 {
        assert forall|k: int| 0 <= k < i - 1 implies !is_white(#[trigger] s.drop_first()[k]) by {
            assert(s.drop_first()[k] == s[k + 1]);
        }
        if i < s.len() {
            assert(s.drop_first()[i - 1] == s[i]);
        }
        lemma_first_white_char(s.drop_first(), i - 1);
        assert(!is_white(s[0]));
    }
}

pub(crate) proof fn lemma_first_non_digit_char(s: Seq<char>, i: int)
    requires
        0 <= i <= s.len(),
        forall|k: int| 0 <= k < i ==> is_digit(#[trigger] s[k]),
        i == s.len() || !is_digit(s[i]),
    ensures
        first_non_digit(s) == i,
    decreases s.len(),
{
    if i > 0 {
        assert forall|k: int| 0 <= k < i - 1 implies is_digit(#[trigger] s.drop_first()[k]) by {
            assert(s.drop_first()[k] == s[k + 1]);
        }
        if i < s.len() {
            assert(s.drop_first()[i - 1] == s[i]);
        }
        lemma_first_non_digit_char(s.drop_first(), i - 1);
        assert(is_digit(s[0]));
    }
}

/// Position of the first whitespace character.
pub fn find_white(v: &Vec<char>) -> (r: usize)
    ensures
        r as int == first_white(v@),
        r <= v.len(),
{
    let mut i: usize = 0;
    while i < v.len() && !is_whitespace(v[i])
        invariant
            i <= v.len(),
            forall|k: int| 0 <= k < i ==> !is_white(#[trigger] v@[k]),
        decreases v.len() - i,
    {
        i = i + 1;
    }
    proof {
        lemma_first_white_char(v@, i as int);
    }
    i
}

/// Position of the first character that is not a decimal digit.
pub fn find_non_digit(v: &Vec<char>) -> (r: usize)
    ensures
        r as int == first_non_digit(v@),
        r <= v.len(),
{
    let mut i: usize = 0;
    while i < v.len() && ('0' <= v[i] && v[i] <= '9')
        invariant
            i <= v.len(),
            forall|k: int| 0 <= k < i ==> is_digit(#[trigger] v@[k]),
        decreases v.len() - i,
    {
        i = i + 1;
    }
    proof {
        lemma_first_non_digit_char(v@, i as int);
    }
    i
}

proof fn lemma_digit_char_value(d: nat)
    requires
        d < 10,
    ensures
        digit_value(digit_char(d)) == d,
        is_digit(digit_char(d)),
{
}

/// Parsing the decimal representation of `n` gives `n` back.
pub proof fn law_decimal_parses_back(n: nat, max: nat)
    requires
        n <= max,
    ensures
        spec_parse_unsigned(decimal(n), max) == Some(n),
{
    lemma_decimal_value(n);
    lemma_decimal_digits(n);
    let d = decimal(n);
    assert(is_digit(d[0]));
}

proof fn lemma_decimal_value(n: nat)
    ensures
        digits_value(decimal(n)) == n,
    decreases n,
{
    lemma_digit_char_value(n % 10);
    if n >= 10 {
        lemma_decimal_value(n / 10);
        let d = decimal(n);
        assert(d.drop_last() == decimal(n / 10));
        assert(d.last() == digit_char(n % 10));
        assert(digits_value(d) == digits_value(decimal(n / 10)) * 10 + digit_value(d.last()));
        assert(n == (n / 10) * 10 + n % 10);
    } else {
        let d = decimal(n);
        assert(d.drop_last().len() == 0);
        assert(digits_value(d.drop_last()) == 0);
        assert(n % 10 == n);
    }
}


/// Trimming twice is trimming once; a trimmed string is blank only when empty.
pub proof fn lemma_trim_fixed(s: Seq<char>)
    ensures
        trim(trim(s)) == trim(s),
        all_white(trim(s)) == (trim(s).len() == 0),
{
    lemma_trim_start_all_white(s);
    lemma_trim_shape(s);
    let t = trim(s);
    lemma_trim_start_all_white(t);
    if t.len() > 0 {
        assert(!is_white(t[0]));
        assert(trim_start(t) == t);
        assert(!is_white(t.last()));
        assert(trim_end(t) == t);
        assert(!all_white(t));
    } else {
        assert(trim_start(t) == t);
        assert(trim_end(t) == t);
    }
}

/// A non-empty trimmed string starts and ends with a character that is not whitespace.
proof fn lemma_trim_shape(s: Seq<char>)
    ensures
        trim(s).len() > 0 ==> !is_white(trim(s)[0]) && !is_white(trim(s).last()),
{
    lemma_trim_start_all_white(s);
    let a = trim_start(s);
    lemma_trim_end_shape(a);
}

proof fn lemma_trim_end_shape(a: Seq<char>)
    requires
        a.len() == 0 || !is_white(a[0]),
    ensures
        trim_end(a).len() > 0 ==> !is_white(trim_end(a)[0]) && !is_white(trim_end(a).last()),
        trim_end(a).len() == 0 || trim_end(a)[0] == a[0],
    decreases a.len(),
{
    if a.len() > 0 && is_white(a.last()) {
        if a.len() > 1 {
            assert(a.drop_last()[0] == a[0]);
        }
        lemma_trim_end_shape(a.drop_last());
    }
}

} // verus!

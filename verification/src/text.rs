//! Character-level text helpers: building text, case folding and
//! substring search.
use vstd::prelude::*;
use vstd::std_specs::iter::IteratorSpec;
use vstd::string::StringExecFns;

verus! {

/// The characters of `s` after `str::to_lowercase`.
pub uninterp spec fn lowercase_chars(s: Seq<char>) -> Seq<char>;

/// `str::to_lowercase`: the Unicode lower-case form of `s`. Its result is
/// named, not spelled out: it depends on the characters of `s` alone.
#[verifier::external_body]
fn to_lowercase(s: &str) -> (r: String)
    ensures
        r@ == lowercase_chars(s@),
{
    s.to_lowercase()
}

/// The characters of `s`, in order.
pub fn chars_of(s: &str) -> (r: Vec<char>)
    ensures
        r@ == s@,
{
    broadcast use vstd::string::group_string_axioms;

    let mut r: Vec<char> = Vec::new();
    for c in iter: s.chars()
        invariant
            iter.seq() == s@,
            r@ == iter.seq().take(iter.index() as int),
    {
        r.push(c);
        assert(r@ =~= iter.seq().take(iter.index() + 1));
    }
    assert(r@ =~= s@);
    r
}

/// Whether `needle` occurs as a contiguous run inside `hay`.
pub open spec fn is_infix(needle: Seq<char>, hay: Seq<char>) -> bool {
    exists|i: int| 0 <= i && i + needle.len() <= hay.len() && #[trigger] hay.subrange(i, i + needle.len()) == needle
}

/// Whether `needle` occurs in `hay` starting at position `at`.
fn occurs_at(hay: &Vec<char>, needle: &Vec<char>, at: usize) -> (b: bool)
    requires
        at + needle@.len() <= hay.len(),
    ensures
        b == (hay@.subrange(at as int, at + needle@.len()) == needle@),
{
    let mut j: usize = 0;
    while j < needle.len()
        invariant
            at + needle@.len() <= hay.len(),
            j <= needle@.len(),
            forall|k: int| 0 <= k < j ==> hay@[at + k] == needle@[k],
        decreases needle@.len() - j,
    {
        if hay[at + j] != needle[j] {
            assert(hay@.subrange(at as int, at + needle@.len())[j as int] != needle@[j as int]);
            return false;
        }
        j = j + 1;
    }
    assert(hay@.subrange(at as int, at + needle@.len()) =~= needle@);
    true
}

/// Whether `needle` occurs inside `hay` (`str::contains` on text).
pub fn contains_text(hay: &str, needle: &str) -> (b: bool)
    ensures
        b == is_infix(needle@, hay@),
{
    let h = chars_of(hay);
    let n = chars_of(needle);
    if n.len() > h.len() {
        return false;
    }
    if n.len() == 0 {
        assert(hay@.subrange(0int, 0int + needle@.len()) =~= needle@);
        return true;
    }
    let last = h.len() - n.len();
    let mut i: usize = 0;
    while i <= last
        invariant
            h@ == hay@,
            n@ == needle@,
            n@.len() > 0,
            last + n@.len() == h.len(),
            i <= last + 1,
            forall|k: int| 0 <= k < i ==> #[trigger] h@.subrange(k, k + n@.len()) != n@,
        decreases last + 1 - i,
    {
        if occurs_at(&h, &n, i) {
            return true;
        }
        i = i + 1;
    }
    false
}

/// Case-insensitive substring test: whether the lower-case form of
/// `pattern` occurs in the lower-case form of `text`.
pub fn contains_ignoring_case(text: &str, pattern: &str) -> (b: bool)
    ensures
        b == is_infix(lowercase_chars(pattern@), lowercase_chars(text@)),
{
    let t = to_lowercase(text);
    let p = to_lowercase(pattern);
    contains_text(t.as_str(), p.as_str())
}

/// `text` written after `s`.
pub(crate) fn push_str(s: &mut String, text: &str)
    ensures
        final(s)@ == old(s)@ + text@,
{
    s.append(text)
}

/// An owned copy of `a`.
pub fn owned(a: &str) -> (r: String)
    ensures
        r@ == a@,
{
    let mut r = String::new();
    push_str(&mut r, a);
    assert(r@ =~= a@);
    r
}

/// `a` followed by `b`.
pub fn concat(a: &str, b: &str) -> (r: String)
    ensures
        r@ == a@ + b@,
{
    let mut r = String::new();
    push_str(&mut r, a);
    push_str(&mut r, b);
    assert(r@ =~= a@ + b@);
    r
}

/// `a`, `b` and `c` one after another.
pub fn concat3(a: &str, b: &str, c: &str) -> (r: String)
    ensures
        r@ == a@ + b@ + c@,
{
    let mut r = String::new();
    push_str(&mut r, a);
    push_str(&mut r, b);
    push_str(&mut r, c);
    assert(r@ =~= a@ + b@ + c@);
    r
}

// ---------------------------------------------------------------------------
// Numbers in decimal
// ---------------------------------------------------------------------------

/// The character of a decimal digit.
pub open spec fn digit(d: nat) -> char {
    if d == 0 {
        '0'
    } else if d == 1 {
        '1'
    } else if d == 2 {
        '2'
    } else if d == 3 {
        '3'
    } else if d == 4 {
        '4'
    } else if d == 5 {
        '5'
    } else if d == 6 {
        '6'
    } else if d == 7 {
        '7'
    } else if d == 8 {
        '8'
    } else {
        '9'
    }
}

/// The decimal digits of `n`, most significant first, without leading
/// zeros.
pub open spec fn digits(n: nat) -> Seq<char>
    decreases n,
{
    if n < 10 {
        seq![digit(n)]
    } else {
        digits(n / 10).push(digit(n % 10))
    }
}

/// `n` written in decimal, with a leading `-` when negative.
pub open spec fn decimal(n: int) -> Seq<char> {
    if n < 0 {
        seq!['-'] + digits((-n) as nat)
    } else {
        digits(n as nat)
    }
}

/// The character of decimal digit `d`.
fn digit_char(d: u64) -> (c: char)
    requires
        d < 10,
    ensures
        c == digit(d as nat),
{
    if d == 0 {
        '0'
    } else if d == 1 {
        '1'
    } else if d == 2 {
        '2'
    } else if d == 3 {
        '3'
    } else if d == 4 {
        '4'
    } else if d == 5 {
        '5'
    } else if d == 6 {
        '6'
    } else if d == 7 {
        '7'
    } else if d == 8 {
        '8'
    } else {
        '9'
    }
}

/// The decimal digits of `n`: the last digit is split off until one
/// digit is left, and the digits are then written most significant first.
pub(crate) fn u64_text(n: u64) -> (s: String)
    ensures
        s@ == digits(n as nat),
{
    let mut m: u64 = n;
    let mut tail: Vec<char> = Vec::new();
    while m >= 10
        invariant
            digits(n as nat) == digits(m as nat) + tail@,
        decreases m,
    {
        let ghost old_tail = tail@;
        let ghost old_m = m;
        assert(digits(m as nat) == digits((m / 10) as nat).push(digit((m % 10) as nat)));
        tail.insert(0, digit_char(m % 10));
        m = m / 10;
        assert(digits(old_m as nat) + old_tail =~= digits(m as nat) + tail@);
    }
    assert(digits(m as nat) == seq![digit(m as nat)]);
    let mut s = String::new();
    push_char(&mut s, digit_char(m));
    let mut i: usize = 0;
    while i < tail.len()
        invariant
            i <= tail@.len(),
            s@ == seq![digit(m as nat)] + tail@.take(i as int),
        decreases tail@.len() - i,
    {
        push_char(&mut s, tail[i]);
        i = i + 1;
        assert(s@ =~= seq![digit(m as nat)] + tail@.take(i as int));
    }
    assert(tail@.take(i as int) =~= tail@);
    s
}

/// A signed integer in decimal, with a `-` when negative.
pub(crate) fn i64_text(n: i64) -> (s: String)
    ensures
        s@ == decimal(n as int),
{
    if n < 0 {
        let magnitude: u64 = (0i128 - n as i128) as u64;
        let d = u64_text(magnitude);
        let mut s = String::new();
        push_char(&mut s, '-');
        push_str(&mut s, d.as_str());
        assert(s@ =~= seq!['-'] + digits((-n) as nat));
        s
    } else {
        u64_text(n as u64)
    }
}

/// An unsigned integer in decimal.
pub(crate) fn usize_text(n: usize) -> (s: String)
    ensures
        s@ == decimal(n as int),
{
    u64_text(n as u64)
}

/// `prefix` followed by `n` in decimal.
pub fn with_number(prefix: &str, n: i64) -> (r: String)
    ensures
        r@ == prefix@ + decimal(n as int),
{
    let d = i64_text(n);
    concat(prefix, d.as_str())
}

/// `c` written after `s`, by `String::push`.
#[verifier::external_body]
pub(crate) fn push_char(s: &mut String, c: char)
    ensures
        final(s)@ == old(s)@.push(c),
{
    s.push(c)
}

/// An upper-case hexadecimal digit.
pub open spec fn hex_digit(d: nat) -> char {
    if d == 0 {
        '0'
    } else if d == 1 {
        '1'
    } else if d == 2 {
        '2'
    } else if d == 3 {
        '3'
    } else if d == 4 {
        '4'
    } else if d == 5 {
        '5'
    } else if d == 6 {
        '6'
    } else if d == 7 {
        '7'
    } else if d == 8 {
        '8'
    } else if d == 9 {
        '9'
    } else if d == 10 {
        'A'
    } else if d == 11 {
        'B'
    } else if d == 12 {
        'C'
    } else if d == 13 {
        'D'
    } else if d == 14 {
        'E'
    } else {
        'F'
    }
}

fn hex_digit_char(d: u16) -> (c: char)
    requires
        d < 16,
    ensures
        c == hex_digit(d as nat),
{
    if d == 0 {
        '0'
    } else if d == 1 {
        '1'
    } else if d == 2 {
        '2'
    } else if d == 3 {
        '3'
    } else if d == 4 {
        '4'
    } else if d == 5 {
        '5'
    } else if d == 6 {
        '6'
    } else if d == 7 {
        '7'
    } else if d == 8 {
        '8'
    } else if d == 9 {
        '9'
    } else if d == 10 {
        'A'
    } else if d == 11 {
        'B'
    } else if d == 12 {
        'C'
    } else if d == 13 {
        'D'
    } else if d == 14 {
        'E'
    } else {
        'F'
    }
}

/// A 16-bit value as `{:#010X}` writes it: `0x`, then eight upper-case
/// hexadecimal digits, zero-padded.
pub open spec fn hex_u16_text(v: u16) -> Seq<char> {
    "0x0000"@ + seq![
        hex_digit((v / 4096) as nat),
        hex_digit((v / 256 % 16) as nat),
        hex_digit((v / 16 % 16) as nat),
        hex_digit((v % 16) as nat),
    ]
}

/// Writes a 16-bit value as `0x` and eight upper-case hexadecimal digits.
pub fn hex_u16(v: u16) -> (s: String)
    ensures
        s@ == hex_u16_text(v),
{
    let mut s = owned("0x0000");
    push_char(&mut s, hex_digit_char(v / 4096));
    push_char(&mut s, hex_digit_char(v / 256 % 16));
    push_char(&mut s, hex_digit_char(v / 16 % 16));
    push_char(&mut s, hex_digit_char(v % 16));
    s
}

/// The bytes in decimal with `, ` between them.
pub open spec fn bytes_text(v: Seq<u8>) -> Seq<char>
    decreases v.len(),
{
    if v.len() == 0 {
        Seq::empty()
    } else if v.len() == 1 {
        decimal(v[0] as int)
    } else {
        bytes_text(v.drop_last()) + ", "@ + decimal(v.last() as int)
    }
}

/// The bytes as a list, as `{:?}` writes it: in brackets, in decimal,
/// with `, ` between them.
pub fn bytes_list(v: &[u8]) -> (s: String)
    ensures
        s@ == "["@ + bytes_text(v@) + "]"@,
{
    let mut s = owned("[");
    let mut i: usize = 0;
    while i < v.len()
        invariant
            i <= v@.len(),
            s@ == "["@ + bytes_text(v@.take(i as int)),
        decreases v@.len() - i,
    {
        proof {
            assert(v@.take(i + 1).drop_last() =~= v@.take(i as int));
        }
        if i > 0 {
            push_str(&mut s, ", ");
        }
        let d = i64_text(v[i] as i64);
        push_str(&mut s, d.as_str());
        proof {
            if i == 0 {
                assert(v@.take(1) =~= seq![v@[0]]);
            }
        }
        i = i + 1;
    }
    assert(v@.take(i as int) =~= v@);
    push_str(&mut s, "]");
    s
}

} // verus!

//! Character-level helpers shared across the crate: decimal rendering of
//! integers, lexicographic ordering of strings, and the ASCII character
//! classes used by the header normalizer.

use vstd::prelude::*;
use vstd::string::*;

verus! {

/// Appends one character to a string.
///
/// Relies on `String::push`: pushes exactly the given character onto the end
/// of the string.
#[verifier::external_body]
pub fn push_char(s: &mut String, c: char)
    ensures
        final(s)@ == old(s)@.push(c),
{
    s.push(c);
}

// ---------------------------------------------------------------------------
// ASCII character classes
// ---------------------------------------------------------------------------

pub open spec fn is_ascii_lower_alpha(c: char) -> bool {
    97 <= c as u32 && c as u32 <= 122
}

pub open spec fn is_ascii_upper_alpha(c: char) -> bool {
    65 <= c as u32 && c as u32 <= 90
}

pub open spec fn is_decimal_digit(c: char) -> bool {
    48 <= c as u32 && c as u32 <= 57
}

/// Characters allowed in a normalized identifier: lower-case ASCII letters,
/// decimal digits and underscore.
pub open spec fn is_identifier_char(c: char) -> bool {
    is_ascii_lower_alpha(c) || is_decimal_digit(c) || c == '_'
}

/// How the header normalizer maps one character: upper-case ASCII letters
/// are lowered, identifier characters are kept, everything else — including
/// every non-ASCII character, letters among them — becomes an underscore.
/// The normalizer is deliberately ASCII-only: names must be valid store
/// identifiers without quoting, which only `[a-z][a-z0-9_]*` guarantees.
pub open spec fn spec_normalize_char(c: char) -> char {
    if is_ascii_upper_alpha(c) {
        ((c as u32) + 32) as char
    } else if is_identifier_char(c) {
        c
    } else {
        '_'
    }
}

pub fn normalize_char(c: char) -> (r: char)
    ensures
        r == spec_normalize_char(c),
{
    let v = c as u32;
    if 65 <= v && v <= 90 {
        let b = (c as u8) + 32;
        b as char
    } else if (97 <= v && v <= 122) || (48 <= v && v <= 57) || c == '_' {
        c
    } else {
        '_'
    }
}

pub fn is_identifier_char_exec(c: char) -> (r: bool)
    ensures
        r == is_identifier_char(c),
{
    let v = c as u32;
    (97 <= v && v <= 122) || (48 <= v && v <= 57) || c == '_'
}

// ---------------------------------------------------------------------------
// Decimal rendering
// ---------------------------------------------------------------------------

pub open spec fn spec_digit_char(d: int) -> char {
    if d == 0 {
        '0'
    } else if d == 1 {
        '1'
    } else if d == 2 {
        '2'
    } else if d == 3 {
        '3'
    } else if d == 4 {
        '4'
    } else if d == 5 {
        '5'
    } else if d == 6 {
        '6'
    } else if d == 7 {
        '7'
    } else if d == 8 {
        '8'
    } else {
        '9'
    }
}

/// Decimal rendering of a natural number, most significant digit first.
pub open spec fn spec_u64_dec(n: nat) -> Seq<char>
    decreases n,
{
    if n < 10 {
        seq![spec_digit_char(n as int)]
    } else {
        spec_u64_dec(n / 10).push(spec_digit_char((n % 10) as int))
    }
}

/// Decimal rendering of a signed number: a minus sign before the magnitude
/// when negative.
pub open spec fn spec_i64_dec(n: int) -> Seq<char> {
    if n >= 0 {
        spec_u64_dec(n as nat)
    } else {
        seq!['-'] + spec_u64_dec((-n) as nat)
    }
}

pub fn digit_to_char(d: u64) -> (c: char)
    requires
        d < 10,
    ensures
        c == spec_digit_char(d as int),
{
    if d == 0 {
        '0'
    } else if d == 1 {
        '1'
    } else if d == 2 {
        '2'
    } else if d == 3 {
        '3'
    } else if d == 4 {
        '4'
    } else if d == 5 {
        '5'
    } else if d == 6 {
        '6'
    } else if d == 7 {
        '7'
    } else if d == 8 {
        '8'
    } else {
        '9'
    }
}

pub fn u64_to_string(n: u64) -> (s: String)
    ensures
        s@ == spec_u64_dec(n as nat),
    decreases n,
{
    let d = digit_to_char(n % 10);
    if n < 10 {
        let mut s = String::new();
        push_char(&mut s, d);
        assert(s@ =~= spec_u64_dec(n as nat));
        s
    } else {
        let mut s = u64_to_string(n / 10);
        push_char(&mut s, d);
        s
    }
}

pub fn usize_to_string(n: usize) -> (s: String)
    ensures
        s@ == spec_u64_dec(n as nat),
{
    u64_to_string(n as u64)
}

pub fn i64_to_string(n: i64) -> (s: String)
    ensures
        s@ == spec_i64_dec(n as int),
{
    if n >= 0 {
        u64_to_string(n as u64)
    } else {
        let mag: u64 = if n == i64::MIN {
            9223372036854775808u64
        } else {
            (-n) as u64
        };
        assert(mag as nat == (-(n as int)) as nat);
        let mut s = String::new();
        push_char(&mut s, '-');
        let digits = u64_to_string(mag);
        s.append(digits.as_str());
        assert(s@ =~= spec_i64_dec(n as int));
        s
    }
}

pub proof fn lemma_u64_dec_len_pos(n: nat)
    ensures
        spec_u64_dec(n).len() >= 1,
    decreases n,
{
    if n >= 10 {
        lemma_u64_dec_len_pos(n / 10);
    }
}

/// Distinct numbers have distinct decimal renderings.
pub proof fn lemma_u64_dec_injective(a: nat, b: nat)
    ensures
        spec_u64_dec(a) == spec_u64_dec(b) ==> a == b,
    decreases a + b,
{
    if spec_u64_dec(a) == spec_u64_dec(b) {
        if a < 10 && b < 10 {
            assert(spec_u64_dec(a)[0] == spec_digit_char(a as int));
            assert(spec_u64_dec(b)[0] == spec_digit_char(b as int));
        } else if a < 10 && b >= 10 {
            lemma_u64_dec_len_pos(b / 10);
            assert(spec_u64_dec(b).len() >= 2);
        } else if a >= 10 && b < 10 {
            lemma_u64_dec_len_pos(a / 10);
            assert(spec_u64_dec(a).len() >= 2);
        } else {
            let pa = spec_u64_dec(a / 10);
            let pb = spec_u64_dec(b / 10);
            assert(pa.push(spec_digit_char((a % 10) as int)) == pb.push(
                spec_digit_char((b % 10) as int),
            ));
            assert(pa.push(spec_digit_char((a % 10) as int)).last() == spec_digit_char(
                (a % 10) as int,
            ));
            assert(spec_digit_char((a % 10) as int) == spec_digit_char((b % 10) as int));
            assert(a % 10 == b % 10);
            assert(pa =~= pa.push(spec_digit_char((a % 10) as int)).drop_last());
            assert(pb =~= pb.push(spec_digit_char((b % 10) as int)).drop_last());
            assert(pa == pb);
            lemma_u64_dec_injective(a / 10, b / 10);
        }
    }
}

// ---------------------------------------------------------------------------
// Lexicographic order on strings
// ---------------------------------------------------------------------------

/// Strict lexicographic order over character sequences, by code point. This
/// coincides with Rust's `str` ordering, since UTF-8 byte order preserves
/// code-point order.
pub open spec fn str_lt_spec(a: Seq<char>, b: Seq<char>) -> bool
    decreases a.len(),
{
    if b.len() == 0 {
        false
    } else if a.len() == 0 {
        true
    } else if a[0] < b[0] {
        true
    } else if a[0] == b[0] {
        str_lt_spec(a.drop_first(), b.drop_first())
    } else {
        false
    }
}

pub proof fn lemma_str_lt_trichotomy(a: Seq<char>, b: Seq<char>)
    ensures
        str_lt_spec(a, b) || a == b || str_lt_spec(b, a),
        str_lt_spec(a, b) ==> a != b && !str_lt_spec(b, a),
        a == b ==> !str_lt_spec(a, b) && !str_lt_spec(b, a),
    decreases a.len() + b.len(),
{
    if a.len() == 0 && b.len() == 0 {
        assert(a =~= b);
    } else if a.len() > 0 && b.len() > 0 {
        if a[0] == b[0] {
            lemma_str_lt_trichotomy(a.drop_first(), b.drop_first());
            if a.drop_first() == b.drop_first() {
                assert forall|i: int| 0 <= i < a.len() implies a[i] == b[i] by {
                    if i >= 1 {
                        assert(a[i] == a.drop_first()[i - 1]);
                        assert(b[i] == b.drop_first()[i - 1]);
                    }
                }
                assert(a =~= b);
            }
            if a == b {
                assert(a.drop_first() =~= b.drop_first());
            }
        } else {
            assert(a != b);
        }
    }
}

pub proof fn lemma_str_lt_transitive(a: Seq<char>, b: Seq<char>, c: Seq<char>)
    ensures
        str_lt_spec(a, b) && str_lt_spec(b, c) ==> str_lt_spec(a, c),
    decreases a.len() + b.len() + c.len(),
{
    if str_lt_spec(a, b) && str_lt_spec(b, c) {
        if a.len() > 0 && b.len() > 0 && c.len() > 0 {
            if a[0] == b[0] && b[0] == c[0] {
                lemma_str_lt_transitive(a.drop_first(), b.drop_first(), c.drop_first());
            }
        }
    }
}

/// Step lemma: dropping equal first characters preserves the order.
pub proof fn lemma_str_lt_step(a: Seq<char>, b: Seq<char>)
    requires
        a.len() > 0,
        b.len() > 0,
        a[0] == b[0],
    ensures
        str_lt_spec(a, b) == str_lt_spec(a.drop_first(), b.drop_first()),
{
}

pub fn str_lt(a: &str, b: &str) -> (r: bool)
    ensures
        r == str_lt_spec(a@, b@),
{
    let alen = a.unicode_len();
    let blen = b.unicode_len();
    let mut i: usize = 0;
    proof {
        assert(a@.skip(0) =~= a@);
        assert(b@.skip(0) =~= b@);
    }
    while i < alen && i < blen
        invariant
            i <= alen,
            i <= blen,
            alen == a@.len(),
            blen == b@.len(),
            str_lt_spec(a@, b@) == str_lt_spec(a@.skip(i as int), b@.skip(i as int)),
        decreases alen - i,
    {
        let ca = a.get_char(i);
        let cb = b.get_char(i);
        if ca < cb {
            assert(a@.skip(i as int)[0] == ca);
            assert(b@.skip(i as int)[0] == cb);
            return true;
        } else if cb < ca {
            assert(a@.skip(i as int)[0] == ca);
            assert(b@.skip(i as int)[0] == cb);
            assert(!str_lt_spec(a@.skip(i as int), b@.skip(i as int)));
            return false;
        } else {
            assert(ca == cb);
            proof {
                lemma_str_lt_step(a@.skip(i as int), b@.skip(i as int));
                assert(a@.skip(i as int).drop_first() =~= a@.skip(i + 1));
                assert(b@.skip(i as int).drop_first() =~= b@.skip(i + 1));
            }
            i = i + 1;
        }
    }
    assert(i >= alen || i >= blen);
    if alen < blen {
        assert(a@.skip(i as int).len() == 0);
        assert(b@.skip(i as int).len() > 0);
        true
    } else {
        assert(b@.skip(i as int).len() == 0);
        false
    }
}

pub fn str_eq(a: &str, b: &str) -> (r: bool)
    ensures
        r == (a@ == b@),
{
    let alen = a.unicode_len();
    let blen = b.unicode_len();
    if alen != blen {
        return false;
    }
    let mut i: usize = 0;
    while i < alen
        invariant
            i <= alen,
            alen == a@.len(),
            alen == b@.len(),
            forall|j: int| 0 <= j < i ==> a@[j] == b@[j],
        decreases alen - i,
    {
        let ca = a.get_char(i);
        let cb = b.get_char(i);
        if ca != cb {
            return false;
        }
        i = i + 1;
    }
    proof {
        assert(a@ =~= b@);
    }
    true
}

/// Whether a vector of strings holds a string with the given view.
pub fn contains_string(v: &Vec<String>, s: &String) -> (r: bool)
    ensures
        r == v@.map_values(|t: String| t@).contains(s@),
{
    let ghost views = v@.map_values(|t: String| t@);
    let mut i: usize = 0;
    while i < v.len()
        invariant
            i <= v.len(),
            views == v@.map_values(|t: String| t@),
            forall|j: int| 0 <= j < i ==> views[j] != s@,
        decreases v.len() - i,
    {
        if str_eq(v[i].as_str(), s.as_str()) {
            assert(views[i as int] == s@);
            return true;
        }
        i = i + 1;
    }
    false
}

} // verus!

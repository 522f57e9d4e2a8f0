//! Plain-text rendering helpers shared by the scope model and the
//! diagnostic messages: decimal rendering of counters.

use vstd::prelude::*;
use vstd::string::StringExecFns;
use vstd::string::StrSliceExecFns;

verus! {

/// The character for one decimal digit.
pub open spec fn digit_char(d: nat) -> char {
    if d == 0 {
        '0'
    } else if d == 1 {
        '1'
    } else if d == 2 {
        '2'
    } else if d == 3 {
        '3'
    } else if d == 4 {
        '4'
    } else if d == 5 {
        '5'
    } else if d == 6 {
        '6'
    } else if d == 7 {
        '7'
    } else if d == 8 {
        '8'
    } else {
        '9'
    }
}

/// Decimal rendering of a natural number, most significant digit first,
/// with no leading zeros (a single zero renders as "0").
pub open spec fn spec_decimal(n: nat) -> Seq<char>
    decreases n,
{
    if n < 10 {
        seq![digit_char(n)]
    } else {
        spec_decimal(n / 10) + seq![digit_char(n % 10)]
    }
}

/// A decimal rendering is never empty.
pub proof fn lemma_decimal_nonempty(n: nat)
    ensures
        spec_decimal(n).len() >= 1,
    decreases n,
{
    if n >= 10 {
        lemma_decimal_nonempty(n / 10);
    }
}

fn digit_str(d: u64) -> (r: &'static str)
    requires
        d < 10,
    ensures
        r@ == seq![digit_char(d as nat)],
{
    proof {
        reveal_strlit("0");
        reveal_strlit("1");
        reveal_strlit("2");
        reveal_strlit("3");
        reveal_strlit("4");
        reveal_strlit("5");
        reveal_strlit("6");
        reveal_strlit("7");
        reveal_strlit("8");
        reveal_strlit("9");
    }
    match d {
        0 => "0",
        1 => "1",
        2 => "2",
        3 => "3",
        4 => "4",
        5 => "5",
        6 => "6",
        7 => "7",
        8 => "8",
        _ => "9",
    }
}

/// Renders a counter in decimal.
pub fn u64_to_string(n: u64) -> (r: String)
    ensures
        r@ == spec_decimal(n as nat),
    decreases n,
{
    if n < 10 {
        digit_str(n).to_owned()
    } else {
        let mut s = u64_to_string(n / 10);
        s.append(digit_str(n % 10));
        s
    }
}

/// Relies on `String::push` of std, which vstd gives no specification:
/// it appends exactly the given character to the string.
#[verifier::external_body]
pub fn push_char(s: &mut String, c: char)
    ensures
        final(s)@ == old(s)@ + seq![c],
{
    s.push(c);
}

/// Decimal rendering of a signed integer.
pub open spec fn spec_int_text(v: int) -> Seq<char> {
    if v < 0 {
        "-"@ + spec_decimal((-v) as nat)
    } else {
        spec_decimal(v as nat)
    }
}

/// Renders a signed integer in decimal.
pub fn i64_to_string(n: i64) -> (r: String)
    ensures
        r@ == spec_int_text(n as int),
{
    if n < 0 {
        let magnitude: u64 = if n == i64::MIN {
            9223372036854775808u64
        } else {
            (-n) as u64
        };
        let mut r = "-".to_owned();
        let d = u64_to_string(magnitude);
        r.append(d.as_str());
        r
    } else {
        u64_to_string(n as u64)
    }
}

/// Whether two string slices hold the same characters.
pub fn str_eq(a: &str, b: &str) -> (r: bool)
    ensures
        r == (a@ == b@),
{
    let sa = a.to_owned();
    let sb = b.to_owned();
    sa == sb
}

/// Lexicographic order on character sequences, by code point.
pub open spec fn spec_chars_lt(a: Seq<char>, b: Seq<char>) -> bool
    decreases a.len(),
{
    if b.len() == 0 {
        false
    } else if a.len() == 0 {
        true
    } else if (a[0] as u32) < (b[0] as u32) {
        true
    } else if (a[0] as u32) > (b[0] as u32) {
        false
    } else {
        spec_chars_lt(a.skip(1), b.skip(1))
    }
}

/// Compares two strings lexicographically by code point.
pub fn str_chars_lt(a: &str, b: &str) -> (r: bool)
    ensures
        r == spec_chars_lt(a@, b@),
{
    let an = a.unicode_len();
    let bn = b.unicode_len();
    proof {
        assert(a@.skip(0) =~= a@);
        assert(b@.skip(0) =~= b@);
    }
    chars_lt_from(a, b, 0, an, bn)
}

fn chars_lt_from(a: &str, b: &str, i: usize, an: usize, bn: usize) -> (r: bool)
    requires
        an == a@.len(),
        bn == b@.len(),
        i <= an,
        i <= bn,
    ensures
        r == spec_chars_lt(a@.skip(i as int), b@.skip(i as int)),
    decreases an - i,
{
    if bn == i {
        false
    } else if an == i {
        true
    } else {
        proof {
            assert(a@.skip(i as int)[0] == a@[i as int]);
            assert(b@.skip(i as int)[0] == b@[i as int]);
        }
        let ca = a.get_char(i);
        let cb = b.get_char(i);
        if (ca as u32) < (cb as u32) {
            true
        } else if (ca as u32) > (cb as u32) {
            false
        } else {
            proof {
                assert(a@.skip(i as int).skip(1) =~= a@.skip(i as int + 1));
                assert(b@.skip(i as int).skip(1) =~= b@.skip(i as int + 1));
            }
            chars_lt_from(a, b, i + 1, an, bn)
        }
    }
}

} // verus!

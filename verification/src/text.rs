//! Decimal text rendering.
//!
//! Token identifiers and log lines carry decimal numbers rendered as text.
//! The functions here build those strings and are specified against
//! [`dec_str`], the mathematical decimal representation of a number.

use vstd::prelude::*;
use vstd::string::StringExecFns;

verus! {

/// The character for a single decimal digit value.
pub open spec fn dec_digit_char(d: int) -> char {
    if d == 0 {
        '0'
    } else if d == 1 {
        '1'
    } else if d == 2 {
        '2'
    } else if d == 3 {
        '3'
    } else if d == 4 {
        '4'
    } else if d == 5 {
        '5'
    } else if d == 6 {
        '6'
    } else if d == 7 {
        '7'
    } else if d == 8 {
        '8'
    } else {
        '9'
    }
}

/// Decimal representation of a non-negative integer, most significant digit
/// first, without leading zeroes (a single `'0'` for zero).
pub open spec fn dec_str(n: int) -> Seq<char>
    decreases n,
{
    if n < 10 {
        seq![dec_digit_char(n)]
    } else {
        dec_str(n / 10).push(dec_digit_char(n % 10))
    }
}

/// `s` left-padded with `'0'` up to width `w`.
pub open spec fn zero_pad(s: Seq<char>, w: int) -> Seq<char> {
    if s.len() >= w {
        s
    } else {
        Seq::new((w - s.len()) as nat, |i: int| '0') + s
    }
}

/// Relies on `String::push`: appends exactly the given character to the end
/// of the string.
#[verifier::external_body]
pub(crate) fn push_char(s: &mut String, c: char)
    ensures
        final(s)@ == old(s)@ + seq![c],
{
    s.push(c)
}

/// The character for one decimal digit.
fn dec_digit(d: u64) -> (c: char)
    requires
        d < 10,
    ensures
        c == dec_digit_char(d as int),
{
    if d == 0 {
        '0'
    } else if d == 1 {
        '1'
    } else if d == 2 {
        '2'
    } else if d == 3 {
        '3'
    } else if d == 4 {
        '4'
    } else if d == 5 {
        '5'
    } else if d == 6 {
        '6'
    } else if d == 7 {
        '7'
    } else if d == 8 {
        '8'
    } else {
        '9'
    }
}

/// Renders a number in decimal.
pub fn u64_to_dec_string(n: u64) -> (s: String)
    ensures
        s@ == dec_str(n as int),
    decreases n,
{
    if n < 10 {
        let mut s = String::new();
        push_char(&mut s, dec_digit(n));
        proof {
            assert(s@ =~= dec_str(n as int));
        }
        s
    } else {
        let mut s = u64_to_dec_string(n / 10);
        push_char(&mut s, dec_digit(n % 10));
        proof {
            assert(s@ =~= dec_str(n as int));
        }
        s
    }
}

/// How many characters the decimal representation has, for small widths.
pub proof fn lemma_dec_str_len(n: int)
    requires
        0 <= n,
    ensures
        1 <= dec_str(n).len(),
        (dec_str(n).len() == 1) == (n < 10),
        (dec_str(n).len() <= 2) == (n < 100),
        (dec_str(n).len() <= 3) == (n < 1000),
        (dec_str(n).len() <= 4) == (n < 10000),
    decreases n,
{
    if n >= 10 {
        lemma_dec_str_len(n / 10);
    }
}

/// The text form of an ownership-token identifier: two literal zeroes
/// followed by the identifier, zero-padded to at least four digits.
pub open spec fn token_id_str(n: int) -> Seq<char> {
    seq!['0', '0'] + zero_pad(dec_str(n), 4)
}

/// Renders an ownership-token identifier as text.
#[allow(non_snake_case)]
pub fn tokenId2Str(tokenId: u64) -> (s: String)
    ensures
        s@ == token_id_str(tokenId as int),
{
    let mut s = String::new();
    push_char(&mut s, '0');
    push_char(&mut s, '0');
    if tokenId < 10 {
        push_char(&mut s, '0');
        push_char(&mut s, '0');
        push_char(&mut s, '0');
    } else if tokenId < 100 {
        push_char(&mut s, '0');
        push_char(&mut s, '0');
    } else if tokenId < 1000 {
        push_char(&mut s, '0');
    }
    let d = u64_to_dec_string(tokenId);
    s.append(d.as_str());
    proof {
        lemma_dec_str_len(tokenId as int);
        assert(s@ =~= token_id_str(tokenId as int));
    }
    s
}

/// The media address attached to an ownership token: a fixed gallery prefix,
/// a four-digit picture number derived from the token identifier, and the
/// image suffix.
pub open spec fn token_id_url(n: int) -> Seq<char> {
    "https://img.mork.work/lj/"@ + zero_pad(dec_str(n % 1000 + 819), 4) + ".jpg"@
}

/// Renders the media address for an ownership token.
#[allow(non_snake_case)]
pub fn tokenId2URL(tokenId: u64) -> (s: String)
    ensures
        s@ == token_id_url(tokenId as int),
{
    let mut s = String::from_str("https://img.mork.work/lj/");
    let m: u64 = tokenId % 1000 + 819;
    if m < 1000 {
        push_char(&mut s, '0');
    }
    let d = u64_to_dec_string(m);
    s.append(d.as_str());
    s.append(".jpg");
    proof {
        lemma_dec_str_len(m as int);
        assert(s@ =~= token_id_url(tokenId as int));
    }
    s
}

/// The fractional digits of a milli-unit remainder, trailing zeroes
/// trimmed: one, two or three digits.
pub open spec fn milli_frac_str(f: int) -> Seq<char> {
    let padded = zero_pad(dec_str(f), 3);
    if f % 100 == 0 {
        padded.take(1)
    } else if f % 10 == 0 {
        padded.take(2)
    } else {
        padded
    }
}

/// A milli-unit amount rendered as a plain decimal: the whole units, and
/// the fractional part with trailing zeroes trimmed when there is one.
pub open spec fn milli_dec_str(m: int) -> Seq<char> {
    if m % 1000 == 0 {
        dec_str(m / 1000)
    } else {
        dec_str(m / 1000) + seq!['.'] + milli_frac_str(m % 1000)
    }
}

/// Renders a milli-unit amount as a plain decimal.
pub fn milli_to_dec_string(m: u64) -> (s: String)
    ensures
        s@ == milli_dec_str(m as int),
{
    let units = m / 1000;
    let f = m % 1000;
    let mut s = u64_to_dec_string(units);
    if f != 0 {
        proof {
            reveal_with_fuel(dec_str, 4);
            lemma_dec_str_len(f as int);
            if f >= 100 {
                vstd::arithmetic::div_mod::lemma_div_denominator(f as int, 10, 10);
            }
            assert(zero_pad(dec_str(f as int), 3) =~= seq![
                dec_digit_char(f as int / 100),
                dec_digit_char((f as int / 10) % 10),
                dec_digit_char(f as int % 10),
            ]);
        }
        push_char(&mut s, '.');
        push_char(&mut s, dec_digit(f / 100));
        if f % 100 != 0 {
            push_char(&mut s, dec_digit((f / 10) % 10));
            if f % 10 != 0 {
                push_char(&mut s, dec_digit(f % 10));
            }
        }
        proof {
            assert(s@ =~= milli_dec_str(m as int));
        }
    }
    s
}

/// A diagnostic line reporting how much gas an operation has burned so far,
/// in billions of gas units.
pub open spec fn gas_log_line(msg: Seq<char>, gas: int) -> Seq<char> {
    msg + "gasUsed: "@ + dec_str(gas / 1_000_000_000) + " G "@
}

/// Formats the gas-usage diagnostic line for a measured amount of burned gas.
#[allow(non_snake_case)]
pub fn gas_log(msg: &str, gasUsed: u64) -> (s: String)
    ensures
        s@ == gas_log_line(msg@, gasUsed as int),
{
    let mut s = String::from_str(msg);
    s.append("gasUsed: ");
    let d = u64_to_dec_string(gasUsed / 1_000_000_000);
    s.append(d.as_str());
    s.append(" G ");
    proof {
        assert(s@ =~= gas_log_line(msg@, gasUsed as int));
    }
    s
}

} // verus!

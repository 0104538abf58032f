//! Parsing of numeric fields and colon-delimited messages.
//!
//! The transfer listener receives operations encoded as colon-delimited
//! text. The functions here split such a message into its fields and read
//! unsigned integers and plain decimal amounts out of them, each specified
//! exactly: a parser returns a value if and only if the field has the
//! stated shape and the value fits the stated bound.

use vstd::prelude::*;
use vstd::string::StrSliceExecFns;
use crate::money::MAX_AMOUNT;

verus! {

/// Is `c` a decimal digit?
pub open spec fn is_digit(c: char) -> bool {
    '0' <= c && c <= '9'
}

/// Numeric value of a digit character.
pub open spec fn digit_val(c: char) -> int {
    c as int - '0' as int
}

/// Every character is a decimal digit.
pub open spec fn all_digits(s: Seq<char>) -> bool {
    forall|i: int| 0 <= i < s.len() ==> is_digit(#[trigger] s[i])
}

/// Value of a digit string read in base ten (zero when empty).
pub open spec fn dec_val(s: Seq<char>) -> int
    decreases s.len(),
{
    if s.len() == 0 {
        0
    } else {
        dec_val(s.drop_last()) * 10 + digit_val(s.last())
    }
}

/// A digit string never reads as a negative value.
pub proof fn lemma_dec_val_nonneg(s: Seq<char>)
    requires
        all_digits(s),
    ensures
        dec_val(s) >= 0,
    decreases s.len(),
{
    if s.len() > 0 {
        assert(all_digits(s.drop_last()));
        lemma_dec_val_nonneg(s.drop_last());
    }
}

/// Reading a longer prefix of a digit string never lowers the value.
pub proof fn lemma_dec_val_prefix_le(s: Seq<char>, i: int)
    requires
        all_digits(s),
        0 <= i <= s.len(),
    ensures
        dec_val(s.take(i)) <= dec_val(s),
    decreases s.len() - i,
{
    if i < s.len() {
        let t = s.take(i + 1);
        assert(t.drop_last() =~= s.take(i));
        assert(all_digits(s.take(i)));
        lemma_dec_val_nonneg(s.take(i));
        assert(dec_val(t) == dec_val(s.take(i)) * 10 + digit_val(s[i]));
        lemma_dec_val_prefix_le(s, i + 1);
    } else {
        assert(s.take(i) =~= s);
    }
}

/// Reads an unsigned integer out of a decimal digit string.
pub fn parse_u64(s: &str) -> (r: Option<u64>)
    ensures
        r.is_some() <==> s@.len() > 0 && all_digits(s@) && dec_val(s@) <= u64::MAX,
        r matches Some(v) ==> v as int == dec_val(s@),
{
    let n = s.unicode_len();
    if n == 0 {
        return None;
    }
    let mut acc: u64 = 0;
    let mut i: usize = 0;
    while i < n
        invariant
            0 <= i <= n,
            n == s@.len(),
            all_digits(s@.take(i as int)),
            acc as int == dec_val(s@.take(i as int)),
        decreases n - i,
    {
        let c = s.get_char(i);
        let cv: u32 = c as u32;
        if cv < 48 || cv > 57 {
            assert(!is_digit(s@[i as int]));
            return None;
        }
        let d: u64 = (cv - 48) as u64;
        assert(is_digit(s@[i as int]) && d as int == digit_val(s@[i as int]));
        proof {
            assert(s@.take(i + 1).drop_last() =~= s@.take(i as int));
        }
        if acc > (u64::MAX - d) / 10 {
            proof {
                let m = (u64::MAX - d) as int;
                assert(m == m / 10 * 10 + m % 10);
                assert(acc as int * 10 + d >= (m / 10 + 1) * 10 + d > u64::MAX);
                assert(dec_val(s@.take(i + 1)) > u64::MAX);
                if all_digits(s@) {
                    lemma_dec_val_prefix_le(s@, i + 1);
                }
            }
            return None;
        }
        proof {
            assert(acc as int * 10 + d <= ((u64::MAX - d) / 10) * 10 + d <= u64::MAX);
        }
        acc = acc * 10 + d;
        i = i + 1;
    }
    proof {
        assert(s@.take(n as int) =~= s@);
    }
    Some(acc)
}

/// Index of the first occurrence of `c` in `s`, or the length when absent.
pub open spec fn find_char(s: Seq<char>, c: char) -> int
    decreases s.len(),
{
    if s.len() == 0 {
        0
    } else if s[0] == c {
        0
    } else {
        1 + find_char(s.drop_first(), c)
    }
}

/// What [`find_char`] returns: the position of the first occurrence, with
/// nothing equal before it, or the length when the character is absent.
pub proof fn lemma_find_char(s: Seq<char>, c: char)
    ensures
        0 <= find_char(s, c) <= s.len(),
        find_char(s, c) < s.len() ==> s[find_char(s, c)] == c,
        forall|i: int| 0 <= i < find_char(s, c) ==> s[i] != c,
    decreases s.len(),
{
    if s.len() > 0 && s[0] != c {
        lemma_find_char(s.drop_first(), c);
        assert forall|i: int| 0 <= i < find_char(s, c) implies s[i] != c by {
            if i > 0 {
                assert(s.drop_first()[i - 1] == s[i]);
            }
        }
    }
}

/// A position with no occurrence before it and an occurrence (or the end)
/// at it is what [`find_char`] returns.
pub proof fn lemma_find_char_is(s: Seq<char>, c: char, k: int)
    requires
        0 <= k <= s.len(),
        forall|i: int| 0 <= i < k ==> s[i] != c,
        k == s.len() || s[k] == c,
    ensures
        find_char(s, c) == k,
    decreases s.len(),
{
    if s.len() > 0 && s[0] != c {
        assert forall|i: int| 0 <= i < k - 1 implies s.drop_first()[i] != c by {
            assert(s.drop_first()[i] == s[i + 1]);
        }
        assert(k - 1 == s.drop_first().len() || (k >= 1 && s.drop_first()[k - 1] == c));
        lemma_find_char_is(s.drop_first(), c, k - 1);
    }
}

/// The colon-separated fields of a message, in order; a trailing colon
/// yields a final empty field, and a message without colons is one field.
pub open spec fn split_fields(s: Seq<char>) -> Seq<Seq<char>>
    decreases s.len(),
    via split_fields_decreases
{
    let d = find_char(s, ':');
    if d == s.len() {
        seq![s]
    } else {
        seq![s.take(d)] + split_fields(s.skip(d + 1))
    }
}

#[via_fn]
proof fn split_fields_decreases(s: Seq<char>) {
    lemma_find_char(s, ':');
}

/// Scans forward from `start` for the first occurrence of `c`, returning
/// its position, or the length of the string when it does not occur.
fn scan_for(s: &str, start: usize, c: char) -> (e: usize)
    requires
        start <= s@.len(),
    ensures
        start <= e <= s@.len(),
        forall|j: int| start <= j < e ==> s@[j] != c,
        e < s@.len() ==> s@[e as int] == c,
{
    let n = s.unicode_len();
    let mut e: usize = start;
    loop
        invariant
            start <= e <= n,
            n == s@.len(),
            forall|j: int| start <= j < e ==> s@[j] != c,
        decreases n - e,
    {
        if e == n {
            return e;
        }
        let ch = s.get_char(e);
        if ch == c {
            return e;
        }
        e = e + 1;
    }
}

/// Splits a message at every colon.
pub fn split_colons(s: &str) -> (parts: Vec<String>)
    ensures
        parts@.map_values(|p: String| p@) == split_fields(s@),
{
    let n = s.unicode_len();
    let mut parts: Vec<String> = Vec::new();
    let mut start: usize = 0;
    proof {
        assert(s@.skip(0) =~= s@);
        assert(parts@.map_values(|p: String| p@) =~= Seq::<Seq<char>>::empty());
    }
    loop
        invariant_except_break
            0 <= start <= n,
            n == s@.len(),
            split_fields(s@) =~= parts@.map_values(|p: String| p@) + split_fields(
                s@.skip(start as int),
            ),
        ensures
            parts@.map_values(|p: String| p@) =~= split_fields(s@),
        decreases n - start,
    {
        let ghost rest = s@.skip(start as int);
        let e = scan_for(s, start, ':');
        proof {
            assert forall|i: int| 0 <= i < e - start implies rest[i] != ':' by {
                assert(rest[i] == s@[start + i]);
            }
            if e < n {
                assert(rest[e - start] == s@[e as int]);
            }
            lemma_find_char_is(rest, ':', e - start);
        }
        let piece = s.substring_char(start, e);
        let part = piece.to_owned();
        proof {
            assert(part@ =~= rest.take(e - start));
        }
        let ghost prev = parts@;
        parts.push(part);
        proof {
            assert(parts@.map_values(|p: String| p@) =~= prev.map_values(|p: String| p@).push(
                part@,
            ));
        }
        if e == n {
            proof {
                assert(rest.take(e - start) =~= rest);
                assert(split_fields(rest) =~= seq![rest]);
            }
            break;
        }
        proof {
            assert(rest.skip(e - start + 1) =~= s@.skip(e + 1));
            assert(split_fields(rest) =~= seq![rest.take(e - start)] + split_fields(
                s@.skip(e + 1),
            ));
        }
        start = e + 1;
    }
    parts
}

/// Powers of ten.
pub open spec fn pow10(k: int) -> int
    decreases k,
{
    if k <= 0 {
        1
    } else {
        10 * pow10(k - 1)
    }
}

/// Shape of a plain decimal amount: decimal digits with at most one decimal
/// point and at least one digit. The integer part, the fractional part, or
/// the point itself may be absent.
pub open spec fn decimal_shape(s: Seq<char>) -> bool {
    let d = find_char(s, '.');
    &&& s.len() > 0
    &&& all_digits(s.take(d))
    &&& (d < s.len() ==> all_digits(s.skip(d + 1)))
    &&& (d > 0 || d + 1 < s.len())
}

/// Value of the fractional part in milli-units: the first three fractional
/// digits, scaled; digits past the third are ignored.
pub open spec fn frac_milli(f: Seq<char>) -> int {
    if f.len() >= 3 {
        dec_val(f.take(3))
    } else {
        dec_val(f) * pow10(3 - f.len())
    }
}

/// Value of a plain decimal amount in milli-units, truncated past the third
/// fractional digit.
pub open spec fn milli_val(s: Seq<char>) -> int {
    let d = find_char(s, '.');
    if d == s.len() {
        dec_val(s) * 1000
    } else {
        dec_val(s.take(d)) * 1000 + frac_milli(s.skip(d + 1))
    }
}

/// Reads a plain decimal amount as a count of milli-units, accepting it
/// exactly when it has the decimal shape and fits the engine's amount bound.
pub fn parse_milli(s: &str) -> (r: Option<u64>)
    ensures
        r.is_some() <==> decimal_shape(s@) && milli_val(s@) <= MAX_AMOUNT,
        r matches Some(v) ==> v as int == milli_val(s@),
{
    let n = s.unicode_len();
    if n == 0 {
        return None;
    }
    // Locate the decimal point.
    let d = scan_for(s, 0, '.');
    proof {
        lemma_find_char_is(s@, '.', d as int);
    }
    if d == 0 && n == 1 {
        // The string is a bare decimal point: no digit anywhere.
        return None;
    }
    let ghost ip = s@.take(d as int);
    // Integer part.
    let v_int: u64 = if d == 0 {
        proof {
            assert(ip =~= Seq::<char>::empty());
        }
        0
    } else {
        let int_part = s.substring_char(0, d);
        proof {
            assert(int_part@ =~= ip);
        }
        match parse_u64(int_part) {
            Some(v) => v,
            None => {
                // Either a non-digit spoils the shape, or the integer part
                // alone already exceeds any representable amount.
                proof {
                    if decimal_shape(s@) {
                        assert(all_digits(ip));
                        assert(dec_val(ip) > u64::MAX);
                        lemma_dec_val_nonneg(ip);
                        assert(dec_val(ip) * 1000 >= dec_val(ip) * 1) by (nonlinear_arith)
                            requires
                                dec_val(ip) >= 0,
                        ;
                        if d < n {
                            assert(all_digits(s@.skip(d as int + 1)));
                            lemma_frac_milli_nonneg(s@.skip(d as int + 1));
                        } else {
                            assert(ip =~= s@);
                        }
                        assert(milli_val(s@) > MAX_AMOUNT);
                    }
                }
                return None;
            },
        }
    };
    // Fractional part: validate every digit, value the first three.
    let mut fm: u64 = 0;
    let ghost fp = s@.skip(d as int + 1);
    if d < n {
        let fl = n - (d + 1);
        let mut j: usize = 0;
        while j < fl
            invariant
                0 <= j <= fl,
                n == s@.len(),
                d < n,
                fl == n - (d + 1),
                fp =~= s@.skip(d as int + 1),
                fp.len() == fl,
                find_char(s@, '.') == d as int,
                all_digits(fp.take(j as int)),
                fm as int == (if j >= 3 {
                    dec_val(fp.take(3))
                } else {
                    dec_val(fp.take(j as int))
                }),
                j < 3 ==> (fm as int) < pow10(j as int),
                fm <= 999,
            decreases fl - j,
        {
            proof {
                reveal_with_fuel(pow10, 4);
            }
            let c = s.get_char(d + 1 + j);
            proof {
                assert(fp[j as int] == s@[d + 1 + j]);
            }
            let cv: u32 = c as u32;
            if cv < 48 || cv > 57 {
                assert(!is_digit(fp[j as int]));
                return None;
            }
            proof {
                assert(fp.take(j as int + 1).drop_last() =~= fp.take(j as int));
            }
            if j < 3 {
                let dv: u64 = (cv - 48) as u64;
                fm = fm * 10 + dv;
            }
            j = j + 1;
        }
        proof {
            assert(fp.take(fl as int) =~= fp);
        }
        if fl == 0 {
            proof {
                assert(fp =~= Seq::<char>::empty());
            }
        } else if fl == 1 {
            fm = fm * 100;
        } else if fl == 2 {
            fm = fm * 10;
        }
        proof {
            reveal_with_fuel(pow10, 4);
            assert(fm as int == frac_milli(fp));
            lemma_frac_milli_nonneg(fp);
        }
    }
    proof {
        if d == n {
            assert(ip =~= s@);
        }
        if d < n {
            lemma_frac_milli_nonneg(fp);
        }
        assert(decimal_shape(s@));
        assert(milli_val(s@) == v_int as int * 1000 + fm as int);
    }
    // Total, bounded so every later sum and product stays in range.
    if v_int > MAX_AMOUNT / 1000 {
        proof {
            assert(MAX_AMOUNT as int == (MAX_AMOUNT as int / 1000) * 1000 + MAX_AMOUNT as int
                % 1000);
            assert(v_int as int * 1000 > MAX_AMOUNT);
        }
        return None;
    }
    let total: u64 = v_int * 1000 + fm;
    if total > MAX_AMOUNT {
        return None;
    }
    Some(total)
}

/// The fractional part of a digit string reads as at most 999 milli-units.
proof fn lemma_frac_milli_nonneg(f: Seq<char>)
    requires
        all_digits(f),
    ensures
        0 <= frac_milli(f),
{
    reveal_with_fuel(pow10, 4);
    if f.len() >= 3 {
        assert(all_digits(f.take(3)));
        lemma_dec_val_nonneg(f.take(3));
    } else {
        lemma_dec_val_nonneg(f);
    }
}

} // verus!

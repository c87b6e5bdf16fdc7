//! Characters, decimal numerals, and small string helpers.
//!
//! The Unicode character classes that the lexer consults (`is_whitespace`,
//! `is_alphabetic`, `is_numeric`) are functions of the character alone, but
//! their tables cannot reasonably be restated here; each gets an
//! uninterpreted name and a trusted wrapper around the corresponding `char`
//! method.  Decimal reading and printing of integers, and string equality,
//! are implemented and verified here in full.

use vstd::prelude::*;

verus! {

/// Whether `c` has the Unicode `White_Space` property.
pub uninterp spec fn is_whitespace_char(c: char) -> bool;

/// Whether `c` has the Unicode `Alphabetic` property.
pub uninterp spec fn is_alphabetic_char(c: char) -> bool;

/// Whether `c` has a Unicode numeric general category (`Nd`, `Nl` or `No`).
pub uninterp spec fn is_numeric_char(c: char) -> bool;

/// Relies on `char::is_whitespace`: true exactly for characters with the
/// Unicode `White_Space` property, a function of the character alone.
#[verifier::external_body]
pub(crate) fn char_is_whitespace(c: char) -> (r: bool)
    ensures
        r == is_whitespace_char(c),
{
    c.is_whitespace()
}

/// Relies on `char::is_alphabetic`: true exactly for characters with the
/// Unicode `Alphabetic` property, a function of the character alone.
#[verifier::external_body]
pub(crate) fn char_is_alphabetic(c: char) -> (r: bool)
    ensures
        r == is_alphabetic_char(c),
{
    c.is_alphabetic()
}

/// Relies on `char::is_numeric`: true exactly for characters of a Unicode
/// numeric general category, a function of the character alone.
#[verifier::external_body]
pub(crate) fn char_is_numeric(c: char) -> (r: bool)
    ensures
        r == is_numeric_char(c),
{
    c.is_numeric()
}

/// Relies on `char::is_alphanumeric`, which its documentation defines as
/// `is_alphabetic` or `is_numeric`.
#[verifier::external_body]
pub(crate) fn char_is_alphanumeric(c: char) -> (r: bool)
    ensures
        r == (is_alphabetic_char(c) || is_numeric_char(c)),
{
    c.is_alphanumeric()
}

/// Relies on `String::from_iter` over `Vec<char>`: the resulting string
/// holds exactly the characters of the vector, in order.
#[verifier::external_body]
pub(crate) fn chars_to_string(v: Vec<char>) -> (s: String)
    ensures
        s@ == v@,
{
    String::from_iter(v)
}

/// Character-by-character string equality, decided without any trust.
pub fn str_eq(a: &str, b: &str) -> (r: bool)
    ensures
        r == (a@ == b@),
{
    let n = a.unicode_len();
    if n != b.unicode_len() {
        return false;
    }
    let mut i: usize = 0;
    while i < n
        invariant
            n == a@.len(),
            n == b@.len(),
            i <= n,
            forall|k: int| 0 <= k < i ==> a@[k] == b@[k],
        decreases n - i,
    {
        if a.get_char(i) != b.get_char(i) {
            return false;
        }
        i = i + 1;
    }
    proof {
        assert(a@ =~= b@);
    }
    true
}

/// Whether `c` is an ASCII decimal digit.
pub open spec fn is_dec_digit(c: char) -> bool {
    48 <= c as u32 && c as u32 <= 57
}

/// The numeric value of an ASCII decimal digit.
pub open spec fn digit_val(c: char) -> int {
    c as u32 - 48
}

/// Whether every character of `s` is an ASCII decimal digit.
pub open spec fn all_dec_digits(s: Seq<char>) -> bool {
    forall|i: int| 0 <= i < s.len() ==> is_dec_digit(s[i])
}

/// The value of `s` read as a base-10 numeral.
pub open spec fn dec_val(s: Seq<char>) -> int
    decreases s.len(),
{
    if s.len() == 0 {
        0
    } else {
        dec_val(s.drop_last()) * 10 + digit_val(s.last())
    }
}

/// What `str::parse::<i64>` followed by `unwrap_or(0)` yields on a string of
/// characters that carries no sign: the numeral's value when `s` is made of
/// ASCII digits and fits an `i64`, and `0` otherwise.
pub open spec fn dec_or_zero(s: Seq<char>) -> i64 {
    if all_dec_digits(s) && dec_val(s) <= i64::MAX {
        dec_val(s) as i64
    } else {
        0
    }
}

proof fn lemma_dec_val_nonneg(s: Seq<char>)
    requires
        all_dec_digits(s),
    ensures
        dec_val(s) >= 0,
    decreases s.len(),
{
    if s.len() > 0 {
        assert(all_dec_digits(s.drop_last()));
        lemma_dec_val_nonneg(s.drop_last());
    }
}

/// Extending an all-digit numeral never shrinks its value.
proof fn lemma_dec_val_prefix(s: Seq<char>, i: int)
    requires
        all_dec_digits(s),
        0 <= i <= s.len(),
    ensures
        dec_val(s.take(i)) <= dec_val(s),
    decreases s.len() - i,
{
    if i < s.len() {
        lemma_dec_val_prefix(s, i + 1);
        assert(s.take(i + 1).drop_last() =~= s.take(i));
        assert(all_dec_digits(s.take(i)));
        lemma_dec_val_nonneg(s.take(i));
        assert(dec_val(s.take(i + 1)) == dec_val(s.take(i)) * 10 + digit_val(s.take(i + 1).last()));
        assert(dec_val(s.take(i)) * 10 >= dec_val(s.take(i)));
    } else {
        assert(s.take(i) =~= s);
    }
}

/// Reads `v[start .. end]` as a base-10 numeral: any non-digit character
/// or any overflow of `i64` silently yields `0`.
pub fn parse_dec_or_zero(v: &Vec<char>, start: usize, end: usize) -> (r: i64)
    requires
        start <= end <= v@.len(),
    ensures
        r == dec_or_zero(v@.subrange(start as int, end as int)),
{
    let ghost content = v@.subrange(start as int, end as int);
    let mut val: i64 = 0;
    let mut ok = true;
    let mut j: usize = start;
    while j < end
        invariant
            start <= j <= end <= v@.len(),
            content == v@.subrange(start as int, end as int),
            ok ==> all_dec_digits(content.take(j - start)),
            ok ==> val == dec_val(content.take(j - start)),
            ok ==> val >= 0,
            !ok ==> !all_dec_digits(content) || dec_val(content) > i64::MAX,
        decreases end - j,
    {
        let c = v[j];
        let cu = c as u32;
        proof {
            assert(content.take(j + 1 - start).drop_last() =~= content.take(j - start));
            assert(content.take(j + 1 - start).last() == content[j - start]);
            assert(content[j - start] == v@[j as int]);
        }
        if cu < 48 || cu > 57 {
            proof {
                assert(!is_dec_digit(content[j - start]));
                assert(!all_dec_digits(content));
            }
            ok = false;
        } else if ok {
            let d = (cu - 48) as i64;
            let ghost pre = content.take(j - start);
            let ghost ext = content.take(j + 1 - start);
            match val.checked_mul(10) {
                Some(t) => match t.checked_add(d) {
                    Some(nv) => {
                        val = nv;
                        proof {
                            assert(dec_val(ext) == dec_val(pre) * 10 + digit_val(content[j - start]));
                        }
                    },
                    None => {
                        proof {
                            assert(dec_val(ext) == val * 10 + d);
                            if all_dec_digits(content) {
                                lemma_dec_val_prefix(content, j + 1 - start);
                            }
                        }
                        ok = false;
                    },
                },
                None => {
                    proof {
                        assert(dec_val(ext) == val * 10 + digit_val(content[j - start]));
                        assert(digit_val(content[j - start]) >= 0);
                        if all_dec_digits(content) {
                            lemma_dec_val_prefix(content, j + 1 - start);
                        }
                    }
                    ok = false;
                },
            }
        }
        j = j + 1;
    }
    proof {
        assert(content.take(end - start) =~= content);
    }
    if ok {
        val
    } else {
        0
    }
}

/// The character for the decimal digit `d`.
pub open spec fn digit_char(d: int) -> char {
    if d == 0 {
        '0'
    } else if d == 1 {
        '1'
    } else if d == 2 {
        '2'
    } else if d == 3 {
        '3'
    } else if d == 4 {
        '4'
    } else if d == 5 {
        '5'
    } else if d == 6 {
        '6'
    } else if d == 7 {
        '7'
    } else if d == 8 {
        '8'
    } else {
        '9'
    }
}

/// The decimal numeral of a nonnegative integer, most significant digit
/// first, without leading zeros (`0` itself is the single digit `0`).
pub open spec fn dec_digits(n: nat) -> Seq<char>
    decreases n,
{
    if n < 10 {
        seq![digit_char(n as int)]
    } else {
        dec_digits(n / 10).push(digit_char((n % 10) as int))
    }
}

/// The decimal string of an integer: a minus sign for negative values,
/// then the numeral of the magnitude.
pub open spec fn dec_str(i: int) -> Seq<char> {
    if i < 0 {
        seq!['-'] + dec_digits((-i) as nat)
    } else {
        dec_digits(i as nat)
    }
}

fn digit_to_char(d: u64) -> (c: char)
    requires
        d < 10,
    ensures
        c == digit_char(d as int),
{
    if d == 0 {
        '0'
    } else if d == 1 {
        '1'
    } else if d == 2 {
        '2'
    } else if d == 3 {
        '3'
    } else if d == 4 {
        '4'
    } else if d == 5 {
        '5'
    } else if d == 6 {
        '6'
    } else if d == 7 {
        '7'
    } else if d == 8 {
        '8'
    } else {
        '9'
    }
}

/// Renders `v` in decimal, exactly as `i64` values are printed.
pub fn int_to_string(v: i64) -> (s: String)
    ensures
        s@ == dec_str(v as int),
{
    let m: u64 = if v < 0 {
        ((-(v + 1)) as u64) + 1
    } else {
        v as u64
    };
    proof {
        if v < 0 {
            assert(m == -(v as int));
        }
    }
    let mut digits: Vec<char> = Vec::new();
    if m == 0 {
        digits.push('0');
        proof {
            assert(digits@ =~= dec_digits(m as nat));
        }
    } else {
        let mut x = m;
        while x > 0
            invariant
                m > 0,
                dec_digits(m as nat) =~= (if x > 0 {
                    dec_digits(x as nat)
                } else {
                    Seq::<char>::empty()
                }) + digits@,
            decreases x,
        {
            let d = x % 10;
            let c = digit_to_char(d);
            let ghost olddigits = digits@;
            digits.insert(0, c);
            proof {
                assert(digits@ =~= seq![c] + olddigits);
                if x >= 10 {
                    assert(dec_digits(x as nat) == dec_digits((x as nat) / 10).push(digit_char(
                        ((x as nat) % 10) as int,
                    )));
                    assert((x as nat) / 10 == ((x / 10) as nat));
                    assert(dec_digits((x / 10) as nat) + (seq![c] + olddigits) =~= dec_digits(
                        (x / 10) as nat,
                    ).push(c) + olddigits);
                } else {
                    assert(dec_digits(x as nat) =~= seq![c]);
                }
            }
            x = x / 10;
        }
    }
    if v < 0 {
        digits.insert(0, '-');
        proof {
            assert(digits@ =~= seq!['-'] + dec_digits(m as nat));
            assert(digits@ =~= dec_str(v as int));
        }
    } else {
        proof {
            assert(digits@ =~= dec_str(v as int));
        }
    }
    chars_to_string(digits)
}

} // verus!

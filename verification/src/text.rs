//! Character-level helpers shared by the parser, the value formatter and
//! the printf syscall: decimal numerals in both directions, string equality,
//! and substitution of the `{}` marker in a format template.

use vstd::prelude::*;
use vstd::string::{StrSliceExecFns, StringExecFns};

verus! {

/// The character for one decimal digit value.
pub open spec fn digit_char(d: nat) -> char
    recommends
        d < 10,
{
    if d == 0 {
        '0'
    } else if d == 1 {
        '1'
    } else if d == 2 {
        '2'
    } else if d == 3 {
        '3'
    } else if d == 4 {
        '4'
    } else if d == 5 {
        '5'
    } else if d == 6 {
        '6'
    } else if d == 7 {
        '7'
    } else if d == 8 {
        '8'
    } else {
        '9'
    }
}

/// The decimal numeral of `n`, most significant digit first, no sign and
/// no leading zeros (except for `n == 0` itself).
pub open spec fn dec_of(n: nat) -> Seq<char>
    decreases n,
{
    if n < 10 {
        seq![digit_char(n)]
    } else {
        dec_of(n / 10) + seq![digit_char(n % 10)]
    }
}

/// The decimal numeral of `i`, with a leading `-` when negative.
pub open spec fn dec_of_int(i: int) -> Seq<char> {
    if i >= 0 {
        dec_of(i as nat)
    } else {
        seq!['-'] + dec_of((-i) as nat)
    }
}

/// Whether `c` is a decimal digit.
pub open spec fn is_digit(c: char) -> bool {
    '0' as u32 <= c as u32 && c as u32 <= '9' as u32
}

/// The value of the digit `c`.
pub open spec fn digit_val(c: char) -> nat
    recommends
        is_digit(c),
{
    (c as u32 - '0' as u32) as nat
}

/// Whether every character of `s` is a decimal digit.
pub open spec fn all_digits(s: Seq<char>) -> bool {
    forall|i: int| 0 <= i < s.len() ==> is_digit(s[i])
}

/// The numeric value of the digit string `s`.
pub open spec fn dec_val(s: Seq<char>) -> nat
    decreases s.len(),
{
    if s.len() == 0 {
        0
    } else {
        dec_val(s.drop_last()) * 10 + digit_val(s.last())
    }
}

/// Whether `s` is a numeral that denotes a value fitting in `usize`.
pub open spec fn usize_numeral(s: Seq<char>) -> bool {
    s.len() > 0 && all_digits(s) && dec_val(s) <= usize::MAX
}

/// The signed integer denoted by `s`, when `s` is an optional sign
/// followed by digits and the value fits in `isize`.
pub open spec fn spec_parse_isize(s: Seq<char>) -> Option<isize> {
    let signed = s.len() > 0 && (s[0] == '-' || s[0] == '+');
    let body = if signed {
        s.skip(1)
    } else {
        s
    };
    if body.len() > 0 && all_digits(body) {
        let v = if s.len() > 0 && s[0] == '-' {
            -(dec_val(body) as int)
        } else {
            dec_val(body) as int
        };
        if isize::MIN <= v <= isize::MAX {
            Some(v as isize)
        } else {
            None
        }
    } else {
        None
    }
}

/// One digit as a string slice.
fn digit_str(d: usize) -> (s: &'static str)
    requires
        d < 10,
    ensures
        s@ == seq![digit_char(d as nat)],
{
    let s: &'static str = match d {
        0 => "0",
        1 => "1",
        2 => "2",
        3 => "3",
        4 => "4",
        5 => "5",
        6 => "6",
        7 => "7",
        8 => "8",
        _ => "9",
    };
    proof {
        reveal_strlit("0");
        reveal_strlit("1");
        reveal_strlit("2");
        reveal_strlit("3");
        reveal_strlit("4");
        reveal_strlit("5");
        reveal_strlit("6");
        reveal_strlit("7");
        reveal_strlit("8");
        reveal_strlit("9");
        assert(s@ =~= seq![digit_char(d as nat)]);
    }
    s
}

/// Renders `n` in decimal.
pub fn usize_to_dec(n: usize) -> (s: String)
    ensures
        s@ == dec_of(n as nat),
    decreases n,
{
    if n < 10 {
        String::from_str(digit_str(n))
    } else {
        let q = usize_to_dec(n / 10);
        let s = q.concat(digit_str(n % 10));
        proof {
            assert(s@ =~= dec_of(n as nat));
        }
        s
    }
}

/// Renders `i` in decimal, with a leading `-` when negative.
pub fn isize_to_dec(i: isize) -> (s: String)
    ensures
        s@ == dec_of_int(i as int),
{
    if i >= 0 {
        usize_to_dec(i as usize)
    } else {
        // `-(i + 1)` avoids overflow at the most negative value; the
        // magnitude of any negative `isize` fits in `usize`.
        let m: usize = ((-(i + 1)) as usize) + 1;
        let digits = usize_to_dec(m);
        let s = String::from_str("-").concat(digits.as_str());
        proof {
            reveal_strlit("-");
            assert(s@ =~= dec_of_int(i as int));
        }
        s
    }
}

proof fn lemma_dec_val_take_step(s: Seq<char>, j: int)
    requires
        0 <= j < s.len(),
    ensures
        dec_val(s.take(j + 1)) == dec_val(s.take(j)) * 10 + digit_val(s[j]),
{
    assert(s.take(j + 1).drop_last() =~= s.take(j));
    assert(s.take(j + 1).last() == s[j]);
}

proof fn lemma_dec_val_take_le(s: Seq<char>, j: int)
    requires
        0 <= j <= s.len(),
    ensures
        dec_val(s.take(j)) <= dec_val(s),
    decreases s.len() - j,
{
    if j == s.len() {
        assert(s.take(j) =~= s);
    } else {
        lemma_dec_val_take_step(s, j);
        lemma_dec_val_take_le(s, j + 1);
    }
}

/// Parses a digit string; `None` when `s` is empty, holds a non-digit,
/// or denotes a value above `usize::MAX`.
pub fn parse_usize(s: &str) -> (r: Option<usize>)
    ensures
        r is Some <==> usize_numeral(s@),
        r matches Some(v) ==> v == dec_val(s@),
{
    let n = s.unicode_len();
    if n == 0 {
        return None;
    }
    let mut acc: usize = 0;
    let mut i: usize = 0;
    while i < n
        invariant
            0 < n == s@.len(),
            0 <= i <= n,
            all_digits(s@.take(i as int)),
            acc == dec_val(s@.take(i as int)),
        decreases n - i,
    {
        let c = s.get_char(i);
        if !(c >= '0' && c <= '9') {
            assert(!is_digit(s@[i as int]));
            return None;
        }
        let d: usize = (c as u32 as usize) - ('0' as u32 as usize);
        proof {
            lemma_dec_val_take_step(s@, i as int);
        }
        let shifted = match acc.checked_mul(10) {
            Some(t) => t,
            None => {
                proof {
                    lemma_dec_val_take_le(s@, i as int + 1);
                }
                return None;
            },
        };
        let next = match shifted.checked_add(d) {
            Some(t) => t,
            None => {
                proof {
                    lemma_dec_val_take_le(s@, i as int + 1);
                }
                return None;
            },
        };
        acc = next;
        i = i + 1;
    }
    proof {
        assert(s@.take(n as int) =~= s@);
    }
    Some(acc)
}

/// Parses an optionally signed digit string as an `isize`; `None` when the
/// shape is wrong or the value does not fit.
pub fn parse_isize(s: &str) -> (r: Option<isize>)
    ensures
        r == spec_parse_isize(s@),
{
    let n = s.unicode_len();
    if n == 0 {
        return None;
    }
    let c0 = s.get_char(0);
    let signed = c0 == '-' || c0 == '+';
    let neg = c0 == '-';
    let body: &str = if signed {
        s.substring_char(1, n)
    } else {
        s
    };
    proof {
        if signed {
            assert(body@ =~= s@.skip(1));
        } else {
            assert(body@ =~= s@);
        }
    }
    let m = match parse_usize(body) {
        Some(m) => m,
        None => {
            proof {
                if body@.len() > 0 && all_digits(body@) {
                    // The magnitude overflows `usize`, so it is outside the
                    // `isize` range in either direction.
                    assert(dec_val(body@) > usize::MAX);
                }
            }
            return None;
        },
    };
    if neg {
        if m <= (isize::MAX as usize) {
            Some(-(m as isize))
        } else if m == (isize::MAX as usize) + 1 {
            Some(isize::MIN)
        } else {
            None
        }
    } else {
        if m <= (isize::MAX as usize) {
            Some(m as isize)
        } else {
            None
        }
    }
}

/// Compares two string slices character by character.
pub fn str_eq(a: &str, b: &str) -> (r: bool)
    ensures
        r == (a@ == b@),
{
    let n = a.unicode_len();
    if n != b.unicode_len() {
        return false;
    }
    let mut i: usize = 0;
    while i < n
        invariant
            0 <= i <= n,
            n == a@.len(),
            n == b@.len(),
            forall|j: int| 0 <= j < i ==> a@[j] == b@[j],
        decreases n - i,
    {
        if a.get_char(i) != b.get_char(i) {
            return false;
        }
        i = i + 1;
    }
    proof {
        assert(a@ =~= b@);
    }
    true
}

/// The position of the first `{}` marker in `s` at or after `i`.
pub open spec fn find_marker_from(s: Seq<char>, i: nat) -> Option<nat>
    decreases s.len() - i,
{
    if i + 2 > s.len() {
        None
    } else if s[i as int] == '{' && s[i as int + 1] == '}' {
        Some(i)
    } else {
        find_marker_from(s, i + 1)
    }
}

/// The format template `fmt` with its first `{}` marker (if any) replaced
/// by `arg`.
pub open spec fn spec_substitute(fmt: Seq<char>, arg: Seq<char>) -> Seq<char> {
    match find_marker_from(fmt, 0) {
        None => fmt,
        Some(i) => fmt.take(i as int) + arg + fmt.skip(i as int + 2),
    }
}

/// Replaces the first `{}` marker of `fmt` with `arg`; returns `fmt`
/// unchanged when there is no marker.
pub fn substitute_marker(fmt: &str, arg: &str) -> (r: String)
    ensures
        r@ == spec_substitute(fmt@, arg@),
{
    let n = fmt.unicode_len();
    if n < 2 {
        return String::from_str(fmt);
    }
    let mut i: usize = 0;
    while i <= n - 2
        invariant
            0 <= i <= n,
            2 <= n == fmt@.len(),
            find_marker_from(fmt@, 0) == find_marker_from(fmt@, i as nat),
        decreases n - i,
    {
        if fmt.get_char(i) == '{' && fmt.get_char(i + 1) == '}' {
            let head = fmt.substring_char(0, i);
            let tail = fmt.substring_char(i + 2, n);
            let r = String::from_str(head).concat(arg).concat(tail);
            proof {
                assert(r@ =~= spec_substitute(fmt@, arg@));
            }
            return r;
        }
        i = i + 1;
    }
    String::from_str(fmt)
}

} // verus!

//! Character and string helpers shared by the filter and renamer engines:
//! decimal digits, leftmost substring search, and decimal rendering of
//! counter values.

use vstd::prelude::*;

verus! {

/// A decimal digit `'0'..='9'`.
pub open spec fn is_dec_digit(c: char) -> bool {
    48 <= c as u32 && c as u32 <= 57
}

/// Numeric value of a decimal digit character.
pub open spec fn digit_val(c: char) -> int {
    c as u32 - 48
}

/// The character for a single decimal digit value.
pub open spec fn digit_char(d: int) -> char {
    if d == 0 {
        '0'
    } else if d == 1 {
        '1'
    } else if d == 2 {
        '2'
    } else if d == 3 {
        '3'
    } else if d == 4 {
        '4'
    } else if d == 5 {
        '5'
    } else if d == 6 {
        '6'
    } else if d == 7 {
        '7'
    } else if d == 8 {
        '8'
    } else {
        '9'
    }
}

/// Decimal rendering of a natural number, most significant digit first.
pub open spec fn dec_digits(n: nat) -> Seq<char>
    decreases n,
{
    if n < 10 {
        seq![digit_char(n as int)]
    } else {
        dec_digits(n / 10) + seq![digit_char((n % 10) as int)]
    }
}

/// Decimal rendering of a signed value: a minus sign before the magnitude
/// when the value is negative.
pub open spec fn spec_i32_dec(v: int) -> Seq<char> {
    if v >= 0 {
        dec_digits(v as nat)
    } else {
        seq!['-'] + dec_digits((-v) as nat)
    }
}

/// The leftmost position `i >= from` where `pat` occurs in `name`, if any.
pub open spec fn spec_find(name: Seq<char>, pat: Seq<char>, from: int) -> Option<int>
    decreases name.len() - from,
{
    if from < 0 {
        None
    } else if from + pat.len() > name.len() {
        None
    } else if pat.len() == 0 {
        Some(from)
    } else if name.subrange(from, from + pat.len()) == pat {
        Some(from)
    } else {
        spec_find(name, pat, from + 1)
    }
}

/// What a successful or failed search means: an occurrence at the returned
/// position and none before it, or no occurrence at all.
pub proof fn lemma_spec_find(name: Seq<char>, pat: Seq<char>, from: int)
    requires
        0 <= from,
    ensures
        match spec_find(name, pat, from) {
            Some(i) => from <= i && i + pat.len() <= name.len() && name.subrange(
                i,
                i + pat.len(),
            ) == pat && forall|j: int|
                from <= j < i && j + pat.len() <= name.len() ==> #[trigger] name.subrange(
                    j,
                    j + pat.len(),
                ) != pat,
            None => forall|j: int|
                from <= j && j + pat.len() <= name.len() ==> #[trigger] name.subrange(
                    j,
                    j + pat.len(),
                ) != pat,
        },
    decreases name.len() - from,
{
    if from + pat.len() > name.len() {
    } else if pat.len() == 0 {
        assert(name.subrange(from, from + pat.len()) =~= pat);
    } else if name.subrange(from, from + pat.len()) == pat {
    } else {
        lemma_spec_find(name, pat, from + 1);
    }
}

/// The numeric value of a decimal digit character, or `None` for any other
/// character.
pub fn dec_digit(c: char) -> (r: Option<u32>)
    ensures
        match r {
            Some(d) => is_dec_digit(c) && d == digit_val(c) && d < 10,
            None => !is_dec_digit(c),
        },
{
    let u = c as u32;
    if 48 <= u && u <= 57 {
        Some(u - 48)
    } else {
        None
    }
}

/// Compares `pat` against the characters of `name` starting at `i`.
pub fn sub_eq_at(name: &str, i: usize, pat: &str) -> (r: bool)
    requires
        i + pat@.len() <= name@.len(),
    ensures
        r == (name@.subrange(i as int, i + pat@.len()) == pat@),
{
    let name_len = name.unicode_len();
    let pat_len = pat.unicode_len();
    let mut j: usize = 0;
    while j < pat_len
        invariant
            j <= pat_len,
            pat_len == pat@.len(),
            name_len == name@.len(),
            i + pat@.len() <= name@.len(),
            forall|k: int| 0 <= k < j ==> name@[i + k] == pat@[k],
        decreases pat_len - j,
    {
        if name.get_char(i + j) != pat.get_char(j) {
            proof {
                assert(name@.subrange(i as int, i + pat@.len())[j as int] != pat@[j as int]);
            }
            return false;
        }
        j += 1;
    }
    proof {
        assert(name@.subrange(i as int, i + pat@.len()) =~= pat@);
    }
    true
}

/// Leftmost occurrence of `pat` in `name` at or after `from`.
pub fn find_from(name: &str, pat: &str, from: usize) -> (r: Option<usize>)
    ensures
        match r {
            Some(i) => spec_find(name@, pat@, from as int) == Some(i as int),
            None => spec_find(name@, pat@, from as int) is None,
        },
{
    let name_len = name.unicode_len();
    let pat_len = pat.unicode_len();
    if from > name_len || pat_len > name_len - from {
        return None;
    }
    if pat_len == 0 {
        proof {
            assert(name@.subrange(from as int, from as int) =~= pat@);
        }
        return Some(from);
    }
    let limit = name_len - pat_len;
    let mut i: usize = from;
    while i < limit
        invariant
            from <= i,
            i <= limit,
            1 <= pat_len,
            limit == name_len - pat_len,
            pat_len <= name_len,
            name_len == name@.len(),
            pat_len == pat@.len(),
            spec_find(name@, pat@, from as int) == spec_find(name@, pat@, i as int),
        decreases limit - i,
    {
        if sub_eq_at(name, i, pat) {
            return Some(i);
        }
        i += 1;
    }
    if sub_eq_at(name, limit, pat) {
        return Some(limit);
    }
    proof {
        assert(spec_find(name@, pat@, limit as int) == spec_find(name@, pat@, limit + 1));
        assert(spec_find(name@, pat@, limit + 1) is None);
    }
    None
}

/// Whether two strings hold the same characters.
pub fn str_eq(a: &str, b: &str) -> (r: bool)
    ensures
        r == (a@ == b@),
{
    let a_len = a.unicode_len();
    let b_len = b.unicode_len();
    if a_len != b_len {
        proof {
            assert(a@.len() != b@.len());
        }
        return false;
    }
    let r = sub_eq_at(a, 0, b);
    proof {
        assert(a@.subrange(0, a@.len() as int) =~= a@);
    }
    r
}

/// A one-character string for a decimal digit value.
fn digit_str(d: u32) -> (r: &'static str)
    requires
        d < 10,
    ensures
        r@ == seq![digit_char(d as int)],
{
    proof {
        reveal_strlit("0");
        reveal_strlit("1");
        reveal_strlit("2");
        reveal_strlit("3");
        reveal_strlit("4");
        reveal_strlit("5");
        reveal_strlit("6");
        reveal_strlit("7");
        reveal_strlit("8");
        reveal_strlit("9");
    }
    let r = if d == 0 {
        "0"
    } else if d == 1 {
        "1"
    } else if d == 2 {
        "2"
    } else if d == 3 {
        "3"
    } else if d == 4 {
        "4"
    } else if d == 5 {
        "5"
    } else if d == 6 {
        "6"
    } else if d == 7 {
        "7"
    } else if d == 8 {
        "8"
    } else {
        "9"
    };
    proof {
        assert(r@ =~= seq![digit_char(d as int)]);
    }
    r
}

/// Decimal rendering of an unsigned value.
fn u32_dec(n: u32) -> (s: String)
    ensures
        s@ == dec_digits(n as nat),
    decreases n,
{
    if n < 10 {
        String::from_str(digit_str(n))
    } else {
        let mut s = u32_dec(n / 10);
        s.append(digit_str(n % 10));
        s
    }
}

/// Decimal rendering of a signed value; negative values start with `'-'`.
pub fn i32_dec(v: i32) -> (s: String)
    ensures
        s@ == spec_i32_dec(v as int),
{
    if v >= 0 {
        u32_dec(v as u32)
    } else {
        let magnitude: u32 = (-(v as i64)) as u32;
        let mut s = String::from_str("-");
        proof {
            reveal_strlit("-");
            assert(s@ =~= seq!['-']);
        }
        s.append(u32_dec(magnitude).as_str());
        s
    }
}

/// Saturating accumulation of one more decimal digit onto a non-negative
/// value: `10 * v + d`, capped at `i32::MAX`.
pub open spec fn sat_acc(v: int, d: int) -> int {
    if 10 * v + d > i32::MAX {
        i32::MAX as int
    } else {
        10 * v + d
    }
}

/// Executable saturating digit accumulation for counter parsing.
pub fn sat_acc_i32(v: i32, d: u32) -> (r: i32)
    requires
        v >= 0,
        d < 10,
    ensures
        r == sat_acc(v as int, d as int),
        r >= 0,
{
    let t: i64 = (v as i64) * 10 + (d as i64);
    if t > i32::MAX as i64 {
        i32::MAX
    } else {
        t as i32
    }
}

/// Saturating accumulation of one more decimal digit onto a position index,
/// capped at `usize::MAX`.
pub open spec fn sat_acc_pos(v: int, d: int) -> int {
    if 10 * v + d > usize::MAX {
        usize::MAX as int
    } else {
        10 * v + d
    }
}

/// Executable saturating digit accumulation for position parsing.
pub fn sat_acc_usize(v: usize, d: u32) -> (r: usize)
    requires
        d < 10,
    ensures
        r == sat_acc_pos(v as int, d as int),
{
    match v.checked_mul(10) {
        Some(m) => match m.checked_add(d as usize) {
            Some(r) => r,
            None => usize::MAX,
        },
        None => {
            proof {
                assert(10 * v + d > usize::MAX);
            }
            usize::MAX
        },
    }
}

} // verus!

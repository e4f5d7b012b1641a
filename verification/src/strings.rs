//! Verified string helpers: decimal parsing and printing, ASCII case
//! folding, equality, and substring search. The filename conventions of the
//! on-disk format are built on these.

use vstd::prelude::*;

verus! {

/// The character is a decimal digit.
pub open spec fn is_digit(c: char) -> bool {
    48 <= c as u32 <= 57
}

/// The numeric value of a decimal digit.
pub open spec fn digit_val(c: char) -> int {
    c as u32 - 48
}

/// Every character of the sequence is a decimal digit.
pub open spec fn all_digits(s: Seq<char>) -> bool {
    forall|i: int| 0 <= i < s.len() ==> is_digit(#[trigger] s[i])
}

/// The value of a digit sequence read as a decimal numeral.
pub open spec fn digits_val(s: Seq<char>) -> int
    decreases s.len(),
{
    if s.len() == 0 {
        0
    } else {
        digits_val(s.drop_last()) * 10 + digit_val(s.last())
    }
}

/// What parsing a decimal numeral yields: the value of a non-empty,
/// all-digit sequence whose value fits an `i32`; nothing otherwise.
pub open spec fn spec_parse_pos(s: Seq<char>) -> Option<i32> {
    if s.len() > 0 && all_digits(s) && digits_val(s) <= i32::MAX {
        Some(digits_val(s) as i32)
    } else {
        None
    }
}

/// A digit sequence has a non-negative value.
proof fn lemma_digits_val_nonneg(s: Seq<char>)
    requires
        all_digits(s),
    ensures
        digits_val(s) >= 0,
    decreases s.len(),
{
    if s.len() > 0 {
        assert(all_digits(s.drop_last())) by {
            assert(forall|i: int|
                0 <= i < s.len() - 1 ==> s.drop_last()[i] == #[trigger] s[i]);
        }
        lemma_digits_val_nonneg(s.drop_last());
    }
}

/// Extending a digit sequence never shrinks its value.
proof fn lemma_digits_val_mono(s: Seq<char>, i: int)
    requires
        all_digits(s),
        0 <= i <= s.len(),
    ensures
        digits_val(s.take(i)) <= digits_val(s),
    decreases s.len() - i,
{
    if i == s.len() {
        assert(s.take(i) =~= s);
    } else {
        assert(s.take(i + 1).drop_last() =~= s.take(i));
        assert(s.take(i + 1).last() == s[i]);
        assert(all_digits(s.take(i))) by {
            assert(forall|j: int| 0 <= j < i ==> s.take(i)[j] == #[trigger] s[j]);
        }
        lemma_digits_val_nonneg(s.take(i));
        assert(digits_val(s.take(i + 1)) == digits_val(s.take(i)) * 10 + digit_val(s[i]));
        assert(digits_val(s.take(i)) * 10 >= digits_val(s.take(i))) by (nonlinear_arith)
            requires
                digits_val(s.take(i)) >= 0,
        ;
        lemma_digits_val_mono(s, i + 1);
    }
}

/// Parses a decimal numeral: digits only, value within `i32`.
pub fn parse_pos_i32(s: &str) -> (r: Option<i32>)
    ensures
        r == spec_parse_pos(s@),
{
    let n = s.unicode_len();
    if n == 0 {
        return None;
    }
    let mut val: i64 = 0;
    let mut i: usize = 0;
    while i < n
        invariant
            n == s@.len(),
            0 <= i <= n,
            all_digits(s@.take(i as int)),
            val == digits_val(s@.take(i as int)),
            0 <= val <= i32::MAX,
        decreases n - i,
    {
        let c = s.get_char(i);
        let b = c as u32;
        if b < 48 || b > 57 {
            assert(!all_digits(s@));
            return None;
        }
        let d = (b - 48) as i64;
        val = val * 10 + d;
        proof {
            assert(s@.take(i + 1).drop_last() =~= s@.take(i as int));
            assert(s@.take(i + 1).last() == s@[i as int]);
            assert(all_digits(s@.take(i + 1))) by {
                assert(forall|j: int|
                    0 <= j < i + 1 ==> s@.take(i + 1)[j] == #[trigger] s@[j]);
            }
        }
        if val > i32::MAX as i64 {
            proof {
                if all_digits(s@) {
                    lemma_digits_val_mono(s@, i + 1);
                    assert(digits_val(s@) > i32::MAX);
                }
            }
            return None;
        }
        i = i + 1;
    }
    proof {
        assert(s@.take(n as int) =~= s@);
    }
    Some(val as i32)
}

/// The decimal digit character for a value below ten.
pub open spec fn digit_char(d: int) -> char {
    if d == 0 {
        '0'
    } else if d == 1 {
        '1'
    } else if d == 2 {
        '2'
    } else if d == 3 {
        '3'
    } else if d == 4 {
        '4'
    } else if d == 5 {
        '5'
    } else if d == 6 {
        '6'
    } else if d == 7 {
        '7'
    } else if d == 8 {
        '8'
    } else {
        '9'
    }
}

/// The decimal numeral of a non-negative value, most significant digit
/// first.
pub open spec fn dec_seq(n: int) -> Seq<char>
    decreases n,
{
    if n < 10 {
        seq![digit_char(n)]
    } else {
        dec_seq(n / 10).push(digit_char(n % 10))
    }
}

/// A one-character string for each decimal digit.
fn digit_str(d: u8) -> (r: &'static str)
    requires
        d < 10,
    ensures
        r@ == seq![digit_char(d as int)],
{
    proof {
        reveal_strlit("0");
        reveal_strlit("1");
        reveal_strlit("2");
        reveal_strlit("3");
        reveal_strlit("4");
        reveal_strlit("5");
        reveal_strlit("6");
        reveal_strlit("7");
        reveal_strlit("8");
        reveal_strlit("9");
    }
    let r = match d {
        0 => "0",
        1 => "1",
        2 => "2",
        3 => "3",
        4 => "4",
        5 => "5",
        6 => "6",
        7 => "7",
        8 => "8",
        _ => "9",
    };
    proof {
        assert(r@ =~= seq![digit_char(d as int)]);
    }
    r
}

/// Prints a value as a decimal numeral.
pub fn u32_to_string(n: u32) -> (r: String)
    ensures
        r@ == dec_seq(n as int),
    decreases n,
{
    if n < 10 {
        let s = digit_str(n as u8);
        let r = s.to_owned();
        r
    } else {
        let mut r = u32_to_string(n / 10);
        r.append(digit_str((n % 10) as u8));
        proof {
            assert(dec_seq((n / 10) as int) + seq![digit_char((n % 10) as int)] =~= dec_seq(
                n as int,
            ));
        }
        r
    }
}

/// The ASCII lower-case fold of one character; other characters are kept.
pub open spec fn lower_char(c: char) -> char {
    if 65 <= c as u32 <= 90 {
        (((c as u32) + 32) as u8) as char
    } else {
        c
    }
}

/// The ASCII lower-case fold of a character sequence.
pub open spec fn lower_seq(s: Seq<char>) -> Seq<char> {
    s.map_values(|c: char| lower_char(c))
}

/// Folds one character to ASCII lower case.
fn char_to_lower(c: char) -> (r: char)
    ensures
        r == lower_char(c),
{
    let b = c as u32;
    if 65 <= b && b <= 90 {
        ((b + 32) as u8) as char
    } else {
        c
    }
}

/// Character-for-character string equality.
pub fn str_eq(a: &str, b: &str) -> (r: bool)
    ensures
        r == (a@ == b@),
{
    let n = a.unicode_len();
    let m = b.unicode_len();
    if n != m {
        return false;
    }
    for i in 0..n
        invariant
            n == a@.len(),
            n == b@.len(),
            forall|j: int| 0 <= j < i ==> a@[j] == b@[j],
    {
        if a.get_char(i) != b.get_char(i) {
            return false;
        }
    }
    proof {
        assert(a@ =~= b@);
    }
    true
}

/// Whether the lower-case fold of `s` equals `pat` (given in lower case).
pub fn eq_lower(s: &str, pat: &str) -> (r: bool)
    ensures
        r == (lower_seq(s@) == pat@),
{
    let n = s.unicode_len();
    let m = pat.unicode_len();
    if n != m {
        proof {
            assert(lower_seq(s@).len() == n);
        }
        return false;
    }
    for i in 0..n
        invariant
            n == s@.len(),
            n == pat@.len(),
            forall|j: int| 0 <= j < i ==> lower_seq(s@)[j] == pat@[j],
    {
        let c = char_to_lower(s.get_char(i));
        if c != pat.get_char(i) {
            assert(lower_seq(s@)[i as int] != pat@[i as int]);
            return false;
        }
        assert(lower_seq(s@)[i as int] == pat@[i as int]);
    }
    proof {
        assert(lower_seq(s@) =~= pat@);
    }
    true
}

/// `p` occurs as a contiguous subsequence of `s`.
pub open spec fn spec_contains(s: Seq<char>, p: Seq<char>) -> bool {
    exists|i: int| 0 <= i && i + p.len() <= s.len() && #[trigger] s.subrange(i, i + p.len()) == p
}

/// The lower-case fold of `s` matches `pat` at offset `i`.
fn lower_match_at(s: &str, pat: &str, i: usize) -> (r: bool)
    requires
        i + pat@.len() <= s@.len(),
    ensures
        r == (lower_seq(s@).subrange(i as int, i + pat@.len()) == pat@),
{
    let m = pat.unicode_len();
    let sn = s.unicode_len();
    for j in 0..m
        invariant
            m == pat@.len(),
            sn == s@.len(),
            i + m <= s@.len(),
            forall|k: int| 0 <= k < j ==> lower_seq(s@)[i + k] == pat@[k],
    {
        let c = char_to_lower(s.get_char(i + j));
        if c != pat.get_char(j) {
            proof {
                assert(lower_seq(s@).subrange(i as int, i + pat@.len())[j as int] != pat@[
                    j as int]);
            }
            return false;
        }
        assert(lower_seq(s@)[i + j] == pat@[j as int]);
    }
    proof {
        assert(lower_seq(s@).subrange(i as int, i + pat@.len()) =~= pat@);
    }
    true
}

/// Whether the lower-case fold of `s` contains `pat` (given in lower case).
pub fn contains_lower(s: &str, pat: &str) -> (r: bool)
    ensures
        r == spec_contains(lower_seq(s@), pat@),
{
    let n = s.unicode_len();
    let m = pat.unicode_len();
    if m > n {
        proof {
            assert(lower_seq(s@).len() == n);
        }
        return false;
    }
    if m == 0 {
        proof {
            assert(lower_seq(s@).subrange(0, 0 + pat@.len() as int) =~= pat@);
            assert(0 + pat@.len() as int <= lower_seq(s@).len() && lower_seq(s@).subrange(
                0,
                0 + pat@.len() as int,
            ) == pat@);
        }
        return true;
    }
    let mut i: usize = 0;
    while i <= n - m
        invariant
            n == s@.len(),
            m == pat@.len(),
            1 <= m <= n,
            0 <= i <= n - m + 1,
            forall|k: int|
                0 <= k < i ==> #[trigger] lower_seq(s@).subrange(k, k + pat@.len()) != pat@,
        decreases n - i,
    {
        if lower_match_at(s, pat, i) {
            return true;
        }
        i = i + 1;
    }
    proof {
        assert(!spec_contains(lower_seq(s@), pat@)) by {
            if spec_contains(lower_seq(s@), pat@) {
                let k = choose|k: int|
                    0 <= k && k + pat@.len() <= lower_seq(s@).len() && #[trigger] lower_seq(
                        s@,
                    ).subrange(k, k + pat@.len()) == pat@;
                assert(k < i);
            }
        }
    }
    false
}

/// The position of the first occurrence of `c` at or after `from`.
pub open spec fn find_from(s: Seq<char>, c: char, from: int) -> Option<int>
    decreases s.len() - from,
    when 0 <= from <= s.len()
{
    if from >= s.len() {
        None
    } else if s[from] == c {
        Some(from)
    } else {
        find_from(s, c, from + 1)
    }
}

/// A found occurrence lies at or after `from`, carries `c`, and nothing
/// before it does.
pub proof fn lemma_find_from_bounds(s: Seq<char>, c: char, from: int)
    requires
        0 <= from <= s.len(),
    ensures
        match find_from(s, c, from) {
            Some(i) => from <= i < s.len() && s[i] == c,
            None => forall|j: int| from <= j < s.len() ==> #[trigger] s[j] != c,
        },
    decreases s.len() - from,
{
    if from < s.len() && s[from] != c {
        lemma_find_from_bounds(s, c, from + 1);
    }
}

/// Finds the first occurrence of `c` at or after `from`.
pub fn find_char_from(s: &str, c: char, from: usize) -> (r: Option<usize>)
    requires
        from <= s@.len(),
    ensures
        match r {
            Some(i) => from <= i < s@.len() && Some(i as int) == find_from(s@, c, from as int),
            None => find_from(s@, c, from as int) is None,
        },
{
    let n = s.unicode_len();
    let mut i = from;
    while i < n
        invariant
            n == s@.len(),
            from <= i <= n,
            find_from(s@, c, from as int) == find_from(s@, c, i as int),
        decreases n - i,
    {
        if s.get_char(i) == c {
            return Some(i);
        }
        i = i + 1;
    }
    None
}

} // verus!

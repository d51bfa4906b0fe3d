//! Small verified text scanners: first occurrence of a character,
//! base-16 and base-10 digit runs, and substring search.

use vstd::prelude::*;

verus! {

pub open spec fn is_hex_digit(c: char) -> bool {
    48 <= c as u32 <= 57 || 97 <= c as u32 <= 102 || 65 <= c as u32 <= 70
}

pub open spec fn hex_digit_value(c: char) -> int
    recommends
        is_hex_digit(c),
{
    if 48 <= c as u32 <= 57 {
        c as u32 - 48
    } else if 97 <= c as u32 <= 102 {
        c as u32 - 87
    } else {
        c as u32 - 55
    }
}

pub open spec fn all_hex(s: Seq<char>) -> bool {
    forall|i: int| 0 <= i < s.len() ==> is_hex_digit(#[trigger] s[i])
}

/// The value of a run of hex digits, most significant first.
pub open spec fn hex_value(s: Seq<char>) -> int
    recommends
        all_hex(s),
    decreases s.len(),
{
    if s.len() == 0 {
        0
    } else {
        hex_value(s.drop_last()) * 16 + hex_digit_value(s.last())
    }
}

pub open spec fn is_dec_digit(c: char) -> bool {
    48 <= c as u32 <= 57
}

pub open spec fn dec_digit_value(c: char) -> int
    recommends
        is_dec_digit(c),
{
    c as u32 - 48
}

pub open spec fn all_dec(s: Seq<char>) -> bool {
    forall|i: int| 0 <= i < s.len() ==> is_dec_digit(#[trigger] s[i])
}

/// The value of a run of decimal digits, most significant first.
pub open spec fn dec_value(s: Seq<char>) -> int
    recommends
        all_dec(s),
    decreases s.len(),
{
    if s.len() == 0 {
        0
    } else {
        dec_value(s.drop_last()) * 10 + dec_digit_value(s.last())
    }
}

/// `p` occurs in `s` as a contiguous run.
pub open spec fn has_substring(s: Seq<char>, p: Seq<char>) -> bool {
    exists|i: int| 0 <= i <= s.len() - p.len() && #[trigger] s.subrange(i, i + p.len()) == p
}

/// 16 to the power `k`.
pub open spec fn pow16(k: int) -> int
    decreases k,
{
    if k <= 0 {
        1
    } else {
        16 * pow16(k - 1)
    }
}

proof fn lemma_pow16_pos(k: int)
    ensures
        pow16(k) >= 1,
    decreases (if k <= 0 { 0int } else { k }),
{
    if k > 0 {
        lemma_pow16_pos(k - 1);
    }
}

proof fn lemma_pow16_mono(k1: int, k2: int)
    requires
        k1 <= k2,
    ensures
        pow16(k1) <= pow16(k2),
    decreases k2 - k1,
{
    if k1 < k2 {
        lemma_pow16_mono(k1, k2 - 1);
        lemma_pow16_pos(k2 - 1);
    }
}

proof fn lemma_dec_value_nonneg(s: Seq<char>)
    requires
        all_dec(s),
    ensures
        dec_value(s) >= 0,
    decreases s.len(),
{
    if s.len() > 0 {
        assert(all_dec(s.drop_last()));
        lemma_dec_value_nonneg(s.drop_last());
    }
}

/// Appending digits never shrinks a decimal value.
proof fn lemma_dec_value_prefix_le(s: Seq<char>, k: int)
    requires
        all_dec(s),
        0 <= k <= s.len(),
    ensures
        dec_value(s.take(k)) <= dec_value(s),
    decreases s.len() - k,
{
    if k < s.len() {
        lemma_dec_value_prefix_le(s, k + 1);
        assert(s.take(k + 1).drop_last() =~= s.take(k));
        assert(all_dec(s.take(k)));
        lemma_dec_value_nonneg(s.take(k));
        assert(dec_value(s.take(k + 1)) == dec_value(s.take(k)) * 10 + dec_digit_value(
            s.take(k + 1).last(),
        ));
    } else {
        assert(s.take(k) =~= s);
    }
}

/// The first position at or after `from` where `s` holds `c`;
/// `s.len()` when there is none.
pub open spec fn first_char_from(s: Seq<char>, from: int, c: char) -> int
    recommends
        0 <= from <= s.len(),
    decreases s.len() - from,
{
    if from < 0 || from >= s.len() {
        s.len() as int
    } else if s[from] == c {
        from
    } else {
        first_char_from(s, from + 1, c)
    }
}

/// The first position at or after `from` where `s` holds `c`, if any.
pub fn find_char(s: &str, c: char, from: usize) -> (r: Option<usize>)
    requires
        from <= s@.len(),
    ensures
        r matches Some(i) ==> i == first_char_from(s@, from as int, c) && from <= i < s@.len(),
        r is None ==> first_char_from(s@, from as int, c) == s@.len(),
{
    let n = s.unicode_len();
    let mut i = from;
    while i < n
        invariant
            from <= i <= n,
            n == s@.len(),
            first_char_from(s@, from as int, c) == first_char_from(s@, i as int, c),
        decreases n - i,
    {
        if s.get_char(i) == c {
            return Some(i);
        }
        i = i + 1;
    }
    None
}

/// Reads the `len` characters of `s` starting at `from` as one base-16
/// number, most significant digit first. `None` exactly when one of
/// them is no hex digit.
pub fn parse_hex_at(s: &str, from: usize, len: usize) -> (r: Option<u64>)
    requires
        from + len <= s@.len(),
        len <= 16,
    ensures
        r is Some <==> all_hex(s@.subrange(from as int, from as int + len as int)),
        r matches Some(v) ==> v == hex_value(s@.subrange(from as int, from as int + len as int)),
{
    let ghost digits = s@.subrange(from as int, from as int + len as int);
    let n = s.unicode_len();
    let mut acc: u64 = 0;
    let mut k: usize = 0;
    proof {
        assert(digits.take(0) =~= Seq::<char>::empty());
    }
    while k < len
        invariant
            k <= len,
            len <= 16,
            from + len <= s@.len(),
            s@.len() == n,
            digits == s@.subrange(from as int, from as int + len as int),
            all_hex(digits.take(k as int)),
            acc == hex_value(digits.take(k as int)),
            acc < pow16(k as int),
        decreases len - k,
    {
        let c = s.get_char(from + k);
        proof {
            assert(digits[k as int] == s@[from + k]);
        }
        let u = c as u32;
        let d: u32 = if 48 <= u && u <= 57 {
            u - 48
        } else if 97 <= u && u <= 102 {
            u - 87
        } else if 65 <= u && u <= 70 {
            u - 55
        } else {
            proof {
                assert(!is_hex_digit(digits[k as int]));
            }
            return None;
        };
        proof {
            lemma_pow16_mono(k as int + 1, 16);
            reveal_with_fuel(pow16, 17);
            assert(acc * 16 + d < pow16(k as int + 1));
            assert(digits.take(k as int + 1).drop_last() =~= digits.take(k as int));
        }
        acc = acc * 16 + d as u64;
        k = k + 1;
    }
    proof {
        assert(digits.take(len as int) =~= digits);
    }
    Some(acc)
}

/// Reads a whole string of decimal digits as one `u32`, most
/// significant digit first. `None` exactly when the string is empty,
/// holds a non-digit, or the value does not fit.
pub fn parse_u32_decimal(s: &str) -> (r: Option<u32>)
    ensures
        r is Some <==> s@.len() > 0 && all_dec(s@) && dec_value(s@) <= u32::MAX,
        r matches Some(v) ==> v == dec_value(s@),
{
    let n = s.unicode_len();
    if n == 0 {
        return None;
    }
    let mut acc: u64 = 0;
    let mut k: usize = 0;
    proof {
        assert(s@.take(0) =~= Seq::<char>::empty());
    }
    while k < n
        invariant
            k <= n,
            n == s@.len(),
            all_dec(s@.take(k as int)),
            acc == dec_value(s@.take(k as int)),
            acc <= u32::MAX,
        decreases n - k,
    {
        let c = s.get_char(k);
        let u = c as u32;
        if !(48 <= u && u <= 57) {
            proof {
                assert(!is_dec_digit(s@[k as int]));
            }
            return None;
        }
        proof {
            assert(s@.take(k as int + 1).drop_last() =~= s@.take(k as int));
        }
        acc = acc * 10 + (u - 48) as u64;
        k = k + 1;
        if acc > u32::MAX as u64 {
            proof {
                if s@.len() > 0 && all_dec(s@) && dec_value(s@) <= u32::MAX {
                    lemma_dec_value_prefix_le(s@, k as int);
                    assert(false);
                }
            }
            return None;
        }
    }
    proof {
        assert(s@.take(n as int) =~= s@);
    }
    Some(acc as u32)
}

/// Whether `p` occurs in `s` as a contiguous run of characters.
pub fn contains_str(s: &str, p: &str) -> (r: bool)
    ensures
        r == has_substring(s@, p@),
{
    let n = s.unicode_len();
    let m = p.unicode_len();
    if m > n {
        return false;
    }
    if m == 0 {
        proof {
            assert(s@.subrange(0, 0 + p@.len() as int) =~= p@);
            assert(has_substring(s@, p@));
        }
        return true;
    }
    let mut i: usize = 0;
    while i <= n - m
        invariant
            m >= 1,
            m <= n,
            n == s@.len(),
            m == p@.len(),
            i <= n - m + 1,
            forall|k: int| 0 <= k < i ==> #[trigger] s@.subrange(k, k + p@.len()) != p@,
        decreases n - i,
    {
        let mut j: usize = 0;
        while j < m && s.get_char(i + j) == p.get_char(j)
            invariant
                i + m <= n,
                n == s@.len(),
                m == p@.len(),
                j <= m,
                forall|q: int| 0 <= q < j ==> s@[i + q] == p@[q],
            decreases m - j,
        {
            j = j + 1;
        }
        if j == m {
            proof {
                assert(s@.subrange(i as int, i as int + p@.len()) =~= p@);
                assert(has_substring(s@, p@));
            }
            return true;
        }
        proof {
            assert(s@.subrange(i as int, i as int + p@.len())[j as int] != p@[j as int]);
            assert(s@.subrange(i as int, i as int + p@.len()) != p@);
        }
        i = i + 1;
    }
    false
}

} // verus!

//! Reading a token's text as a signed 32-bit decimal number.
//!
//! `sp_parse_i32` is the specification: an optional single sign, then at
//! least one decimal digit, and a value within the `i32` range; any other
//! text reads as nothing.  `parse_i32` is the verified implementation.

use vstd::prelude::*;
use crate::lexer::is_digit_char;
use crate::lexer::is_digit_c;

verus! {

/// The numeric value of a digit character.
pub open spec fn digit_value(c: char) -> int {
    c as int - '0' as int
}

/// The base-10 value of a sequence of digit characters.
pub open spec fn dec_val(s: Seq<char>) -> int
    decreases s.len(),
{
    if s.len() == 0 {
        0
    } else {
        dec_val(s.drop_last()) * 10 + digit_value(s.last())
    }
}

pub open spec fn all_digits(s: Seq<char>) -> bool {
    forall|i: int| 0 <= i < s.len() ==> is_digit_char(s[i])
}

/// The signed decimal reading of a piece of text, exactly as `i32` reads
/// it: an optional single `+` or `-`, then at least one decimal digit, and
/// a value that fits in an `i32`; any other text reads as nothing.
pub open spec fn sp_parse_i32(s: Seq<char>) -> Option<i32> {
    let digits = if s.len() > 0 && (s[0] == '+' || s[0] == '-') {
        s.skip(1)
    } else {
        s
    };
    let signed = if s.len() > 0 && s[0] == '-' {
        -dec_val(digits)
    } else {
        dec_val(digits)
    };
    if digits.len() > 0 && all_digits(digits) && i32::MIN <= signed <= i32::MAX {
        Some(signed as i32)
    } else {
        None
    }
}

pub open spec fn pow10(n: nat) -> int
    decreases n,
{
    if n == 0 {
        1
    } else {
        10 * pow10((n - 1) as nat)
    }
}

proof fn lemma_dec_val_upper(s: Seq<char>)
    requires
        all_digits(s),
    ensures
        0 <= dec_val(s) < pow10(s.len()),
    decreases s.len(),
{
    if s.len() > 0 {
        assert(all_digits(s.drop_last())) by {
            assert(forall|i: int|
                0 <= i < s.len() - 1 ==> s.drop_last()[i] == s[i] && is_digit_char(s[i]));
        }
        lemma_dec_val_upper(s.drop_last());
        assert(is_digit_char(s.last()));
        assert(0 <= digit_value(s.last()) <= 9);
    }
}

proof fn lemma_dec_val_lower(s: Seq<char>)
    requires
        all_digits(s),
        s.len() > 0,
        s[0] != '0',
    ensures
        dec_val(s) >= pow10((s.len() - 1) as nat),
    decreases s.len(),
{
    if s.len() == 1 {
        assert(is_digit_char(s[0]));
        assert(s.last() == s[0]);
        assert(digit_value(s[0]) >= 1);
        assert(s.drop_last().len() == 0);
        assert(dec_val(s.drop_last()) == 0);
        assert(pow10(0) == 1);
    } else {
        assert(s.drop_last()[0] == s[0]);
        assert(all_digits(s.drop_last())) by {
            assert(forall|i: int|
                0 <= i < s.len() - 1 ==> s.drop_last()[i] == s[i] && is_digit_char(s[i]));
        }
        lemma_dec_val_lower(s.drop_last());
        assert(is_digit_char(s.last()));
        assert(digit_value(s.last()) >= 0);
        assert(dec_val(s) == dec_val(s.drop_last()) * 10 + digit_value(s.last()));
        let m = (s.len() - 1) as nat;
        assert(pow10(m) == 10 * pow10((m - 1) as nat));
        assert(dec_val(s.drop_last()) * 10 >= pow10((m - 1) as nat) * 10);
    }
}

proof fn lemma_dec_val_zeros(s: Seq<char>)
    requires
        forall|i: int| 0 <= i < s.len() ==> s[i] == '0',
    ensures
        dec_val(s) == 0,
    decreases s.len(),
{
    if s.len() > 0 {
        assert(s.last() == '0');
        lemma_dec_val_zeros(s.drop_last());
    }
}

proof fn lemma_dec_val_leading_zeros(s: Seq<char>, z: int)
    requires
        0 <= z <= s.len(),
        forall|i: int| 0 <= i < z ==> s[i] == '0',
    ensures
        dec_val(s) == dec_val(s.skip(z)),
    decreases s.len(),
{
    if z == s.len() {
        lemma_dec_val_zeros(s);
        assert(s.skip(z) =~= Seq::<char>::empty());
    } else if s.len() > 0 {
        lemma_dec_val_leading_zeros(s.drop_last(), z);
        assert(s.skip(z).len() == s.len() - z >= 1);
        assert(s.skip(z).last() == s.last());
        assert(s.skip(z).drop_last() =~= s.drop_last().skip(z));
    }
}

/// Reads the text as a signed 32-bit decimal number, returning nothing on
/// any text that is not an optional sign followed by digits, or whose value
/// does not fit.
#[verifier::loop_isolation(false)]
#[verifier::rlimit(50)]
pub fn parse_i32(s: &String) -> (r: Option<i32>)
    ensures
        r == sp_parse_i32(s@),
{
    let st = s.as_str();
    let n = st.unicode_len();
    if n == 0 {
        return None;
    }
    let c0 = st.get_char(0);
    let neg = c0 == '-';
    let start: usize = if c0 == '-' || c0 == '+' {
        1
    } else {
        0
    };
    let ghost digits = if c0 == '-' || c0 == '+' {
        s@.skip(1)
    } else {
        s@
    };
    assert(digits =~= s@.skip(start as int));
    if start >= n {
        assert(digits.len() == 0);
        return None;
    }
    let mut i = start;
    while i < n
        invariant
            start <= i <= n,
            forall|m: int| start <= m < i ==> is_digit_char(s@[m]),
        decreases n - i,
    {
        if !is_digit_c(st.get_char(i)) {
            assert(!is_digit_char(digits[i - start as int]));
            return None;
        }
        i = i + 1;
    }
    assert(all_digits(digits));
    let mut z = start;
    while z < n && st.get_char(z) == '0'
        invariant
            start <= z <= n,
            forall|m: int| start <= m < z ==> s@[m] == '0',
        decreases n - z,
    {
        z = z + 1;
    }
    let ghost trimmed = s@.skip(z as int);
    proof {
        lemma_dec_val_leading_zeros(digits, z - start as int);
        assert(digits.skip(z - start as int) =~= trimmed);
        lemma_dec_val_upper(trimmed);
    }
    if n - z > 10 {
        proof {
            assert(trimmed[0] == s@[z as int]);
            assert(is_digit_char(trimmed[0]) && trimmed[0] != '0');
            lemma_dec_val_lower(trimmed);
            assert(pow10(10) == 10000000000) by {
                reveal_with_fuel(pow10, 11);
            }
            assert(trimmed.len() - 1 >= 10);
            assert(pow10((trimmed.len() - 1) as nat) >= pow10(10)) by {
                lemma_pow10_increases(10, (trimmed.len() - 1) as nat);
            }
        }
        return None;
    }
    let mut acc: u64 = 0;
    let mut k = z;
    proof {
        assert(s@.subrange(z as int, z as int) =~= Seq::<char>::empty());
        assert(pow10(10) == 10000000000) by {
            reveal_with_fuel(pow10, 11);
        }
    }
    while k < n
        invariant
            z <= k <= n,
            n - z <= 10,
            acc == dec_val(s@.subrange(z as int, k as int)),
            0 <= acc < pow10((k - z) as nat),
            pow10(10) == 10000000000,
        decreases n - k,
    {
        let c = st.get_char(k);
        assert(is_digit_char(c));
        let d: u64 = (c as u32 - 48) as u64;
        proof {
            let pre = s@.subrange(z as int, k as int);
            let cur = s@.subrange(z as int, k + 1);
            assert(cur.drop_last() =~= pre);
            assert(cur.last() == c);
            assert(all_digits(pre)) by {
                assert(forall|m: int| 0 <= m < pre.len() ==> pre[m] == s@[z + m]);
            }
            lemma_pow10_increases((k - z) as nat, 9);
            assert(pow10(9) * 10 == pow10(10));
        }
        acc = acc * 10 + d;
        k = k + 1;
    }
    proof {
        assert(s@.subrange(z as int, n as int) =~= trimmed);
    }
    let limit: u64 = if neg {
        2147483648
    } else {
        2147483647
    };
    if acc > limit {
        return None;
    }
    if neg {
        let v: i64 = -(acc as i64);
        assert(i32::MIN <= v <= 0);
        Some(v as i32)
    } else {
        Some(acc as i32)
    }
}

proof fn lemma_pow10_pos(n: nat)
    ensures
        pow10(n) >= 1,
    decreases n,
{
    if n > 0 {
        lemma_pow10_pos((n - 1) as nat);
    }
}

proof fn lemma_pow10_increases(a: nat, b: nat)
    requires
        a <= b,
    ensures
        1 <= pow10(a) <= pow10(b),
    decreases b - a,
{
    lemma_pow10_pos(a);
    if a < b {
        lemma_pow10_increases(a, (b - 1) as nat);
    }
}

} // verus!

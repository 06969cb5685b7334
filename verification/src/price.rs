//! Fixed-point prices and amounts.
//!
//! Venues report prices and amounts as decimal strings.  The library holds
//! them as integers scaled by `SCALE` (10^8 minor units per whole unit) so
//! that every comparison and difference is exact.  A string is accepted
//! exactly when it is a non-empty digit run, optionally followed by `.` and
//! one to eight fraction digits, and the scaled value fits in `u64`;
//! anything else is rejected, never coerced.

use vstd::prelude::*;
use vstd::string::StrSliceExecFns;

verus! {

/// Minor units per whole unit: 10^8.
pub const SCALE: u64 = 100_000_000;

pub open spec fn is_digit(c: char) -> bool {
    48 <= c as int && c as int <= 57
}

pub open spec fn digit_val(c: char) -> int {
    c as int - 48
}

pub open spec fn all_digits(s: Seq<char>) -> bool {
    forall|i: int| 0 <= i < s.len() ==> is_digit(s[i])
}

/// Value of a digit string read in base 10.
pub open spec fn digits_val(s: Seq<char>) -> int
    decreases s.len(),
{
    if s.len() == 0 {
        0
    } else {
        digits_val(s.drop_last()) * 10 + digit_val(s.last())
    }
}

/// Index of the first `.`, or the length when there is none.
pub open spec fn dot_pos(s: Seq<char>) -> int
    decreases s.len(),
{
    if s.len() == 0 {
        0
    } else if s[0] == '.' {
        0
    } else {
        1 + dot_pos(s.drop_first())
    }
}

pub open spec fn pow10(n: nat) -> int
    decreases n,
{
    if n == 0 {
        1
    } else {
        10 * pow10((n - 1) as nat)
    }
}

/// A non-empty integer part, and either no fraction or one of 1..=8 digits.
pub open spec fn decimal_shape_ok(s: Seq<char>) -> bool {
    let k = dot_pos(s);
    &&& 1 <= k
    &&& all_digits(s.subrange(0, k))
    &&& (k == s.len() || {
        &&& k + 1 < s.len()
        &&& s.len() - (k + 1) <= 8
        &&& all_digits(s.subrange(k + 1, s.len() as int))
    })
}

/// The scaled value of a well-shaped decimal string.
pub open spec fn decimal_scaled(s: Seq<char>) -> int {
    let k = dot_pos(s);
    if k == s.len() {
        digits_val(s) * SCALE as int
    } else {
        digits_val(s.subrange(0, k)) * SCALE as int + digits_val(
            s.subrange(k + 1, s.len() as int),
        ) * pow10((8 - (s.len() - (k + 1))) as nat)
    }
}

/// What `parse_price` returns: the scaled value when the string is a
/// well-shaped decimal that fits in `u64`, and `None` otherwise.
pub open spec fn spec_parse_price(s: Seq<char>) -> Option<u64> {
    if decimal_shape_ok(s) && 0 <= decimal_scaled(s) && decimal_scaled(s) <= u64::MAX as int {
        Some(decimal_scaled(s) as u64)
    } else {
        None
    }
}

pub proof fn lemma_digits_val_nonneg(s: Seq<char>)
    requires
        all_digits(s),
    ensures
        digits_val(s) >= 0,
    decreases s.len(),
{
    if s.len() > 0 {
        let dl = s.drop_last();
        assert(forall|i: int| 0 <= i < dl.len() ==> dl[i] == s[i]);
        lemma_digits_val_nonneg(dl);
        assert(digits_val(dl) * 10 >= 0) by (nonlinear_arith)
            requires
                digits_val(dl) >= 0,
        ;
    }
}

pub proof fn lemma_digits_val_bound(s: Seq<char>)
    requires
        all_digits(s),
    ensures
        digits_val(s) < pow10(s.len()),
    decreases s.len(),
{
    if s.len() == 0 {
    } else {
        let dl = s.drop_last();
        assert(forall|i: int| 0 <= i < dl.len() ==> dl[i] == s[i]);
        lemma_digits_val_bound(dl);
        assert(digits_val(dl) * 10 <= (pow10(dl.len()) - 1) * 10) by (nonlinear_arith)
            requires
                digits_val(dl) <= pow10(dl.len()) - 1,
        ;
    }
}

/// Reading more digits never shrinks the value.
pub proof fn lemma_digits_prefix_le(s: Seq<char>, i: int)
    requires
        all_digits(s),
        0 <= i <= s.len(),
    ensures
        digits_val(s.subrange(0, i)) <= digits_val(s),
    decreases s.len(),
{
    if i == s.len() {
        assert(s.subrange(0, i) =~= s);
    } else {
        let dl = s.drop_last();
        assert(forall|j: int| 0 <= j < dl.len() ==> dl[j] == s[j]);
        lemma_digits_prefix_le(dl, i);
        assert(dl.subrange(0, i) =~= s.subrange(0, i));
        lemma_digits_val_nonneg(dl);
        assert(digits_val(dl) * 10 >= digits_val(dl)) by (nonlinear_arith)
            requires
                digits_val(dl) >= 0,
        ;
    }
}

proof fn lemma_dot_pos_at(s: Seq<char>, k: int)
    requires
        0 <= k <= s.len(),
        forall|j: int| 0 <= j < k ==> s[j] != '.',
        k < s.len() ==> s[k] == '.',
    ensures
        dot_pos(s) == k,
    decreases s.len(),
{
    if s.len() == 0 {
    } else if k == 0 {
    } else {
        let df = s.drop_first();
        assert(forall|j: int| 0 <= j < df.len() ==> df[j] == s[j + 1]);
        lemma_dot_pos_at(df, k - 1);
    }
}

pub proof fn lemma_pow10_pos(a: nat)
    ensures
        0 < pow10(a),
    decreases a,
{
    if a > 0 {
        lemma_pow10_pos((a - 1) as nat);
    }
}

pub proof fn lemma_pow10_mono(a: nat, b: nat)
    requires
        a <= b,
    ensures
        0 < pow10(a) <= pow10(b),
    decreases b,
{
    lemma_pow10_pos(a);
    if a < b {
        lemma_pow10_mono(a, (b - 1) as nat);
    }
}

pub open spec fn digits_result_ok(s: Seq<char>, r: Option<u64>) -> bool {
    match r {
        Some(v) => all_digits(s) && digits_val(s) == v as int,
        None => !all_digits(s) || digits_val(s) > u64::MAX as int,
    }
}

/// Reads the digit run `s[from..to]` in base 10, rejecting non-digits and
/// values over `u64::MAX`.
fn parse_digits(s: &str, from: usize, to: usize) -> (r: Option<u64>)
    requires
        from <= to <= s@.len(),
    ensures
        digits_result_ok(s@.subrange(from as int, to as int), r),
{
    let ghost sub = s@.subrange(from as int, to as int);
    let mut acc: u128 = 0;
    let mut i: usize = from;
    while i < to
        invariant
            from <= i <= to <= s@.len(),
            sub == s@.subrange(from as int, to as int),
            all_digits(s@.subrange(from as int, i as int)),
            acc == digits_val(s@.subrange(from as int, i as int)),
            acc <= u64::MAX as u128,
        decreases to - i,
    {
        let c = s.get_char(i);
        let u: u32 = c as u32;
        proof {
            assert(s@.subrange(from as int, i + 1 as int).drop_last() =~= s@.subrange(
                from as int,
                i as int,
            ));
        }
        if u < 48 || u > 57 {
            proof {
                assert(sub[i - from as int] == s@[i as int]);
                assert(!is_digit(sub[i - from as int]));
            }
            return None;
        }
        let d: u128 = (u - 48) as u128;
        acc = acc * 10 + d;
        proof {
            assert(s@.subrange(from as int, i + 1 as int).last() == s@[i as int]);
        }
        if acc > u64::MAX as u128 {
            proof {
                let p = s@.subrange(from as int, i + 1 as int);
                assert(digits_val(p) == acc);
                if all_digits(sub) {
                    lemma_digits_prefix_le(sub, i + 1 - from as int);
                    assert(sub.subrange(0, i + 1 - from as int) =~= p);
                }
            }
            return None;
        }
        i = i + 1;
    }
    proof {
        assert(s@.subrange(from as int, i as int) =~= sub);
    }
    Some(acc as u64)
}

/// 10^e for e <= 8.
fn pow10_u64(e: usize) -> (r: u64)
    requires
        e <= 8,
    ensures
        r as int == pow10(e as nat),
{
    proof {
        reveal_with_fuel(pow10, 10);
    }
    match e {
        0 => 1,
        1 => 10,
        2 => 100,
        3 => 1_000,
        4 => 10_000,
        5 => 100_000,
        6 => 1_000_000,
        7 => 10_000_000,
        _ => 100_000_000,
    }
}

/// Parses a venue decimal string into a scaled fixed-point value.
pub fn parse_price(s: &str) -> (r: Option<u64>)
    ensures
        r == spec_parse_price(s@),
{
    let n: usize = s.unicode_len();
    let mut k: usize = 0;
    while k < n && s.get_char(k) != '.'
        invariant
            k <= n,
            n == s@.len(),
            forall|j: int| 0 <= j < k ==> s@[j] != '.',
        decreases n - k,
    {
        k = k + 1;
    }
    proof {
        lemma_dot_pos_at(s@, k as int);
    }
    if k == 0 {
        return None;
    }
    let int_v: u64 = match parse_digits(s, 0, k) {
        Some(v) => v,
        None => {
            proof {
                let ip = s@.subrange(0, k as int);
                if decimal_shape_ok(s@) && digits_val(ip) > u64::MAX as int {
                    lemma_int_part_dominates(s@, k as int);
                }
            }
            return None;
        },
    };
    if k == n {
        proof {
            assert(s@.subrange(0, k as int) =~= s@);
        }
        let t: u128 = (int_v as u128) * (SCALE as u128);
        if t > u64::MAX as u128 {
            return None;
        }
        return Some(t as u64);
    }
    let fl: usize = n - k - 1;
    if fl == 0 || fl > 8 {
        return None;
    }
    let frac_v: u64 = match parse_digits(s, k + 1, n) {
        Some(v) => v,
        None => {
            proof {
                let fp = s@.subrange(k + 1 as int, n as int);
                if all_digits(fp) {
                    lemma_digits_val_bound(fp);
                    lemma_pow10_mono(fp.len(), 8);
                    reveal_with_fuel(pow10, 10);
                }
            }
            return None;
        },
    };
    let m: u64 = pow10_u64(8 - fl);
    proof {
        let fp = s@.subrange(k + 1 as int, n as int);
        lemma_digits_val_bound(fp);
        lemma_pow10_mono(fp.len(), 8);
        lemma_pow10_mono((8 - fl) as nat, 8);
        reveal_with_fuel(pow10, 10);
        assert(frac_v as int * m as int <= (pow10(fp.len()) - 1) * pow10((8 - fl) as nat))
            by (nonlinear_arith)
            requires
                frac_v as int <= pow10(fp.len()) - 1,
                0 < m as int == pow10((8 - fl) as nat),
                frac_v >= 0,
        ;
        assert((pow10(fp.len()) - 1) * pow10((8 - fl) as nat) <= 100_000_000 * 100_000_000)
            by (nonlinear_arith)
            requires
                0 < pow10(fp.len()) <= 100_000_000,
                0 < pow10((8 - fl) as nat) <= 100_000_000,
        ;
    }
    let t: u128 = (int_v as u128) * (SCALE as u128) + (frac_v as u128) * (m as u128);
    if t > u64::MAX as u128 {
        return None;
    }
    Some(t as u64)
}

/// When the integer part alone is over the representable range, so is the
/// whole scaled value.
proof fn lemma_int_part_dominates(s: Seq<char>, k: int)
    requires
        decimal_shape_ok(s),
        dot_pos(s) == k,
        digits_val(s.subrange(0, k)) > u64::MAX as int,
    ensures
        decimal_scaled(s) > u64::MAX as int,
{
    let ip = s.subrange(0, k);
    if k == s.len() {
        assert(ip =~= s);
        assert(digits_val(s) * SCALE as int >= digits_val(s)) by (nonlinear_arith)
            requires
                digits_val(s) >= 0,
        ;
    } else {
        let fp = s.subrange(k + 1, s.len() as int);
        lemma_digits_val_nonneg(fp);
        lemma_pow10_mono(0, (8 - (s.len() - (k + 1))) as nat);
        assert(digits_val(ip) * SCALE as int >= digits_val(ip)) by (nonlinear_arith)
            requires
                digits_val(ip) >= 0,
        ;
        assert(digits_val(fp) * pow10((8 - (s.len() - (k + 1))) as nat) >= 0) by (nonlinear_arith)
            requires
                digits_val(fp) >= 0,
                pow10((8 - (s.len() - (k + 1))) as nat) > 0,
        ;
    }
}

} // verus!

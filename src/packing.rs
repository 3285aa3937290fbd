//! The packed number format: a value is stored as `mantissa * 10^exponent`,
//! with a bounded mantissa and a five-bit exponent.
use vstd::prelude::*;

use crate::amount::{lemma_limb_beyond_three, lemma_three_low_limbs, limb_base, Amount};

verus! {

/// The largest exponent that the five exponent bits hold, for amounts and
/// fees alike.
pub const MAX_EXPONENT: u32 = 31;

/// A packed amount has a 35-bit mantissa: every mantissa is below `2^35`.
pub const AMOUNT_MANTISSA_LIMIT: u128 = 34359738368;

/// A packed fee has an 11-bit mantissa: every mantissa is below `2^11`.
pub const FEE_MANTISSA_LIMIT: u128 = 2048;

pub open spec fn pow10(e: nat) -> nat
    decreases e,
{
    if e == 0 {
        1
    } else {
        10 * pow10((e - 1) as nat)
    }
}

/// The value that a mantissa and an exponent stand for.
pub open spec fn scaled(mantissa: nat, exponent: nat) -> nat {
    mantissa * pow10(exponent)
}

/// `v` is exactly `m * 10^e` for a mantissa `m` below `mantissa_limit` and an
/// exponent `e` no larger than `max_exponent`.
pub open spec fn packable_within(v: nat, mantissa_limit: nat, max_exponent: nat) -> bool {
    exists|m: nat, e: nat|
        m < mantissa_limit && e <= max_exponent && v == #[trigger] scaled(m, e)
}

/// `v` is exactly `m * 10^e` for a mantissa `m` below `mantissa_limit` and an
/// exponent `e` that the exponent bits hold.
pub open spec fn packable(v: nat, mantissa_limit: nat) -> bool {
    packable_within(v, mantissa_limit, MAX_EXPONENT as nat)
}

pub open spec fn token_amount_packable(v: nat) -> bool {
    packable(v, AMOUNT_MANTISSA_LIMIT as nat)
}

pub open spec fn fee_amount_packable(v: nat) -> bool {
    packable(v, FEE_MANTISSA_LIMIT as nat)
}

pub proof fn lemma_pow10_positive(e: nat)
    ensures
        pow10(e) >= 1,
    decreases e,
{
    if e > 0 {
        lemma_pow10_positive((e - 1) as nat);
    }
}

pub proof fn lemma_pow10_add(a: nat, b: nat)
    ensures
        pow10(a + b) == pow10(a) * pow10(b),
    decreases a,
{
    if a == 0 {
        assert(pow10(a) == 1);
        assert(1 * pow10(b) == pow10(b));
    } else {
        let a1 = (a - 1) as nat;
        lemma_pow10_add(a1, b);
        assert(pow10(a + b) == 10 * pow10(a1 + b));
        assert(pow10(a) == 10 * pow10(a1));
        vstd::arithmetic::mul::lemma_mul_is_associative(10, pow10(a1) as int, pow10(b) as int);
    }
}

/// A value whose last decimal digit is not zero has no zero digit to move into
/// the exponent: it packs exactly when it is itself a mantissa.
pub proof fn lemma_packable_without_trailing_zero(v: nat, mantissa_limit: nat)
    requires
        v % 10 != 0,
    ensures
        packable(v, mantissa_limit) <==> v < mantissa_limit,
{
    if v < mantissa_limit {
        assert(pow10(0) == 1);
        assert(scaled(v, 0) == v);
    }
    assert forall|m: nat, e: nat|
        m < mantissa_limit && e <= MAX_EXPONENT && v == #[trigger] scaled(m, e) implies v
        < mantissa_limit by {
        if e == 0 {
            assert(pow10(0) == 1);
        } else {
            let q = pow10((e - 1) as nat);
            assert(pow10(e) == 10 * q);
            vstd::arithmetic::mul::lemma_mul_is_associative(m as int, q as int, 10);
            vstd::arithmetic::mul::lemma_mul_is_commutative(10, q as int);
            vstd::arithmetic::div_mod::lemma_mod_multiples_basic((m * q) as int, 10);
        }
    }
}

/// A number in packed form: `mantissa * 10^exponent`.
#[derive(Clone, Copy, Debug, PartialEq, Eq, Structural)]
pub struct PackedFloat {
    pub mantissa: u128,
    pub exponent: u32,
}

pub open spec fn packed_value(p: PackedFloat) -> nat {
    scaled(p.mantissa as nat, p.exponent as nat)
}

/// `v` with its `e` lowest decimal digits cut off.
pub open spec fn truncated(v: nat, e: nat) -> nat {
    v / pow10(e)
}

/// What packing `v` keeps: the exponent is the least one at which the cut
/// value fits the mantissa, and the mantissa is that cut value.
pub open spec fn packs_to(v: nat, mantissa_limit: nat, max_exponent: nat, p: PackedFloat) -> bool {
    &&& p.exponent <= max_exponent
    &&& p.mantissa == truncated(v, p.exponent as nat)
    &&& p.mantissa < mantissa_limit
    &&& forall|e: nat| e < p.exponent ==> #[trigger] truncated(v, e) >= mantissa_limit
}

pub proof fn lemma_pow10_monotone(a: nat, b: nat)
    requires
        a <= b,
    ensures
        pow10(a) <= pow10(b),
{
    lemma_pow10_add(a, (b - a) as nat);
    lemma_pow10_positive(a);
    lemma_pow10_positive((b - a) as nat);
    let x = pow10(a);
    let y = pow10((b - a) as nat);
    assert(x * y >= x) by (nonlinear_arith)
        requires
            y >= 1,
            x >= 1,
    ;
}

proof fn lemma_truncate_step(v: nat, e: nat)
    ensures
        truncated(v, e + 1) == truncated(v, e) / 10,
{
    lemma_pow10_positive(e);
    assert(pow10(e + 1) == 10 * pow10(e));
    vstd::arithmetic::div_mod::lemma_div_denominator(v as int, pow10(e) as int, 10);
    vstd::arithmetic::mul::lemma_mul_is_commutative(10, pow10(e) as int);
}

/// Packing loses nothing exactly when the value is packable.
pub proof fn lemma_packable_iff_round_trip(
    v: nat,
    mantissa_limit: nat,
    max_exponent: nat,
    p: PackedFloat,
)
    requires
        packs_to(v, mantissa_limit, max_exponent, p),
    ensures
        packable_within(v, mantissa_limit, max_exponent) <==> packed_value(p) == v,
{
    if packed_value(p) == v {
        assert(scaled(p.mantissa as nat, p.exponent as nat) == v);
    }
    assert forall|m: nat, e: nat|
        m < mantissa_limit && e <= max_exponent && v == #[trigger] scaled(m, e) implies packed_value(p)
        == v by {
        let pe = p.exponent as nat;
        lemma_pow10_positive(e);
        assert(truncated(v, e) == m) by {
            vstd::arithmetic::div_mod::lemma_div_by_multiple(m as int, pow10(e) as int);
        }
        assert(pe <= e);
        let d = (e - pe) as nat;
        lemma_pow10_add(d, pe);
        lemma_pow10_positive(pe);
        let k = m * pow10(d);
        vstd::arithmetic::mul::lemma_mul_is_associative(m as int, pow10(d) as int, pow10(pe) as int);
        assert(v == k * pow10(pe));
        vstd::arithmetic::div_mod::lemma_div_by_multiple(k as int, pow10(pe) as int);
    }
}

/// Where even the largest exponent leaves the cut value too large, no
/// representation fits.
pub proof fn lemma_unpackable_beyond_exponent(v: nat, mantissa_limit: nat, max_exponent: nat)
    requires
        truncated(v, max_exponent) >= mantissa_limit,
    ensures
        !packable_within(v, mantissa_limit, max_exponent),
{
    assert forall|m: nat, e: nat|
        m < mantissa_limit && e <= max_exponent implies v != #[trigger] scaled(m, e) by {
        if v == scaled(m, e) {
            let top = max_exponent;
            lemma_pow10_monotone(e, top);
            lemma_pow10_positive(e);
            let pt = pow10(top);
            assert(v <= m * pt) by (nonlinear_arith)
                requires
                    v == m * pow10(e),
                    pow10(e) <= pt,
            ;
            vstd::arithmetic::div_mod::lemma_div_is_ordered(v as int, (m * pt) as int, pt as int);
            vstd::arithmetic::div_mod::lemma_div_by_multiple(m as int, pt as int);
        }
    }
}

/// Packs `v`, cutting off low decimal digits until the rest fits the
/// mantissa; `None` where the exponent runs out first. Digits that are cut
/// off are lost.
pub fn pack(v: u128, mantissa_limit: u128) -> (r: Option<PackedFloat>)
    requires
        mantissa_limit > 0,
    ensures
        match r {
            Some(p) => packs_to(v as nat, mantissa_limit as nat, MAX_EXPONENT as nat, p),
            None => truncated(v as nat, MAX_EXPONENT as nat) >= mantissa_limit,
        },
{
    pack_upto(v, mantissa_limit, MAX_EXPONENT)
}

/// Packs `v` with exponents up to `max_exponent`.
fn pack_upto(v: u128, mantissa_limit: u128, max_exponent: u32) -> (r: Option<PackedFloat>)
    requires
        mantissa_limit > 0,
    ensures
        match r {
            Some(p) => packs_to(v as nat, mantissa_limit as nat, max_exponent as nat, p),
            None => truncated(v as nat, max_exponent as nat) >= mantissa_limit,
        },
{
    let mut m: u128 = v;
    let mut e: u32 = 0;
    assert(pow10(0) == 1);
    while m >= mantissa_limit && e < max_exponent
        invariant
            e <= max_exponent,
            m as nat == truncated(v as nat, e as nat),
            forall|k: nat| k < e ==> #[trigger] truncated(v as nat, k) >= mantissa_limit,
        decreases max_exponent - e,
    {
        proof {
            lemma_truncate_step(v as nat, e as nat);
        }
        m = m / 10;
        e = e + 1;
    }
    if m < mantissa_limit {
        Some(PackedFloat { mantissa: m, exponent: e })
    } else {
        None
    }
}

/// The value that `p` stands for, or `None` where it exceeds 128 bits.
pub fn unpack(p: PackedFloat) -> (r: Option<u128>)
    ensures
        match r {
            Some(w) => w as nat == packed_value(p),
            None => packed_value(p) > u128::MAX,
        },
{
    let mut acc: u128 = p.mantissa;
    let mut i: u32 = 0;
    assert(pow10(0) == 1);
    while i < p.exponent
        invariant
            i <= p.exponent,
            acc as nat == scaled(p.mantissa as nat, i as nat),
        decreases p.exponent - i,
    {
        proof {
            assert(pow10((i + 1) as nat) == 10 * pow10(i as nat));
            vstd::arithmetic::mul::lemma_mul_is_associative(
                p.mantissa as int,
                10,
                pow10(i as nat) as int,
            );
            vstd::arithmetic::mul::lemma_mul_is_commutative(p.mantissa as int, 10);
            vstd::arithmetic::mul::lemma_mul_is_associative(
                10,
                p.mantissa as int,
                pow10(i as nat) as int,
            );
        }
        match acc.checked_mul(10) {
            Some(next) => {
                acc = next;
            },
            None => {
                proof {
                    lemma_pow10_monotone((i + 1) as nat, p.exponent as nat);
                    let pm = p.mantissa as nat;
                    assert(pm * pow10((i + 1) as nat) <= pm * pow10(p.exponent as nat))
                        by (nonlinear_arith)
                        requires
                            pow10((i + 1) as nat) <= pow10(p.exponent as nat),
                    ;
                }
                return None;
            },
        }
        i = i + 1;
    }
    Some(acc)
}

/// Whether `v` is `m * 10^e` with `m < mantissa_limit` and
/// `e <= max_exponent`: it is exactly when packing and unpacking give `v` back.
fn fits_packed(v: u128, mantissa_limit: u128, max_exponent: u32) -> (r: bool)
    requires
        mantissa_limit > 0,
    ensures
        r == packable_within(v as nat, mantissa_limit as nat, max_exponent as nat),
{
    match pack_upto(v, mantissa_limit, max_exponent) {
        Some(p) => {
            proof {
                lemma_packable_iff_round_trip(v as nat, mantissa_limit as nat, max_exponent as nat, p);
            }
            match unpack(p) {
                Some(w) => w == v,
                None => false,
            }
        },
        None => {
            proof {
                lemma_unpackable_beyond_exponent(v as nat, mantissa_limit as nat, max_exponent as nat);
            }
            false
        },
    }
}

/// The number that a high, a middle and a low 64-bit limb stand for.
pub open spec fn triple_value(h: nat, m: nat, l: nat) -> nat {
    h * limb_base() * limb_base() + m * limb_base() + l
}

/// Long division of a three-limb number by ten: quotient limbs and remainder.
fn divide_by_ten(h: u64, m: u64, l: u64) -> (r: (u64, u64, u64, u64))
    ensures
        triple_value(h as nat, m as nat, l as nat) == 10 * triple_value(r.0 as nat, r.1 as nat, r.2 as nat)
            + r.3,
        r.3 < 10,
{
    let base: u128 = 0x1_0000_0000_0000_0000u128;
    let q2: u64 = h / 10;
    let r2: u64 = h % 10;
    let t1: u128 = (r2 as u128) * base + m as u128;
    let q1: u128 = t1 / 10;
    let r1: u128 = t1 % 10;
    let t0: u128 = r1 * base + l as u128;
    let q0: u128 = t0 / 10;
    let r0: u128 = t0 % 10;
    assert(q1 < base && q0 < base) by (nonlinear_arith)
        requires
            t1 == r2 * base + m,
            r2 < 10,
            m < base,
            q1 == t1 / 10,
            t0 == r1 * base + l,
            r1 < 10,
            l < base,
            q0 == t0 / 10,
    ;
    proof {
        let b = limb_base();
        assert(b == base);
        assert(h == 10 * q2 + r2);
        assert(t1 == 10 * q1 + r1);
        assert(t0 == 10 * q0 + r0);
        let (hh, mm, ll) = (h as int, m as int, l as int);
        let (a2, a1, a0) = (q2 as int, q1 as int, q0 as int);
        let (e2, e1, e0) = (r2 as int, r1 as int, r0 as int);
        let bb = b as int;
        assert(hh * bb * bb == (10 * a2) * bb * bb + e2 * bb * bb) by (nonlinear_arith)
            requires
                hh == 10 * a2 + e2,
        ;
        assert(mm * bb == (10 * a1) * bb + e1 * bb - e2 * bb * bb) by (nonlinear_arith)
            requires
                mm == 10 * a1 + e1 - e2 * bb,
        ;
        assert(ll == 10 * a0 + e0 - e1 * bb);
        assert(10 * (a2 * bb * bb + a1 * bb + a0) == (10 * a2) * bb * bb + (10 * a1) * bb + 10 * a0)
            by (nonlinear_arith);
    }
    (q2, q1 as u64, q0 as u64, r0 as u64)
}

proof fn lemma_ten_division(v: nat, q: nat, r: nat)
    requires
        v == 10 * q + r,
        r < 10,
    ensures
        v % 10 == r,
        v / 10 == q,
{
    vstd::arithmetic::mul::lemma_mul_is_commutative(10, q as int);
    vstd::arithmetic::div_mod::lemma_fundamental_div_mod_converse_mod(v as int, 10, q as int, r as int);
    vstd::arithmetic::div_mod::lemma_fundamental_div_mod_converse_div(v as int, 10, q as int, r as int);
}

/// A value at or above the mantissa limit packs within `max_exponent`
/// exactly when its last digit is zero and the rest packs within one less.
pub proof fn lemma_peel_digit(v: nat, mantissa_limit: nat, max_exponent: nat)
    requires
        v >= mantissa_limit,
    ensures
        packable_within(v, mantissa_limit, max_exponent) <==> (max_exponent >= 1 && v % 10 == 0
            && packable_within(v / 10, mantissa_limit, (max_exponent - 1) as nat)),
{
    if packable_within(v, mantissa_limit, max_exponent) {
        let (m, e) = choose|m: nat, e: nat|
            m < mantissa_limit && e <= max_exponent && v == #[trigger] scaled(m, e);
        if e == 0 {
            assert(pow10(0) == 1);
        } else {
            let q = pow10((e - 1) as nat);
            assert(pow10(e) == 10 * q);
            vstd::arithmetic::mul::lemma_mul_is_associative(m as int, q as int, 10);
            vstd::arithmetic::mul::lemma_mul_is_commutative(10, q as int);
            vstd::arithmetic::div_mod::lemma_mod_multiples_basic((m * q) as int, 10);
            vstd::arithmetic::div_mod::lemma_div_by_multiple((m * q) as int, 10);
            assert(v / 10 == scaled(m, (e - 1) as nat));
        }
    }
    if max_exponent >= 1 && v % 10 == 0 && packable_within(
        v / 10,
        mantissa_limit,
        (max_exponent - 1) as nat,
    ) {
        let (m, e) = choose|m: nat, e: nat|
            m < mantissa_limit && e <= (max_exponent - 1) as nat && v / 10 == #[trigger] scaled(m, e);
        let q = pow10(e);
        assert(pow10(e + 1) == 10 * q);
        vstd::arithmetic::mul::lemma_mul_is_associative(m as int, 10, q as int);
        vstd::arithmetic::mul::lemma_mul_is_commutative(m as int, 10);
        vstd::arithmetic::mul::lemma_mul_is_associative(10, m as int, q as int);
        assert(v == 10 * (v / 10));
        assert(v == scaled(m, e + 1));
    }
}

/// Every packable value is below `mantissa_limit * 10^max_exponent`.
pub proof fn lemma_packable_below(v: nat, mantissa_limit: nat, max_exponent: nat)
    requires
        packable_within(v, mantissa_limit, max_exponent),
    ensures
        v < mantissa_limit * pow10(max_exponent),
{
    let (m, e) = choose|m: nat, e: nat|
        m < mantissa_limit && e <= max_exponent && v == #[trigger] scaled(m, e);
    lemma_pow10_monotone(e, max_exponent);
    lemma_pow10_positive(e);
    let pe = pow10(e);
    let pm = pow10(max_exponent);
    assert(m * pe < mantissa_limit * pm) by (nonlinear_arith)
        requires
            m < mantissa_limit,
            1 <= pe <= pm,
    ;
}

/// Whether the value of `a` is `m * 10^e` with `m < mantissa_limit` and `e <= 31`.
/// Values above 128 bits shed zero digits into the exponent until they fit.
fn amount_fits_packed(a: &Amount, mantissa_limit: u128) -> (r: bool)
    requires
        0 < mantissa_limit <= AMOUNT_MANTISSA_LIMIT,
    ensures
        r == packable(a.value(), mantissa_limit as nat),
{
    let n: usize = a.limbs.len();
    let mut i: usize = 3;
    while i < n
        invariant
            3 <= i,
            n == a.limbs.len(),
            0 < mantissa_limit <= AMOUNT_MANTISSA_LIMIT,
            forall|j: int| 3 <= j < i && j < n ==> a.limbs[j] == 0,
        decreases n - i,
    {
        if a.limbs[i] != 0 {
            proof {
                lemma_limb_beyond_three(a.limbs@, i as int);
                if packable(a.value(), mantissa_limit as nat) {
                    lemma_packable_below(a.value(), mantissa_limit as nat, MAX_EXPONENT as nat);
                    reveal_with_fuel(pow10, 32);
                    assert(pow10(31) == 10000000000000000000000000000000nat);
                    assert(limb_base() * limb_base() * limb_base()
                        == 0x1_0000_0000_0000_0000_0000_0000_0000_0000_0000_0000_0000_0000nat);
                    assert(mantissa_limit * pow10(31) <= AMOUNT_MANTISSA_LIMIT * pow10(31))
                        by (nonlinear_arith)
                        requires
                            mantissa_limit <= AMOUNT_MANTISSA_LIMIT,
                    ;
                }
            }
            return false;
        }
        i = i + 1;
    }
    let mut h: u64 = if n > 2 {
        a.limbs[2]
    } else {
        0
    };
    let mut m: u64 = if n > 1 {
        a.limbs[1]
    } else {
        0
    };
    let mut l: u64 = if n > 0 {
        a.limbs[0]
    } else {
        0
    };
    proof {
        lemma_three_low_limbs(a.limbs@);
        let b = limb_base();
        assert(b * b * (h as nat) == (h as nat) * b * b) by (nonlinear_arith);
        assert(b * (m as nat) == (m as nat) * b) by (nonlinear_arith);
    }
    let mut k: u32 = 0;
    while h != 0
        invariant
            k <= MAX_EXPONENT,
            0 < mantissa_limit <= AMOUNT_MANTISSA_LIMIT,
            packable(a.value(), mantissa_limit as nat) == packable_within(
                triple_value(h as nat, m as nat, l as nat),
                mantissa_limit as nat,
                (MAX_EXPONENT - k) as nat,
            ),
        decreases MAX_EXPONENT - k,
    {
        let ghost v = triple_value(h as nat, m as nat, l as nat);
        proof {
            let b = limb_base();
            assert(v >= b * b) by (nonlinear_arith)
                requires
                    v == h * b * b + m * b + l,
                    h >= 1,
                    b >= 1,
            ;
            lemma_peel_digit(v, mantissa_limit as nat, (MAX_EXPONENT - k) as nat);
        }
        if k == MAX_EXPONENT {
            return false;
        }
        let (q2, q1, q0, rem) = divide_by_ten(h, m, l);
        if rem != 0 {
            proof {
                lemma_ten_division(v, triple_value(q2 as nat, q1 as nat, q0 as nat), rem as nat);
            }
            return false;
        }
        proof {
            lemma_ten_division(v, triple_value(q2 as nat, q1 as nat, q0 as nat), rem as nat);
        }
        h = q2;
        m = q1;
        l = q0;
        k = k + 1;
    }
    let low: u128 = (m as u128) * 0x1_0000_0000_0000_0000u128 + l as u128;
    fits_packed(low, mantissa_limit, MAX_EXPONENT - k)
}

/// Whether a token amount survives packing unchanged.
pub fn is_token_amount_packable(a: &Amount) -> (r: bool)
    ensures
        r == token_amount_packable(a.value()),
{
    amount_fits_packed(a, AMOUNT_MANTISSA_LIMIT)
}

/// Whether a fee survives packing unchanged.
pub fn is_fee_amount_packable(a: &Amount) -> (r: bool)
    ensures
        r == fee_amount_packable(a.value()),
{
    amount_fits_packed(a, FEE_MANTISSA_LIMIT)
}

} // verus!

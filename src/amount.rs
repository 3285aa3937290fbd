//! Arbitrary-precision amounts as little-endian 64-bit limbs.
use vstd::prelude::*;

verus! {

/// The base of one limb, `2^64`.
pub open spec fn limb_base() -> nat {
    0x1_0000_0000_0000_0000nat
}

/// The number that little-endian limbs stand for.
pub open spec fn limbs_value(s: Seq<u64>) -> nat
    decreases s.len(),
{
    if s.len() == 0 {
        0
    } else {
        (s[0] + limb_base() * limbs_value(s.drop_first())) as nat
    }
}

/// Limb `i`, or zero past the end.
pub open spec fn limb_at(s: Seq<u64>, i: int) -> nat {
    if 0 <= i < s.len() {
        s[i] as nat
    } else {
        0
    }
}

/// An unsigned integer of any size: limb `i` weighs `2^(64 * i)`.
pub struct Amount {
    pub limbs: Vec<u64>,
}

proof fn lemma_zero_limbs(s: Seq<u64>)
    requires
        forall|j: int| 0 <= j < s.len() ==> s[j] == 0,
    ensures
        limbs_value(s) == 0,
    decreases s.len(),
{
    if s.len() > 0 {
        lemma_zero_limbs(s.drop_first());
    }
}

proof fn lemma_nonzero_limb(s: Seq<u64>, i: int)
    requires
        0 <= i < s.len(),
        s[i] != 0,
    ensures
        limbs_value(s) >= 1,
    decreases s.len(),
{
    if i > 0 {
        lemma_nonzero_limb(s.drop_first(), i - 1);
        let w = limbs_value(s.drop_first());
        assert(limb_base() * w >= 1) by (nonlinear_arith)
            requires
                w >= 1,
                limb_base() >= 1,
        ;
    }
}

/// The value of the two low limbs, where every higher limb is zero.
proof fn lemma_two_low_limbs(s: Seq<u64>)
    requires
        forall|j: int| 2 <= j < s.len() ==> s[j] == 0,
    ensures
        limbs_value(s) == (if s.len() > 0 { s[0] as nat } else { 0 }) + limb_base() * (if s.len()
            > 1 {
            s[1] as nat
        } else {
            0
        }),
{
    if s.len() == 0 {
    } else if s.len() == 1 {
        assert(limbs_value(s.drop_first()) == 0);
    } else {
        let t = s.drop_first();
        lemma_zero_limbs(t.drop_first());
        assert(limbs_value(t) == t[0] + limb_base() * 0);
    }
}

/// The value of the three low limbs, where every higher limb is zero.
pub(crate) proof fn lemma_three_low_limbs(s: Seq<u64>)
    requires
        forall|j: int| 3 <= j < s.len() ==> s[j] == 0,
    ensures
        limbs_value(s) == limb_at(s, 0) + limb_base() * limb_at(s, 1) + limb_base() * limb_base()
            * limb_at(s, 2),
{
    let b = limb_base();
    if s.len() == 0 {
    } else {
        let t = s.drop_first();
        lemma_two_low_limbs(t);
        assert(limb_at(t, 0) == limb_at(s, 1));
        assert(limb_at(t, 1) == limb_at(s, 2));
        let x = limb_at(s, 1);
        let y = limb_at(s, 2);
        assert(b * (x + b * y) == b * x + b * b * y) by (nonlinear_arith);
    }
}

/// A nonzero limb above the third one puts the value at `2^192` or beyond.
pub(crate) proof fn lemma_limb_beyond_three(s: Seq<u64>, i: int)
    requires
        3 <= i < s.len(),
        s[i] != 0,
    ensures
        limbs_value(s) >= limb_base() * limb_base() * limb_base(),
{
    let t = s.drop_first();
    lemma_high_limb(t, i - 1);
    let w = limbs_value(t);
    let b = limb_base();
    assert(limbs_value(s) == s[0] + b * w);
    assert(b * w >= b * (b * b)) by (nonlinear_arith)
        requires
            w > u128::MAX,
            b * b == u128::MAX + 1,
            b >= 1,
    ;
    assert(b * (b * b) == b * b * b) by (nonlinear_arith);
}

/// A nonzero limb above the second one puts the value beyond 128 bits.
proof fn lemma_high_limb(s: Seq<u64>, i: int)
    requires
        2 <= i < s.len(),
        s[i] != 0,
    ensures
        limbs_value(s) > u128::MAX,
{
    let t = s.drop_first();
    let u = t.drop_first();
    lemma_nonzero_limb(u, i - 2);
    let w = limbs_value(u);
    let b = limb_base();
    assert(limbs_value(t) == t[0] + b * w);
    assert(limbs_value(s) == s[0] + b * limbs_value(t));
    assert(s[0] + b * (t[0] + b * w) >= b * b * w) by (nonlinear_arith)
        requires
            b >= 1,
            w >= 0,
            s[0] >= 0,
            t[0] >= 0,
    ;
    assert(b * b * w >= b * b) by (nonlinear_arith)
        requires
            w >= 1,
            b >= 1,
    ;
}

impl Amount {
    pub open spec fn value(&self) -> nat {
        limbs_value(self.limbs@)
    }

    /// The amount equal to `v`.
    pub fn from_u128(v: u128) -> (r: Amount)
        ensures
            r.value() == v,
    {
        let lo: u64 = (v % 0x1_0000_0000_0000_0000u128) as u64;
        let hi: u64 = (v / 0x1_0000_0000_0000_0000u128) as u64;
        let limbs: Vec<u64> = vec![lo, hi];
        proof {
            lemma_two_low_limbs(limbs@);
        }
        Amount { limbs }
    }

    /// The amount equal to `v`.
    pub fn from_u64(v: u64) -> (r: Amount)
        ensures
            r.value() == v,
    {
        Amount::from_u128(v as u128)
    }

    /// An amount with the same limbs.
    pub fn duplicate(&self) -> (r: Amount)
        ensures
            r.limbs@ == self.limbs@,
            r.value() == self.value(),
    {
        let limbs = self.limbs.clone();
        assert(limbs@ =~= self.limbs@);
        Amount { limbs }
    }

    /// The amount as a `u128`, or `None` where it needs more than 128 bits.
    pub fn to_u128(&self) -> (r: Option<u128>)
        ensures
            match r {
                Some(x) => x as nat == self.value(),
                None => self.value() > u128::MAX,
            },
    {
        let n: usize = self.limbs.len();
        let mut i: usize = 2;
        while i < n
            invariant
                2 <= i,
                n == self.limbs.len(),
                forall|j: int| 2 <= j < i && j < n ==> self.limbs[j] == 0,
            decreases n - i,
        {
            if self.limbs[i] != 0 {
                proof {
                    lemma_high_limb(self.limbs@, i as int);
                }
                return None;
            }
            i = i + 1;
        }
        proof {
            lemma_two_low_limbs(self.limbs@);
        }
        let lo: u64 = if n > 0 {
            self.limbs[0]
        } else {
            0
        };
        let hi: u64 = if n > 1 {
            self.limbs[1]
        } else {
            0
        };
        assert(hi as nat * limb_base() + lo <= u128::MAX) by (nonlinear_arith)
            requires
                hi <= u64::MAX,
                lo <= u64::MAX,
                limb_base() == u64::MAX + 1,
        ;
        Some((hi as u128) * 0x1_0000_0000_0000_0000u128 + lo as u128)
    }
}

} // verus!

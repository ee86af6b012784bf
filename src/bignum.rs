//! Natural numbers of any size, as little-endian limbs of 32 bits, with
//! the few operations exact backoff arithmetic needs.
use vstd::prelude::*;

verus! {

/// The base of a limb.
pub const LIMB: u64 = 0x1_0000_0000;

/// The number that little-endian limbs `s` stand for.
pub open spec fn limbs_value(s: Seq<u64>) -> nat
    decreases s.len(),
{
    if s.len() == 0 {
        0
    } else {
        s[0] as nat + LIMB as nat * limbs_value(s.drop_first())
    }
}

/// Every limb is below the base.
pub open spec fn limbs_ok(s: Seq<u64>) -> bool {
    forall|i: int| 0 <= i < s.len() ==> #[trigger] s[i] < LIMB
}

/// `LIMB^k`.
pub open spec fn limb_pow(k: nat) -> nat
    decreases k,
{
    if k == 0 {
        1
    } else {
        LIMB as nat * limb_pow((k - 1) as nat)
    }
}

pub proof fn lemma_value_push(s: Seq<u64>, d: u64)
    ensures
        limbs_value(s.push(d)) == limbs_value(s) + d as nat * limb_pow(s.len()),
    decreases s.len(),
{
    if s.len() == 0 {
        assert(s.push(d).drop_first() =~= Seq::<u64>::empty());
        assert(limbs_value(Seq::<u64>::empty()) == 0);
        assert(limb_pow(0) == 1);
    } else {
        assert(s.push(d).drop_first() =~= s.drop_first().push(d));
        lemma_value_push(s.drop_first(), d);
        let v = limbs_value(s.drop_first());
        let p = limb_pow((s.len() - 1) as nat);
        assert(limb_pow(s.len()) == LIMB as nat * p);
        assert(LIMB as nat * (v + d as nat * p) == LIMB as nat * v + d as nat * (LIMB as nat * p))
            by (nonlinear_arith);
    }
}

proof fn lemma_value_zero(s: Seq<u64>)
    requires
        forall|i: int| 0 <= i < s.len() ==> #[trigger] s[i] == 0,
    ensures
        limbs_value(s) == 0,
    decreases s.len(),
{
    if s.len() > 0 {
        assert forall|i: int| 0 <= i < s.drop_first().len() implies #[trigger] s.drop_first()[i] == 0 by {
            assert(s.drop_first()[i] == s[i + 1]);
        }
        lemma_value_zero(s.drop_first());
    }
}

proof fn lemma_value_positive(s: Seq<u64>, i: int)
    requires
        0 <= i < s.len(),
        s[i] > 0,
    ensures
        limbs_value(s) >= 1,
    decreases s.len(),
{
    if i > 0 {
        assert(s.drop_first()[i - 1] == s[i]);
        lemma_value_positive(s.drop_first(), i - 1);
        assert(LIMB as nat * limbs_value(s.drop_first()) >= 1) by (nonlinear_arith)
            requires
                limbs_value(s.drop_first()) >= 1,
        ;
    }
}

/// `a × m`.
pub fn mul_small(a: &Vec<u64>, m: u64) -> (r: Vec<u64>)
    requires
        limbs_ok(a@),
    ensures
        limbs_ok(r@),
        r@.len() >= a@.len(),
        limbs_value(r@) == limbs_value(a@) * m,
{
    let mut r: Vec<u64> = Vec::new();
    let mut carry: u128 = 0;
    let mut i: usize = 0;
    proof {
        assert(a@.subrange(0, 0) =~= Seq::<u64>::empty());
        assert(r@ =~= Seq::<u64>::empty());
        assert(limbs_value(Seq::<u64>::empty()) == 0);
        assert(limb_pow(0) == 1);
    }
    while i < a.len()
        invariant
            i <= a@.len(),
            limbs_ok(a@),
            limbs_ok(r@),
            r@.len() == i,
            carry < 0x2_0000_0000_0000_0000u128,
            limbs_value(a@.subrange(0, i as int)) * m == limbs_value(r@) + carry * limb_pow(i as nat),
        decreases a@.len() - i,
    {
        let x = a[i];
        assert(x < LIMB);
        proof {
            assert((x as nat) * (m as nat) <= 0xffff_ffff * 0xffff_ffff_ffff_ffffu64) by (nonlinear_arith)
                requires
                    x < 0x1_0000_0000u64,
                    m <= 0xffff_ffff_ffff_ffffu64,
            ;
        }
        let cur: u128 = (x as u128) * (m as u128) + carry;
        let low = (cur % 0x1_0000_0000u128) as u64;
        let high = cur / 0x1_0000_0000u128;
        let ghost r0 = r@;
        r.push(low);
        proof {
            let p = limb_pow(i as nat);
            assert(a@.subrange(0, i + 1) =~= a@.subrange(0, i as int).push(x));
            lemma_value_push(a@.subrange(0, i as int), x);
            lemma_value_push(r0, low);
            assert(limb_pow((i + 1) as nat) == LIMB as nat * p);
            assert(cur == high * 0x1_0000_0000u128 + low as u128);
            let va = limbs_value(a@.subrange(0, i as int));
            assert((va + x as nat * p) * m == va * m + (x as nat * m) * p) by (nonlinear_arith);
            assert(carry * p + (x as nat * m) * p == cur * p) by (nonlinear_arith)
                requires
                    cur == x as nat * m + carry,
            ;
            assert(cur * p == low as nat * p + high * (LIMB as nat * p)) by (nonlinear_arith)
                requires
                    cur == high * LIMB as nat + low as nat,
            ;
            assert(cur < 0x2_0000_0000_0000_0000_0000_0000u128);
            assert(high < 0x2_0000_0000_0000_0000u128) by (nonlinear_arith)
                requires
                    high == cur / 0x1_0000_0000u128,
                    cur < 0x2_0000_0000_0000_0000_0000_0000u128,
            ;
        }
        carry = high;
        i = i + 1;
    }
    proof {
        assert(a@.subrange(0, a@.len() as int) =~= a@);
    }
    while carry > 0
        invariant
            limbs_ok(r@),
            r@.len() >= a@.len(),
            limbs_value(a@) * m == limbs_value(r@) + carry * limb_pow(r@.len()),
        decreases carry,
    {
        let low = (carry % 0x1_0000_0000u128) as u64;
        let high = carry / 0x1_0000_0000u128;
        let ghost r0 = r@;
        r.push(low);
        proof {
            let p = limb_pow(r0.len());
            lemma_value_push(r0, low);
            assert(limb_pow(r0.len() + 1) == LIMB as nat * p);
            assert(carry == high * 0x1_0000_0000u128 + low as u128);
            assert(carry * p == low as nat * p + high * (LIMB as nat * p)) by (nonlinear_arith)
                requires
                    carry == high * LIMB as nat + low as nat,
            ;
        }
        carry = high;
    }
    r
}

/// `a / d`, rounded down.
pub fn div_small(a: &Vec<u64>, d: u64) -> (r: Vec<u64>)
    requires
        limbs_ok(a@),
        0 < d < LIMB,
    ensures
        limbs_ok(r@),
        r@.len() == a@.len(),
        limbs_value(r@) == limbs_value(a@) / (d as nat),
{
    let n = a.len();
    let mut q: Vec<u64> = Vec::new();
    let mut k: usize = 0;
    while k < n
        invariant
            k <= n,
            n == a@.len(),
            q@.len() == k,
            forall|j: int| 0 <= j < k ==> #[trigger] q@[j] == 0,
        decreases n - k,
    {
        q.push(0);
        k = k + 1;
    }
    let mut rem: u64 = 0;
    let mut i: usize = n;
    proof {
        assert(a@.subrange(n as int, n as int) =~= Seq::<u64>::empty());
        assert(q@.subrange(n as int, n as int) =~= Seq::<u64>::empty());
        assert(limbs_value(Seq::<u64>::empty()) == 0);
    }
    while i > 0
        invariant
            i <= n,
            n == a@.len(),
            q@.len() == n,
            limbs_ok(a@),
            limbs_ok(q@),
            0 < d < LIMB,
            rem < d,
            limbs_value(a@.subrange(i as int, n as int)) == limbs_value(q@.subrange(i as int, n as int))
                * d + rem,
        decreases i,
    {
        let x = a[i - 1];
        let cur: u64 = rem * 0x1_0000_0000u64 + x;
        let qd = cur / d;
        let nr = cur % d;
        let ghost q0 = q@;
        proof {
            assert(cur < d * LIMB) by (nonlinear_arith)
                requires
                    cur == rem * LIMB + x,
                    rem + 1 <= d,
                    x < LIMB,
            ;
            assert(qd < LIMB) by (nonlinear_arith)
                requires
                    qd == cur / d,
                    cur < d * LIMB,
                    d > 0,
            ;
        }
        q.set(i - 1, qd);
        proof {
            let sa = a@.subrange(i - 1, n as int);
            let sq = q@.subrange(i - 1, n as int);
            assert(sa.drop_first() =~= a@.subrange(i as int, n as int));
            assert(sq.drop_first() =~= q0.subrange(i as int, n as int));
            assert(sa[0] == x);
            assert(sq[0] == qd);
            let vq = limbs_value(q0.subrange(i as int, n as int));
            vstd::arithmetic::div_mod::lemma_fundamental_div_mod(cur as int, d as int);
            assert(cur == qd * d + nr);
            assert(x + LIMB as nat * (vq * d + rem) == (qd + LIMB as nat * vq) * d + nr) by (nonlinear_arith)
                requires
                    cur == qd * d + nr,
                    cur == rem * LIMB + x,
            ;
        }
        rem = nr;
        i = i - 1;
    }
    proof {
        assert(a@.subrange(0, n as int) =~= a@);
        assert(q@.subrange(0, n as int) =~= q@);
        vstd::arithmetic::div_mod::lemma_fundamental_div_mod_converse_div(
            limbs_value(a@) as int,
            d as int,
            limbs_value(q@) as int,
            rem as int,
        );
    }
    q
}

/// The limbs of `x`.
pub fn from_u64(x: u64) -> (r: Vec<u64>)
    ensures
        limbs_ok(r@),
        r@.len() == 2,
        limbs_value(r@) == x,
{
    let lo = x % LIMB;
    let hi = x / LIMB;
    let r = vec![lo, hi];
    proof {
        assert(hi < LIMB);
        vstd::arithmetic::div_mod::lemma_fundamental_div_mod(x as int, LIMB as int);
        assert(r@.drop_first().drop_first() =~= Seq::<u64>::empty());
        assert(limbs_value(r@.drop_first().drop_first()) == 0);
        assert(limbs_value(r@.drop_first()) == hi);
    }
    r
}

/// `min(a, cap)`.
pub fn min_capped(a: &Vec<u64>, cap: u64) -> (r: u64)
    requires
        limbs_ok(a@),
        a@.len() >= 2,
    ensures
        r == if limbs_value(a@) > cap {
            cap as nat
        } else {
            limbs_value(a@)
        },
{
    let mut i: usize = 2;
    while i < a.len()
        invariant
            2 <= i <= a@.len(),
            forall|j: int| 2 <= j < i ==> #[trigger] a@[j] == 0,
        decreases a@.len() - i,
    {
        if a[i] != 0 {
            proof {
                let t = a@.drop_first().drop_first();
                assert(t[i - 2] == a@[i as int]);
                lemma_value_positive(t, i - 2);
                assert(limbs_value(a@) >= LIMB as nat * (LIMB as nat * limbs_value(t))) by (nonlinear_arith)
                    requires
                        limbs_value(a@) == a@[0] as nat + LIMB as nat * limbs_value(a@.drop_first()),
                        limbs_value(a@.drop_first()) == a@[1] as nat + LIMB as nat * limbs_value(t),
                ;
                assert(LIMB as nat * (LIMB as nat * limbs_value(t)) >= LIMB as nat * LIMB as nat) by (nonlinear_arith)
                    requires
                        limbs_value(t) >= 1,
                ;
            }
            return cap;
        }
        i = i + 1;
    }
    proof {
        let t = a@.drop_first().drop_first();
        assert forall|j: int| 0 <= j < t.len() implies #[trigger] t[j] == 0 by {
            assert(t[j] == a@[j + 2]);
        }
        lemma_value_zero(t);
        assert(limbs_value(a@.drop_first()) == a@[1] as nat);
    }
    let v: u128 = a[0] as u128 + (a[1] as u128) * 0x1_0000_0000u128;
    proof {
        assert(a@[1] < LIMB);
        assert(v < 0x1_0000_0000_0000_0000u128) by (nonlinear_arith)
            requires
                v == a@[0] as nat + a@[1] as nat * LIMB as nat,
                a@[0] < LIMB,
                a@[1] < LIMB,
        ;
    }
    if v > cap as u128 {
        cap
    } else {
        v as u64
    }
}

} // verus!

use vstd::prelude::*;

verus! {

/// Base of the limb representation: each limb is one 64-bit digit.
pub open spec fn limb_base() -> nat {
    0x1_0000_0000_0000_0000
}

/// Value of a little-endian limb sequence.
pub open spec fn limbs_value(s: Seq<u64>) -> nat
    decreases s.len(),
{
    if s.len() == 0 {
        0
    } else {
        s[0] as nat + limb_base() * limbs_value(s.subrange(1, s.len() as int))
    }
}

/// An arbitrary-precision non-negative token quantity in base units,
/// stored as little-endian 64-bit limbs with no trailing zero limb, so
/// that equal quantities have equal representations.
#[derive(PartialEq, Eq, Debug)]
pub struct Amount {
    limbs: Vec<u64>,
}

proof fn lemma_nonzero_last_positive(s: Seq<u64>)
    requires
        s.len() > 0,
        s[s.len() - 1] != 0,
    ensures
        limbs_value(s) > 0,
    decreases s.len(),
{
    if s.len() == 1 {
    } else {
        let t = s.subrange(1, s.len() as int);
        assert(t[t.len() - 1] == s[s.len() - 1]);
        lemma_nonzero_last_positive(t);
    }
}

proof fn lemma_value_one(x: u64)
    ensures
        limbs_value(seq![x]) == x as nat,
{
    assert(seq![x].subrange(1, 1) =~= Seq::<u64>::empty());
    assert(limbs_value(Seq::<u64>::empty()) == 0);
    assert(limbs_value(seq![x]) == x as nat + limb_base() * limbs_value(seq![x].subrange(1, 1)));
}

proof fn lemma_value_two(lo: u64, hi: u64)
    ensures
        limbs_value(seq![lo, hi]) == lo as nat + limb_base() * (hi as nat),
{
    lemma_value_one(hi);
    assert(seq![lo, hi].subrange(1, 2) =~= seq![hi]);
    assert(limbs_value(seq![lo, hi]) == lo as nat + limb_base() * limbs_value(
        seq![lo, hi].subrange(1, 2),
    ));
}

proof fn lemma_drop_zero_last(s: Seq<u64>)
    requires
        s.len() > 0,
        s[s.len() - 1] == 0,
    ensures
        limbs_value(s) == limbs_value(s.drop_last()),
    decreases s.len(),
{
    if s.len() == 1 {
        assert(s =~= seq![s[0]]);
        lemma_value_one(s[0]);
        assert(s.drop_last() =~= Seq::<u64>::empty());
        assert(limbs_value(Seq::<u64>::empty()) == 0);
    } else {
        let d = s.drop_last();
        let t = s.subrange(1, s.len() as int);
        assert(t[t.len() - 1] == s[s.len() - 1]);
        lemma_drop_zero_last(t);
        assert(t.drop_last() =~= d.subrange(1, d.len() as int));
        assert(d.len() > 0 && d[0] == s[0]);
        assert(limbs_value(d) == d[0] as nat + limb_base() * limbs_value(
            d.subrange(1, d.len() as int),
        ));
        assert(limbs_value(s) == s[0] as nat + limb_base() * limbs_value(t));
    }
}

impl Amount {
    /// The quantity this value stands for.
    pub closed spec fn value(self) -> nat {
        limbs_value(self.limbs@)
    }

    /// The representation is normalized: no trailing zero limb.
    pub closed spec fn wf(self) -> bool {
        self.limbs@.len() == 0 || self.limbs@[self.limbs@.len() - 1] != 0
    }

    /// Builds the quantity `v`.
    pub fn from_u128(v: u128) -> (a: Amount)
        ensures
            a.wf(),
            a.value() == v,
    {
        let lo: u64 = (v % 0x1_0000_0000_0000_0000u128) as u64;
        let hi: u64 = (v / 0x1_0000_0000_0000_0000u128) as u64;
        proof {
            vstd::arithmetic::div_mod::lemma_fundamental_div_mod(
                v as int,
                0x1_0000_0000_0000_0000int,
            );
            assert((v as int) / 0x1_0000_0000_0000_0000int < 0x1_0000_0000_0000_0000int)
                by (nonlinear_arith)
                requires
                    0x1_0000_0000_0000_0000int * ((v as int) / 0x1_0000_0000_0000_0000int) + (
                    v as int) % 0x1_0000_0000_0000_0000int == v as int,
                    0 <= (v as int) % 0x1_0000_0000_0000_0000int,
                    v as int <= u128::MAX,
            ;
            assert(v as nat == lo as nat + limb_base() * (hi as nat));
        }
        let mut limbs: Vec<u64> = Vec::new();
        if hi != 0 {
            limbs.push(lo);
            limbs.push(hi);
            proof {
                assert(limbs@ =~= seq![lo, hi]);
                lemma_value_two(lo, hi);
            }
        } else if lo != 0 {
            limbs.push(lo);
            proof {
                assert(limbs@ =~= seq![lo]);
                lemma_value_one(lo);
            }
        } else {
            proof {
                assert(limbs@ =~= Seq::<u64>::empty());
                assert(limbs_value(Seq::<u64>::empty()) == 0);
            }
        }
        Amount { limbs }
    }

    /// Builds the quantity that a little-endian limb sequence stands for,
    /// normalizing away trailing zero limbs.
    pub fn from_limbs(limbs: Vec<u64>) -> (a: Amount)
        ensures
            a.wf(),
            a.value() == limbs_value(limbs@),
    {
        let mut v = limbs;
        let ghost orig = v@;
        while v.len() > 0 && v[v.len() - 1] == 0
            invariant
                limbs_value(v@) == limbs_value(orig),
            decreases v.len(),
        {
            proof {
                lemma_drop_zero_last(v@);
            }
            v.pop();
        }
        Amount { limbs: v }
    }

    /// The little-endian limbs of this quantity.
    pub fn limbs(&self) -> (r: &Vec<u64>)
        ensures
            limbs_value(r@) == self.value(),
            self.wf() ==> (r@.len() == 0 || r@[r@.len() - 1] != 0),
    {
        &self.limbs
    }

    /// Whether the quantity is zero.
    pub fn is_zero(&self) -> (b: bool)
        requires
            self.wf(),
        ensures
            b == (self.value() == 0),
    {
        proof {
            if self.limbs@.len() > 0 {
                lemma_nonzero_last_positive(self.limbs@);
            }
        }
        self.limbs.len() == 0
    }

    /// An exact copy of the quantity.
    pub fn duplicate(&self) -> (r: Amount)
        ensures
            r.value() == self.value(),
            self.wf() ==> r.wf(),
    {
        let mut out: Vec<u64> = Vec::new();
        let mut i: usize = 0;
        while i < self.limbs.len()
            invariant
                i <= self.limbs@.len(),
                out@ =~= self.limbs@.subrange(0, i as int),
            decreases self.limbs@.len() - i,
        {
            out.push(self.limbs[i]);
            i = i + 1;
        }
        proof {
            assert(out@ =~= self.limbs@);
        }
        Amount { limbs: out }
    }
}

} // verus!

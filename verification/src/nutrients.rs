//! The nutrient aggregator: the canonical numeric form of a food's
//! nutrition facts, closed under addition and scalar multiplication.
//!
//! Amounts are integer thousandths of their display unit (grams for the
//! macro nutrients, kilocalories for energy). Addition and scaling saturate
//! at `u64::MAX`, which keeps both operations total, commutative,
//! associative and distributive.
use vstd::prelude::*;

verus! {

/// Saturating addition on amounts.
pub open spec fn sat_add(a: u64, b: u64) -> u64 {
    if a + b > u64::MAX {
        u64::MAX
    } else {
        (a + b) as u64
    }
}

/// Saturating multiplication on amounts.
pub open spec fn sat_mul(a: u64, k: u64) -> u64 {
    if a * k > u64::MAX {
        u64::MAX
    } else {
        (a * k) as u64
    }
}

pub fn sat_add_exec(a: u64, b: u64) -> (r: u64)
    ensures
        r == sat_add(a, b),
{
    match a.checked_add(b) {
        Some(r) => r,
        None => u64::MAX,
    }
}

pub fn sat_mul_exec(a: u64, k: u64) -> (r: u64)
    ensures
        r == sat_mul(a, k),
{
    match a.checked_mul(k) {
        Some(r) => r,
        None => u64::MAX,
    }
}

/// The eight normalized per-100g nutrient amounts, always present
/// (absent upstream data reads as zero).
#[derive(Clone, Copy, Debug, PartialEq, Eq, Structural)]
pub struct NutrientValues {
    pub carbohydrates: u64,
    pub proteins: u64,
    pub fats: u64,
    pub energy: u64,
    pub fiber: u64,
    pub salt: u64,
    pub sodium: u64,
    pub sugar: u64,
}

pub open spec fn nv_zero() -> NutrientValues {
    NutrientValues {
        carbohydrates: 0,
        proteins: 0,
        fats: 0,
        energy: 0,
        fiber: 0,
        salt: 0,
        sodium: 0,
        sugar: 0,
    }
}

pub open spec fn nv_add(a: NutrientValues, b: NutrientValues) -> NutrientValues {
    NutrientValues {
        carbohydrates: sat_add(a.carbohydrates, b.carbohydrates),
        proteins: sat_add(a.proteins, b.proteins),
        fats: sat_add(a.fats, b.fats),
        energy: sat_add(a.energy, b.energy),
        fiber: sat_add(a.fiber, b.fiber),
        salt: sat_add(a.salt, b.salt),
        sodium: sat_add(a.sodium, b.sodium),
        sugar: sat_add(a.sugar, b.sugar),
    }
}

pub open spec fn nv_scale(v: NutrientValues, k: u64) -> NutrientValues {
    NutrientValues {
        carbohydrates: sat_mul(v.carbohydrates, k),
        proteins: sat_mul(v.proteins, k),
        fats: sat_mul(v.fats, k),
        energy: sat_mul(v.energy, k),
        fiber: sat_mul(v.fiber, k),
        salt: sat_mul(v.salt, k),
        sodium: sat_mul(v.sodium, k),
        sugar: sat_mul(v.sugar, k),
    }
}

/// The contribution of `quantity` grams of a food whose amounts are given
/// per 100 grams: each amount times `quantity`, divided by 100.
pub open spec fn nv_portion(v: NutrientValues, quantity: u64) -> NutrientValues {
    NutrientValues {
        carbohydrates: sat_mul(v.carbohydrates, quantity) / 100,
        proteins: sat_mul(v.proteins, quantity) / 100,
        fats: sat_mul(v.fats, quantity) / 100,
        energy: sat_mul(v.energy, quantity) / 100,
        fiber: sat_mul(v.fiber, quantity) / 100,
        salt: sat_mul(v.salt, quantity) / 100,
        sodium: sat_mul(v.sodium, quantity) / 100,
        sugar: sat_mul(v.sugar, quantity) / 100,
    }
}

/// Element-wise sum of a list of nutrient records, from the zero identity.
pub open spec fn accumulate_spec(s: Seq<NutrientValues>) -> NutrientValues
    decreases s.len(),
{
    if s.len() == 0 {
        nv_zero()
    } else {
        nv_add(accumulate_spec(s.drop_last()), s.last())
    }
}

impl NutrientValues {
    pub fn zero() -> (r: NutrientValues)
        ensures
            r == nv_zero(),
    {
        NutrientValues {
            carbohydrates: 0,
            proteins: 0,
            fats: 0,
            energy: 0,
            fiber: 0,
            salt: 0,
            sodium: 0,
            sugar: 0,
        }
    }

    /// Element-wise saturating sum.
    pub fn add(&self, rhs: &NutrientValues) -> (r: NutrientValues)
        ensures
            r == nv_add(*self, *rhs),
    {
        NutrientValues {
            carbohydrates: sat_add_exec(self.carbohydrates, rhs.carbohydrates),
            proteins: sat_add_exec(self.proteins, rhs.proteins),
            fats: sat_add_exec(self.fats, rhs.fats),
            energy: sat_add_exec(self.energy, rhs.energy),
            fiber: sat_add_exec(self.fiber, rhs.fiber),
            salt: sat_add_exec(self.salt, rhs.salt),
            sodium: sat_add_exec(self.sodium, rhs.sodium),
            sugar: sat_add_exec(self.sugar, rhs.sugar),
        }
    }

    /// Element-wise saturating multiplication by a scalar.
    pub fn scale(&self, k: u64) -> (r: NutrientValues)
        ensures
            r == nv_scale(*self, k),
    {
        NutrientValues {
            carbohydrates: sat_mul_exec(self.carbohydrates, k),
            proteins: sat_mul_exec(self.proteins, k),
            fats: sat_mul_exec(self.fats, k),
            energy: sat_mul_exec(self.energy, k),
            fiber: sat_mul_exec(self.fiber, k),
            salt: sat_mul_exec(self.salt, k),
            sodium: sat_mul_exec(self.sodium, k),
            sugar: sat_mul_exec(self.sugar, k),
        }
    }

    /// The contribution of `quantity` grams of a per-100g record.
    pub fn portion(&self, quantity: u64) -> (r: NutrientValues)
        ensures
            r == nv_portion(*self, quantity),
    {
        NutrientValues {
            carbohydrates: sat_mul_exec(self.carbohydrates, quantity) / 100,
            proteins: sat_mul_exec(self.proteins, quantity) / 100,
            fats: sat_mul_exec(self.fats, quantity) / 100,
            energy: sat_mul_exec(self.energy, quantity) / 100,
            fiber: sat_mul_exec(self.fiber, quantity) / 100,
            salt: sat_mul_exec(self.salt, quantity) / 100,
            sodium: sat_mul_exec(self.sodium, quantity) / 100,
            sugar: sat_mul_exec(self.sugar, quantity) / 100,
        }
    }
}

impl Default for NutrientValues {
    fn default() -> (r: NutrientValues)
        ensures
            r == nv_zero(),
    {
        NutrientValues::zero()
    }
}

/// Element-wise sum of a list, starting from zero.
pub fn accumulate(vs: &Vec<NutrientValues>) -> (r: NutrientValues)
    ensures
        r == accumulate_spec(vs@),
{
    let mut acc = NutrientValues::zero();
    let mut i: usize = 0;
    while i < vs.len()
        invariant
            i <= vs.len(),
            acc == accumulate_spec(vs@.subrange(0, i as int)),
        decreases vs.len() - i,
    {
        proof {
            assert(vs@.subrange(0, i + 1).drop_last() =~= vs@.subrange(0, i as int));
        }
        acc = acc.add(&vs[i]);
        i = i + 1;
    }
    proof {
        assert(vs@.subrange(0, vs@.len() as int) =~= vs@);
    }
    acc
}

proof fn lemma_sat_add_assoc(a: u64, b: u64, c: u64)
    ensures
        sat_add(sat_add(a, b), c) == sat_add(a, sat_add(b, c)),
{
}

/// Distributivity of saturating multiplication over saturating addition.
proof fn lemma_sat_distrib(a: u64, b: u64, k: u64)
    ensures
        sat_mul(sat_add(a, b), k) == sat_add(sat_mul(a, k), sat_mul(b, k)),
{
    if k == 0 {
        assert(sat_mul(sat_add(a, b), 0) == 0) by (nonlinear_arith);
        assert(sat_mul(a, 0) == 0) by (nonlinear_arith);
        assert(sat_mul(b, 0) == 0) by (nonlinear_arith);
    } else if a + b > u64::MAX {
        assert(sat_add(a, b) == u64::MAX);
        assert(u64::MAX * k >= u64::MAX) by (nonlinear_arith)
            requires
                k >= 1,
        ;
        assert(sat_mul(u64::MAX, k) == u64::MAX);
        assert(a * k + b * k == (a + b) * k) by (nonlinear_arith);
        assert((a + b) * k > u64::MAX) by (nonlinear_arith)
            requires
                a + b > u64::MAX,
                k >= 1,
        ;
        assert(sat_add(sat_mul(a, k), sat_mul(b, k)) == u64::MAX);
    } else {
        assert(sat_add(a, b) == a + b);
        assert(a * k + b * k == (a + b) * k) by (nonlinear_arith);
        if a * k > u64::MAX || b * k > u64::MAX {
            assert((a + b) * k > u64::MAX) by (nonlinear_arith)
                requires
                    a * k > u64::MAX || b * k > u64::MAX,
                    a >= 0 && b >= 0 && k >= 0,
            ;
        }
    }
}

/// Summing three records gives the same total in whatever order the list
/// is written: the element-wise saturating sum is commutative and
/// associative.
pub proof fn lemma_accumulate_order_independent(
    a: NutrientValues,
    b: NutrientValues,
    c: NutrientValues,
)
    ensures
        accumulate_spec(seq![a, b, c]) == nv_add(nv_add(a, b), c),
        accumulate_spec(seq![a, c, b]) == nv_add(nv_add(a, b), c),
        accumulate_spec(seq![b, a, c]) == nv_add(nv_add(a, b), c),
        accumulate_spec(seq![b, c, a]) == nv_add(nv_add(a, b), c),
        accumulate_spec(seq![c, a, b]) == nv_add(nv_add(a, b), c),
        accumulate_spec(seq![c, b, a]) == nv_add(nv_add(a, b), c),
{
    lemma_accumulate3(a, b, c);
    lemma_accumulate3(a, c, b);
    lemma_accumulate3(b, a, c);
    lemma_accumulate3(b, c, a);
    lemma_accumulate3(c, a, b);
    lemma_accumulate3(c, b, a);
    lemma_nv_add_comm(a, c);
    lemma_nv_add_comm(b, c);
    lemma_nv_add_comm(a, b);
    lemma_nv_add_assoc(a, b, c);
    lemma_nv_add_assoc(a, c, b);
    lemma_nv_add_assoc(b, a, c);
    lemma_nv_add_assoc(b, c, a);
    lemma_nv_add_assoc(c, a, b);
    lemma_nv_add_assoc(c, b, a);
}

proof fn lemma_accumulate3(a: NutrientValues, b: NutrientValues, c: NutrientValues)
    ensures
        accumulate_spec(seq![a, b, c]) == nv_add(nv_add(nv_add(nv_zero(), a), b), c),
{
    reveal_with_fuel(accumulate_spec, 4);
    let s = seq![a, b, c];
    assert(s.drop_last() =~= seq![a, b]);
    assert(seq![a, b].drop_last() =~= seq![a]);
    assert(seq![a].drop_last() =~= Seq::<NutrientValues>::empty());
}

/// The element-wise sum does not depend on the order of its two arguments.
pub proof fn lemma_nv_add_comm(a: NutrientValues, b: NutrientValues)
    ensures
        nv_add(a, b) == nv_add(b, a),
{
}

/// The element-wise sum may be bracketed either way.
pub proof fn lemma_nv_add_assoc(a: NutrientValues, b: NutrientValues, c: NutrientValues)
    ensures
        nv_add(nv_add(a, b), c) == nv_add(a, nv_add(b, c)),
{
    lemma_sat_add_assoc(a.carbohydrates, b.carbohydrates, c.carbohydrates);
    lemma_sat_add_assoc(a.proteins, b.proteins, c.proteins);
    lemma_sat_add_assoc(a.fats, b.fats, c.fats);
    lemma_sat_add_assoc(a.energy, b.energy, c.energy);
    lemma_sat_add_assoc(a.fiber, b.fiber, c.fiber);
    lemma_sat_add_assoc(a.salt, b.salt, c.salt);
    lemma_sat_add_assoc(a.sodium, b.sodium, c.sodium);
    lemma_sat_add_assoc(a.sugar, b.sugar, c.sugar);
}

/// Adding zero on either side changes nothing.
pub proof fn lemma_nv_add_zero(a: NutrientValues)
    ensures
        nv_add(nv_zero(), a) == a,
        nv_add(a, nv_zero()) == a,
{
}

/// Scaling by zero yields the zero record, whatever the input.
pub proof fn lemma_scale_zero(v: NutrientValues)
    ensures
        nv_scale(v, 0) == nv_zero(),
{
    assert(v.carbohydrates * 0 == 0) by (nonlinear_arith);
    assert(v.proteins * 0 == 0) by (nonlinear_arith);
    assert(v.fats * 0 == 0) by (nonlinear_arith);
    assert(v.energy * 0 == 0) by (nonlinear_arith);
    assert(v.fiber * 0 == 0) by (nonlinear_arith);
    assert(v.salt * 0 == 0) by (nonlinear_arith);
    assert(v.sodium * 0 == 0) by (nonlinear_arith);
    assert(v.sugar * 0 == 0) by (nonlinear_arith);
}

/// Scaling a sum of two records equals summing the two scaled records:
/// scaling distributes over accumulation.
pub proof fn lemma_scale_distributes(a: NutrientValues, b: NutrientValues, k: u64)
    ensures
        nv_scale(nv_add(a, b), k) == nv_add(nv_scale(a, k), nv_scale(b, k)),
        nv_scale(accumulate_spec(seq![a, b]), k) == accumulate_spec(
            seq![nv_scale(a, k), nv_scale(b, k)],
        ),
{
    lemma_sat_distrib(a.carbohydrates, b.carbohydrates, k);
    lemma_sat_distrib(a.proteins, b.proteins, k);
    lemma_sat_distrib(a.fats, b.fats, k);
    lemma_sat_distrib(a.energy, b.energy, k);
    lemma_sat_distrib(a.fiber, b.fiber, k);
    lemma_sat_distrib(a.salt, b.salt, k);
    lemma_sat_distrib(a.sodium, b.sodium, k);
    lemma_sat_distrib(a.sugar, b.sugar, k);
    lemma_accumulate2(a, b);
    lemma_accumulate2(nv_scale(a, k), nv_scale(b, k));
}

proof fn lemma_accumulate2(a: NutrientValues, b: NutrientValues)
    ensures
        accumulate_spec(seq![a, b]) == nv_add(nv_add(nv_zero(), a), b),
{
    reveal_with_fuel(accumulate_spec, 3);
    let s = seq![a, b];
    assert(s.drop_last() =~= seq![a]);
    assert(seq![a].drop_last() =~= Seq::<NutrientValues>::empty());
}

} // verus!

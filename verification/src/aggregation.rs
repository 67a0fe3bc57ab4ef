//! The masked-aggregation engine.
//!
//! The coordinator keeps a running modular sum of the masked models it
//! accepts. At the end of a round it subtracts the aggregate mask — which the
//! sum participants reconstruct collectively — and obtains the sum of the
//! plaintext models, never any individual one. All arithmetic is per weight,
//! modulo the group order of the round's mask configuration.

use vstd::prelude::*;
use vstd::arithmetic::div_mod::{lemma_add_mod_noop_right, lemma_sub_mod_noop,
    lemma_mod_add_multiples_vanish};
use crate::bytes::{le_nat, add_mod_bytes, sub_mod_bytes};
use crate::config::{MaskConfig, order, weight_len};
use crate::masks::{MaskVect, MaskUnit, MaskObject, weight_ok, zero_weight, lemma_deep_view_index};

verus! {

/// Why a mask object cannot join or leave an aggregation.
#[derive(Clone, Copy, PartialEq, Eq, Structural, Debug)]
pub enum AggregationError {
    /// The object's configuration differs from the aggregation's.
    ConfigMismatch,
    /// The object's vector length differs from the aggregation's.
    LengthMismatch,
}

/// The weight values of a mask vector, as residues.
pub open spec fn vect_values(v: MaskVect) -> Seq<nat> {
    v.data.deep_view().map(|i: int, w: Seq<u8>| le_nat(w))
}

/// The weight value of a mask unit.
pub open spec fn unit_value(u: MaskUnit) -> nat {
    le_nat(u.data@)
}

/// Values of a vector, element by element.
pub proof fn lemma_vect_values_index(v: MaskVect)
    ensures
        vect_values(v).len() == v.data@.len(),
        forall|i: int| 0 <= i < v.data@.len() ==> vect_values(v)[i] == le_nat((#[trigger] v.data@[i])@),
{
    lemma_deep_view_index(v.data);
}

/// The plain sum of a sequence of numbers.
pub open spec fn seq_sum(s: Seq<nat>) -> nat
    decreases s.len(),
{
    if s.len() == 0 {
        0
    } else {
        seq_sum(s.drop_last()) + s.last()
    }
}

/// The modular running sum of a sequence of residues: what repeated
/// aggregation computes.
pub open spec fn sum_mod(s: Seq<nat>, m: nat) -> nat
    decreases s.len(),
{
    if s.len() == 0 {
        0
    } else {
        (sum_mod(s.drop_last(), m) + s.last()) % m
    }
}

/// The running modular sum is the plain sum, reduced.
pub proof fn lemma_sum_mod_is_mod(s: Seq<nat>, m: nat)
    requires
        m > 0,
    ensures
        sum_mod(s, m) == seq_sum(s) % m,
    decreases s.len(),
{
    if s.len() == 0 {
        assert(seq_sum(s) % m == 0) by {
            vstd::arithmetic::div_mod::lemma_small_mod(0, m);
        }
    } else {
        lemma_sum_mod_is_mod(s.drop_last(), m);
        lemma_add_mod_noop_right(s.last() as int, seq_sum(s.drop_last()) as int, m as int);
        assert((s.last() + seq_sum(s.drop_last()) % m) % m == (s.last() + seq_sum(s.drop_last()))
            % m);
    }
}

/// One aggregation step extends the running modular sum: what `aggregate`
/// ensures per weight is one unfolding of `sum_mod`.
pub proof fn lemma_sum_mod_push(s: Seq<nat>, v: nat, m: nat)
    ensures
        sum_mod(s.push(v), m) == (sum_mod(s, m) + v) % m,
{
    assert(s.push(v).drop_last() =~= s);
}

/// The elementwise masking of plaintexts `p` under masks `k`.
pub open spec fn masked_seq(p: Seq<nat>, k: Seq<nat>, m: nat) -> Seq<nat> {
    Seq::new(p.len(), |i: int| (p[i] + k[i]) % m)
}

/// Masking shifts the sum by the sum of the masks, modulo `m`.
proof fn lemma_sum_masked(p: Seq<nat>, k: Seq<nat>, m: nat)
    requires
        m > 0,
        p.len() == k.len(),
    ensures
        seq_sum(masked_seq(p, k, m)) % m == (seq_sum(p) + seq_sum(k)) % m,
    decreases p.len(),
{
    if p.len() == 0 {
    } else {
        let pd = p.drop_last();
        let kd = k.drop_last();
        assert(masked_seq(p, k, m).drop_last() =~= masked_seq(pd, kd, m));
        lemma_sum_masked(pd, kd, m);
        let md = masked_seq(pd, kd, m);
        assert(seq_sum(masked_seq(p, k, m)) == seq_sum(md) + (p.last() + k.last()) % m);
        lemma_add_mod_noop_right(seq_sum(md) as int, (p.last() + k.last()) as int, m as int);
        assert((seq_sum(md) + (p.last() + k.last()) % m) % m == (seq_sum(md) + (p.last()
            + k.last())) % m);
        lemma_add_mod_noop_right((p.last() + k.last()) as int, seq_sum(md) as int, m as int);
        assert(((p.last() + k.last()) + seq_sum(md) % m) % m == ((p.last() + k.last()) + seq_sum(
            md,
        )) % m);
        lemma_add_mod_noop_right((p.last() + k.last()) as int, (seq_sum(pd) + seq_sum(kd)) as int, m as int);
    }
}

/// Unmasking recovers the sum of the plaintexts. If every plaintext `p[i]`
/// was masked as `(p[i] + k[i]) % m`, the coordinator aggregated all masked
/// values, and the sum participants reconstructed the aggregate mask
/// `sum_mod(k, m)` exactly, then subtracting the aggregate mask from the
/// aggregate modulo `m` yields the sum of the plaintexts modulo `m` — and no
/// individual plaintext is needed to do so.
pub proof fn lemma_unmask_recovers_sum(p: Seq<nat>, k: Seq<nat>, m: nat)
    requires
        m > 0,
        p.len() == k.len(),
    ensures
        ((sum_mod(masked_seq(p, k, m), m) + m - sum_mod(k, m)) as nat) % m == seq_sum(p) % m,
{
    let agg = sum_mod(masked_seq(p, k, m), m);
    let km = sum_mod(k, m);
    lemma_sum_mod_is_mod(masked_seq(p, k, m), m);
    lemma_sum_mod_is_mod(k, m);
    lemma_sum_masked(p, k, m);
    let total = (seq_sum(p) + seq_sum(k)) as int;
    let ks = seq_sum(k) as int;
    let mi = m as int;
    lemma_sub_mod_noop(total, ks, mi);
    assert((total % mi - ks % mi) % mi == (total - ks) % mi);
    assert(total - ks == seq_sum(p));
    lemma_mod_add_multiples_vanish(total % mi - ks % mi, mi);
    assert((mi + (total % mi - ks % mi)) % mi == (total % mi - ks % mi) % mi);
    assert(agg + m - km == mi + (total % mi - ks % mi));
}

/// A running modular sum of masked models: the object holds, per weight, the
/// sum of the accepted contributions, and `nb_models` counts them.
#[derive(Debug)]
pub struct Aggregation {
    pub config: MaskConfig,
    pub object: MaskObject,
    pub nb_models: usize,
}

impl Aggregation {
    /// The object is well formed and carries the aggregation's configuration.
    pub open spec fn wf(&self) -> bool {
        &&& self.object.wf()
        &&& self.object.vect.config == self.config
        &&& self.object.unit.config == self.config
    }

    /// The number of weights aggregated per model.
    pub open spec fn model_len(&self) -> nat {
        self.object.vect.data@.len()
    }

    /// A fresh, zero aggregation for `object_length` weights.
    pub fn new(config: MaskConfig, object_length: usize) -> (r: Aggregation)
        requires
            object_length < 0x100000000,
        ensures
            r.wf(),
            r.config == config,
            r.nb_models == 0,
            r.model_len() == object_length,
            forall|i: int| 0 <= i < object_length ==> vect_values(r.object.vect)[i] == 0,
            unit_value(r.object.unit) == 0,
    {
        let mut data: Vec<Vec<u8>> = Vec::new();
        let mut i: usize = 0;
        while i < object_length
            invariant
                i <= object_length,
                data@.len() == i,
                forall|j: int|
                    0 <= j < i ==> weight_ok(config, (#[trigger] data@[j])@) && le_nat(data@[j]@)
                        == 0,
            decreases object_length - i,
        {
            data.push(zero_weight(&config));
            i = i + 1;
        }
        let vect = MaskVect { config, data };
        let unit = MaskUnit { config, data: zero_weight(&config) };
        let r = Aggregation { config, object: MaskObject { vect, unit }, nb_models: 0 };
        proof {
            lemma_vect_values_index(r.object.vect);
        }
        r
    }

    /// Whether `object` has the shape this aggregation accepts: the same
    /// configuration in both halves and the same vector length.
    pub open spec fn compatible(&self, object: MaskObject) -> bool {
        &&& object.vect.config == self.config
        &&& object.unit.config == self.config
        &&& object.vect.data@.len() == self.model_len()
    }

    /// Checks that `object` can join the aggregation.
    pub fn validate_aggregation(&self, object: &MaskObject) -> (r: Result<(), AggregationError>)
        ensures
            r.is_ok() <==> self.compatible(*object),
            r.is_ok() == matches!(r, Ok(_)),
    {
        if !(object.vect.config == self.config) {
            return Err(AggregationError::ConfigMismatch);
        }
        if !(object.unit.config == self.config) {
            return Err(AggregationError::ConfigMismatch);
        }
        if object.vect.data.len() != self.object.vect.data.len() {
            return Err(AggregationError::LengthMismatch);
        }
        Ok(())
    }

    /// Checks that `mask` can unmask the aggregation; shape compatibility is
    /// the same demand as for joining it.
    pub fn validate_unmasking(&self, mask: &MaskObject) -> (r: Result<(), AggregationError>)
        ensures
            r.is_ok() <==> self.compatible(*mask),
    {
        self.validate_aggregation(mask)
    }

    /// Adds a masked model into the running sum, weight by weight, modulo the
    /// group order.
    pub fn aggregate(&mut self, object: &MaskObject)
        requires
            old(self).wf(),
            object.wf(),
            old(self).compatible(*object),
            old(self).nb_models < usize::MAX,
        ensures
            final(self).wf(),
            final(self).config == old(self).config,
            final(self).model_len() == old(self).model_len(),
            final(self).nb_models == old(self).nb_models + 1,
            forall|i: int|
                0 <= i < old(self).model_len() ==> vect_values(final(self).object.vect)[i] == (
                vect_values(old(self).object.vect)[i] + vect_values(object.vect)[i]) % order(
                    old(self).config,
                ),
            unit_value(final(self).object.unit) == (unit_value(old(self).object.unit) + unit_value(
                object.unit,
            )) % order(old(self).config),
    {
        let ob = self.config.order_bytes();
        let n = self.object.vect.data.len();
        let mut i: usize = 0;
        while i < n
            invariant
                old(self).wf(),
                object.wf(),
                old(self).compatible(*object),
                n == old(self).model_len(),
                i <= n,
                le_nat(ob@) == order(old(self).config),
                ob@.len() == weight_len(old(self).config),
                self.config == old(self).config,
                self.nb_models == old(self).nb_models,
                self.object.unit == old(self).object.unit,
                self.object.vect.config == old(self).config,
                self.object.vect.data@.len() == n,
                forall|j: int|
                    i <= j < n ==> (#[trigger] self.object.vect.data@[j]) == old(
                        self,
                    ).object.vect.data@[j],
                forall|j: int|
                    0 <= j < i ==> weight_ok(old(self).config, (
                    #[trigger] self.object.vect.data@[j])@) && le_nat(self.object.vect.data@[j]@)
                        == (le_nat(old(self).object.vect.data@[j]@) + le_nat(
                        object.vect.data@[j]@,
                    )) % order(old(self).config),
            decreases n - i,
        {
            let w = add_mod_bytes(&self.object.vect.data[i], &object.vect.data[i], &ob);
            self.object.vect.data.set(i, w);
            i = i + 1;
        }
        let u = add_mod_bytes(&self.object.unit.data, &object.unit.data, &ob);
        self.object.unit.data = u;
        self.nb_models = self.nb_models + 1;
        proof {
            lemma_vect_values_index(self.object.vect);
            lemma_vect_values_index(old(self).object.vect);
            lemma_vect_values_index(object.vect);
        }
    }

    /// Subtracts the reconstructed aggregate mask from the running sum,
    /// revealing only the sum of the plaintext models, as residues.
    pub fn unmask(self, mask: &MaskObject) -> (r: MaskObject)
        requires
            self.wf(),
            mask.wf(),
            self.compatible(*mask),
        ensures
            r.wf(),
            r.vect.config == self.config,
            r.vect.data@.len() == self.model_len(),
            forall|i: int|
                0 <= i < self.model_len() ==> vect_values(r.vect)[i] == ((vect_values(
                    self.object.vect,
                )[i] + order(self.config) - vect_values(mask.vect)[i]) as nat) % order(self.config),
            unit_value(r.unit) == ((unit_value(self.object.unit) + order(self.config) - unit_value(
                mask.unit,
            )) as nat) % order(self.config),
    {
        let ob = self.config.order_bytes();
        let n = self.object.vect.data.len();
        let mut data: Vec<Vec<u8>> = Vec::new();
        let mut i: usize = 0;
        while i < n
            invariant
                self.wf(),
                mask.wf(),
                self.compatible(*mask),
                n == self.model_len(),
                i <= n,
                le_nat(ob@) == order(self.config),
                ob@.len() == weight_len(self.config),
                data@.len() == i,
                forall|j: int|
                    0 <= j < i ==> weight_ok(self.config, (#[trigger] data@[j])@) && le_nat(
                        data@[j]@,
                    ) == ((le_nat(self.object.vect.data@[j]@) + order(self.config) - le_nat(
                        mask.vect.data@[j]@,
                    )) as nat) % order(self.config),
            decreases n - i,
        {
            let w = sub_mod_bytes(&self.object.vect.data[i], &mask.vect.data[i], &ob);
            data.push(w);
            i = i + 1;
        }
        let u = sub_mod_bytes(&self.object.unit.data, &mask.unit.data, &ob);
        let r = MaskObject {
            vect: MaskVect { config: self.config, data },
            unit: MaskUnit { config: self.config, data: u },
        };
        proof {
            lemma_vect_values_index(r.vect);
            lemma_vect_values_index(self.object.vect);
            lemma_vect_values_index(mask.vect);
        }
        r
    }
}

} // verus!

//! Mask objects.
//!
//! A mask object pairs a vector of big-integer weights with a single scalar
//! weight (the unit), both residues of the group fixed by one mask
//! configuration. Participants submit masked models and masks in this shape;
//! the coordinator aggregates and unmasks them.

use vstd::prelude::*;
use crate::bytes::{le_nat, bytes_eq, copy_bytes, lt_bytes, pow256, lemma_le_nat_push,
    lemma_nbytes_bound};
use crate::config::{MaskConfig, order, weight_len, lemma_pow10_pos};

verus! {

/// A well-formed weight: a little-endian residue below the group order, in
/// the byte width of the configuration.
pub open spec fn weight_ok(c: MaskConfig, w: Seq<u8>) -> bool {
    w.len() == weight_len(c) && le_nat(w) < order(c)
}

/// A vector of masked weights under one configuration.
#[derive(Debug)]
pub struct MaskVect {
    pub config: MaskConfig,
    pub data: Vec<Vec<u8>>,
}

/// A single masked scalar under one configuration.
#[derive(Debug)]
pub struct MaskUnit {
    pub config: MaskConfig,
    pub data: Vec<u8>,
}

/// A masked model: a weight vector and the scalar unit that masked it.
#[derive(Debug)]
pub struct MaskObject {
    pub vect: MaskVect,
    pub unit: MaskUnit,
}

/// Equality of mask vectors as values.
pub open spec fn vect_eq(a: MaskVect, b: MaskVect) -> bool {
    a.config == b.config && a.data.deep_view() == b.data.deep_view()
}

/// Equality of mask units as values.
pub open spec fn unit_eq(a: MaskUnit, b: MaskUnit) -> bool {
    a.config == b.config && a.data@ == b.data@
}

/// Equality of mask objects as values.
pub open spec fn object_eq(a: MaskObject, b: MaskObject) -> bool {
    vect_eq(a.vect, b.vect) && unit_eq(a.unit, b.unit)
}

/// The view of a list of weights, element by element.
pub proof fn lemma_deep_view_index(d: Vec<Vec<u8>>)
    ensures
        d.deep_view().len() == d@.len(),
        forall|i: int| 0 <= i < d@.len() ==> d.deep_view()[i] == (#[trigger] d@[i])@,
{
    assert forall|i: int| 0 <= i < d@.len() implies d.deep_view()[i] == (#[trigger] d@[i])@ by {
        assert(d@[i].deep_view() =~= d@[i]@);
    }
}

impl MaskVect {
    /// Every weight is a residue of the configured group, and the count fits
    /// the wire format's length field.
    pub open spec fn wf(&self) -> bool {
        &&& self.data@.len() < 0x100000000
        &&& forall|i: int|
            0 <= i < self.data@.len() ==> weight_ok(self.config, (#[trigger] self.data@[i])@)
    }

    pub fn new(config: MaskConfig, data: Vec<Vec<u8>>) -> (r: MaskVect)
        requires
            data@.len() < 0x100000000,
            forall|i: int| 0 <= i < data@.len() ==> weight_ok(config, (#[trigger] data@[i])@),
        ensures
            r.config == config,
            r.data@ == data@,
            r.wf(),
    {
        MaskVect { config, data }
    }

    /// A verified copy.
    pub fn duplicate(&self) -> (r: MaskVect)
        ensures
            vect_eq(r, *self),
            r.data@.len() == self.data@.len(),
            forall|i: int| 0 <= i < self.data@.len() ==> r.data@[i]@ == (#[trigger] self.data@[i])@,
    {
        let mut data: Vec<Vec<u8>> = Vec::new();
        let mut i: usize = 0;
        while i < self.data.len()
            invariant
                i <= self.data@.len(),
                data@.len() == i,
                forall|j: int| 0 <= j < i ==> data@[j]@ == (#[trigger] self.data@[j])@,
            decreases self.data@.len() - i,
        {
            data.push(copy_bytes(&self.data[i]));
            i = i + 1;
        }
        proof {
            assert(data.deep_view() =~~= self.data.deep_view());
        }
        MaskVect { config: self.config, data }
    }
}

impl MaskUnit {
    /// The scalar weight is a residue of the configured group.
    pub open spec fn wf(&self) -> bool {
        weight_ok(self.config, self.data@)
    }

    pub fn new(config: MaskConfig, data: Vec<u8>) -> (r: MaskUnit)
        requires
            weight_ok(config, data@),
        ensures
            r.config == config,
            r.data@ == data@,
            r.wf(),
    {
        MaskUnit { config, data }
    }

    /// A verified copy.
    pub fn duplicate(&self) -> (r: MaskUnit)
        ensures
            unit_eq(r, *self),
    {
        MaskUnit { config: self.config, data: copy_bytes(&self.data) }
    }
}

impl MaskObject {
    /// Both halves are well formed and share one configuration.
    pub open spec fn wf(&self) -> bool {
        self.vect.wf() && self.unit.wf() && self.vect.config == self.unit.config
    }

    pub fn new(vect: MaskVect, unit: MaskUnit) -> (r: MaskObject)
        requires
            vect.wf(),
            unit.wf(),
            vect.config == unit.config,
        ensures
            vect_eq(r.vect, vect),
            unit_eq(r.unit, unit),
            r.wf(),
    {
        MaskObject { vect, unit }
    }

    /// A verified copy.
    pub fn duplicate(&self) -> (r: MaskObject)
        ensures
            object_eq(r, *self),
    {
        MaskObject { vect: self.vect.duplicate(), unit: self.unit.duplicate() }
    }

    /// Decides well-formedness: every weight a residue of the configured
    /// group, in its width, and one configuration on both halves.
    pub fn check_wf(&self) -> (r: bool)
        ensures
            r == self.wf(),
    {
        if !(self.vect.config == self.unit.config) {
            return false;
        }
        if (self.vect.data.len() as u64) >= 0x100000000u64 {
            return false;
        }
        let ob = self.vect.config.order_bytes();
        let wl = ob.len();
        let mut i: usize = 0;
        while i < self.vect.data.len()
            invariant
                i <= self.vect.data@.len(),
                wl == weight_len(self.vect.config),
                le_nat(ob@) == order(self.vect.config),
                ob@.len() == wl,
                forall|j: int|
                    0 <= j < i ==> weight_ok(self.vect.config, (#[trigger] self.vect.data@[j])@),
            decreases self.vect.data@.len() - i,
        {
            if self.vect.data[i].len() != wl {
                return false;
            }
            if !lt_bytes(&self.vect.data[i], &ob) {
                return false;
            }
            i = i + 1;
        }
        if self.unit.data.len() != wl {
            return false;
        }
        if !lt_bytes(&self.unit.data, &ob) {
            return false;
        }
        true
    }
}

impl PartialEq for MaskVect {
    fn eq(&self, other: &MaskVect) -> (r: bool) {
        if !(self.config == other.config) {
            return false;
        }
        if self.data.len() != other.data.len() {
            proof {
                assert(self.data.deep_view().len() != other.data.deep_view().len());
            }
            return false;
        }
        let mut i: usize = 0;
        while i < self.data.len()
            invariant
                self.data@.len() == other.data@.len(),
                i <= self.data@.len(),
                forall|j: int| 0 <= j < i ==> (#[trigger] self.data@[j])@ == other.data@[j]@,
            decreases self.data@.len() - i,
        {
            if !bytes_eq(&self.data[i], &other.data[i]) {
                proof {
                    assert(self.data.deep_view()[i as int] =~= self.data@[i as int]@);
                    assert(other.data.deep_view()[i as int] =~= other.data@[i as int]@);
                }
                return false;
            }
            i = i + 1;
        }
        proof {
            assert(self.data.deep_view() =~~= other.data.deep_view());
        }
        true
    }
}

impl vstd::std_specs::cmp::PartialEqSpecImpl for MaskVect {
    open spec fn obeys_eq_spec() -> bool {
        true
    }

    open spec fn eq_spec(&self, other: &MaskVect) -> bool {
        vect_eq(*self, *other)
    }
}

impl PartialEq for MaskUnit {
    fn eq(&self, other: &MaskUnit) -> (r: bool) {
        self.config == other.config && bytes_eq(&self.data, &other.data)
    }
}

impl vstd::std_specs::cmp::PartialEqSpecImpl for MaskUnit {
    open spec fn obeys_eq_spec() -> bool {
        true
    }

    open spec fn eq_spec(&self, other: &MaskUnit) -> bool {
        unit_eq(*self, *other)
    }
}

impl PartialEq for MaskObject {
    fn eq(&self, other: &MaskObject) -> (r: bool) {
        self.vect == other.vect && self.unit == other.unit
    }
}

impl vstd::std_specs::cmp::PartialEqSpecImpl for MaskObject {
    open spec fn obeys_eq_spec() -> bool {
        true
    }

    open spec fn eq_spec(&self, other: &MaskObject) -> bool {
        object_eq(*self, *other)
    }
}

/// Equal mask objects are equally well formed: well-formedness depends only
/// on the values.
pub proof fn lemma_object_eq_wf(a: MaskObject, b: MaskObject)
    requires
        object_eq(a, b),
        a.wf(),
    ensures
        b.wf(),
        b.vect.config == a.vect.config,
        b.unit.config == a.unit.config,
        b.vect.data@.len() == a.vect.data@.len(),
{
    lemma_deep_view_index(a.vect.data);
    lemma_deep_view_index(b.vect.data);
    assert forall|i: int| 0 <= i < b.vect.data@.len() implies weight_ok(
        b.vect.config,
        (#[trigger] b.vect.data@[i])@,
    ) by {
        assert(b.vect.data.deep_view()[i] == a.vect.data.deep_view()[i]);
        assert(b.vect.data@[i]@ == a.vect.data@[i]@);
        assert(weight_ok(a.vect.config, a.vect.data@[i]@));
    }
}

/// Builds the weight with value `v` in the width of `c`, if `v` is a residue.
pub fn weight_from_u64(c: &MaskConfig, v: u64) -> (r: Option<Vec<u8>>)
    ensures
        match r {
            Some(w) => weight_ok(*c, w@) && le_nat(w@) == v,
            None => v >= order(*c),
        },
{
    let wl = c.bytes_per_weight();
    let ob = c.order_bytes();
    let mut out: Vec<u8> = Vec::new();
    let mut x: u64 = v;
    let mut i: usize = 0;
    proof {
        assert(le_nat(Seq::<u8>::empty()) == 0);
        assert(le_nat(out@) == 0);
        assert(pow256(0) == 1);
        assert(x * pow256(0) == x) by (nonlinear_arith)
            requires
                pow256(0) == 1,
        ;
    }
    while i < wl
        invariant
            i <= wl,
            out@.len() == i,
            le_nat(out@) + x * pow256(i as nat) == v,
        decreases wl - i,
    {
        let lo: u8 = (x % 256) as u8;
        let nx: u64 = x / 256;
        proof {
            lemma_le_nat_push(out@, lo);
            assert(x == lo + 256 * nx);
            assert((lo + 256 * nx) * pow256(i as nat) == lo * pow256(i as nat) + nx * (256 * pow256(
                i as nat,
            ))) by (nonlinear_arith);
        }
        out.push(lo);
        x = nx;
        i = i + 1;
    }
    proof {
        if x == 0 {
            assert(x * pow256(wl as nat) == 0) by (nonlinear_arith)
                requires
                    x == 0,
            ;
        }
    }
    if x > 0 {
        proof {
            lemma_nbytes_bound(order(*c));
            assert(x * pow256(wl as nat) >= pow256(wl as nat)) by (nonlinear_arith)
                requires
                    x >= 1,
            ;
        }
        return None;
    }
    if lt_bytes(&out, &ob) {
        Some(out)
    } else {
        None
    }
}

/// The all-zero weight of a configuration.
pub fn zero_weight(c: &MaskConfig) -> (r: Vec<u8>)
    ensures
        weight_ok(*c, r@),
        le_nat(r@) == 0,
{
    let wl = c.bytes_per_weight();
    let mut out: Vec<u8> = Vec::new();
    let mut i: usize = 0;
    proof {
        assert(le_nat(Seq::<u8>::empty()) == 0);
        assert(le_nat(out@) == 0);
    }
    while i < wl
        invariant
            i <= wl,
            out@.len() == i,
            le_nat(out@) == 0,
        decreases wl - i,
    {
        proof {
            lemma_le_nat_push(out@, 0);
        }
        out.push(0);
        i = i + 1;
    }
    proof {
        lemma_pow10_pos((crate::config::bound_exp(c.bound_type) + crate::config::model_exp(
            c.model_type,
        )) as nat);
    }
    out
}

} // verus!

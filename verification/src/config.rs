//! Mask configurations.
//!
//! A mask configuration fixes the finite group in which masked weights live:
//! its order, and with it the number of bytes a serialized weight occupies.
//! The order grows with the numeric bound of the weights (`BoundType`) and
//! with the number of models that may be summed without wrap-around
//! (`ModelType`); the group and data types describe how participants encode
//! their numbers and do not change the order.

use vstd::prelude::*;
use crate::bytes::{canonical, le_nat, mul_small, add_small, nbytes, lemma_canonical_len};

verus! {

/// The kind of group the masks are drawn from.
#[derive(Clone, Copy, PartialEq, Eq, Structural, Debug)]
pub enum GroupType {
    Integer,
    Prime,
    Power,
}

/// The primitive type of the model weights a participant masks.
#[derive(Clone, Copy, PartialEq, Eq, Structural, Debug)]
pub enum DataType {
    F32,
    F64,
    I32,
    I64,
}

/// The numeric bound on the absolute value of the weights.
#[derive(Clone, Copy, PartialEq, Eq, Structural, Debug)]
pub enum BoundType {
    B0,
    B2,
    B4,
    B6,
    Bmax,
}

/// The maximal number of models that may be aggregated in one round.
#[derive(Clone, Copy, PartialEq, Eq, Structural, Debug)]
pub enum ModelType {
    M3,
    M6,
    M9,
    M12,
}

/// A mask configuration: fixes the group order and the per-weight byte width.
#[derive(Clone, Copy, PartialEq, Eq, Structural, Debug)]
pub struct MaskConfig {
    pub group_type: GroupType,
    pub data_type: DataType,
    pub bound_type: BoundType,
    pub model_type: ModelType,
}

/// 10 raised to `n`.
pub open spec fn pow10(n: nat) -> nat
    decreases n,
{
    if n == 0 {
        1
    } else {
        10 * pow10((n - 1) as nat)
    }
}

pub proof fn lemma_pow10_pos(n: nat)
    ensures
        pow10(n) >= 1,
    decreases n,
{
    if n > 0 {
        lemma_pow10_pos((n - 1) as nat);
    }
}

/// Decimal digits contributed to the group order by the bound.
pub open spec fn bound_exp(b: BoundType) -> nat {
    match b {
        BoundType::B0 => 10,
        BoundType::B2 => 12,
        BoundType::B4 => 14,
        BoundType::B6 => 16,
        BoundType::Bmax => 29,
    }
}

/// Decimal digits contributed to the group order by the model count.
pub open spec fn model_exp(m: ModelType) -> nat {
    match m {
        ModelType::M3 => 3,
        ModelType::M6 => 6,
        ModelType::M9 => 9,
        ModelType::M12 => 12,
    }
}

/// The order of the group fixed by a configuration. Every weight of a masked
/// object is a residue below this number.
pub open spec fn order(c: MaskConfig) -> nat {
    2 * pow10(bound_exp(c.bound_type) + model_exp(c.model_type)) + 1
}

/// The number of bytes a serialized weight of this configuration occupies:
/// exactly as many as the order needs.
pub open spec fn weight_len(c: MaskConfig) -> nat {
    nbytes(order(c))
}

/// The wire descriptor of a configuration: one byte per component.
pub open spec fn config_bytes(c: MaskConfig) -> Seq<u8> {
    seq![group_u8(c.group_type), data_u8(c.data_type), bound_u8(c.bound_type), model_u8(
        c.model_type,
    )]
}

pub open spec fn group_u8(g: GroupType) -> u8 {
    match g {
        GroupType::Integer => 0,
        GroupType::Prime => 1,
        GroupType::Power => 2,
    }
}

pub open spec fn data_u8(d: DataType) -> u8 {
    match d {
        DataType::F32 => 0,
        DataType::F64 => 1,
        DataType::I32 => 2,
        DataType::I64 => 3,
    }
}

pub open spec fn bound_u8(b: BoundType) -> u8 {
    match b {
        BoundType::B0 => 0,
        BoundType::B2 => 2,
        BoundType::B4 => 4,
        BoundType::B6 => 6,
        BoundType::Bmax => 255,
    }
}

pub open spec fn model_u8(m: ModelType) -> u8 {
    match m {
        ModelType::M3 => 3,
        ModelType::M6 => 6,
        ModelType::M9 => 9,
        ModelType::M12 => 12,
    }
}

pub open spec fn group_from_u8(v: u8) -> Option<GroupType> {
    if v == 0 {
        Some(GroupType::Integer)
    } else if v == 1 {
        Some(GroupType::Prime)
    } else if v == 2 {
        Some(GroupType::Power)
    } else {
        None
    }
}

pub open spec fn data_from_u8(v: u8) -> Option<DataType> {
    if v == 0 {
        Some(DataType::F32)
    } else if v == 1 {
        Some(DataType::F64)
    } else if v == 2 {
        Some(DataType::I32)
    } else if v == 3 {
        Some(DataType::I64)
    } else {
        None
    }
}

pub open spec fn bound_from_u8(v: u8) -> Option<BoundType> {
    if v == 0 {
        Some(BoundType::B0)
    } else if v == 2 {
        Some(BoundType::B2)
    } else if v == 4 {
        Some(BoundType::B4)
    } else if v == 6 {
        Some(BoundType::B6)
    } else if v == 255 {
        Some(BoundType::Bmax)
    } else {
        None
    }
}

pub open spec fn model_from_u8(v: u8) -> Option<ModelType> {
    if v == 3 {
        Some(ModelType::M3)
    } else if v == 6 {
        Some(ModelType::M6)
    } else if v == 9 {
        Some(ModelType::M9)
    } else if v == 12 {
        Some(ModelType::M12)
    } else {
        None
    }
}

/// Reads a configuration out of its four wire bytes.
pub open spec fn parse_config_spec(s: Seq<u8>) -> Option<MaskConfig>
    recommends
        s.len() >= 4,
{
    if group_from_u8(s[0]).is_some() && data_from_u8(s[1]).is_some() && bound_from_u8(
        s[2],
    ).is_some() && model_from_u8(s[3]).is_some() {
        Some(
            MaskConfig {
                group_type: group_from_u8(s[0]).unwrap(),
                data_type: data_from_u8(s[1]).unwrap(),
                bound_type: bound_from_u8(s[2]).unwrap(),
                model_type: model_from_u8(s[3]).unwrap(),
            },
        )
    } else {
        None
    }
}

/// Writing a configuration and reading it back yields the configuration.
pub proof fn lemma_config_roundtrip(c: MaskConfig)
    ensures
        parse_config_spec(config_bytes(c)) == Some(c),
{
    match c.group_type {
        GroupType::Integer => {},
        GroupType::Prime => {},
        GroupType::Power => {},
    }
    match c.data_type {
        DataType::F32 => {},
        DataType::F64 => {},
        DataType::I32 => {},
        DataType::I64 => {},
    }
    match c.bound_type {
        BoundType::B0 => {},
        BoundType::B2 => {},
        BoundType::B4 => {},
        BoundType::B6 => {},
        BoundType::Bmax => {},
    }
    match c.model_type {
        ModelType::M3 => {},
        ModelType::M6 => {},
        ModelType::M9 => {},
        ModelType::M12 => {},
    }
}

impl GroupType {
    pub fn to_u8(&self) -> (r: u8)
        ensures
            r == group_u8(*self),
    {
        match self {
            GroupType::Integer => 0,
            GroupType::Prime => 1,
            GroupType::Power => 2,
        }
    }

    pub fn try_from_u8(v: u8) -> (r: Option<GroupType>)
        ensures
            r == group_from_u8(v),
    {
        match v {
            0 => Some(GroupType::Integer),
            1 => Some(GroupType::Prime),
            2 => Some(GroupType::Power),
            _ => None,
        }
    }
}

impl DataType {
    pub fn to_u8(&self) -> (r: u8)
        ensures
            r == data_u8(*self),
    {
        match self {
            DataType::F32 => 0,
            DataType::F64 => 1,
            DataType::I32 => 2,
            DataType::I64 => 3,
        }
    }

    pub fn try_from_u8(v: u8) -> (r: Option<DataType>)
        ensures
            r == data_from_u8(v),
    {
        match v {
            0 => Some(DataType::F32),
            1 => Some(DataType::F64),
            2 => Some(DataType::I32),
            3 => Some(DataType::I64),
            _ => None,
        }
    }
}

impl BoundType {
    pub fn to_u8(&self) -> (r: u8)
        ensures
            r == bound_u8(*self),
    {
        match self {
            BoundType::B0 => 0,
            BoundType::B2 => 2,
            BoundType::B4 => 4,
            BoundType::B6 => 6,
            BoundType::Bmax => 255,
        }
    }

    pub fn try_from_u8(v: u8) -> (r: Option<BoundType>)
        ensures
            r == bound_from_u8(v),
    {
        match v {
            0 => Some(BoundType::B0),
            2 => Some(BoundType::B2),
            4 => Some(BoundType::B4),
            6 => Some(BoundType::B6),
            255 => Some(BoundType::Bmax),
            _ => None,
        }
    }
}

impl ModelType {
    pub fn to_u8(&self) -> (r: u8)
        ensures
            r == model_u8(*self),
    {
        match self {
            ModelType::M3 => 3,
            ModelType::M6 => 6,
            ModelType::M9 => 9,
            ModelType::M12 => 12,
        }
    }

    pub fn try_from_u8(v: u8) -> (r: Option<ModelType>)
        ensures
            r == model_from_u8(v),
    {
        match v {
            3 => Some(ModelType::M3),
            6 => Some(ModelType::M6),
            9 => Some(ModelType::M9),
            12 => Some(ModelType::M12),
            _ => None,
        }
    }
}

impl BoundType {
    pub fn exp(&self) -> (r: usize)
        ensures
            r == bound_exp(*self),
    {
        match self {
            BoundType::B0 => 10,
            BoundType::B2 => 12,
            BoundType::B4 => 14,
            BoundType::B6 => 16,
            BoundType::Bmax => 29,
        }
    }
}

impl ModelType {
    pub fn exp(&self) -> (r: usize)
        ensures
            r == model_exp(*self),
    {
        match self {
            ModelType::M3 => 3,
            ModelType::M6 => 6,
            ModelType::M9 => 9,
            ModelType::M12 => 12,
        }
    }
}

impl MaskConfig {
    /// The group order as a canonical little-endian byte string; its length
    /// is the per-weight byte width of this configuration.
    pub fn order_bytes(&self) -> (r: Vec<u8>)
        ensures
            le_nat(r@) == order(*self),
            r@.len() == weight_len(*self),
            canonical(r@),
            le_nat(r@) > 0,
            r@.len() <= 44,
    {
        let e: usize = self.bound_type.exp() + self.model_type.exp();
        let mut v: Vec<u8> = Vec::new();
        v.push(1);
        proof {
            assert(v@ =~= seq![1u8]);
            assert(v@.drop_first() =~= Seq::<u8>::empty());
            assert(le_nat(Seq::<u8>::empty()) == 0);
            assert(le_nat(v@) == 1);
        }
        let mut i: usize = 0;
        while i < e
            invariant
                i <= e,
                le_nat(v@) == pow10(i as nat),
                canonical(v@),
                v@.len() <= 1 + i,
            decreases e - i,
        {
            v = mul_small(&v, 10);
            i = i + 1;
        }
        let d = mul_small(&v, 2);
        let r = add_small(&d, 1);
        proof {
            lemma_pow10_pos(e as nat);
            assert(le_nat(d@) > 0);
            assert(d@.len() > 0) by {
                if d@.len() == 0 {
                    assert(le_nat(d@) == 0);
                }
            }
            lemma_canonical_len(r@);
        }
        r
    }

    /// The per-weight byte width of this configuration.
    pub fn bytes_per_weight(&self) -> (r: usize)
        ensures
            r == weight_len(*self),
            r <= 44,
    {
        self.order_bytes().len()
    }

    /// Writes the four-byte wire descriptor of this configuration.
    pub fn to_byte_vec(&self) -> (r: Vec<u8>)
        ensures
            r@ == config_bytes(*self),
    {
        let mut out: Vec<u8> = Vec::new();
        out.push(self.group_type.to_u8());
        out.push(self.data_type.to_u8());
        out.push(self.bound_type.to_u8());
        out.push(self.model_type.to_u8());
        proof {
            assert(out@ =~= config_bytes(*self));
        }
        out
    }

    /// Reads a configuration from four bytes at `offset`.
    pub fn try_parse(bytes: &Vec<u8>, offset: usize) -> (r: Option<MaskConfig>)
        requires
            offset + 4 <= bytes@.len(),
        ensures
            r == parse_config_spec(bytes@.subrange(offset as int, offset + 4)),
    {
        let n = bytes.len();
        let ghost s = bytes@.subrange(offset as int, offset + 4);
        proof {
            assert(offset + 4 <= n);
            assert(s[0] == bytes@[offset as int]);
            assert(s[1] == bytes@[offset + 1]);
            assert(s[2] == bytes@[offset + 2]);
            assert(s[3] == bytes@[offset + 3]);
        }
        let group_type = match GroupType::try_from_u8(bytes[offset]) {
            Some(g) => g,
            None => {
                return None;
            },
        };
        let data_type = match DataType::try_from_u8(bytes[offset + 1]) {
            Some(d) => d,
            None => {
                return None;
            },
        };
        let bound_type = match BoundType::try_from_u8(bytes[offset + 2]) {
            Some(b) => b,
            None => {
                return None;
            },
        };
        let model_type = match ModelType::try_from_u8(bytes[offset + 3]) {
            Some(m) => m,
            None => {
                return None;
            },
        };
        Some(MaskConfig { group_type, data_type, bound_type, model_type })
    }
}

} // verus!

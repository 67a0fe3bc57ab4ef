//! The mask object wire codec.
//!
//! A mask vector serializes as a four-byte configuration descriptor, a
//! big-endian `u32` element count and the weights themselves, little-endian,
//! each in the byte width of the configuration. A mask unit serializes the
//! same way with a count of one. A mask object is the vector followed by the
//! unit, each with its own header; the decoder checks that the trailing unit
//! exists and that the total length matches.
//!
//! Decoding works from a slice (random access) or from a byte stream
//! (incremental); a short or malformed input is a `DecodeError`.

use vstd::prelude::*;
use vstd::arithmetic::div_mod::{lemma_fundamental_div_mod, lemma_fundamental_div_mod_converse_div,
    lemma_fundamental_div_mod_converse_mod, lemma_div_denominator, lemma_small_mod,
    lemma_div_is_ordered};
use vstd::arithmetic::mul::lemma_mul_inequality;
use crate::bytes::{le_nat, copy_range, copy_bytes, lt_bytes};
use crate::config::{MaskConfig, order, weight_len, config_bytes, parse_config_spec,
    lemma_config_roundtrip, group_u8, data_u8, bound_u8, model_u8, lemma_pow10_pos, bound_exp,
    model_exp, GroupType, DataType, BoundType, ModelType};
use crate::masks::{MaskVect, MaskUnit, MaskObject, weight_ok, vect_eq, unit_eq, object_eq};

verus! {

/// Why a byte string was rejected by the decoder.
#[derive(Clone, Copy, PartialEq, Eq, Structural, Debug)]
pub enum DecodeError {
    /// Fewer bytes than a header needs, or than the header announces.
    TooShort,
    /// The four configuration bytes name no configuration.
    InvalidConfig,
    /// The input does not end where the announced content ends.
    TrailingBytes,
    /// A weight is not a residue of the configured group.
    WeightOutOfRange,
    /// A unit header announces an element count other than one.
    InvalidUnitCount,
    /// A message's payload tag names no payload kind.
    InvalidTag,
}

/// The value of a four-byte big-endian length field.
pub open spec fn be32_val(s: Seq<u8>) -> nat
    recommends
        s.len() == 4,
{
    (s[3] + 256 * (s[2] + 256 * (s[1] + 256 * s[0]))) as nat
}

/// The four-byte big-endian encoding of `n`.
pub open spec fn be32(n: nat) -> Seq<u8> {
    seq![((n / 0x1000000) % 256) as u8, ((n / 0x10000) % 256) as u8, ((n / 0x100) % 256) as u8, (n
        % 256) as u8]
}

/// Decoding the encoding of `n` yields `n` back.
pub proof fn lemma_be32_roundtrip(n: nat)
    requires
        n < 0x100000000,
    ensures
        be32_val(be32(n)) == n,
{
    let q1 = n / 256;
    let r1 = n % 256;
    let q2 = q1 / 256;
    let r2 = q1 % 256;
    let q3 = q2 / 256;
    let r3 = q2 % 256;
    lemma_fundamental_div_mod(n as int, 256);
    lemma_fundamental_div_mod(q1 as int, 256);
    lemma_fundamental_div_mod(q2 as int, 256);
    lemma_div_denominator(n as int, 256, 256);
    assert(n as int / 0x10000 == q2);
    lemma_div_denominator(n as int, 0x10000, 256);
    assert(n as int / 0x1000000 == q3);
    lemma_div_is_ordered(n as int, 0xffffffff, 0x1000000);
    assert(q3 < 256);
    lemma_small_mod(q3, 256);
}

/// Encoding the value of four bytes yields the bytes back.
pub proof fn lemma_be32_inverse(s: Seq<u8>)
    requires
        s.len() == 4,
    ensures
        be32(be32_val(s)) == s,
{
    let n = be32_val(s) as int;
    let b0 = s[0] as int;
    let b1 = s[1] as int;
    let b2 = s[2] as int;
    let b3 = s[3] as int;
    assert(n == b3 + 256 * b2 + 0x10000 * b1 + 0x1000000 * b0);
    lemma_fundamental_div_mod_converse_mod(n, 256, b2 + 256 * b1 + 0x10000 * b0, b3);
    lemma_fundamental_div_mod_converse_div(n, 256, b2 + 256 * b1 + 0x10000 * b0, b3);
    lemma_fundamental_div_mod_converse_mod(b2 + 256 * b1 + 0x10000 * b0, 256, b1 + 256 * b0, b2);
    lemma_fundamental_div_mod_converse_div(n, 0x10000, b1 + 256 * b0, b2 * 256 + b3);
    lemma_fundamental_div_mod_converse_mod(b1 + 256 * b0, 256, b0, b1);
    lemma_fundamental_div_mod_converse_div(n, 0x1000000, b0, b1 * 0x10000 + b2 * 256 + b3);
    lemma_small_mod(b0 as nat, 256);
    assert(be32(be32_val(s)) =~= s);
}

/// Writes `n` as four big-endian bytes.
pub fn u32_to_be_vec(n: u32) -> (r: Vec<u8>)
    ensures
        r@ == be32(n as nat),
{
    let mut out: Vec<u8> = Vec::new();
    out.push(((n / 0x1000000) % 256) as u8);
    out.push(((n / 0x10000) % 256) as u8);
    out.push(((n / 0x100) % 256) as u8);
    out.push((n % 256) as u8);
    proof {
        assert(out@ =~= be32(n as nat));
    }
    out
}

/// Reads the four-byte big-endian length field at `offset`.
pub fn read_be32(v: &Vec<u8>, offset: usize) -> (r: u32)
    requires
        offset + 4 <= v@.len(),
    ensures
        r as nat == be32_val(v@.subrange(offset as int, offset + 4)),
{
    let n = v.len();
    proof {
        assert(offset + 4 <= n);
    }
    let ghost s = v@.subrange(offset as int, offset + 4);
    proof {
        assert(s[0] == v@[offset as int]);
        assert(s[1] == v@[offset + 1]);
        assert(s[2] == v@[offset + 2]);
        assert(s[3] == v@[offset + 3]);
    }
    let b0 = v[offset] as u32;
    let b1 = v[offset + 1] as u32;
    let b2 = v[offset + 2] as u32;
    let b3 = v[offset + 3] as u32;
    b3 + 0x100 * b2 + 0x10000 * b1 + 0x1000000 * b0
}

/// The concatenation of a list of weights.
pub open spec fn weights_concat(d: Seq<Seq<u8>>) -> Seq<u8>
    decreases d.len(),
{
    if d.len() == 0 {
        Seq::empty()
    } else {
        weights_concat(d.drop_last()) + d.last()
    }
}

/// Appending a weight appends its bytes.
pub proof fn lemma_weights_concat_push(d: Seq<Seq<u8>>, w: Seq<u8>)
    ensures
        weights_concat(d.push(w)) == weights_concat(d) + w,
{
    assert(d.push(w).drop_last() =~= d);
    assert(d.push(w).last() == w);
}

/// Fixed-width weights concatenate to a string of predictable length.
pub proof fn lemma_weights_concat_len(d: Seq<Seq<u8>>, wl: nat)
    requires
        forall|i: int| 0 <= i < d.len() ==> (#[trigger] d[i]).len() == wl,
    ensures
        weights_concat(d).len() == d.len() * wl,
    decreases d.len(),
{
    if d.len() == 0 {
        assert(0 * wl == 0) by (nonlinear_arith);
    } else {
        lemma_weights_concat_len(d.drop_last(), wl);
        assert((d.len() - 1) * wl + wl == d.len() * wl) by (nonlinear_arith);
    }
}

/// Each weight sits at its own offset in the concatenation.
pub proof fn lemma_weights_concat_index(d: Seq<Seq<u8>>, wl: nat, i: int)
    requires
        forall|j: int| 0 <= j < d.len() ==> (#[trigger] d[j]).len() == wl,
        0 <= i < d.len(),
    ensures
        weights_concat(d).subrange(i * wl, i * wl + wl as int) == d[i],
    decreases d.len(),
{
    lemma_weights_concat_len(d, wl);
    if i == d.len() - 1 {
        lemma_weights_concat_len(d.drop_last(), wl);
        assert(i * wl == weights_concat(d.drop_last()).len());
        assert(weights_concat(d).subrange(i * wl, i * wl + wl as int) =~= d[i]);
    } else {
        lemma_weights_concat_index(d.drop_last(), wl, i);
        lemma_weights_concat_len(d.drop_last(), wl);
        assert((i + 1) * wl == i * wl + wl) by (nonlinear_arith);
        assert(i * wl + wl <= (d.len() - 1) * wl) by (nonlinear_arith)
            requires
                0 <= i < d.len() - 1,
                wl >= 0,
        ;
        assert(weights_concat(d).subrange(i * wl, i * wl + wl as int) =~= weights_concat(
            d.drop_last(),
        ).subrange(i * wl, i * wl + wl as int));
    }
}

/// The wire form of a mask vector.
pub open spec fn vect_wire(c: MaskConfig, d: Seq<Seq<u8>>) -> Seq<u8> {
    config_bytes(c) + be32(d.len() as nat) + weights_concat(d)
}

/// The wire form of a mask unit.
pub open spec fn unit_wire(c: MaskConfig, w: Seq<u8>) -> Seq<u8> {
    config_bytes(c) + be32(1) + w
}

/// A byte string that starts with a well-formed mask vector region.
pub open spec fn vect_prefix_wf(s: Seq<u8>) -> bool {
    &&& s.len() >= 8
    &&& parse_config_spec(s.subrange(0, 4)).is_some()
    &&& {
        let c = parse_config_spec(s.subrange(0, 4)).unwrap();
        let n = be32_val(s.subrange(4, 8));
        let wl = weight_len(c) as int;
        &&& s.len() >= 8 + n * weight_len(c)
        &&& forall|i: int|
            0 <= i < n ==> le_nat(#[trigger] s.subrange(8 + i * wl, 8 + i * wl + wl)) < order(c)
    }
}

/// How many bytes the vector region at the head of `s` spans.
pub open spec fn vect_region_len(s: Seq<u8>) -> nat
    recommends
        s.len() >= 8,
        parse_config_spec(s.subrange(0, 4)).is_some(),
{
    8 + be32_val(s.subrange(4, 8)) * weight_len(parse_config_spec(s.subrange(0, 4)).unwrap())
}

/// A whole byte string that is exactly one well-formed mask vector.
pub open spec fn valid_vect_bytes(s: Seq<u8>) -> bool {
    vect_prefix_wf(s) && s.len() == vect_region_len(s)
}

/// The length structure of a vector region: enough bytes for the header and
/// for as many weights as the header announces.
pub open spec fn vect_layout_ok(s: Seq<u8>) -> bool {
    &&& s.len() >= 8
    &&& parse_config_spec(s.subrange(0, 4)).is_some()
    &&& s.len() >= vect_region_len(s)
}

/// A byte string that starts with a well-formed mask unit region.
pub open spec fn unit_prefix_wf(s: Seq<u8>) -> bool {
    &&& s.len() >= 8
    &&& parse_config_spec(s.subrange(0, 4)).is_some()
    &&& be32_val(s.subrange(4, 8)) == 1
    &&& {
        let c = parse_config_spec(s.subrange(0, 4)).unwrap();
        &&& s.len() >= 8 + weight_len(c)
        &&& le_nat(s.subrange(8, 8 + weight_len(c) as int)) < order(c)
    }
}

/// How many bytes the unit region at the head of `s` spans.
pub open spec fn unit_region_len(s: Seq<u8>) -> nat
    recommends
        s.len() >= 8,
        parse_config_spec(s.subrange(0, 4)).is_some(),
{
    8 + weight_len(parse_config_spec(s.subrange(0, 4)).unwrap())
}

/// A whole byte string that is exactly one well-formed mask unit.
pub open spec fn valid_unit_bytes(s: Seq<u8>) -> bool {
    unit_prefix_wf(s) && s.len() == unit_region_len(s)
}

/// A byte string that starts with a well-formed mask object: a vector region,
/// then a unit region, both under one configuration.
pub open spec fn object_prefix_wf(s: Seq<u8>) -> bool {
    &&& vect_prefix_wf(s)
    &&& unit_prefix_wf(s.skip(vect_region_len(s) as int))
    &&& parse_config_spec(s.subrange(0, 4)) == parse_config_spec(
        s.skip(vect_region_len(s) as int).subrange(0, 4),
    )
}

/// How many bytes the object region at the head of `s` spans.
pub open spec fn object_region_len(s: Seq<u8>) -> nat {
    vect_region_len(s) + unit_region_len(s.skip(vect_region_len(s) as int))
}

/// A whole byte string that is exactly one well-formed mask object.
pub open spec fn valid_object_bytes(s: Seq<u8>) -> bool {
    object_prefix_wf(s) && s.len() == object_region_len(s)
}

/// The two-region length structure that `MaskObjectBuffer` checks: a vector
/// layout, followed by another vector-shaped layout for the unit.
pub open spec fn object_layout_ok(s: Seq<u8>) -> bool {
    vect_layout_ok(s) && vect_layout_ok(s.skip(vect_region_len(s) as int))
}

/// Every configuration needs at least one byte per weight.
pub proof fn lemma_weight_len_pos(c: MaskConfig)
    ensures
        weight_len(c) >= 1,
{
    lemma_pow10_pos(bound_exp(c.bound_type) + model_exp(c.model_type));
    assert(order(c) > 0);
}

/// Reading a configuration back pins the four bytes it was read from.
pub proof fn lemma_config_parse_inverse(s: Seq<u8>, c: MaskConfig)
    requires
        s.len() == 4,
        parse_config_spec(s) == Some(c),
    ensures
        config_bytes(c) == s,
{
    let g = c.group_type;
    let d = c.data_type;
    let b = c.bound_type;
    let m = c.model_type;
    assert(group_u8(g) == s[0]) by {
        match g {
            GroupType::Integer => {},
            GroupType::Prime => {},
            GroupType::Power => {},
        }
    }
    assert(data_u8(d) == s[1]) by {
        match d {
            DataType::F32 => {},
            DataType::F64 => {},
            DataType::I32 => {},
            DataType::I64 => {},
        }
    }
    assert(bound_u8(b) == s[2]) by {
        match b {
            BoundType::B0 => {},
            BoundType::B2 => {},
            BoundType::B4 => {},
            BoundType::B6 => {},
            BoundType::Bmax => {},
        }
    }
    assert(model_u8(m) == s[3]) by {
        match m {
            ModelType::M3 => {},
            ModelType::M6 => {},
            ModelType::M9 => {},
            ModelType::M12 => {},
        }
    }
    assert(config_bytes(c) =~= s);
}

/// An incremental reader over owned bytes, for decoding from a stream.
pub struct ByteStream {
    pub bytes: Vec<u8>,
    pub pos: usize,
}

impl ByteStream {
    pub open spec fn wf(&self) -> bool {
        self.pos <= self.bytes@.len()
    }

    /// The bytes not yet consumed.
    pub open spec fn remaining(&self) -> Seq<u8> {
        self.bytes@.skip(self.pos as int)
    }

    pub fn new(bytes: Vec<u8>) -> (r: ByteStream)
        ensures
            r.wf(),
            r.remaining() == bytes@,
            r.bytes@ == bytes@,
            r.pos == 0,
    {
        let r = ByteStream { bytes, pos: 0 };
        proof {
            assert(r.bytes@.skip(0) =~= r.bytes@);
        }
        r
    }

    /// How many bytes are left.
    pub fn left(&self) -> (r: usize)
        requires
            self.wf(),
        ensures
            r == self.remaining().len(),
    {
        self.bytes.len() - self.pos
    }

    /// Consumes the next `n` bytes, or reports that fewer are left.
    pub fn take_n(&mut self, n: usize) -> (r: Option<Vec<u8>>)
        requires
            old(self).wf(),
        ensures
            final(self).bytes@ == old(self).bytes@,
            final(self).wf(),
            match r {
                Some(v) => {
                    &&& n <= old(self).remaining().len()
                    &&& v@ == old(self).remaining().take(n as int)
                    &&& final(self).remaining() == old(self).remaining().skip(n as int)
                    &&& final(self).pos == old(self).pos + n
                },
                None => {
                    &&& n > old(self).remaining().len()
                    &&& *final(self) == *old(self)
                },
            },
    {
        if n > self.bytes.len() - self.pos {
            return None;
        }
        let out = copy_range(&self.bytes, self.pos, self.pos + n);
        proof {
            assert(self.bytes@.subrange(self.pos as int, self.pos + n) =~= self.bytes@.skip(
                self.pos as int,
            ).take(n as int));
            assert(self.bytes@.skip(self.pos + n) =~= self.bytes@.skip(self.pos as int).skip(
                n as int,
            ));
        }
        self.pos = self.pos + n;
        Some(out)
    }
}

impl MaskVect {
    /// The wire form of this vector.
    pub open spec fn spec_bytes(&self) -> Seq<u8> {
        vect_wire(self.config, self.data.deep_view())
    }

    /// The number of bytes the wire form occupies.
    pub fn buffer_length(&self) -> (r: usize)
        requires
            self.wf(),
            8 + self.data@.len() * weight_len(self.config) <= usize::MAX,
        ensures
            r == self.spec_bytes().len(),
            r == 8 + self.data@.len() * weight_len(self.config),
    {
        let wl = self.config.bytes_per_weight();
        proof {
            crate::masks::lemma_deep_view_index(self.data);
            assert forall|i: int| 0 <= i < self.data.deep_view().len() implies (
            #[trigger] self.data.deep_view()[i]).len() == weight_len(self.config) by {
                assert(self.data.deep_view()[i] == self.data@[i]@);
            }
            lemma_weights_concat_len(self.data.deep_view(), weight_len(self.config));
        }
        8 + self.data.len() * wl
    }

    /// The wire form as a fresh byte vector.
    pub fn to_byte_vec(&self) -> (r: Vec<u8>)
        requires
            self.wf(),
        ensures
            r@ == self.spec_bytes(),
    {
        let ghost dv = self.data.deep_view();
        let mut out = self.config.to_byte_vec();
        let mut cnt = u32_to_be_vec(self.data.len() as u32);
        out.append(&mut cnt);
        let ghost head = config_bytes(self.config) + be32(self.data@.len() as nat);
        proof {
            crate::masks::lemma_deep_view_index(self.data);
            assert(dv.take(0) =~= Seq::<Seq<u8>>::empty());
            assert(weights_concat(Seq::<Seq<u8>>::empty()) == Seq::<u8>::empty());
            assert(out@ =~= head + weights_concat(dv.take(0)));
        }
        let mut i: usize = 0;
        while i < self.data.len()
            invariant
                i <= self.data@.len(),
                dv.len() == self.data@.len(),
                forall|j: int| 0 <= j < self.data@.len() ==> dv[j] == (#[trigger] self.data@[j])@,
                out@ == head + weights_concat(dv.take(i as int)),
            decreases self.data@.len() - i,
        {
            let mut w = copy_bytes(&self.data[i]);
            out.append(&mut w);
            proof {
                assert(dv.take(i + 1) =~= dv.take(i as int).push(dv[i as int]));
                lemma_weights_concat_push(dv.take(i as int), dv[i as int]);
                assert(out@ =~= head + weights_concat(dv.take(i + 1)));
            }
            i = i + 1;
        }
        proof {
            assert(dv.take(self.data@.len() as int) =~= dv);
        }
        out
    }

    /// Writes the wire form over a buffer of exactly the right length.
    pub fn to_bytes(&self, buffer: &mut Vec<u8>)
        requires
            self.wf(),
            old(buffer)@.len() == self.spec_bytes().len(),
        ensures
            final(buffer)@ == self.spec_bytes(),
    {
        let out = self.to_byte_vec();
        *buffer = out;
    }

    /// Decodes one vector region from the stream, leaving what follows.
    pub fn from_byte_stream(stream: &mut ByteStream) -> (r: Result<MaskVect, DecodeError>)
        requires
            old(stream).wf(),
        ensures
            final(stream).wf(),
            final(stream).bytes@ == old(stream).bytes@,
            match r {
                Ok(v) => {
                    &&& vect_prefix_wf(old(stream).remaining())
                    &&& v.wf()
                    &&& v.config == parse_config_spec(
                        old(stream).remaining().subrange(0, 4),
                    ).unwrap()
                    &&& v.spec_bytes() == old(stream).remaining().take(
                        vect_region_len(old(stream).remaining()) as int,
                    )
                    &&& final(stream).pos == old(stream).pos + vect_region_len(
                        old(stream).remaining(),
                    )
                },
                Err(_) => !vect_prefix_wf(old(stream).remaining()),
            },
    {
        let ghost rem = old(stream).remaining();
        let header = match stream.take_n(8) {
            Some(h) => h,
            None => {
                return Err(DecodeError::TooShort);
            },
        };
        proof {
            assert(header@.subrange(0, 4) =~= rem.subrange(0, 4));
            assert(header@.subrange(4, 8) =~= rem.subrange(4, 8));
        }
        let config = match MaskConfig::try_parse(&header, 0) {
            Some(c) => c,
            None => {
                return Err(DecodeError::InvalidConfig);
            },
        };
        let count32 = read_be32(&header, 4);
        let ghost cnt = count32 as nat;
        let wl = config.bytes_per_weight();
        proof {
            lemma_weight_len_pos(config);
            assert((count32 as int) * (wl as int) <= 0xffffffff * 44) by (nonlinear_arith)
                requires
                    count32 <= 0xffffffffu32,
                    wl <= 44,
            ;
        }
        let need64: u64 = (count32 as u64) * (wl as u64);
        let left = stream.left();
        if need64 > left as u64 {
            proof {
                assert(rem.len() == 8 + left);
                assert(rem.len() < 8 + cnt * weight_len(config));
            }
            return Err(DecodeError::TooShort);
        }
        let need = need64 as usize;
        let body = match stream.take_n(need) {
            Some(b) => b,
            None => {
                proof {
                    assert(false);
                }
                return Err(DecodeError::TooShort);
            },
        };
        proof {
            assert(body@ =~= rem.subrange(8, 8 + need));
        }
        let ob = config.order_bytes();
        let count = count32 as usize;
        let mut data: Vec<Vec<u8>> = Vec::new();
        let mut pos: usize = 0;
        let mut i: usize = 0;
        proof {
            assert(data.deep_view() =~= Seq::<Seq<u8>>::empty());
            assert(weights_concat(Seq::<Seq<u8>>::empty()) == Seq::<u8>::empty());
            assert(body@.take(0) =~= Seq::<u8>::empty());
        }
        let bl = body.len();
        while i < count
            invariant
                data@.len() == i,
                i <= count,
                pos == i * wl,
                body@.len() == count * wl,
                bl == body@.len(),
                stream.wf(),
                stream.bytes@ == old(stream).bytes@,
                body@ == rem.subrange(8, 8 + (count * wl) as int),
                rem.len() >= 8 + count * wl,
                rem == old(stream).remaining(),
                parse_config_spec(rem.subrange(0, 4)) == Some(config),
                be32_val(rem.subrange(4, 8)) == count as nat,
                wl == weight_len(config),
                wl >= 1,
                count < 0x100000000,
                le_nat(ob@) == order(config),
                ob@.len() == wl,
                forall|j: int| 0 <= j < i ==> weight_ok(config, (#[trigger] data@[j])@),
                forall|j: int|
                    0 <= j < i ==> (#[trigger] data@[j])@ == body@.subrange(j * wl, j * wl + wl),
                weights_concat(data.deep_view()) == body@.take(pos as int),
            decreases count - i,
        {
            proof {
                assert((i + 1) * wl == i * wl + wl) by (nonlinear_arith);
                lemma_mul_inequality(i + 1, count as int, wl as int);
                assert(pos + wl <= count * wl);
            }
            let w = copy_range(&body, pos, pos + wl);
            if !lt_bytes(&w, &ob) {
                proof {
                    if vect_prefix_wf(rem) {
                        let iw = i as int;
                        assert(rem.subrange(8 + iw * wl, 8 + iw * wl + wl) =~= body@.subrange(
                            iw * wl,
                            iw * wl + wl,
                        ));
                        assert(le_nat(rem.subrange(8 + iw * wl, 8 + iw * wl + wl)) < order(config));
                    }
                }
                return Err(DecodeError::WeightOutOfRange);
            }
            let ghost old_data = data;
            data.push(w);
            proof {
                assert(data.deep_view() =~~= old_data.deep_view().push(w@));
                lemma_weights_concat_push(old_data.deep_view(), w@);
                assert(body@.take(pos + wl) =~= body@.take(pos as int) + body@.subrange(
                    pos as int,
                    pos + wl,
                ));
            }
            pos = pos + wl;
            i = i + 1;
        }
        let v = MaskVect { config, data };
        proof {
            let region = vect_region_len(rem) as int;
            assert(region == 8 + cnt * weight_len(config));
            // the round seed of validity: every announced weight is in range
            assert forall|k: int| 0 <= k < cnt implies le_nat(
                #[trigger] rem.subrange(8 + k * wl, 8 + k * wl + wl),
            ) < order(config) by {
                lemma_mul_inequality(k + 1, count as int, wl as int);
                assert((k + 1) * wl == k * wl + wl) by (nonlinear_arith);
                assert(rem.subrange(8 + k * wl, 8 + k * wl + wl) =~= body@.subrange(
                    k * wl,
                    k * wl + wl,
                ));
                assert(data@[k]@ == body@.subrange(k * wl, k * wl + wl));
                assert(weight_ok(config, data@[k]@));
            }
            assert(vect_prefix_wf(rem));
            // the parsed value re-serializes to exactly the bytes read
            lemma_config_parse_inverse(rem.subrange(0, 4), config);
            lemma_be32_inverse(rem.subrange(4, 8));
            assert(be32(cnt) == rem.subrange(4, 8));
            assert(body@.take(pos as int) =~= body@);
            assert(v.spec_bytes() =~= rem.take(region));
        }
        Ok(v)
    }

    /// Decodes a byte string that holds exactly one vector.
    pub fn from_byte_slice(buffer: &Vec<u8>) -> (r: Result<MaskVect, DecodeError>)
        ensures
            match r {
                Ok(v) => v.wf() && v.spec_bytes() == buffer@ && valid_vect_bytes(buffer@),
                Err(_) => !valid_vect_bytes(buffer@),
            },
    {
        let mut stream = ByteStream::new(copy_bytes(buffer));
        let v = match MaskVect::from_byte_stream(&mut stream) {
            Ok(v) => v,
            Err(e) => {
                return Err(e);
            },
        };
        if stream.left() > 0 {
            return Err(DecodeError::TrailingBytes);
        }
        proof {
            assert(buffer@.take(vect_region_len(buffer@) as int) =~= buffer@);
        }
        Ok(v)
    }
}

impl MaskUnit {
    /// The wire form of this unit.
    pub open spec fn spec_bytes(&self) -> Seq<u8> {
        unit_wire(self.config, self.data@)
    }

    /// The number of bytes the wire form occupies.
    pub fn buffer_length(&self) -> (r: usize)
        requires
            self.wf(),
        ensures
            r == self.spec_bytes().len(),
            r == 8 + weight_len(self.config),
    {
        let wl = self.config.bytes_per_weight();
        8 + wl
    }

    /// The wire form as a fresh byte vector.
    pub fn to_byte_vec(&self) -> (r: Vec<u8>)
        requires
            self.wf(),
        ensures
            r@ == self.spec_bytes(),
    {
        let mut out = self.config.to_byte_vec();
        let mut cnt = u32_to_be_vec(1);
        out.append(&mut cnt);
        let mut w = copy_bytes(&self.data);
        out.append(&mut w);
        proof {
            assert(out@ =~= self.spec_bytes());
        }
        out
    }

    /// Writes the wire form over a buffer of exactly the right length.
    pub fn to_bytes(&self, buffer: &mut Vec<u8>)
        requires
            self.wf(),
            old(buffer)@.len() == self.spec_bytes().len(),
        ensures
            final(buffer)@ == self.spec_bytes(),
    {
        let out = self.to_byte_vec();
        *buffer = out;
    }

    /// Decodes one unit region from the stream, leaving what follows.
    pub fn from_byte_stream(stream: &mut ByteStream) -> (r: Result<MaskUnit, DecodeError>)
        requires
            old(stream).wf(),
        ensures
            final(stream).wf(),
            final(stream).bytes@ == old(stream).bytes@,
            match r {
                Ok(u) => {
                    &&& unit_prefix_wf(old(stream).remaining())
                    &&& u.wf()
                    &&& u.config == parse_config_spec(
                        old(stream).remaining().subrange(0, 4),
                    ).unwrap()
                    &&& u.spec_bytes() == old(stream).remaining().take(
                        unit_region_len(old(stream).remaining()) as int,
                    )
                    &&& final(stream).pos == old(stream).pos + unit_region_len(
                        old(stream).remaining(),
                    )
                },
                Err(_) => !unit_prefix_wf(old(stream).remaining()),
            },
    {
        let ghost rem = old(stream).remaining();
        let header = match stream.take_n(8) {
            Some(h) => h,
            None => {
                return Err(DecodeError::TooShort);
            },
        };
        proof {
            assert(header@.subrange(0, 4) =~= rem.subrange(0, 4));
            assert(header@.subrange(4, 8) =~= rem.subrange(4, 8));
        }
        let config = match MaskConfig::try_parse(&header, 0) {
            Some(c) => c,
            None => {
                return Err(DecodeError::InvalidConfig);
            },
        };
        let count32 = read_be32(&header, 4);
        if count32 != 1 {
            return Err(DecodeError::InvalidUnitCount);
        }
        let wl = config.bytes_per_weight();
        let w = match stream.take_n(wl) {
            Some(w) => w,
            None => {
                proof {
                    assert(rem.len() < 8 + weight_len(config));
                }
                return Err(DecodeError::TooShort);
            },
        };
        proof {
            assert(w@ =~= rem.subrange(8, 8 + wl));
        }
        let ob = config.order_bytes();
        if !lt_bytes(&w, &ob) {
            return Err(DecodeError::WeightOutOfRange);
        }
        let u = MaskUnit { config, data: w };
        proof {
            lemma_config_parse_inverse(rem.subrange(0, 4), config);
            lemma_be32_inverse(rem.subrange(4, 8));
            assert(be32(1) == rem.subrange(4, 8));
            assert(u.spec_bytes() =~= rem.take(unit_region_len(rem) as int));
        }
        Ok(u)
    }

    /// Decodes a byte string that holds exactly one unit.
    pub fn from_byte_slice(buffer: &Vec<u8>) -> (r: Result<MaskUnit, DecodeError>)
        ensures
            match r {
                Ok(u) => u.wf() && u.spec_bytes() == buffer@ && valid_unit_bytes(buffer@),
                Err(_) => !valid_unit_bytes(buffer@),
            },
    {
        let mut stream = ByteStream::new(copy_bytes(buffer));
        let u = match MaskUnit::from_byte_stream(&mut stream) {
            Ok(u) => u,
            Err(e) => {
                return Err(e);
            },
        };
        if stream.left() > 0 {
            return Err(DecodeError::TrailingBytes);
        }
        proof {
            assert(buffer@.take(unit_region_len(buffer@) as int) =~= buffer@);
        }
        Ok(u)
    }
}

impl MaskObject {
    /// The wire form of this object: the vector region, then the unit region.
    pub open spec fn spec_bytes(&self) -> Seq<u8> {
        self.vect.spec_bytes() + self.unit.spec_bytes()
    }

    /// The number of bytes the wire form occupies.
    pub fn buffer_length(&self) -> (r: usize)
        requires
            self.wf(),
            self.spec_bytes().len() <= usize::MAX,
        ensures
            r == self.spec_bytes().len(),
    {
        proof {
            crate::masks::lemma_deep_view_index(self.vect.data);
            assert forall|i: int| 0 <= i < self.vect.data.deep_view().len() implies (
            #[trigger] self.vect.data.deep_view()[i]).len() == weight_len(self.vect.config) by {
                assert(self.vect.data.deep_view()[i] == self.vect.data@[i]@);
            }
            lemma_weights_concat_len(self.vect.data.deep_view(), weight_len(self.vect.config));
        }
        self.vect.buffer_length() + self.unit.buffer_length()
    }

    /// The wire form as a fresh byte vector.
    pub fn to_byte_vec(&self) -> (r: Vec<u8>)
        requires
            self.wf(),
        ensures
            r@ == self.spec_bytes(),
    {
        let mut out = self.vect.to_byte_vec();
        let mut u = self.unit.to_byte_vec();
        out.append(&mut u);
        out
    }

    /// Writes the wire form over a buffer of exactly the right length.
    pub fn to_bytes(&self, buffer: &mut Vec<u8>)
        requires
            self.wf(),
            old(buffer)@.len() == self.spec_bytes().len(),
        ensures
            final(buffer)@ == self.spec_bytes(),
    {
        let out = self.to_byte_vec();
        *buffer = out;
    }

    /// Decodes one object region from the stream, leaving what follows.
    pub fn from_byte_stream(stream: &mut ByteStream) -> (r: Result<MaskObject, DecodeError>)
        requires
            old(stream).wf(),
        ensures
            final(stream).wf(),
            final(stream).bytes@ == old(stream).bytes@,
            match r {
                Ok(o) => {
                    &&& object_prefix_wf(old(stream).remaining())
                    &&& o.wf()
                    &&& o.spec_bytes() == old(stream).remaining().take(
                        object_region_len(old(stream).remaining()) as int,
                    )
                    &&& final(stream).pos == old(stream).pos + object_region_len(
                        old(stream).remaining(),
                    )
                },
                Err(_) => !object_prefix_wf(old(stream).remaining()),
            },
    {
        let ghost rem = old(stream).remaining();
        let vect = match MaskVect::from_byte_stream(stream) {
            Ok(v) => v,
            Err(e) => {
                return Err(e);
            },
        };
        let ghost vr = vect_region_len(rem) as int;
        proof {
            assert(stream.remaining() =~= rem.skip(vr));
        }
        let unit = match MaskUnit::from_byte_stream(stream) {
            Ok(u) => u,
            Err(e) => {
                return Err(e);
            },
        };
        if !(vect.config == unit.config) {
            return Err(DecodeError::InvalidConfig);
        }
        let o = MaskObject { vect, unit };
        proof {
            let ur = unit_region_len(rem.skip(vr)) as int;
            assert(o.unit.spec_bytes() == rem.skip(vr).take(ur));
            assert(rem.skip(vr).take(ur) =~= rem.subrange(vr, vr + ur));
            assert(o.spec_bytes() =~= rem.take(vr + ur));
        }
        Ok(o)
    }

    /// Decodes a byte string that holds exactly one object.
    pub fn from_byte_slice(buffer: &Vec<u8>) -> (r: Result<MaskObject, DecodeError>)
        ensures
            match r {
                Ok(o) => o.wf() && o.spec_bytes() == buffer@ && valid_object_bytes(buffer@),
                Err(_) => !valid_object_bytes(buffer@),
            },
    {
        let mut stream = ByteStream::new(copy_bytes(buffer));
        let o = match MaskObject::from_byte_stream(&mut stream) {
            Ok(o) => o,
            Err(e) => {
                return Err(e);
            },
        };
        if stream.left() > 0 {
            return Err(DecodeError::TrailingBytes);
        }
        proof {
            assert(buffer@.take(object_region_len(buffer@) as int) =~= buffer@);
        }
        Ok(o)
    }
}

/// Checks the length structure of the vector-shaped region at `offset` and
/// reports how many bytes it spans.
fn vect_layout_check(bytes: &Vec<u8>, offset: usize) -> (r: Option<usize>)
    requires
        offset <= bytes@.len(),
    ensures
        match r {
            Some(l) => {
                &&& vect_layout_ok(bytes@.skip(offset as int))
                &&& l == vect_region_len(bytes@.skip(offset as int))
                &&& offset + l <= bytes@.len()
            },
            None => !vect_layout_ok(bytes@.skip(offset as int)),
        },
{
    let n = bytes.len();
    let ghost s = bytes@.skip(offset as int);
    if n - offset < 8 {
        return None;
    }
    proof {
        assert(s.subrange(0, 4) =~= bytes@.subrange(offset as int, offset + 4));
        assert(s.subrange(4, 8) =~= bytes@.subrange(offset + 4, offset + 8));
    }
    let config = match MaskConfig::try_parse(bytes, offset) {
        Some(c) => c,
        None => {
            return None;
        },
    };
    let count32 = read_be32(bytes, offset + 4);
    let wl = config.bytes_per_weight();
    proof {
        lemma_weight_len_pos(config);
        assert((count32 as int) * (wl as int) <= 0xffffffff * 44) by (nonlinear_arith)
            requires
                count32 <= 0xffffffffu32,
                wl <= 44,
        ;
    }
    let region64: u64 = 8 + (count32 as u64) * (wl as u64);
    if region64 > (n - offset) as u64 {
        return None;
    }
    Some(region64 as usize)
}

/// A buffer holding the serialized form of a mask object, with checked access
/// to the vector and unit regions.
pub struct MaskObjectBuffer {
    pub inner: Vec<u8>,
}

impl MaskObjectBuffer {
    /// Creates a new buffer from `bytes`, checking the region structure.
    pub fn new(bytes: Vec<u8>) -> (r: Result<MaskObjectBuffer, DecodeError>)
        ensures
            match r {
                Ok(b) => b.inner@ == bytes@ && object_layout_ok(bytes@),
                Err(_) => !object_layout_ok(bytes@),
            },
    {
        let buffer = MaskObjectBuffer { inner: bytes };
        match buffer.check_buffer_length() {
            Ok(_) => Ok(buffer),
            Err(e) => Err(e),
        }
    }

    /// Creates a new buffer from `bytes` without any checks.
    pub fn new_unchecked(bytes: Vec<u8>) -> (r: MaskObjectBuffer)
        ensures
            r.inner@ == bytes@,
    {
        MaskObjectBuffer { inner: bytes }
    }

    /// Checks that the buffer holds a vector region and a unit region.
    pub fn check_buffer_length(&self) -> (r: Result<(), DecodeError>)
        ensures
            match r {
                Ok(_) => object_layout_ok(self.inner@),
                Err(_) => !object_layout_ok(self.inner@),
            },
    {
        proof {
            assert(self.inner@.skip(0) =~= self.inner@);
        }
        let l1 = match vect_layout_check(&self.inner, 0) {
            Some(l) => l,
            None => {
                return Err(DecodeError::TooShort);
            },
        };
        match vect_layout_check(&self.inner, l1) {
            Some(_) => Ok(()),
            None => Err(DecodeError::TooShort),
        }
    }

    /// The offset of the unit region: the length of the vector region.
    pub fn unit_offset(&self) -> (r: usize)
        requires
            vect_layout_ok(self.inner@),
        ensures
            r == vect_region_len(self.inner@),
            r <= self.inner@.len(),
            r >= 8,
    {
        proof {
            assert(self.inner@.skip(0) =~= self.inner@);
            lemma_weight_len_pos(parse_config_spec(self.inner@.subrange(0, 4)).unwrap());
        }
        match vect_layout_check(&self.inner, 0) {
            Some(l) => l,
            None => {
                proof {
                    assert(false);
                }
                0
            },
        }
    }

    /// A copy of the vector region.
    pub fn vect(&self) -> (r: Vec<u8>)
        requires
            vect_layout_ok(self.inner@),
        ensures
            r@ == self.inner@.take(vect_region_len(self.inner@) as int),
    {
        let off = self.unit_offset();
        let r = copy_range(&self.inner, 0, off);
        proof {
            assert(self.inner@.subrange(0, off as int) =~= self.inner@.take(off as int));
        }
        r
    }

    /// A copy of the unit region: everything after the vector region.
    pub fn unit(&self) -> (r: Vec<u8>)
        requires
            vect_layout_ok(self.inner@),
        ensures
            r@ == self.inner@.skip(vect_region_len(self.inner@) as int),
    {
        let off = self.unit_offset();
        let r = copy_range(&self.inner, off, self.inner.len());
        proof {
            assert(self.inner@.subrange(off as int, self.inner@.len() as int) =~= self.inner@.skip(
                off as int,
            ));
        }
        r
    }

    /// The number of bytes the announced regions span together.
    pub fn len(&self) -> (r: usize)
        requires
            object_layout_ok(self.inner@),
        ensures
            r == vect_region_len(self.inner@) + vect_region_len(
                self.inner@.skip(vect_region_len(self.inner@) as int),
            ),
    {
        let n = self.inner.len();
        let l1 = self.unit_offset();
        let l2 = match vect_layout_check(&self.inner, l1) {
            Some(l) => l,
            None => {
                proof {
                    assert(false);
                }
                0
            },
        };
        proof {
            assert(l1 + l2 <= n);
        }
        l1 + l2
    }

    /// Writes `src` over the start of the buffer, where the vector region of
    /// a mask object goes.
    pub fn vect_mut(&mut self, src: &Vec<u8>)
        requires
            src@.len() <= old(self).inner@.len(),
        ensures
            final(self).inner@ == src@ + old(self).inner@.skip(src@.len() as int),
    {
        let mut i: usize = 0;
        proof {
            assert(self.inner@ =~= src@.take(0) + old(self).inner@.skip(0));
        }
        while i < src.len()
            invariant
                src@.len() <= old(self).inner@.len(),
                i <= src@.len(),
                self.inner@.len() == old(self).inner@.len(),
                self.inner@ == src@.take(i as int) + old(self).inner@.skip(i as int),
            decreases src@.len() - i,
        {
            self.inner.set(i, src[i]);
            proof {
                assert(self.inner@ =~= src@.take(i + 1) + old(self).inner@.skip(i + 1));
            }
            i = i + 1;
        }
        proof {
            assert(src@.take(src@.len() as int) =~= src@);
        }
    }

    /// Writes `src` over the unit region, directly after the vector region.
    pub fn unit_mut(&mut self, src: &Vec<u8>)
        requires
            vect_layout_ok(old(self).inner@),
            vect_region_len(old(self).inner@) + src@.len() <= old(self).inner@.len(),
        ensures
            final(self).inner@ == old(self).inner@.take(
                vect_region_len(old(self).inner@) as int,
            ) + src@ + old(self).inner@.skip(
                vect_region_len(old(self).inner@) + src@.len() as int,
            ),
    {
        let n = self.inner.len();
        let off = self.unit_offset();
        let ghost offi = off as int;
        let mut i: usize = 0;
        proof {
            assert(self.inner@ =~= old(self).inner@.take(offi) + src@.take(0)
                + old(self).inner@.skip(offi));
        }
        while i < src.len()
            invariant
                off + src@.len() <= old(self).inner@.len(),
                n == old(self).inner@.len(),
                offi == off as int,
                i <= src@.len(),
                self.inner@.len() == old(self).inner@.len(),
                self.inner@ == old(self).inner@.take(offi) + src@.take(i as int)
                    + old(self).inner@.skip(offi + i),
            decreases src@.len() - i,
        {
            self.inner.set(off + i, src[i]);
            proof {
                assert(self.inner@ =~= old(self).inner@.take(offi) + src@.take(i + 1)
                    + old(self).inner@.skip(offi + i + 1));
            }
            i = i + 1;
        }
        proof {
            assert(src@.take(src@.len() as int) =~= src@);
        }
    }
}

/// The encoding of a well-formed mask vector is a valid byte string, so the
/// decoder accepts it.
pub proof fn lemma_encoded_vect_valid(v: MaskVect)
    requires
        v.wf(),
    ensures
        valid_vect_bytes(v.spec_bytes()),
        parse_config_spec(v.spec_bytes().subrange(0, 4)) == Some(v.config),
        vect_region_len(v.spec_bytes()) == v.spec_bytes().len(),
        be32_val(v.spec_bytes().subrange(4, 8)) == v.data@.len(),
{
    let s = v.spec_bytes();
    let dv = v.data.deep_view();
    let c = v.config;
    let wl = weight_len(c) as int;
    crate::masks::lemma_deep_view_index(v.data);
    assert forall|i: int| 0 <= i < dv.len() implies (#[trigger] dv[i]).len() == weight_len(c) by {
        assert(dv[i] == v.data@[i]@);
    }
    lemma_weights_concat_len(dv, weight_len(c));
    assert(s.subrange(0, 4) =~= config_bytes(c));
    lemma_config_roundtrip(c);
    assert(s.subrange(4, 8) =~= be32(dv.len() as nat));
    lemma_be32_roundtrip(dv.len() as nat);
    assert forall|i: int| 0 <= i < dv.len() implies le_nat(
        #[trigger] s.subrange(8 + i * wl, 8 + i * wl + wl),
    ) < order(c) by {
        lemma_weights_concat_index(dv, weight_len(c), i);
        lemma_mul_inequality(i + 1, dv.len() as int, wl);
        assert((i + 1) * wl == i * wl + wl) by (nonlinear_arith);
        assert(s.subrange(8 + i * wl, 8 + i * wl + wl) =~= weights_concat(dv).subrange(
            i * wl,
            i * wl + wl,
        ));
        assert(dv[i] == v.data@[i]@);
        assert(weight_ok(c, v.data@[i]@));
    }
}

/// The encoding of a well-formed mask unit is a valid byte string.
pub proof fn lemma_encoded_unit_valid(u: MaskUnit)
    requires
        u.wf(),
    ensures
        valid_unit_bytes(u.spec_bytes()),
        parse_config_spec(u.spec_bytes().subrange(0, 4)) == Some(u.config),
        unit_region_len(u.spec_bytes()) == u.spec_bytes().len(),
{
    let s = u.spec_bytes();
    let c = u.config;
    assert(s.subrange(0, 4) =~= config_bytes(c));
    lemma_config_roundtrip(c);
    assert(s.subrange(4, 8) =~= be32(1));
    lemma_be32_roundtrip(1);
    assert(s.subrange(8, 8 + weight_len(c) as int) =~= u.data@);
}

/// The encoding of a well-formed mask object is a valid byte string.
pub proof fn lemma_encoded_object_valid(o: MaskObject)
    requires
        o.wf(),
    ensures
        valid_object_bytes(o.spec_bytes()),
        vect_region_len(o.spec_bytes()) == o.vect.spec_bytes().len(),
{
    let sv = o.vect.spec_bytes();
    let su = o.unit.spec_bytes();
    let s = sv + su;
    let c = o.vect.config;
    let wl = weight_len(c) as int;
    lemma_encoded_vect_valid(o.vect);
    lemma_encoded_unit_valid(o.unit);
    assert(s.subrange(0, 4) =~= sv.subrange(0, 4));
    assert(s.subrange(4, 8) =~= sv.subrange(4, 8));
    let n = be32_val(s.subrange(4, 8));
    assert forall|i: int| 0 <= i < n implies le_nat(
        #[trigger] s.subrange(8 + i * wl, 8 + i * wl + wl),
    ) < order(c) by {
        lemma_mul_inequality(i + 1, n as int, wl);
        assert((i + 1) * wl == i * wl + wl) by (nonlinear_arith);
        assert(s.subrange(8 + i * wl, 8 + i * wl + wl) =~= sv.subrange(
            8 + i * wl,
            8 + i * wl + wl,
        ));
    }
    assert(vect_prefix_wf(s));
    assert(vect_region_len(s) == sv.len());
    assert(s.skip(sv.len() as int) =~= su);
}

/// Two well-formed mask vectors with one wire form are one vector.
pub proof fn lemma_vect_codec_injective(a: MaskVect, b: MaskVect)
    requires
        a.wf(),
        b.wf(),
        a.spec_bytes() == b.spec_bytes(),
    ensures
        vect_eq(a, b),
{
    let s = a.spec_bytes();
    let wl = weight_len(a.config) as int;
    lemma_encoded_vect_valid(a);
    lemma_encoded_vect_valid(b);
    assert(a.config == b.config);
    crate::masks::lemma_deep_view_index(a.data);
    crate::masks::lemma_deep_view_index(b.data);
    let da = a.data.deep_view();
    let db = b.data.deep_view();
    assert(da.len() == db.len());
    assert forall|i: int| 0 <= i < da.len() implies da[i] == db[i] by {
        assert(da[i] == a.data@[i]@);
        assert(db[i] == b.data@[i]@);
        lemma_weights_concat_index(da, weight_len(a.config), i);
        lemma_weights_concat_index(db, weight_len(b.config), i);
        assert(weights_concat(da) =~= weights_concat(db)) by {
            assert(weights_concat(da) == s.skip(8)) by {
                assert(s.skip(8) =~= weights_concat(da));
            }
            assert(weights_concat(db) == s.skip(8)) by {
                assert(s.skip(8) =~= weights_concat(db));
            }
        }
    }
    assert(da =~= db);
}

/// Two well-formed mask units with one wire form are one unit.
pub proof fn lemma_unit_codec_injective(a: MaskUnit, b: MaskUnit)
    requires
        a.wf(),
        b.wf(),
        a.spec_bytes() == b.spec_bytes(),
    ensures
        unit_eq(a, b),
{
    let s = a.spec_bytes();
    lemma_encoded_unit_valid(a);
    lemma_encoded_unit_valid(b);
    assert(a.config == b.config);
    assert(a.data@ =~= s.skip(8)) by {
        assert(s.skip(8) =~= a.data@);
    }
    assert(b.data@ =~= s.skip(8)) by {
        assert(s.skip(8) =~= b.data@);
    }
}

/// Round trip: decoding an encoding of a well-formed mask object yields the
/// object back. Two well-formed objects with one wire form are one object,
/// and the encoding is always accepted by the decoder, so
/// `from_byte_slice(to_byte_vec(m))` returns a mask object equal to `m`.
pub proof fn lemma_object_codec_roundtrip(a: MaskObject, b: MaskObject)
    requires
        a.wf(),
        b.wf(),
        a.spec_bytes() == b.spec_bytes(),
    ensures
        object_eq(a, b),
{
    let s = a.spec_bytes();
    lemma_encoded_object_valid(a);
    lemma_encoded_object_valid(b);
    assert(a.vect.spec_bytes().len() == vect_region_len(s));
    assert(b.vect.spec_bytes().len() == vect_region_len(s));
    assert(a.vect.spec_bytes() =~= s.take(vect_region_len(s) as int)) by {
        assert(s.take(vect_region_len(s) as int) =~= a.vect.spec_bytes());
    }
    assert(b.vect.spec_bytes() =~= s.take(vect_region_len(s) as int)) by {
        assert(s.take(vect_region_len(s) as int) =~= b.vect.spec_bytes());
    }
    lemma_vect_codec_injective(a.vect, b.vect);
    assert(a.unit.spec_bytes() =~= s.skip(vect_region_len(s) as int)) by {
        assert(s.skip(vect_region_len(s) as int) =~= a.unit.spec_bytes());
    }
    assert(b.unit.spec_bytes() =~= s.skip(vect_region_len(s) as int)) by {
        assert(s.skip(vect_region_len(s) as int) =~= b.unit.spec_bytes());
    }
    lemma_unit_codec_injective(a.unit, b.unit);
}

} // verus!

//! Crypto primitives of the coordinator.
//!
//! Signing keys identify participants and the coordinator; a round seed feeds
//! the participants' task selection; and a participant is *eligible* for the
//! sum or update task of a round when the scaled hash of round seed, task
//! signature and participant key falls below the round's task ratio. The
//! coordinator re-checks this predicate on every message.
//!
//! The hash and signature primitives come from the crypto library behind
//! trusted wrappers; everything computed from their results is verified.

use vstd::prelude::*;
use crate::bytes::{le_nat, pow256, copy_bytes};

verus! {

/// An Ed25519 public signing key (32 bytes): a participant's identity.
pub type ParticipantPublicKey = Vec<u8>;

/// The public signing key of a sum participant.
pub type SumParticipantPublicKey = Vec<u8>;

/// The ephemeral public encryption key a sum participant creates for a round.
pub type SumParticipantEphemeralPublicKey = Vec<u8>;

/// The public signing key of an update participant.
pub type UpdateParticipantPublicKey = Vec<u8>;

/// An encrypted masking seed, addressed to one sum participant.
pub type EncryptedMaskSeed = Vec<u8>;

/// An Ed25519 signing key pair.
#[derive(Clone, Debug)]
pub struct SigningKeyPair {
    pub public: Vec<u8>,
    pub secret: Vec<u8>,
}

impl SigningKeyPair {
    /// The byte lengths of an Ed25519 key pair.
    pub open spec fn wf(&self) -> bool {
        self.public@.len() == 32 && self.secret@.len() == 64
    }
}

/// The 32-byte BLAKE2b digest of a byte string. The digest is a function of
/// the input alone; its value is fixed by the crypto library.
pub uninterp spec fn blake2b32(data: Seq<u8>) -> Seq<u8>;

/// Whether `sig` is a valid Ed25519 signature over `msg` under `pk`. The
/// verdict is a function of the three inputs alone.
pub uninterp spec fn sig_valid(sig: Seq<u8>, msg: Seq<u8>, pk: Seq<u8>) -> bool;

/// Relies on `sodiumoxide::crypto::generichash::hash` with a 32-byte output
/// and no key: BLAKE2b-256, a pure function of the data. The call cannot
/// fail: the library's only error paths are the output-length and key-length
/// range checks, and a 32-byte unkeyed digest passes both.
#[verifier::external_body]
fn blake2b_hash(data: &Vec<u8>) -> (r: Vec<u8>)
    ensures
        r@ == blake2b32(data@),
        r@.len() == 32,
{
    let digest = sodiumoxide::crypto::generichash::hash(data.as_slice(), Some(32), None);
    digest.unwrap().as_ref().to_vec()
}

/// Relies on `sodiumoxide::crypto::sign::verify_detached`: Ed25519 signature
/// verification, a function of signature, message and key alone.
#[verifier::external_body]
pub(crate) fn verify_detached_raw(sig: &Vec<u8>, msg: &Vec<u8>, pk: &Vec<u8>) -> (r: bool)
    requires
        sig@.len() == 64,
        pk@.len() == 32,
    ensures
        r == sig_valid(sig@, msg@, pk@),
{
    let s = match sodiumoxide::crypto::sign::Signature::from_bytes(sig.as_slice()) {
        Ok(s) => s,
        Err(_) => {
            return false;
        },
    };
    let p = match sodiumoxide::crypto::sign::PublicKey::from_slice(pk.as_slice()) {
        Some(p) => p,
        None => {
            return false;
        },
    };
    sodiumoxide::crypto::sign::verify_detached(&s, msg.as_slice(), &p)
}

/// Relies on `sodiumoxide::randombytes::randombytes`: `size` fresh random
/// bytes. Nothing is promised of their values.
#[verifier::external_body]
pub(crate) fn random_bytes(size: usize) -> (r: Vec<u8>)
    ensures
        r@.len() == size,
{
    sodiumoxide::randombytes::randombytes(size)
}

/// Relies on `sodiumoxide::crypto::sign::gen_keypair`: a fresh Ed25519 key
/// pair. Only the byte lengths are promised.
#[verifier::external_body]
pub(crate) fn gen_sign_keypair_raw() -> (r: (Vec<u8>, Vec<u8>))
    ensures
        r.0@.len() == 32,
        r.1@.len() == 64,
{
    let (pk, sk) = sodiumoxide::crypto::sign::gen_keypair();
    (pk.as_ref().to_vec(), sk.as_ref().to_vec())
}

/// Generates a fresh signing key pair for a round.
pub fn generate_signing_key_pair() -> (r: SigningKeyPair)
    ensures
        r.wf(),
{
    let (public, secret) = gen_sign_keypair_raw();
    SigningKeyPair { public, secret }
}

/// Generates a fresh 32-byte round seed.
pub fn generate_round_seed() -> (r: Vec<u8>)
    ensures
        r@.len() == 32,
{
    random_bytes(32)
}

/// A task ratio in (0, 1]: the fraction of participants selected.
#[derive(Clone, Copy, PartialEq, Eq, Structural, Debug)]
pub struct Ratio {
    pub numer: u64,
    pub denom: u64,
}

impl Ratio {
    /// A positive fraction of at most one.
    pub open spec fn wf(&self) -> bool {
        0 < self.numer <= self.denom
    }
}

/// The ASCII bytes of the sum task's name, signed by sum participants.
pub open spec fn sum_task_tag() -> Seq<u8> {
    seq![115u8, 117u8, 109u8]
}

/// The ASCII bytes of the update task's name, signed by update participants.
pub open spec fn update_task_tag() -> Seq<u8> {
    seq![117u8, 112u8, 100u8, 97u8, 116u8, 101u8]
}

/// The sum task's name as bytes.
pub fn sum_task_tag_vec() -> (r: Vec<u8>)
    ensures
        r@ == sum_task_tag(),
{
    let mut out: Vec<u8> = Vec::new();
    out.push(115);
    out.push(117);
    out.push(109);
    proof {
        assert(out@ =~= sum_task_tag());
    }
    out
}

/// The update task's name as bytes.
pub fn update_task_tag_vec() -> (r: Vec<u8>)
    ensures
        r@ == update_task_tag(),
{
    let mut out: Vec<u8> = Vec::new();
    out.push(117);
    out.push(112);
    out.push(100);
    out.push(97);
    out.push(116);
    out.push(101);
    proof {
        assert(out@ =~= update_task_tag());
    }
    out
}

/// Whether `sig` signs the round seed followed by the task tag under `pk`:
/// what a participant proves to claim a task.
pub open spec fn task_sig_valid(seed: Seq<u8>, sig: Seq<u8>, pk: Seq<u8>, tag: Seq<u8>) -> bool {
    sig_valid(sig, seed + tag, pk)
}

/// Checks a task signature over the round seed and task tag.
pub fn verify_task_signature(seed: &Vec<u8>, sig: &Vec<u8>, pk: &Vec<u8>, tag: &Vec<u8>) -> (r:
    bool)
    requires
        sig@.len() == 64,
        pk@.len() == 32,
    ensures
        r == task_sig_valid(seed@, sig@, pk@, tag@),
{
    let mut msg = copy_bytes(seed);
    let mut t = copy_bytes(tag);
    msg.append(&mut t);
    verify_detached_raw(sig, &msg, pk)
}

/// The selection value of a digest: its first eight bytes, little-endian.
pub open spec fn digest_u64(h: Seq<u8>) -> nat {
    le_nat(h.take(8))
}

/// The eligibility predicate: a participant with key `pk` and task signature
/// `sig` is selected for the task in the round with seed `seed` when the
/// scaled 64-bit selection value of `BLAKE2b(seed ‖ sig ‖ pk)` falls below
/// the task ratio.
pub open spec fn task_eligible(seed: Seq<u8>, sig: Seq<u8>, pk: Seq<u8>, r: Ratio) -> bool {
    digest_u64(blake2b32(seed + sig + pk)) * r.denom < r.numer * 0x10000000000000000
}

/// Reads the first eight bytes of a digest as a little-endian number.
fn digest_u64_exec(h: &Vec<u8>) -> (r: u64)
    requires
        h@.len() >= 8,
    ensures
        r as nat == digest_u64(h@),
{
    proof {
        assert(pow256(0) == 1);
        assert(pow256(1) == 256);
        assert(pow256(2) == 0x10000);
        assert(pow256(3) == 0x1000000);
        assert(pow256(4) == 0x100000000);
        assert(pow256(5) == 0x10000000000);
        assert(pow256(6) == 0x1000000000000);
        assert(pow256(7) == 0x100000000000000);
        assert(pow256(8) == 0x10000000000000000);
    }
    let mut acc: u64 = 0;
    let mut i: usize = 8;
    while i > 0
        invariant
            i <= 8,
            h@.len() >= 8,
            acc as nat == le_nat(h@.subrange(i as int, 8)),
            (acc as nat) < pow256((8 - i) as nat),
            pow256(8) == 0x10000000000000000,
        decreases i,
    {
        i = i - 1;
        proof {
            assert(h@.subrange(i as int, 8).drop_first() =~= h@.subrange(i + 1, 8));
            assert(256 * pow256((7 - i) as nat) == pow256((8 - i) as nat));
            crate::bytes::lemma_pow256_mono((8 - i) as nat, 8);
            assert(acc * 256 + 255 < pow256((8 - i) as nat)) by (nonlinear_arith)
                requires
                    (acc as nat) < pow256((7 - i) as nat),
                    256 * pow256((7 - i) as nat) == pow256((8 - i) as nat),
            ;
        }
        acc = acc * 256 + (h[i] as u64);
    }
    proof {
        assert(h@.subrange(0, 8) =~= h@.take(8));
    }
    acc
}

/// Decides task eligibility.
pub fn check_eligibility(seed: &Vec<u8>, sig: &Vec<u8>, pk: &Vec<u8>, ratio: &Ratio) -> (r: bool)
    requires
        ratio.wf(),
    ensures
        r == task_eligible(seed@, sig@, pk@, *ratio),
{
    let mut data = copy_bytes(seed);
    let mut s = copy_bytes(sig);
    let mut p = copy_bytes(pk);
    data.append(&mut s);
    data.append(&mut p);
    proof {
        assert(data@ =~= seed@ + sig@ + pk@);
    }
    let h = blake2b_hash(&data);
    let v = digest_u64_exec(&h);
    proof {
        assert((ratio.numer as int) * 0x10000000000000000 < 0x100000000000000000000000000000000)
            by (nonlinear_arith)
            requires
                ratio.numer <= 0xffffffffffffffffu64,
        ;
        assert((v as int) * (ratio.denom as int) < 0x100000000000000000000000000000000)
            by (nonlinear_arith)
            requires
                v <= 0xffffffffffffffffu64,
                ratio.denom <= 0xffffffffffffffffu64,
        ;
    }
    let lhs: u128 = (v as u128) * (ratio.denom as u128);
    let rhs: u128 = (ratio.numer as u128) * 0x10000000000000000u128;
    lhs < rhs
}

} // verus!

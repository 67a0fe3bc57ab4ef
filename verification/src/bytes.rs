//! Little-endian byte-string arithmetic.
//!
//! Mask weights are big integers below a per-configuration group order,
//! stored as fixed-width little-endian byte strings. This module gives the
//! mathematical value of such a string and verified comparison, addition,
//! subtraction and modular arithmetic on it.

use vstd::prelude::*;
use vstd::arithmetic::div_mod::{lemma_small_mod, lemma_mod_multiples_vanish};

verus! {

/// 256 raised to `n`: the number of values a byte string of length `n` can hold.
pub open spec fn pow256(n: nat) -> nat
    decreases n,
{
    if n == 0 {
        1
    } else {
        256 * pow256((n - 1) as nat)
    }
}

/// The value of a little-endian byte string: the first byte is least significant.
pub open spec fn le_nat(s: Seq<u8>) -> nat
    decreases s.len(),
{
    if s.len() == 0 {
        0
    } else {
        (s[0] + 256 * le_nat(s.drop_first())) as nat
    }
}

/// A canonical byte string has no most-significant zero byte.
pub open spec fn canonical(s: Seq<u8>) -> bool {
    s.len() > 0 ==> s[s.len() - 1] != 0
}

/// Number of bytes needed to store `n`.
pub open spec fn nbytes(n: nat) -> nat
    decreases n,
{
    if n == 0 {
        0
    } else {
        1 + nbytes(n / 256)
    }
}

pub proof fn lemma_pow256_pos(n: nat)
    ensures
        pow256(n) >= 1,
    decreases n,
{
    if n > 0 {
        lemma_pow256_pos((n - 1) as nat);
    }
}

pub proof fn lemma_pow256_mono(a: nat, b: nat)
    requires
        a <= b,
    ensures
        pow256(a) <= pow256(b),
    decreases b,
{
    if a < b {
        lemma_pow256_mono(a, (b - 1) as nat);
        lemma_pow256_pos((b - 1) as nat);
    }
}

/// A byte string's value is below `pow256` of its length.
pub proof fn lemma_le_nat_bound(s: Seq<u8>)
    ensures
        le_nat(s) < pow256(s.len()),
    decreases s.len(),
{
    if s.len() == 0 {
    } else {
        lemma_le_nat_bound(s.drop_first());
        assert(le_nat(s.drop_first()) <= pow256((s.len() - 1) as nat) - 1);
        assert(256 * le_nat(s.drop_first()) <= 256 * (pow256((s.len() - 1) as nat) - 1))
            by (nonlinear_arith)
            requires
                le_nat(s.drop_first()) <= pow256((s.len() - 1) as nat) - 1,
        ;
    }
}

/// Appending a byte adds its value scaled by the weight of the new position.
pub proof fn lemma_le_nat_push(s: Seq<u8>, b: u8)
    ensures
        le_nat(s.push(b)) == le_nat(s) + b * pow256(s.len()),
    decreases s.len(),
{
    if s.len() == 0 {
        assert(s.push(b).drop_first() =~= Seq::<u8>::empty());
        assert(le_nat(Seq::<u8>::empty()) == 0);
        assert(le_nat(s.push(b)) == b);
        assert(le_nat(s) == 0);
        assert(pow256(s.len()) == 1);
    } else {
        assert(s.push(b).drop_first() =~= s.drop_first().push(b));
        lemma_le_nat_push(s.drop_first(), b);
        assert(le_nat(s.push(b)) == s[0] + 256 * (le_nat(s.drop_first()) + b * pow256(
            (s.len() - 1) as nat,
        )));
        assert(256 * (le_nat(s.drop_first()) + b * pow256((s.len() - 1) as nat)) == 256 * le_nat(
            s.drop_first(),
        ) + b * (256 * pow256((s.len() - 1) as nat))) by (nonlinear_arith);
        assert(le_nat(s) == s[0] + 256 * le_nat(s.drop_first()));
        assert(pow256(s.len()) == 256 * pow256((s.len() - 1) as nat));
        assert(b * pow256(s.len()) == b * (256 * pow256((s.len() - 1) as nat)));
        assert(le_nat(s.push(b)) == le_nat(s) + b * pow256(s.len()));
    }
}

/// The low `k` bytes and the rest decompose the value of a byte string.
pub proof fn lemma_le_nat_split(s: Seq<u8>, k: int)
    requires
        0 <= k <= s.len(),
    ensures
        le_nat(s) == le_nat(s.take(k)) + pow256(k as nat) * le_nat(s.skip(k)),
    decreases k,
{
    if k == 0 {
        assert(s.take(0) =~= Seq::<u8>::empty());
        assert(s.skip(0) =~= s);
        assert(le_nat(Seq::<u8>::empty()) == 0);
        assert(le_nat(s.take(0)) == 0);
        assert(le_nat(s.skip(0)) == le_nat(s));
        assert(pow256(0) == 1);
        assert(pow256(k as nat) * le_nat(s.skip(k)) == le_nat(s)) by (nonlinear_arith)
            requires
                pow256(k as nat) == 1,
                le_nat(s.skip(k)) == le_nat(s),
        ;
    } else {
        let d = s.drop_first();
        lemma_le_nat_split(d, k - 1);
        assert(s.take(k).drop_first() =~= d.take(k - 1));
        assert(s.skip(k) =~= d.skip(k - 1));
        assert(s.take(k).len() == k);
        assert(le_nat(s.take(k)) == s[0] + 256 * le_nat(d.take(k - 1)));
        assert(le_nat(s) == s[0] + 256 * le_nat(d));
        assert(le_nat(d) == le_nat(d.take(k - 1)) + pow256((k - 1) as nat) * le_nat(d.skip(k - 1)));
        assert(256 * (le_nat(d.take(k - 1)) + pow256((k - 1) as nat) * le_nat(d.skip(k - 1)))
            == 256 * le_nat(d.take(k - 1)) + (256 * pow256((k - 1) as nat)) * le_nat(
            d.skip(k - 1),
        )) by (nonlinear_arith);
        assert(pow256(k as nat) == 256 * pow256((k - 1) as nat));
        assert(pow256(k as nat) * le_nat(s.skip(k)) == (256 * pow256((k - 1) as nat)) * le_nat(
            d.skip(k - 1),
        ));
        assert(le_nat(s) == le_nat(s.take(k)) + pow256(k as nat) * le_nat(s.skip(k)));
    }
}

/// Two equal-length strings that agree above position `i`, and differ there,
/// order their values by the byte at `i`.
proof fn lemma_le_nat_msb(a: Seq<u8>, b: Seq<u8>, i: int)
    requires
        a.len() == b.len(),
        0 <= i < a.len(),
        a[i] < b[i],
        forall|j: int| i < j < a.len() ==> a[j] == b[j],
    ensures
        le_nat(a) < le_nat(b),
{
    lemma_le_nat_split(a, i);
    lemma_le_nat_split(b, i);
    assert(a.skip(i).drop_first() =~= b.skip(i).drop_first());
    assert(le_nat(a.skip(i)) == a[i] + 256 * le_nat(a.skip(i).drop_first()));
    assert(le_nat(b.skip(i)) == b[i] + 256 * le_nat(b.skip(i).drop_first()));
    assert(le_nat(a.skip(i)) < le_nat(b.skip(i)));
    lemma_le_nat_bound(a.take(i));
    assert(a.take(i).len() == i);
    lemma_pow256_pos(i as nat);
    assert(le_nat(a.take(i)) < pow256(i as nat));
    assert(pow256(i as nat) * le_nat(a.skip(i)) + pow256(i as nat) <= pow256(i as nat) * le_nat(
        b.skip(i),
    )) by (nonlinear_arith)
        requires
            le_nat(a.skip(i)) < le_nat(b.skip(i)),
            pow256(i as nat) >= 1,
    ;
}

/// A number fits in as many bytes as `nbytes` says.
pub proof fn lemma_nbytes_bound(n: nat)
    ensures
        n < pow256(nbytes(n)),
    decreases n,
{
    if n == 0 {
    } else {
        assert(n / 256 < n) by (nonlinear_arith)
            requires
                n >= 1,
        ;
        lemma_nbytes_bound(n / 256);
        assert(n < 256 * pow256(nbytes(n / 256))) by (nonlinear_arith)
            requires
                n / 256 < pow256(nbytes(n / 256)),
                n >= 1,
        ;
    }
}

/// A canonical string is exactly as long as its value needs.
pub proof fn lemma_canonical_len(s: Seq<u8>)
    requires
        canonical(s),
    ensures
        s.len() == nbytes(le_nat(s)),
    decreases s.len(),
{
    if s.len() == 0 {
    } else if s.len() == 1 {
        assert(s.drop_first() =~= Seq::<u8>::empty());
        assert(le_nat(Seq::<u8>::empty()) == 0);
        assert(le_nat(s) == s[0]);
        assert(s[0] != 0);
        assert(le_nat(s) / 256 == 0) by (nonlinear_arith)
            requires
                le_nat(s) < 256,
        ;
        assert(nbytes(0) == 0);
    } else {
        let d = s.drop_first();
        assert(canonical(d));
        lemma_canonical_len(d);
        assert(le_nat(s) == s[0] + 256 * le_nat(d));
        assert(d[d.len() - 1] != 0);
        lemma_le_nat_last_pos(d);
        assert(le_nat(s) > 0);
        assert((s[0] + 256 * le_nat(d)) as nat / 256 == le_nat(d)) by (nonlinear_arith)
            requires
                0 <= s[0] < 256,
        ;
    }
}

/// A canonical, non-empty string has a positive value.
proof fn lemma_le_nat_last_pos(s: Seq<u8>)
    requires
        s.len() > 0,
        s[s.len() - 1] != 0,
    ensures
        le_nat(s) > 0,
    decreases s.len(),
{
    if s.len() == 1 {
    } else {
        lemma_le_nat_last_pos(s.drop_first());
    }
}

/// `r == (le_nat(a) < le_nat(b))` for equal-length strings.
pub fn lt_bytes(a: &Vec<u8>, b: &Vec<u8>) -> (r: bool)
    requires
        a@.len() == b@.len(),
    ensures
        r == (le_nat(a@) < le_nat(b@)),
{
    let mut i: usize = a.len();
    while i > 0
        invariant
            a@.len() == b@.len(),
            i <= a@.len(),
            forall|j: int| i <= j < a@.len() ==> a@[j] == b@[j],
        decreases i,
    {
        i = i - 1;
        if a[i] < b[i] {
            proof {
                lemma_le_nat_msb(a@, b@, i as int);
            }
            return true;
        }
        if a[i] > b[i] {
            proof {
                lemma_le_nat_msb(b@, a@, i as int);
            }
            return false;
        }
    }
    proof {
        assert(a@ =~= b@);
    }
    false
}

/// A verified copy of a byte string.
pub fn copy_bytes(v: &Vec<u8>) -> (r: Vec<u8>)
    ensures
        r@ == v@,
{
    let mut out: Vec<u8> = Vec::new();
    let mut i: usize = 0;
    proof {
        assert(out@ =~= v@.take(0));
    }
    while i < v.len()
        invariant
            i <= v@.len(),
            out@ == v@.take(i as int),
        decreases v@.len() - i,
    {
        out.push(v[i]);
        proof {
            assert(v@.take(i + 1) =~= v@.take(i as int).push(v@[i as int]));
        }
        i = i + 1;
    }
    proof {
        assert(v@.take(v@.len() as int) =~= v@);
    }
    out
}

/// A verified copy of the range `[start, end)` of a byte string.
pub fn copy_range(v: &Vec<u8>, start: usize, end: usize) -> (r: Vec<u8>)
    requires
        start <= end <= v@.len(),
    ensures
        r@ == v@.subrange(start as int, end as int),
{
    let mut out: Vec<u8> = Vec::new();
    let mut i: usize = start;
    proof {
        assert(out@ =~= v@.subrange(start as int, start as int));
    }
    while i < end
        invariant
            start <= i <= end <= v@.len(),
            out@ == v@.subrange(start as int, i as int),
        decreases end - i,
    {
        out.push(v[i]);
        proof {
            assert(v@.subrange(start as int, i + 1) =~= v@.subrange(start as int, i as int).push(
                v@[i as int],
            ));
        }
        i = i + 1;
    }
    out
}

/// `r == (a@ == b@)`.
pub fn bytes_eq(a: &Vec<u8>, b: &Vec<u8>) -> (r: bool)
    ensures
        r == (a@ == b@),
{
    if a.len() != b.len() {
        return false;
    }
    let mut i: usize = 0;
    while i < a.len()
        invariant
            a@.len() == b@.len(),
            i <= a@.len(),
            forall|j: int| 0 <= j < i ==> a@[j] == b@[j],
        decreases a@.len() - i,
    {
        if a[i] != b[i] {
            return false;
        }
        i = i + 1;
    }
    proof {
        assert(a@ =~= b@);
    }
    true
}

/// Schoolbook addition; the flag reports a carry out of the top position.
pub fn add_bytes(a: &Vec<u8>, b: &Vec<u8>) -> (r: (Vec<u8>, bool))
    requires
        a@.len() == b@.len(),
    ensures
        r.0@.len() == a@.len(),
        le_nat(r.0@) + (if r.1 {
            pow256(a@.len())
        } else {
            0
        }) == le_nat(a@) + le_nat(b@),
{
    let ghost n = a@.len();
    let mut out: Vec<u8> = Vec::new();
    let mut carry: u16 = 0;
    let mut i: usize = 0;
    while i < a.len()
        invariant
            a@.len() == n,
            b@.len() == n,
            i <= n,
            out@.len() == i,
            carry <= 1,
            le_nat(out@) + carry * pow256(i as nat) == le_nat(a@.take(i as int)) + le_nat(
                b@.take(i as int),
            ),
        decreases a@.len() - i,
    {
        let t: u16 = (a[i] as u16) + (b[i] as u16) + carry;
        let lo: u8 = (t % 256) as u8;
        let c: u16 = t / 256;
        proof {
            lemma_le_nat_push(out@, lo);
            assert(a@.take(i + 1) =~= a@.take(i as int).push(a@[i as int]));
            assert(b@.take(i + 1) =~= b@.take(i as int).push(b@[i as int]));
            lemma_le_nat_push(a@.take(i as int), a@[i as int]);
            lemma_le_nat_push(b@.take(i as int), b@[i as int]);
            assert(t == lo + 256 * c);
            assert(c <= 1);
            assert(le_nat(out@) + lo * pow256(i as nat) + c * (256 * pow256(i as nat)) == le_nat(
                out@,
            ) + (lo + 256 * c) * pow256(i as nat)) by (nonlinear_arith);
            assert((a@[i as int] + b@[i as int] + carry) * pow256(i as nat) == a@[i as int]
                * pow256(i as nat) + b@[i as int] * pow256(i as nat) + carry * pow256(i as nat))
                by (nonlinear_arith);
        }
        out.push(lo);
        carry = c;
        i = i + 1;
    }
    proof {
        assert(a@.take(n as int) =~= a@);
        assert(b@.take(n as int) =~= b@);
    }
    (out, carry == 1)
}

/// Schoolbook subtraction; the flag reports a borrow out of the top position,
/// in which case the result is `pow256(len)` too high.
pub fn sub_bytes(a: &Vec<u8>, b: &Vec<u8>) -> (r: (Vec<u8>, bool))
    requires
        a@.len() == b@.len(),
    ensures
        r.0@.len() == a@.len(),
        le_nat(r.0@) == le_nat(a@) + (if r.1 {
            pow256(a@.len())
        } else {
            0
        }) - le_nat(b@),
{
    let ghost n = a@.len();
    let mut out: Vec<u8> = Vec::new();
    let mut borrow: u16 = 0;
    let mut i: usize = 0;
    while i < a.len()
        invariant
            a@.len() == n,
            b@.len() == n,
            i <= n,
            out@.len() == i,
            borrow <= 1,
            le_nat(out@) == le_nat(a@.take(i as int)) + borrow * pow256(i as nat) - le_nat(
                b@.take(i as int),
            ),
        decreases a@.len() - i,
    {
        let t: u16 = 256 + (a[i] as u16) - (b[i] as u16) - borrow;
        let lo: u8 = (t % 256) as u8;
        let nb: u16 = if t < 256 {
            1
        } else {
            0
        };
        proof {
            lemma_le_nat_push(out@, lo);
            assert(a@.take(i + 1) =~= a@.take(i as int).push(a@[i as int]));
            assert(b@.take(i + 1) =~= b@.take(i as int).push(b@[i as int]));
            lemma_le_nat_push(a@.take(i as int), a@[i as int]);
            lemma_le_nat_push(b@.take(i as int), b@[i as int]);
            assert(lo == a@[i as int] + 256 * nb - b@[i as int] - borrow);
            assert((a@[i as int] + 256 * nb - b@[i as int] - borrow) * pow256(i as nat)
                == a@[i as int] * pow256(i as nat) + nb * (256 * pow256(i as nat))
                - b@[i as int] * pow256(i as nat) - borrow * pow256(i as nat)) by (nonlinear_arith);
        }
        out.push(lo);
        borrow = nb;
        i = i + 1;
    }
    proof {
        assert(a@.take(n as int) =~= a@);
        assert(b@.take(n as int) =~= b@);
    }
    (out, borrow == 1)
}

/// `(a + b) % m` on values below `m`, in the width of `m`.
pub fn add_mod_bytes(a: &Vec<u8>, b: &Vec<u8>, m: &Vec<u8>) -> (r: Vec<u8>)
    requires
        a@.len() == m@.len(),
        b@.len() == m@.len(),
        le_nat(a@) < le_nat(m@),
        le_nat(b@) < le_nat(m@),
    ensures
        r@.len() == m@.len(),
        le_nat(r@) == (le_nat(a@) + le_nat(b@)) % le_nat(m@),
{
    let ghost n = m@.len();
    let ghost mv = le_nat(m@);
    let ghost sum = le_nat(a@) + le_nat(b@);
    proof {
        lemma_le_nat_bound(m@);
    }
    let (s, carry) = add_bytes(a, b);
    if carry || !lt_bytes(&s, m) {
        let (d, bor) = sub_bytes(&s, m);
        proof {
            lemma_le_nat_bound(s@);
            lemma_le_nat_bound(d@);
            if carry {
                // the dropped carry stands for pow256(n); the borrow restores it
                assert(le_nat(s@) + pow256(n) == sum);
                assert(le_nat(s@) < mv);
                assert(bor);
            } else {
                assert(le_nat(s@) == sum);
                assert(le_nat(s@) >= mv);
                assert(!bor);
            }
            assert(le_nat(d@) == sum - mv);
            assert(sum - mv < mv);
            lemma_mod_multiples_vanish(1, sum - mv, mv as int);
            lemma_small_mod((sum - mv) as nat, mv);
        }
        d
    } else {
        proof {
            lemma_small_mod(sum as nat, mv);
        }
        s
    }
}

/// `(a - b) % m` on values below `m`, in the width of `m`.
pub fn sub_mod_bytes(a: &Vec<u8>, b: &Vec<u8>, m: &Vec<u8>) -> (r: Vec<u8>)
    requires
        a@.len() == m@.len(),
        b@.len() == m@.len(),
        le_nat(a@) < le_nat(m@),
        le_nat(b@) < le_nat(m@),
    ensures
        r@.len() == m@.len(),
        le_nat(r@) == ((le_nat(a@) + le_nat(m@) - le_nat(b@)) as nat) % le_nat(m@),
{
    let ghost n = m@.len();
    let ghost mv = le_nat(m@);
    proof {
        lemma_le_nat_bound(m@);
    }
    let (d, bor) = sub_bytes(a, b);
    if bor {
        let (e, carry) = add_bytes(&d, m);
        proof {
            lemma_le_nat_bound(d@);
            assert(le_nat(a@) < le_nat(b@));
            assert(le_nat(d@) == le_nat(a@) + pow256(n) - le_nat(b@));
            assert(le_nat(e@) + (if carry {
                pow256(n)
            } else {
                0
            }) == le_nat(a@) + pow256(n) - le_nat(b@) + mv);
            assert(le_nat(e@) < pow256(n)) by {
                lemma_le_nat_bound(e@);
            }
            assert(carry);
            assert(le_nat(e@) == le_nat(a@) + mv - le_nat(b@));
            lemma_small_mod((le_nat(a@) + mv - le_nat(b@)) as nat, mv);
        }
        e
    } else {
        proof {
            assert(le_nat(d@) == le_nat(a@) - le_nat(b@));
            lemma_mod_multiples_vanish(1, le_nat(a@) - le_nat(b@), mv as int);
            lemma_small_mod((le_nat(a@) - le_nat(b@)) as nat, mv);
        }
        d
    }
}

/// Multiplication by a single byte; keeps the string canonical.
pub fn mul_small(v: &Vec<u8>, m: u8) -> (r: Vec<u8>)
    requires
        m > 0,
    ensures
        le_nat(r@) == le_nat(v@) * m,
        canonical(v@) ==> canonical(r@),
        r@.len() <= v@.len() + 1,
{
    let ghost n = v@.len();
    let mut out: Vec<u8> = Vec::new();
    let mut carry: u16 = 0;
    let mut i: usize = 0;
    proof {
        assert(v@.take(0) =~= Seq::<u8>::empty());
        assert(le_nat(Seq::<u8>::empty()) == 0);
        assert(le_nat(out@) == 0);
    }
    while i < v.len()
        invariant
            v@.len() == n,
            m > 0,
            i <= n,
            out@.len() == i,
            carry < 256,
            le_nat(out@) + carry * pow256(i as nat) == le_nat(v@.take(i as int)) * m,
            i == n && n > 0 && carry == 0 && canonical(v@) ==> out@[i - 1] != 0,
        decreases v@.len() - i,
    {
        proof {
            assert((v@[i as int] as int) * (m as int) <= 255 * 255) by (nonlinear_arith)
                requires
                    v@[i as int] <= 255,
                    m <= 255,
            ;
        }
        let t: u16 = (v[i] as u16) * (m as u16) + carry;
        let lo: u8 = (t % 256) as u8;
        let c: u16 = t / 256;
        proof {
            lemma_le_nat_push(out@, lo);
            assert(v@.take(i + 1) =~= v@.take(i as int).push(v@[i as int]));
            lemma_le_nat_push(v@.take(i as int), v@[i as int]);
            assert(t == lo + 256 * c);
            assert((le_nat(v@.take(i as int)) + v@[i as int] * pow256(i as nat)) * m == le_nat(
                v@.take(i as int),
            ) * m + (v@[i as int] * m) * pow256(i as nat)) by (nonlinear_arith);
            assert(le_nat(out@) + lo * pow256(i as nat) + c * (256 * pow256(i as nat)) == le_nat(
                out@,
            ) + (lo + 256 * c) * pow256(i as nat)) by (nonlinear_arith);
            assert((v@[i as int] * m + carry) * pow256(i as nat) == (v@[i as int] * m) * pow256(
                i as nat,
            ) + carry * pow256(i as nat)) by (nonlinear_arith);
            if i + 1 == n && c == 0 && canonical(v@) {
                // no carry out of the top byte: the top product byte is positive
                assert((v@[i as int] as u16) * (m as u16) >= 1) by (nonlinear_arith)
                    requires
                        v@[i as int] >= 1,
                        m >= 1,
                ;
                assert(t >= 1);
                assert(lo >= 1);
            }
        }
        out.push(lo);
        carry = c;
        i = i + 1;
    }
    proof {
        assert(v@.take(n as int) =~= v@);
    }
    if carry > 0 {
        proof {
            lemma_le_nat_push(out@, carry as u8);
        }
        out.push(carry as u8);
    }
    out
}

/// Addition of a single byte; keeps the string canonical.
pub fn add_small(v: &Vec<u8>, m: u8) -> (r: Vec<u8>)
    ensures
        le_nat(r@) == le_nat(v@) + m,
        canonical(v@) && (v@.len() > 0 || m > 0) ==> canonical(r@),
        r@.len() <= v@.len() + 1,
{
    let ghost n = v@.len();
    let mut out: Vec<u8> = Vec::new();
    let mut carry: u16 = m as u16;
    let mut i: usize = 0;
    proof {
        assert(v@.take(0) =~= Seq::<u8>::empty());
        assert(le_nat(Seq::<u8>::empty()) == 0);
        assert(le_nat(out@) == 0);
        assert(pow256(0) == 1);
        assert(carry * pow256(0) == carry) by (nonlinear_arith)
            requires
                pow256(0) == 1,
        ;
    }
    while i < v.len()
        invariant
            v@.len() == n,
            i <= n,
            out@.len() == i,
            carry < 256,
            le_nat(out@) + carry * pow256(i as nat) == le_nat(v@.take(i as int)) + m,
            i == n && n > 0 && carry == 0 && canonical(v@) ==> out@[i - 1] != 0,
        decreases v@.len() - i,
    {
        let t: u16 = (v[i] as u16) + carry;
        let lo: u8 = (t % 256) as u8;
        let c: u16 = t / 256;
        proof {
            lemma_le_nat_push(out@, lo);
            assert(v@.take(i + 1) =~= v@.take(i as int).push(v@[i as int]));
            lemma_le_nat_push(v@.take(i as int), v@[i as int]);
            assert(t == lo + 256 * c);
            assert(le_nat(out@) + lo * pow256(i as nat) + c * (256 * pow256(i as nat)) == le_nat(
                out@,
            ) + (lo + 256 * c) * pow256(i as nat)) by (nonlinear_arith);
            assert((v@[i as int] + carry) * pow256(i as nat) == v@[i as int] * pow256(i as nat)
                + carry * pow256(i as nat)) by (nonlinear_arith);
            if i + 1 == n && c == 0 && canonical(v@) {
                assert(t >= v@[i as int]);
                assert(lo >= 1);
            }
        }
        out.push(lo);
        carry = c;
        i = i + 1;
    }
    proof {
        assert(v@.take(n as int) =~= v@);
    }
    if carry > 0 {
        proof {
            lemma_le_nat_push(out@, carry as u8);
        }
        out.push(carry as u8);
    }
    out
}

} // verus!

//! Big-endian `Fr` scalar helpers. No arithmetic — only the comparisons the
//! verifier needs, each a fixed-size byte compare.
use vstd::prelude::*;

use crate::constants::{FR_MODULUS, FR_SIZE};

verus! {

/// The integer a big-endian byte string encodes.
pub open spec fn be_nat(s: Seq<u8>) -> nat
    decreases s.len(),
{
    if s.len() == 0 {
        0
    } else {
        be_nat(s.drop_last()) * 256 + s.last() as nat
    }
}

/// `a` precedes `b` lexicographically: at the first position where they
/// differ, `a` holds the smaller byte.
pub open spec fn lex_lt(a: Seq<u8>, b: Seq<u8>) -> bool {
    exists|i: int|
        0 <= i < a.len() && i < b.len() && #[trigger] a[i] < b[i] && forall|j: int|
            0 <= j < i ==> a[j] == b[j]
}

/// Every byte is zero.
pub open spec fn all_zero(s: Seq<u8>) -> bool {
    forall|i: int| 0 <= i < s.len() ==> #[trigger] s[i] == 0
}

/// The 32-byte big-endian encoding of the integer one.
pub open spec fn is_be_one(s: Seq<u8>) -> bool {
    &&& s.len() == FR_SIZE
    &&& s[FR_SIZE - 1] == 1
    &&& forall|i: int| 0 <= i < FR_SIZE - 1 ==> #[trigger] s[i] == 0
}

/// The integer value of the scalar-field modulus `r`.
pub open spec fn fr_modulus_value() -> nat {
    be_nat(FR_MODULUS@)
}

/// A scalar is canonical when its value is below `r`.
pub open spec fn spec_is_canonical(s: Seq<u8>) -> bool {
    be_nat(s) < fr_modulus_value()
}

/// If two equal-length strings agree before position `i` and `a` is smaller
/// at `i`, then `a` encodes the smaller integer.
proof fn lemma_first_difference_decides(a: Seq<u8>, b: Seq<u8>, i: int)
    requires
        a.len() == b.len(),
        0 <= i < a.len(),
        forall|j: int| 0 <= j < i ==> a[j] == b[j],
        a[i] < b[i],
    ensures
        be_nat(a) < be_nat(b),
    decreases a.len(),
{
    let pa = a.drop_last();
    let pb = b.drop_last();
    if i == a.len() - 1 {
        assert(pa =~= pb);
    } else {
        lemma_first_difference_decides(pa, pb, i);
        assert(be_nat(a) == be_nat(pa) * 256 + a.last() as nat);
        assert(be_nat(b) == be_nat(pb) * 256 + b.last() as nat);
    }
}

/// Scanning from position `i` with equal prefixes decides the order.
proof fn lemma_scan_from(a: Seq<u8>, b: Seq<u8>, i: int)
    requires
        a.len() == b.len(),
        0 <= i <= a.len(),
        forall|j: int| 0 <= j < i ==> a[j] == b[j],
    ensures
        lex_lt(a, b) <==> be_nat(a) < be_nat(b),
    decreases a.len() - i,
{
    if i == a.len() {
        assert(a =~= b);
        if lex_lt(a, b) {
            let w = choose|w: int|
                0 <= w < a.len() && w < b.len() && #[trigger] a[w] < b[w] && forall|j: int|
                    0 <= j < w ==> a[j] == b[j];
            assert(a[w] == b[w]);
        }
    } else if a[i] < b[i] {
        lemma_first_difference_decides(a, b, i);
    } else if a[i] > b[i] {
        lemma_first_difference_decides(b, a, i);
        if lex_lt(a, b) {
            let w = choose|w: int|
                0 <= w < a.len() && w < b.len() && #[trigger] a[w] < b[w] && forall|j: int|
                    0 <= j < w ==> a[j] == b[j];
            if w < i {
                assert(a[w] == b[w]);
            } else if w > i {
                assert(a[i] == b[i]);
            }
        }
    } else {
        lemma_scan_from(a, b, i + 1);
    }
}

/// Equal-length big-endian byte strings compare lexicographically in the
/// same order as the integers they encode.
pub proof fn lemma_lex_order_is_numeric_order(a: Seq<u8>, b: Seq<u8>)
    requires
        a.len() == b.len(),
    ensures
        lex_lt(a, b) <==> be_nat(a) < be_nat(b),
{
    lemma_scan_from(a, b, 0);
}

/// An all-zero string encodes zero.
pub proof fn lemma_all_zero_is_zero(s: Seq<u8>)
    ensures
        all_zero(s) <==> be_nat(s) == 0,
    decreases s.len(),
{
    if s.len() > 0 {
        lemma_all_zero_is_zero(s.drop_last());
        if all_zero(s) {
            assert(all_zero(s.drop_last()));
            assert(s[s.len() - 1] == 0);
        }
        if be_nat(s) == 0 {
            assert forall|i: int| 0 <= i < s.len() implies #[trigger] s[i] == 0 by {
                if i < s.len() - 1 {
                    assert(s.drop_last()[i] == s[i]);
                }
            }
        }
    }
}

/// The 32-byte encoding of one is the only one whose value is one.
pub proof fn lemma_be_one_is_one(s: Seq<u8>)
    requires
        s.len() == FR_SIZE,
    ensures
        is_be_one(s) <==> be_nat(s) == 1,
{
    let p = s.drop_last();
    lemma_all_zero_is_zero(p);
    assert(be_nat(s) == be_nat(p) * 256 + s.last() as nat);
    if is_be_one(s) {
        assert(all_zero(p));
    }
    if be_nat(s) == 1 {
        assert(be_nat(p) == 0);
        assert forall|i: int| 0 <= i < FR_SIZE - 1 implies #[trigger] s[i] == 0 by {
            assert(p[i] == s[i]);
        }
    }
}

/// `s < r`. Equal-length big-endian byte strings compare lexicographically in
/// the same order as the integers they encode.
pub fn is_canonical(s: &[u8; FR_SIZE]) -> (canonical: bool)
    ensures
        canonical == spec_is_canonical(s@),
        canonical == lex_lt(s@, FR_MODULUS@),
{
    let m = FR_MODULUS;
    let mut i: usize = 0;
    while i < FR_SIZE
        invariant
            0 <= i <= FR_SIZE,
            m@ == FR_MODULUS@,
            forall|j: int| 0 <= j < i ==> s@[j] == m@[j],
        decreases FR_SIZE - i,
    {
        if s[i] < m[i] {
            proof {
                lemma_lex_order_is_numeric_order(s@, m@);
                assert(s@[i as int] < m@[i as int]);
            }
            return true;
        }
        if s[i] > m[i] {
            proof {
                lemma_scan_from(s@, m@, i as int);
            }
            return false;
        }
        i = i + 1;
    }
    proof {
        lemma_scan_from(s@, m@, FR_SIZE as int);
    }
    false
}

/// All-zero bytes: the zero scalar, and also the syscall encoding of the
/// identity in G1 and G2, which is why the length is generic. Works on whole
/// eight-byte words.
pub fn is_zero<const N: usize>(bytes: &[u8; N]) -> (zero: bool)
    requires
        N % 8 == 0,
    ensures
        zero == all_zero(bytes@),
{
    let mut acc: u8 = 0;
    let mut i: usize = 0;
    while i < N
        invariant
            0 <= i <= N,
            bytes@.len() == N,
            (acc == 0) <==> (forall|j: int| 0 <= j < i ==> bytes@[j] == 0),
        decreases N - i,
    {
        let b = bytes[i];
        let old_acc = acc;
        acc = acc | b;
        assert((old_acc | b) == 0 <==> (old_acc == 0 && b == 0)) by (bit_vector);
        i = i + 1;
    }
    acc == 0
}

/// The scalar one: last byte `1`, every other byte zero.
pub fn is_one(s: &[u8; FR_SIZE]) -> (one: bool)
    ensures
        one == is_be_one(s@),
        one == (be_nat(s@) == 1),
{
    proof {
        lemma_be_one_is_one(s@);
    }
    if s[FR_SIZE - 1] != 1 {
        return false;
    }
    let mut i: usize = 0;
    while i < FR_SIZE - 1
        invariant
            0 <= i <= FR_SIZE - 1,
            forall|j: int| 0 <= j < i ==> s@[j] == 0,
            is_be_one(s@) <==> be_nat(s@) == 1,
        decreases FR_SIZE - 1 - i,
    {
        if s[i] != 0 {
            assert(!is_be_one(s@)) by {
                assert(s@[i as int] != 0);
            }
            return false;
        }
        i = i + 1;
    }
    true
}

} // verus!

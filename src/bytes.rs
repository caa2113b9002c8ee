//! Mathematical model of fixed-width byte encodings: the bytes of a number in
//! big- and little-endian order, the number that a byte sequence spells, and
//! the unsigned lexicographic order of byte sequences.
use vstd::prelude::*;

verus! {

/// `256` raised to the power `n`.
pub open spec fn pow256(n: nat) -> nat
    decreases n,
{
    if n == 0 {
        1
    } else {
        256 * pow256((n - 1) as nat)
    }
}

/// The `n` low-order bytes of `v`, most significant first.
pub open spec fn be_bytes(v: nat, n: nat) -> Seq<u8>
    decreases n,
{
    if n == 0 {
        seq![]
    } else {
        be_bytes(v / 256, (n - 1) as nat).push((v % 256) as u8)
    }
}

/// The `n` low-order bytes of `v`, least significant first.
pub open spec fn le_bytes(v: nat, n: nat) -> Seq<u8>
    decreases n,
{
    if n == 0 {
        seq![]
    } else {
        seq![(v % 256) as u8] + le_bytes(v / 256, (n - 1) as nat)
    }
}

/// The number that `s` spells when read most significant byte first.
pub open spec fn be_value(s: Seq<u8>) -> nat
    decreases s.len(),
{
    if s.len() == 0 {
        0
    } else {
        be_value(s.drop_last()) * 256 + s.last() as nat
    }
}

/// The number that `s` spells when read least significant byte first.
pub open spec fn le_value(s: Seq<u8>) -> nat
    decreases s.len(),
{
    if s.len() == 0 {
        0
    } else {
        s[0] as nat + 256 * le_value(s.drop_first())
    }
}

/// `a` sorts strictly before `b` under unsigned byte-wise comparison, the two
/// having the same length.
pub open spec fn lex_lt(a: Seq<u8>, b: Seq<u8>) -> bool {
    a.len() == b.len() && exists|i: int|
        0 <= i < a.len() && #[trigger] a.subrange(0, i) == b.subrange(0, i) && a[i] < b[i]
}

pub proof fn lemma_pow256_widths()
    ensures
        pow256(2) == 0x1_0000,
        pow256(4) == 0x1_0000_0000,
        pow256(8) == 0x1_0000_0000_0000_0000,
{
    reveal_with_fuel(pow256, 9);
}

/// Reading back the big-endian bytes of a number that fits gives the number.
pub proof fn lemma_be_round_trip(v: nat, n: nat)
    requires
        v < pow256(n),
    ensures
        be_bytes(v, n).len() == n,
        be_value(be_bytes(v, n)) == v,
    decreases n,
{
    if n > 0 {
        let q = v / 256;
        assert(q < pow256((n - 1) as nat)) by (nonlinear_arith)
            requires
                v < pow256(n),
                pow256(n) == 256 * pow256((n - 1) as nat),
                q == v / 256,
        ;
        lemma_be_round_trip(q, (n - 1) as nat);
        let s = be_bytes(v, n);
        assert(s.drop_last() =~= be_bytes(q, (n - 1) as nat));
        assert(q * 256 + v % 256 == v) by (nonlinear_arith)
            requires
                q == v / 256,
        ;
    }
}

/// Reading back the little-endian bytes of a number that fits gives the number.
pub proof fn lemma_le_round_trip(v: nat, n: nat)
    requires
        v < pow256(n),
    ensures
        le_bytes(v, n).len() == n,
        le_value(le_bytes(v, n)) == v,
    decreases n,
{
    if n > 0 {
        let q = v / 256;
        assert(q < pow256((n - 1) as nat)) by (nonlinear_arith)
            requires
                v < pow256(n),
                pow256(n) == 256 * pow256((n - 1) as nat),
                q == v / 256,
        ;
        lemma_le_round_trip(q, (n - 1) as nat);
        let s = le_bytes(v, n);
        assert(s.drop_first() =~= le_bytes(q, (n - 1) as nat));
        assert(v % 256 + 256 * q == v) by (nonlinear_arith)
            requires
                q == v / 256,
        ;
    }
}

/// Big-endian bytes of equal width sort as the numbers they encode.
pub proof fn lemma_be_bytes_order(u: nat, w: nat, n: nat)
    requires
        u < w,
        w < pow256(n),
    ensures
        lex_lt(be_bytes(u, n), be_bytes(w, n)),
    decreases n,
{
    if n == 0 {
        assert(false);
    } else {
        let m = (n - 1) as nat;
        let (qu, qw) = (u / 256, w / 256);
        assert(qu <= qw && qw < pow256(m)) by (nonlinear_arith)
            requires
                u < w,
                w < pow256(n),
                pow256(n) == 256 * pow256(m),
                qu == u / 256,
                qw == w / 256,
        ;
        lemma_be_round_trip(u / 256, m);
        lemma_be_round_trip(w / 256, m);
        let (a, b) = (be_bytes(u, n), be_bytes(w, n));
        let (pa, pb) = (be_bytes(qu, m), be_bytes(qw, m));
        if qu < qw {
            lemma_be_bytes_order(qu, qw, m);
            let i = choose|i: int|
                0 <= i < pa.len() && #[trigger] pa.subrange(0, i) == pb.subrange(0, i) && pa[i]
                    < pb[i];
            assert(a.subrange(0, i) =~= pa.subrange(0, i));
            assert(b.subrange(0, i) =~= pb.subrange(0, i));
            assert(a[i] == pa[i] && b[i] == pb[i]);
        } else {
            assert(u % 256 < w % 256) by (nonlinear_arith)
                requires
                    u < w,
                    qu == qw,
                    qu == u / 256,
                    qw == w / 256,
            ;
            assert(a.subrange(0, m as int) =~= pa);
            assert(b.subrange(0, m as int) =~= pb);
        }
    }
}

} // verus!

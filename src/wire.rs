//! Big-endian integer layouts used by every fixed-width field of the stream.

use vstd::prelude::*;

verus! {

/// 256 raised to the power `n`.
pub open spec fn pow256(n: nat) -> nat
    decreases n,
{
    if n == 0 {
        1
    } else {
        256 * pow256((n - 1) as nat)
    }
}

/// The `n` low-order bytes of `x`, most significant first.
pub open spec fn be_bytes(x: nat, n: nat) -> Seq<u8>
    decreases n,
{
    if n == 0 {
        Seq::empty()
    } else {
        be_bytes(x / 256, (n - 1) as nat).push((x % 256) as u8)
    }
}

/// The unsigned number that a big-endian byte string denotes.
pub open spec fn be_value(s: Seq<u8>) -> nat
    decreases s.len(),
{
    if s.len() == 0 {
        0
    } else {
        be_value(s.drop_last()) * 256 + s.last() as nat
    }
}

/// The `n`-byte two's-complement code of `v`.
pub open spec fn twos(v: int, n: nat) -> nat {
    if v < 0 {
        (v + pow256(n)) as nat
    } else {
        v as nat
    }
}

/// `v` as an `n`-byte big-endian two's-complement integer.
pub open spec fn be_signed(v: int, n: nat) -> Seq<u8> {
    be_bytes(twos(v, n), n)
}

/// The signed number that a big-endian two's-complement byte string denotes.
pub open spec fn be_signed_value(s: Seq<u8>) -> int {
    let u = be_value(s);
    if s.len() > 0 && u >= pow256(s.len()) / 2 {
        u - pow256(s.len())
    } else {
        u as int
    }
}

/// Whether `v` fits an `n`-byte two's-complement integer.
pub open spec fn fits_signed(v: int, n: nat) -> bool {
    -(pow256(n) as int / 2) <= v < pow256(n) as int / 2
}

pub proof fn lemma_pow256_positive(n: nat)
    ensures
        pow256(n) > 0,
    decreases n,
{
    if n > 0 {
        lemma_pow256_positive((n - 1) as nat);
    }
}

/// The moduli of the widths that the stream uses.
pub proof fn lemma_pow256_widths()
    ensures
        pow256(1) == 256,
        pow256(2) == 65536,
        pow256(4) == 4294967296,
        pow256(8) == 18446744073709551616,
{
    assert(pow256(0) == 1);
    assert(pow256(1) == 256);
    assert(pow256(2) == 65536);
    assert(pow256(3) == 16777216);
    assert(pow256(4) == 4294967296);
    assert(pow256(5) == 1099511627776);
    assert(pow256(6) == 281474976710656);
    assert(pow256(7) == 72057594037927936);
    assert(pow256(8) == 18446744073709551616);
}

pub proof fn lemma_be_bytes_len(x: nat, n: nat)
    ensures
        be_bytes(x, n).len() == n,
    decreases n,
{
    if n > 0 {
        lemma_be_bytes_len(x / 256, (n - 1) as nat);
    }
}

/// Reading back the `n` bytes written for a number below `256^n` gives that number.
pub proof fn lemma_be_round_trip(x: nat, n: nat)
    requires
        x < pow256(n),
    ensures
        be_value(be_bytes(x, n)) == x,
    decreases n,
{
    if n > 0 {
        let p = pow256((n - 1) as nat);
        let q = x / 256;
        assert(q < p) by (nonlinear_arith)
            requires
                x < 256 * p,
                q == x / 256,
        ;
        lemma_be_round_trip(q, (n - 1) as nat);
        let s = be_bytes(x, n);
        assert(s.drop_last() =~= be_bytes(q, (n - 1) as nat));
        assert(q * 256 + x % 256 == x) by (nonlinear_arith)
            requires
                q == x / 256,
        ;
    }
}

/// Reading back a signed number written in `n` bytes gives that number.
pub proof fn lemma_be_signed_round_trip(v: int, n: nat)
    requires
        n > 0,
        fits_signed(v, n),
    ensures
        be_signed_value(be_signed(v, n)) == v,
        be_signed(v, n).len() == n,
{
    let m = pow256(n);
    lemma_pow256_positive(n);
    lemma_pow256_positive((n - 1) as nat);
    assert(m == 256 * pow256((n - 1) as nat));
    assert(twos(v, n) < m);
    lemma_be_round_trip(twos(v, n), n);
    lemma_be_bytes_len(twos(v, n), n);
}

/// The `n` low-order bytes of `x`, most significant first.
pub fn encode_be(x: u64, n: usize) -> (r: Vec<u8>)
    requires
        n <= 8,
    ensures
        r@ == be_bytes(x as nat, n as nat),
{
    let mut out: Vec<u8> = vec![0u8; n];
    let mut rest: u64 = x;
    let mut i: usize = n;
    while i > 0
        invariant
            i <= n,
            out@.len() == n,
            be_bytes(x as nat, n as nat) == be_bytes(rest as nat, i as nat) + out@.subrange(
                i as int,
                n as int,
            ),
        decreases i,
    {
        let b: u8 = (rest % 256) as u8;
        let ghost before = out@;
        let ghost r = rest as nat;
        assert(be_bytes(r, i as nat) == be_bytes(r / 256, (i - 1) as nat).push(b));
        i = i - 1;
        out.set(i, b);
        rest = rest / 256;
        assert(out@.subrange(i as int, n as int) =~= seq![b] + before.subrange(
            i + 1,
            n as int,
        ));
        assert(be_bytes(r / 256, i as nat).push(b) + before.subrange(i + 1, n as int)
            =~= be_bytes(r / 256, i as nat) + (seq![b] + before.subrange(i + 1, n as int)));
    }
    assert(out@.subrange(0, n as int) =~= out@);
    out
}

/// `v` as an `n`-byte big-endian two's-complement integer.
pub fn encode_signed(v: i64, n: usize) -> (r: Vec<u8>)
    requires
        n == 2 || n == 4 || n == 8,
        fits_signed(v as int, n as nat),
    ensures
        r@ == be_signed(v as int, n as nat),
{
    proof {
        lemma_pow256_widths();
    }
    let x: u64 = if v >= 0 {
        v as u64
    } else if n == 8 {
        ((v + i64::MAX) + 1) as u64 + 0x8000_0000_0000_0000u64
    } else if n == 4 {
        (v + 0x1_0000_0000i64) as u64
    } else {
        (v + 0x1_0000i64) as u64
    };
    encode_be(x, n)
}

} // verus!

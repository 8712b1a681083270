//! Little-endian byte strings and the numbers they stand for.

use vstd::prelude::*;

verus! {

/// The `n` low bytes of `v`, least significant first.
pub open spec fn le_bytes(v: nat, n: nat) -> Seq<u8>
    decreases n,
{
    if n == 0 {
        Seq::empty()
    } else {
        seq![(v % 256) as u8] + le_bytes(v / 256, (n - 1) as nat)
    }
}

/// The number that a little-endian byte string stands for.
pub open spec fn le_value(s: Seq<u8>) -> nat
    decreases s.len(),
{
    if s.len() == 0 {
        0
    } else {
        (s[0] as nat) + 256 * le_value(s.drop_first())
    }
}

/// 256 to the power `n`: the number of byte strings of length `n`.
pub open spec fn pow256(n: nat) -> nat
    decreases n,
{
    if n == 0 {
        1
    } else {
        256 * pow256((n - 1) as nat)
    }
}

/// `le_bytes(v, n)` has `n` bytes.
pub proof fn lemma_le_bytes_len(v: nat, n: nat)
    ensures
        le_bytes(v, n).len() == n,
    decreases n,
{
    if n > 0 {
        lemma_le_bytes_len(v / 256, (n - 1) as nat);
    }
}

/// Decoding what was encoded gives the number back, if it fits.
pub proof fn lemma_le_value_of_bytes(v: nat, n: nat)
    requires
        v < pow256(n),
    ensures
        le_value(le_bytes(v, n)) == v,
    decreases n,
{
    if n > 0 {
        let rest = le_bytes(v / 256, (n - 1) as nat);
        let s = le_bytes(v, n);
        lemma_le_bytes_len(v / 256, (n - 1) as nat);
        assert(s.drop_first() =~= rest);
        lemma_le_value_of_bytes(v / 256, (n - 1) as nat);
    }
}

/// The numbers of byte strings of the lengths this crate uses.
pub proof fn lemma_pow256_values()
    ensures
        pow256(8) == 0x1_0000_0000_0000_0000nat,
        pow256(16) == 0x1_0000_0000_0000_0000_0000_0000_0000_0000nat,
        pow256(24) == 0x1_0000_0000_0000_0000_0000_0000_0000_0000_0000_0000_0000_0000nat,
        pow256(32)
            == 0x1_0000_0000_0000_0000_0000_0000_0000_0000_0000_0000_0000_0000_0000_0000_0000_0000nat,
{
    reveal_with_fuel(pow256, 9);
    assert(pow256(8) == 0x1_0000_0000_0000_0000nat);
    assert(pow256(16) == 0x1_0000_0000_0000_0000_0000_0000_0000_0000nat);
    assert(pow256(24) == 0x1_0000_0000_0000_0000_0000_0000_0000_0000_0000_0000_0000_0000nat);
}

/// The value of a byte string from its last byte down: what the bytes from
/// `i` on stand for.
proof fn lemma_le_value_step(s: Seq<u8>, i: int)
    requires
        0 <= i < s.len(),
    ensures
        le_value(s.subrange(i, s.len() as int)) == (s[i] as nat) + 256 * le_value(
            s.subrange(i + 1, s.len() as int),
        ),
{
    let t = s.subrange(i, s.len() as int);
    assert(t.drop_first() =~= s.subrange(i + 1, s.len() as int));
}

/// The eight bytes of a 64-bit number, least significant first.
pub fn u64_to_le(x: u64) -> (out: Vec<u8>)
    ensures
        out@ == le_bytes(x as nat, 8),
{
    let mut out: Vec<u8> = Vec::new();
    let mut rest: u64 = x;
    let mut i: usize = 0;
    while i < 8
        invariant
            i <= 8,
            out@.len() == i,
            out@ + le_bytes(rest as nat, (8 - i) as nat) == le_bytes(x as nat, 8),
        decreases 8 - i,
    {
        let low: u8 = (rest % 256) as u8;
        proof {
            let tail = le_bytes(rest as nat / 256, (8 - i - 1) as nat);
            assert(le_bytes(rest as nat, (8 - i) as nat) == seq![low] + tail);
            assert((out@.push(low)) + tail =~= out@ + (seq![low] + tail));
        }
        out.push(low);
        rest = rest / 256;
        i = i + 1;
    }
    proof {
        assert(le_bytes(rest as nat, 0) =~= Seq::<u8>::empty());
        assert(out@ + Seq::<u8>::empty() =~= out@);
    }
    out
}

/// The 64-bit number that eight bytes stand for, least significant first.
pub fn u64_from_le(bytes: &[u8]) -> (x: u64)
    requires
        bytes@.len() == 8,
    ensures
        x as nat == le_value(bytes@),
{
    let mut acc: u64 = 0;
    let mut i: usize = 8;
    proof {
        lemma_pow256_values();
        reveal_with_fuel(pow256, 9);
        assert(bytes@.subrange(8, 8) =~= Seq::<u8>::empty());
    }
    while i > 0
        invariant
            i <= 8,
            bytes@.len() == 8,
            acc as nat == le_value(bytes@.subrange(i as int, 8)),
            (acc as nat) < pow256((8 - i) as nat),
            pow256(8) == 0x1_0000_0000_0000_0000nat,
        decreases i,
    {
        i = i - 1;
        proof {
            lemma_le_value_step(bytes@, i as int);
            let k = (8 - i - 1) as nat;
            assert(pow256(k + 1) == 256 * pow256(k));
            lemma_pow256_monotone(k + 1, 8);
        }
        acc = acc * 256 + (bytes[i] as u64);
    }
    proof {
        assert(bytes@.subrange(0, 8) =~= bytes@);
    }
    acc
}

/// `pow256` grows with its argument.
pub proof fn lemma_pow256_monotone(a: nat, b: nat)
    requires
        a <= b,
    ensures
        0 < pow256(a) <= pow256(b),
    decreases b,
{
    if a < b {
        lemma_pow256_monotone(a, (b - 1) as nat);
    } else if a > 0 {
        lemma_pow256_monotone((a - 1) as nat, (b - 1) as nat);
    }
}

} // verus!

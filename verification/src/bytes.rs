//! Unsigned integers as runs of bytes, least significant byte first.
use vstd::prelude::*;

verus! {

/// 256 to the power `n`: the number of integers that `n` bytes can hold.
pub open spec fn pow256(n: nat) -> nat
    decreases n,
{
    if n == 0 {
        1
    } else {
        256 * pow256((n - 1) as nat)
    }
}

/// The `width` low bytes of `x`, least significant first.
pub open spec fn le_bytes(x: nat, width: nat) -> Seq<u8>
    decreases width,
{
    if width == 0 {
        Seq::empty()
    } else {
        seq![(x % 256) as u8] + le_bytes(x / 256, (width - 1) as nat)
    }
}

/// The integer whose bytes, least significant first, are `bytes`.
pub open spec fn le_value(bytes: Seq<u8>) -> nat
    decreases bytes.len(),
{
    if bytes.len() == 0 {
        0
    } else {
        bytes[0] as nat + 256 * le_value(bytes.drop_first())
    }
}

/// Eight bytes hold exactly the integers of 64 bits, and fewer bytes hold
/// fewer.
pub proof fn lemma_pow256_values()
    ensures
        pow256(0) == 1,
        pow256(1) == 0x100,
        pow256(2) == 0x1_0000,
        pow256(4) == 0x1_0000_0000,
        pow256(7) == 0x100_0000_0000_0000,
        pow256(8) == 0x1_0000_0000_0000_0000,
        forall|n: nat, m: nat| n <= m ==> #[trigger] pow256(n) <= #[trigger] pow256(m),
{
    reveal_with_fuel(pow256, 9);
    assert forall|n: nat, m: nat| n <= m implies #[trigger] pow256(n) <= #[trigger] pow256(m) by {
        lemma_pow256_monotonic(n, m);
    }
}

/// More bytes hold at least as many integers.
pub proof fn lemma_pow256_monotonic(n: nat, m: nat)
    requires
        n <= m,
    ensures
        1 <= pow256(n) <= pow256(m),
    decreases m,
{
    if n < m {
        lemma_pow256_monotonic(n, (m - 1) as nat);
    } else if n > 0 {
        lemma_pow256_monotonic((n - 1) as nat, (n - 1) as nat);
    }
}

/// `width` bytes make a run of `width` bytes.
pub proof fn lemma_le_bytes_len(x: nat, width: nat)
    ensures
        le_bytes(x, width).len() == width,
    decreases width,
{
    if width > 0 {
        lemma_le_bytes_len(x / 256, (width - 1) as nat);
    }
}

/// A run of bytes holds an integer below 256 to the power of its length.
pub proof fn lemma_le_value_bound(bytes: Seq<u8>)
    ensures
        le_value(bytes) < pow256(bytes.len()),
    decreases bytes.len(),
{
    if bytes.len() > 0 {
        lemma_le_value_bound(bytes.drop_first());
    }
}

/// An integer that fits in `width` bytes is what its `width` bytes hold.
pub proof fn lemma_le_value_of_bytes(x: nat, width: nat)
    requires
        x < pow256(width),
    ensures
        le_value(le_bytes(x, width)) == x,
    decreases width,
{
    if width > 0 {
        let rest = le_bytes(x / 256, (width - 1) as nat);
        lemma_le_value_of_bytes(x / 256, (width - 1) as nat);
        assert(le_bytes(x, width).drop_first() =~= rest);
    }
}

/// Appends the `width` low bytes of `x` to `out`, least significant first.
pub fn put_le(out: &mut Vec<u8>, x: u64, width: usize)
    ensures
        final(out)@ == old(out)@ + le_bytes(x as nat, width as nat),
{
    let mut rest: u64 = x;
    let mut i: usize = 0;
    while i < width
        invariant
            i <= width,
            out@ + le_bytes(rest as nat, (width - i) as nat) == old(out)@ + le_bytes(
                x as nat,
                width as nat,
            ),
        decreases width - i,
    {
        let low: u8 = (rest % 256) as u8;
        out.push(low);
        rest = rest / 256;
        i += 1;
    }
}

/// Reads the integer held by the `width` bytes of `input` that begin at `at`,
/// least significant first.
pub fn get_le(input: &[u8], at: usize, width: usize) -> (x: u64)
    requires
        width <= 8,
        at + width <= input.len(),
    ensures
        x == le_value(input@.subrange(at as int, at + width)),
{
    let mut acc: u64 = 0;
    let mut i: usize = width;
    while i > 0
        invariant
            i <= width <= 8,
            at + width <= input.len(),
            acc == le_value(input@.subrange(at + i, at + width)),
        decreases i,
    {
        proof {
            lemma_le_value_bound(input@.subrange(at + i, at + width));
            lemma_pow256_values();
            let longer = input@.subrange(at + i - 1, at + width);
            assert(longer.drop_first() =~= input@.subrange(at + i, at + width));
        }
        i -= 1;
        acc = acc * 256 + input[at + i] as u64;
    }
    acc
}

} // verus!

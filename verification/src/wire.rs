//! Little-endian byte strings for unsigned values: the shared machinery of
//! the bytecode payload encodings.

use vstd::prelude::*;

verus! {

/// `256^n`.
pub open spec fn pow256(n: nat) -> int
    decreases n,
{
    if n == 0 {
        1
    } else {
        256 * pow256((n - 1) as nat)
    }
}

/// The `n` little-endian bytes of `v` (of `v mod 256^n`, if `v` is larger).
pub open spec fn le_bytes(v: nat, n: nat) -> Seq<u8>
    decreases n,
{
    if n == 0 {
        Seq::empty()
    } else {
        seq![(v % 256) as u8] + le_bytes(v / 256, (n - 1) as nat)
    }
}

/// The value of a little-endian byte string.
pub open spec fn le_val(s: Seq<u8>) -> nat
    decreases s.len(),
{
    if s.len() == 0 {
        0
    } else {
        (s[0] + 256 * le_val(s.drop_first())) as nat
    }
}

/// `256^n >= 1`.
pub proof fn lemma_pow256_pos(n: nat)
    ensures
        pow256(n) >= 1,
    decreases n,
{
    if n > 0 {
        lemma_pow256_pos((n - 1) as nat);
    }
}

/// A little-endian encoding decodes back to the encoded value.
pub proof fn lemma_le_round_trip(v: nat, n: nat)
    requires
        v < pow256(n),
    ensures
        le_bytes(v, n).len() == n,
        le_val(le_bytes(v, n)) == v,
    decreases n,
{
    if n > 0 {
        assert(v / 256 < pow256((n - 1) as nat) && v % 256 + 256 * (v / 256) == v)
            by (nonlinear_arith)
            requires
                v < pow256(n),
                pow256(n) == 256 * pow256((n - 1) as nat),
        ;
        lemma_le_round_trip(v / 256, (n - 1) as nat);
        assert(le_bytes(v, n).drop_first() =~= le_bytes(v / 256, (n - 1) as nat));
    }
}

/// Any little-endian byte string decodes to a value below `256^len`.
pub proof fn lemma_le_val_bound(s: Seq<u8>)
    ensures
        le_val(s) < pow256(s.len()),
    decreases s.len(),
{
    if s.len() > 0 {
        lemma_le_val_bound(s.drop_first());
        assert(s[0] + 256 * le_val(s.drop_first()) < 256 * pow256((s.len() - 1) as nat))
            by (nonlinear_arith)
            requires
                s[0] < 256,
                le_val(s.drop_first()) < pow256((s.len() - 1) as nat),
        ;
    }
}

/// Append the `n` little-endian bytes of `v` to `out`.
pub fn push_le_bytes(out: &mut Vec<u8>, v: u128, n: usize)
    ensures
        final(out)@ == old(out)@ + le_bytes(v as nat, n as nat),
{
    let mut cur: u128 = v;
    let mut i: usize = 0;
    let ghost base = out@;
    while i < n
        invariant
            i <= n,
            out@ + le_bytes(cur as nat, (n - i) as nat) == base + le_bytes(v as nat, n as nat),
        decreases n - i,
    {
        let ghost pre = out@;
        out.push((cur % 256) as u8);
        assert(out@ + le_bytes((cur / 256) as nat, (n - i - 1) as nat) == pre + le_bytes(
            cur as nat,
            (n - i) as nat,
        )) by {
            assert(le_bytes(cur as nat, (n - i) as nat) == seq![(cur % 256) as u8] + le_bytes(
                (cur / 256) as nat,
                (n - i - 1) as nat,
            ));
            assert(out@ + le_bytes((cur / 256) as nat, (n - i - 1) as nat) =~= pre + le_bytes(
                cur as nat,
                (n - i) as nat,
            ));
        }
        cur = cur / 256;
        i = i + 1;
    }
    assert(out@ =~= base + le_bytes(v as nat, n as nat));
}

/// Read the value of `n` little-endian bytes of `s` starting at `from`.
pub fn read_le_bytes(s: &Vec<u8>, from: usize, n: usize) -> (r: u128)
    requires
        from + n <= s@.len(),
        n <= 16,
    ensures
        r == le_val(s@.subrange(from as int, from + n)),
{
    let mut acc: u128 = 0;
    let mut i: usize = n;
    let slen: usize = s.len();
    proof {
        lemma_pow256_pos(0);
    }
    while i > 0
        invariant
            i <= n,
            from + n <= slen,
            slen == s@.len(),
            n <= 16,
            acc == le_val(s@.subrange(from + i, from + n)),
            acc < pow256((n - i) as nat),
        decreases i,
    {
        i = i - 1;
        let ghost tail = s@.subrange(from + i, from + n);
        assert(tail.drop_first() =~= s@.subrange(from + i + 1, from + n));
        assert(s@[from + i] + 256 * acc < pow256((n - i) as nat) && pow256((n - i) as nat)
            <= pow256(16)) by {
            lemma_pow256_mono((n - i) as nat, 16);
            assert(s@[from + i] + 256 * acc < 256 * pow256((n - i - 1) as nat))
                by (nonlinear_arith)
                requires
                    s@[from + i] < 256,
                    acc < pow256((n - i - 1) as nat),
            ;
        }
        assert(pow256(16) == 0x1_0000_0000_0000_0000_0000_0000_0000_0000) by {
            reveal_with_fuel(pow256, 17);
        }
        acc = (s[from + i] as u128) + 256 * acc;
    }
    assert(s@.subrange(from as int, from + n) =~= s@.subrange(from + 0, from + n));
    acc
}

/// `256^a <= 256^b` when `a <= b`.
pub proof fn lemma_pow256_mono(a: nat, b: nat)
    requires
        a <= b,
    ensures
        pow256(a) <= pow256(b),
    decreases b,
{
    if a < b {
        lemma_pow256_mono(a, (b - 1) as nat);
        lemma_pow256_pos((b - 1) as nat);
    }
}

} // verus!

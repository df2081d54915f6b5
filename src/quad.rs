use vstd::prelude::*;

verus! {

/// Bytes in one quadword.
pub const QW_BYTES: usize = 16;

/// `256` raised to the `n`-th power.
pub open spec fn pow256(n: nat) -> nat
    decreases n,
{
    if n == 0 {
        1
    } else {
        256 * pow256((n - 1) as nat)
    }
}

/// The unsigned number whose little-endian byte sequence is `s`.
pub open spec fn le_value(s: Seq<u8>) -> nat
    decreases s.len(),
{
    if s.len() == 0 {
        0
    } else {
        s[0] as nat + 256 * le_value(s.subrange(1, s.len() as int))
    }
}

/// The quadword stored at byte offset `off` of `mem`, read little-endian.
pub open spec fn qw_at(mem: Seq<u8>, off: int) -> u128 {
    le_value(mem.subrange(off, off + QW_BYTES as int)) as u128
}

pub proof fn lemma_pow256_monotone(a: nat, b: nat)
    requires
        a <= b,
    ensures
        pow256(a) <= pow256(b),
    decreases b,
{
    if a < b {
        lemma_pow256_monotone(a, (b - 1) as nat);
    }
}

/// Reads the sixteen bytes at `off` as a little-endian 128-bit integer.
pub fn read_qw_le(mem: &[u8], off: usize) -> (r: u128)
    requires
        off + QW_BYTES <= mem@.len(),
    ensures
        r as nat == le_value(mem@.subrange(off as int, off + QW_BYTES)),
        r == qw_at(mem@, off as int),
{
    let n = mem.len();
    let mut acc: u128 = 0;
    let mut i: usize = QW_BYTES;
    proof {
        reveal_with_fuel(pow256, 17);
    }
    while i > 0
        invariant
            i <= QW_BYTES,
            off + QW_BYTES <= n,
            n == mem@.len(),
            acc as nat == le_value(mem@.subrange(off + i, off + QW_BYTES)),
            acc < pow256((QW_BYTES - i) as nat),
            pow256(16) == 0x1_0000_0000_0000_0000_0000_0000_0000_0000,
        decreases i,
    {
        let ghost tail = mem@.subrange(off + i, off + QW_BYTES);
        i = i - 1;
        let ghost s = mem@.subrange(off + i, off + QW_BYTES);
        assert(s.subrange(1, s.len() as int) =~= tail);
        proof {
            lemma_pow256_monotone((QW_BYTES - i - 1) as nat, 15);
            assert(pow256(16) == 256 * pow256(15));
        }
        let b = mem[off + i];
        let ghost k = (QW_BYTES - i - 1) as nat;
        assert(acc * 256 + b < 256 * pow256(k)) by (nonlinear_arith)
            requires
                acc < pow256(k),
                b < 256,
        ;
        assert(256 * pow256(k) <= 256 * pow256(15)) by (nonlinear_arith)
            requires
                pow256(k) <= pow256(15),
        ;
        acc = acc * 256 + b as u128;
    }
    acc
}

} // verus!

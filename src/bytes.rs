use vstd::prelude::*;

verus! {

/// `256` raised to the power `n`.
pub open spec fn pow256(n: nat) -> nat
    decreases n,
{
    if n == 0 {
        1
    } else {
        256 * pow256((n - 1) as nat)
    }
}

/// The value of `b` read as an unsigned little-endian integer.
pub open spec fn le_value(b: Seq<u8>) -> nat
    decreases b.len(),
{
    if b.len() == 0 {
        0
    } else {
        b[0] as nat + 256 * le_value(b.drop_first())
    }
}

/// The `n` low-order base-256 digits of `v`, least significant first.
pub open spec fn le_bytes(v: nat, n: nat) -> Seq<u8>
    decreases n,
{
    if n == 0 {
        Seq::empty()
    } else {
        seq![(v % 256) as u8] + le_bytes(v / 256, (n - 1) as nat)
    }
}

pub proof fn lemma_pow256_values()
    ensures
        pow256(1) == 0x100,
        pow256(2) == 0x1_0000,
        pow256(4) == 0x1_0000_0000,
        pow256(7) == 0x100_0000_0000_0000,
        pow256(8) == 0x1_0000_0000_0000_0000,
{
    reveal_with_fuel(pow256, 9);
}

pub proof fn lemma_le_bytes_len(v: nat, n: nat)
    ensures
        le_bytes(v, n).len() == n,
    decreases n,
{
    if n > 0 {
        lemma_le_bytes_len(v / 256, (n - 1) as nat);
    }
}

pub proof fn lemma_le_value_bound(b: Seq<u8>)
    ensures
        le_value(b) < pow256(b.len()),
    decreases b.len(),
{
    if b.len() > 0 {
        lemma_le_value_bound(b.drop_first());
        let r = le_value(b.drop_first());
        let p = pow256((b.len() - 1) as nat);
        assert(r + 1 <= p);
        assert(b[0] as nat + 256 * r < 256 * p) by (nonlinear_arith)
            requires
                r + 1 <= p,
                b[0] < 256,
        ;
    }
}

/// Reading back the digits of a value that fits gives the value.
pub proof fn lemma_le_value_of_bytes(v: nat, n: nat)
    requires
        v < pow256(n),
    ensures
        le_value(le_bytes(v, n)) == v,
    decreases n,
{
    lemma_le_bytes_len(v, n);
    if n > 0 {
        let rest = le_bytes(v / 256, (n - 1) as nat);
        assert(v / 256 < pow256((n - 1) as nat)) by (nonlinear_arith)
            requires
                v < 256 * pow256((n - 1) as nat),
        ;
        lemma_le_value_of_bytes(v / 256, (n - 1) as nat);
        assert(le_bytes(v, n).drop_first() =~= rest);
        assert(v == v % 256 + 256 * (v / 256)) by (nonlinear_arith);
    } else {
        assert(v < 1);
    }
}

/// Writing the value of a byte string with as many digits gives the string back.
pub proof fn lemma_le_bytes_of_value(b: Seq<u8>)
    ensures
        le_bytes(le_value(b), b.len()) == b,
    decreases b.len(),
{
    if b.len() > 0 {
        let r = le_value(b.drop_first());
        let v = le_value(b);
        lemma_le_bytes_of_value(b.drop_first());
        assert((b[0] as nat + 256 * r) % 256 == b[0] as nat) by (nonlinear_arith)
            requires
                b[0] < 256,
        ;
        assert((b[0] as nat + 256 * r) / 256 == r) by (nonlinear_arith)
            requires
                b[0] < 256,
        ;
        assert(le_bytes(v, b.len()) =~= b);
    }
}

/// The little-endian value of `width` bytes of `buf` starting at `pos`.
pub fn read_le(buf: &[u8], pos: usize, width: usize) -> (r: u64)
    requires
        width <= 8,
        pos + width <= buf@.len(),
    ensures
        r as nat == le_value(buf@.subrange(pos as int, pos + width)),
{
    let n = buf.len();
    let mut acc: u64 = 0;
    let mut i: usize = width;
    proof {
        lemma_pow256_values();
    }
    while i > 0
        invariant
            i <= width <= 8,
            pos + width <= buf@.len() == n,
            acc as nat == le_value(buf@.subrange(pos + i, pos + width)),
            pow256(8) == 0x1_0000_0000_0000_0000,
        decreases i,
    {
        let ghost tail = buf@.subrange(pos + i, pos + width);
        let ghost longer = buf@.subrange(pos + i - 1, pos + width);
        proof {
            lemma_le_value_bound(tail);
            assert(longer.drop_first() =~= tail);
            lemma_pow_mono((width - i) as nat, 7);
        }
        let b = buf[pos + i - 1];
        assert(acc * 256 + b < 0x1_0000_0000_0000_0000) by (nonlinear_arith)
            requires
                acc < pow256((width - i) as nat),
                pow256((width - i) as nat) <= 0x100_0000_0000_0000,
                b < 256,
        ;
        acc = acc * 256 + b as u64;
        i = i - 1;
    }
    acc
}

pub proof fn lemma_pow_mono(a: nat, b: nat)
    requires
        a <= b,
    ensures
        pow256(a) <= pow256(b),
    decreases b,
{
    if a < b {
        lemma_pow_mono(a, (b - 1) as nat);
    }
}

/// Appends the `width` low-order little-endian bytes of `v`.
pub fn write_le(out: &mut Vec<u8>, v: u64, width: usize)
    ensures
        final(out)@ == old(out)@ + le_bytes(v as nat, width as nat),
{
    let mut x: u64 = v;
    let mut i: usize = 0;
    while i < width
        invariant
            i <= width,
            out@ + le_bytes(x as nat, (width - i) as nat) == old(out)@ + le_bytes(
                v as nat,
                width as nat,
            ),
        decreases width - i,
    {
        let ghost before = out@;
        let ghost rest = le_bytes((x / 256) as nat, (width - i - 1) as nat);
        out.push((x % 256) as u8);
        assert(le_bytes(x as nat, (width - i) as nat) == seq![(x % 256) as u8] + rest);
        assert(out@ + rest =~= before + le_bytes(x as nat, (width - i) as nat));
        x = x / 256;
        i = i + 1;
    }
    assert(le_bytes(x as nat, 0) =~= Seq::<u8>::empty());
    assert(out@ =~= out@ + le_bytes(x as nat, 0));
}

} // verus!

//! Numbers as bytes.
use vstd::prelude::*;

verus! {

/// The value of bytes, the most significant first.
pub open spec fn big_endian(b: Seq<u8>) -> nat
    decreases b.len(),
{
    if b.len() == 0 {
        0
    } else {
        big_endian(b.drop_last()) * 256 + b.last() as nat
    }
}

/// The value of bytes, the least significant first.
pub open spec fn little_value(b: Seq<u8>) -> nat
    decreases b.len(),
{
    if b.len() == 0 {
        0
    } else {
        b[0] as nat + 256 * little_value(b.drop_first())
    }
}

/// The lowest `k` bytes of `n`, the least significant first.
pub open spec fn little_endian(n: nat, k: nat) -> Seq<u8>
    decreases k,
{
    if k == 0 {
        Seq::empty()
    } else {
        seq![(n % 256) as u8] + little_endian(n / 256, (k - 1) as nat)
    }
}

/// `256` to the power `k`.
pub open spec fn pow256(k: nat) -> nat
    decreases k,
{
    if k == 0 {
        1
    } else {
        256 * pow256((k - 1) as nat)
    }
}

/// `k` bytes hold a value below `256` to the power `k`.
pub proof fn lemma_big_endian_bound(b: Seq<u8>)
    ensures
        big_endian(b) < pow256(b.len()),
    decreases b.len(),
{
    if b.len() > 0 {
        lemma_big_endian_bound(b.drop_last());
    }
}

/// Different bytes have different values.
pub proof fn lemma_big_endian_injective(a: Seq<u8>, b: Seq<u8>)
    requires
        a.len() == b.len(),
        big_endian(a) == big_endian(b),
    ensures
        a == b,
    decreases a.len(),
{
    if a.len() > 0 {
        lemma_big_endian_injective(a.drop_last(), b.drop_last());
        assert(a =~= a.drop_last().push(a.last()));
        assert(b =~= b.drop_last().push(b.last()));
    } else {
        assert(a =~= b);
    }
}

/// As many bytes as asked for.
pub proof fn lemma_little_endian_len(n: nat, k: nat)
    ensures
        little_endian(n, k).len() == k,
    decreases k,
{
    if k > 0 {
        lemma_little_endian_len(n / 256, (k - 1) as nat);
    }
}

/// A number that fits is read back from its bytes.
pub proof fn little_endian_reads_back(n: nat, k: nat)
    requires
        n < pow256(k),
    ensures
        little_endian(n, k).len() == k,
        little_value(little_endian(n, k)) == n,
    decreases k,
{
    lemma_little_endian_len(n, k);
    if k > 0 {
        little_endian_reads_back(n / 256, (k - 1) as nat);
        let b = little_endian(n, k);
        assert(b.drop_first() =~= little_endian(n / 256, (k - 1) as nat));
    }
}

/// Bytes are written back from the number that they hold.
pub proof fn little_endian_writes_back(b: Seq<u8>)
    ensures
        little_endian(little_value(b), b.len()) == b,
        little_value(b) < pow256(b.len()),
    decreases b.len(),
{
    if b.len() > 0 {
        little_endian_writes_back(b.drop_first());
        let n = little_value(b);
        assert(n % 256 == b[0] as nat);
        assert(n / 256 == little_value(b.drop_first()));
        assert(seq![b[0]] + b.drop_first() =~= b);
    } else {
        assert(little_endian(little_value(b), 0) =~= b);
    }
}

/// Appends the lowest `k` bytes of `n`, the least significant first.
pub fn push_little_endian(out: &mut Vec<u8>, n: u64, k: usize)
    ensures
        final(out)@ == old(out)@ + little_endian(n as nat, k as nat),
{
    let ghost start = out@;
    let mut rest = n;
    let mut i: usize = 0;
    proof {
        assert(start + little_endian(n as nat, k as nat) =~= out@ + little_endian(
            rest as nat,
            (k - i) as nat,
        ));
    }
    while i < k
        invariant
            i <= k,
            start + little_endian(n as nat, k as nat) == out@ + little_endian(
                rest as nat,
                (k - i) as nat,
            ),
        decreases k - i,
    {
        let ghost before = out@;
        let ghost tail = little_endian((rest / 256) as nat, (k - i - 1) as nat);
        out.push((rest % 256) as u8);
        assert(before + (seq![(rest % 256) as u8] + tail) =~= out@ + tail);
        rest = rest / 256;
        i = i + 1;
    }
    assert(out@ + little_endian(rest as nat, 0) =~= out@);
}

/// The value of sixteen bytes, the most significant first.
pub fn from_big_endian(b: &Vec<u8>) -> (r: u128)
    requires
        b@.len() == 16,
    ensures
        r == big_endian(b@),
{
    let mut acc: u128 = 0;
    let mut i: usize = 0;
    while i < 16
        invariant
            i <= 16,
            b@.len() == 16,
            acc == big_endian(b@.take(i as int)),
        decreases 16 - i,
    {
        proof {
            assert(b@.take(i + 1).drop_last() =~= b@.take(i as int));
            lemma_big_endian_bound(b@.take(i + 1));
            reveal_with_fuel(pow256, 17);
        }
        acc = acc * 256 + b[i] as u128;
        i = i + 1;
    }
    assert(b@.take(16) =~= b@);
    acc
}

} // verus!

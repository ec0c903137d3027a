//! Numbers as bytes, most significant byte first.

use vstd::arithmetic::power::pow;
use vstd::prelude::*;

verus! {

/// The number that `bytes` write in base 256, most significant byte first.
pub open spec fn be_nat(bytes: Seq<u8>) -> nat
    decreases bytes.len(),
{
    if bytes.len() == 0 {
        0
    } else {
        256 * be_nat(bytes.drop_last()) + bytes.last() as nat
    }
}

/// The `width` low-order bytes of `val`, most significant first.
pub open spec fn be_bytes(val: nat, width: nat) -> Seq<u8>
    decreases width,
{
    if width == 0 {
        Seq::empty()
    } else {
        be_bytes(val / 256, (width - 1) as nat).push((val % 256) as u8)
    }
}

/// The shortest bytes that write `n` in base 256, most significant first;
/// none for zero.
pub open spec fn minimal_be(n: nat) -> Seq<u8>
    decreases n,
{
    if n == 0 {
        Seq::empty()
    } else {
        minimal_be(n / 256).push((n % 256) as u8)
    }
}

/// Whether `bytes` start with a byte that is not zero, or are empty.
pub open spec fn is_minimal(bytes: Seq<u8>) -> bool {
    bytes.len() == 0 || bytes[0] != 0
}

/// `bytes` without the zero bytes at its front.
pub open spec fn strip_zeros(bytes: Seq<u8>) -> Seq<u8>
    decreases bytes.len(),
{
    if bytes.len() > 0 && bytes[0] == 0 {
        strip_zeros(bytes.skip(1))
    } else {
        bytes
    }
}

/// A zero byte in front does not change the number.
pub proof fn lemma_be_nat_leading_zero(bytes: Seq<u8>)
    requires
        bytes.len() > 0,
        bytes[0] == 0,
    ensures
        be_nat(bytes) == be_nat(bytes.skip(1)),
    decreases bytes.len(),
{
    if bytes.len() == 1 {
        assert(be_nat(bytes.drop_last()) == 0);
        assert(bytes.last() == bytes[0]);
        assert(be_nat(bytes.skip(1)) == 0);
    } else {
        lemma_be_nat_leading_zero(bytes.drop_last());
        assert(bytes.drop_last().skip(1) =~= bytes.skip(1).drop_last());
        assert(bytes.skip(1).last() == bytes.last());
    }
}

/// Stripping the zeros in front gives minimal bytes for the same number.
pub proof fn lemma_strip_zeros(bytes: Seq<u8>)
    ensures
        is_minimal(strip_zeros(bytes)),
        be_nat(strip_zeros(bytes)) == be_nat(bytes),
        strip_zeros(bytes).len() <= bytes.len(),
    decreases bytes.len(),
{
    if bytes.len() > 0 && bytes[0] == 0 {
        lemma_strip_zeros(bytes.skip(1));
        lemma_be_nat_leading_zero(bytes);
    }
}

/// Minimal bytes that are not empty write a number above zero.
pub proof fn lemma_minimal_positive(bytes: Seq<u8>)
    requires
        is_minimal(bytes),
        bytes.len() > 0,
    ensures
        be_nat(bytes) > 0,
    decreases bytes.len(),
{
    if bytes.len() > 1 {
        assert(bytes.drop_last()[0] == bytes[0]);
        lemma_minimal_positive(bytes.drop_last());
    } else {
        assert(bytes.last() == bytes[0]);
    }
}

/// Minimal bytes are the shortest bytes of the number they write.
pub proof fn lemma_minimal_unique(bytes: Seq<u8>)
    requires
        is_minimal(bytes),
    ensures
        minimal_be(be_nat(bytes)) == bytes,
    decreases bytes.len(),
{
    if bytes.len() > 0 {
        let front = bytes.drop_last();
        if front.len() > 0 {
            assert(front[0] == bytes[0]);
        }
        lemma_minimal_unique(front);
        lemma_minimal_positive(bytes);
        let n = be_nat(bytes);
        assert(n / 256 == be_nat(front));
        assert(n % 256 == bytes.last());
        assert(minimal_be(n) == minimal_be(n / 256).push((n % 256) as u8));
        assert(front.push(bytes.last()) =~= bytes);
    }
}

/// The shortest bytes of a number write that number and are minimal.
pub proof fn lemma_minimal_be(n: nat)
    ensures
        be_nat(minimal_be(n)) == n,
        is_minimal(minimal_be(n)),
        n == 0 <==> minimal_be(n).len() == 0,
    decreases n,
{
    if n > 0 {
        lemma_minimal_be(n / 256);
        let m = minimal_be(n);
        let front = minimal_be(n / 256);
        assert(m.drop_last() =~= front);
        if front.len() > 0 {
            assert(m[0] == front[0]);
        }
    }
}

/// The `width` low-order bytes of a number below 256 to the `width` write
/// that number.
pub proof fn lemma_be_bytes_value(val: nat, width: nat)
    requires
        val < pow(256, width),
    ensures
        be_nat(be_bytes(val, width)) == val,
        be_bytes(val, width).len() == width,
    decreases width,
{
    reveal(pow);
    if width > 0 {
        let front = be_bytes(val / 256, (width - 1) as nat);
        lemma_be_bytes_value(val / 256, (width - 1) as nat);
        assert(be_bytes(val, width).drop_last() =~= front);
    }
}

/// Appends the `width` low-order bytes of `val`, most significant first.
pub(crate) fn write_be(buf: &mut Vec<u8>, val: u64, width: u32)
    requires
        1 <= width <= 8,
    ensures
        final(buf)@ == old(buf)@ + be_bytes(val as nat, width as nat),
{
    let mut k: u32 = 0;
    while k < width
        invariant
            1 <= width <= 8,
            k <= width,
            buf@ == old(buf)@ + be_bytes(
                if k == 0 { 0 } else { (val >> ((8 * (width - k)) as u64)) as nat },
                k as nat,
            ),
        decreases width - k,
    {
        let shift: u32 = 8 * (width - k - 1);
        let byte: u8 = (val >> shift) as u8;
        proof {
            let s: u64 = shift as u64;
            assert((val >> s) as u8 == (val >> s) % 256) by (bit_vector);
            if k > 0 {
                assert(s + 8 < 64);
                assert((val >> s) / 256 == val >> ((s + 8) as u64)) by (bit_vector)
                    requires
                        s + 8 < 64,
                ;
            }
            let v = (val >> s) as nat;
            assert(be_bytes(v, (k + 1) as nat) == be_bytes(v / 256, k as nat).push((v % 256) as u8));
            if k == 0 {
                assert(be_bytes(v / 256, 0) == be_bytes(0, 0));
            }
        }
        buf.push(byte);
        k = k + 1;
    }
    proof {
        assert(val >> 0u64 == val) by (bit_vector);
    }
}

} // verus!

//! The index permutation of the 256-point FFT used for the spectrum display:
//! every sample moves to the position whose 8-bit index is its own index with
//! the bits in reverse order. The transform itself works on floating-point
//! samples and is done by the caller.

use vstd::prelude::*;

verus! {

/// `x` with its 8 bits in reverse order.
pub open spec fn rev8(x: u8) -> u8 {
    ((x & 1) << 7) | ((x & 2) << 5) | ((x & 4) << 3) | ((x & 8) << 1) | ((x & 16) >> 1) | ((x & 32) >> 3)
        | ((x & 64) >> 5) | ((x & 128) >> 7)
}

/// Bit `k` of `rev8(x)` is bit `7 - k` of `x`.
pub proof fn lemma_rev8_bits(x: u8)
    ensures
        forall|k: u8| k < 8 ==> #[trigger] ((rev8(x) >> k) & 1) == ((x >> (7 - k) as u8) & 1),
{
    assert(forall|k: u8| k < 8 ==> #[trigger] ((rev8(x) >> k) & 1) == ((x >> (7 - k) as u8) & 1)) by (bit_vector);
}

/// Reversing the bits twice gives the index back.
pub proof fn lemma_rev8_involution(x: u8)
    ensures
        rev8(rev8(x)) == x,
{
    assert(rev8(rev8(x)) == x) by (bit_vector);
}

/// `x` with its 8 bits in reverse order.
pub fn bit_reverse_8(x: u8) -> (r: u8)
    ensures
        r == rev8(x),
{
    ((x & 1) << 7) | ((x & 2) << 5) | ((x & 4) << 3) | ((x & 8) << 1) | ((x & 16) >> 1) | ((x & 32) >> 3)
        | ((x & 64) >> 5) | ((x & 128) >> 7)
}

/// The table of reversed indices 0..256.
pub fn bit_reverse_table() -> (r: Vec<u8>)
    ensures
        r@.len() == 256,
        forall|i: int| 0 <= i < 256 ==> #[trigger] r@[i] == rev8(i as u8),
{
    let mut t: Vec<u8> = Vec::new();
    let mut i: usize = 0;
    while i < 256
        invariant
            i <= 256,
            t@.len() == i,
            forall|j: int| 0 <= j < i ==> #[trigger] t@[j] == rev8(j as u8),
        decreases 256 - i,
    {
        t.push(bit_reverse_8(i as u8));
        i = i + 1;
    }
    t
}

pub open spec fn rev_index(k: int) -> int {
    rev8(k as u8) as int
}

/// Reorders two 256-element buffers (real and imaginary parts) in place so that each position holds the
/// element previously at the bit-reversed position.
pub fn bit_reverse_permute<T: Copy>(re: &mut Vec<T>, im: &mut Vec<T>)
    requires
        old(re)@.len() == 256,
        old(im)@.len() == 256,
    ensures
        final(re)@.len() == 256,
        final(im)@.len() == 256,
        forall|k: int| 0 <= k < 256 ==> #[trigger] final(re)@[k] == old(re)@[rev_index(k)],
        forall|k: int| 0 <= k < 256 ==> #[trigger] final(im)@[k] == old(im)@[rev_index(k)],
{
    let table = bit_reverse_table();
    let ghost r0 = re@;
    let ghost i0 = im@;
    assert forall|k: int| 0 <= k < 256 implies rev_index(rev_index(k)) == k && 0 <= #[trigger] rev_index(k) < 256 by {
        lemma_rev8_involution(k as u8);
        assert((k as u8) as int == k);
    }
    let mut i: usize = 0;
    while i < 256
        invariant
            i <= 256,
            table@.len() == 256,
            forall|j: int| 0 <= j < 256 ==> #[trigger] table@[j] == rev8(j as u8),
            forall|k: int| 0 <= k < 256 ==> rev_index(rev_index(k)) == k && 0 <= #[trigger] rev_index(k) < 256,
            re@.len() == 256,
            im@.len() == 256,
            forall|k: int| 0 <= k < 256 ==> (#[trigger] re@[k]) == (if k < i || rev_index(k) < i {
                r0[rev_index(k)]
            } else {
                r0[k]
            }),
            forall|k: int| 0 <= k < 256 ==> (#[trigger] im@[k]) == (if k < i || rev_index(k) < i {
                i0[rev_index(k)]
            } else {
                i0[k]
            }),
        decreases 256 - i,
    {
        let j = table[i] as usize;
        assert(j as int == rev_index(i as int));
        if i < j {
            let a = re[i];
            let b = re[j];
            re.set(i, b);
            re.set(j, a);
            let c = im[i];
            let d = im[j];
            im.set(i, d);
            im.set(j, c);
        }
        assert(rev_index(j as int) == i);
        i = i + 1;
    }
}

} // verus!

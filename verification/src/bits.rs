//! The bit-level model of the bitmap: which bit a probe selects, what it means
//! for a set of probes to be marked, and how a bitmap is rendered as text.

use vstd::prelude::*;

verus! {

/// A bitmap of `n` bytes with no bit set.
pub open spec fn zeros(n: nat) -> Seq<u8> {
    Seq::new(n, |i: int| 0u8)
}

/// The single-bit mask that a probe at byte `index` selects. The bit position
/// is the byte index modulo eight, so every byte has exactly one bit that the
/// filter ever reads or writes.
pub open spec fn bit_mask(index: int) -> u8 {
    1u8 << ((index % 8) as u8)
}

/// The probe at byte `index` lies inside `bitmap` and its bit is set.
pub open spec fn is_marked(bitmap: Seq<u8>, index: int) -> bool {
    0 <= index < bitmap.len() && bitmap[index] & bit_mask(index) == bit_mask(index)
}

/// Every probe in `probes` is marked in `bitmap`.
pub open spec fn all_marked(bitmap: Seq<u8>, probes: Seq<int>) -> bool {
    forall|j: int| 0 <= j < probes.len() ==> is_marked(bitmap, #[trigger] probes[j])
}

/// `bitmap` after the bit of every probe in `probes` has been set. Bytes that
/// no probe names are unchanged, and no bit is ever cleared.
pub open spec fn marked(bitmap: Seq<u8>, probes: Seq<int>) -> Seq<u8> {
    Seq::new(
        bitmap.len(),
        |p: int|
            if probes.contains(p) {
                bitmap[p] | bit_mask(p)
            } else {
                bitmap[p]
            },
    )
}

/// The character that shows bit `place` of `byte`, counting from the most
/// significant bit.
pub open spec fn bit_char(byte: u8, place: int) -> char {
    if byte & (0x80u8 >> (place as u8)) != 0 {
        '1'
    } else {
        '0'
    }
}

/// The bitmap as text: eight binary digits per byte, most significant bit
/// first, bytes in order and nothing between them.
pub open spec fn rendering(bitmap: Seq<u8>) -> Seq<char> {
    Seq::new(8 * bitmap.len(), |k: int| bit_char(bitmap[k / 8], k % 8))
}

/// Byte indices held as machine words, read as mathematical integers.
pub open spec fn as_ints(indices: Seq<usize>) -> Seq<int> {
    indices.map_values(|i: usize| i as int)
}

/// Setting a bit makes it read as set, and setting it twice changes nothing.
pub proof fn lemma_or_mask(b: u8, m: u8)
    ensures
        (b | m) & m == m,
        (b | m) | m == b | m,
{
    assert((b | m) & m == m) by (bit_vector);
    assert((b | m) | m == b | m) by (bit_vector);
}

/// A zero byte has no bit set, whichever bit is asked for.
pub proof fn lemma_zero_unmarked(index: int)
    ensures
        0u8 & bit_mask(index) != bit_mask(index),
{
    let s: u8 = (index % 8) as u8;
    assert(s < 8);
    assert(0u8 & (1u8 << s) != (1u8 << s)) by (bit_vector)
        requires
            s < 8,
    ;
}

/// Marking no probe leaves the bitmap as it is.
pub proof fn lemma_marked_none(bitmap: Seq<u8>)
    ensures
        marked(bitmap, Seq::empty()) == bitmap,
{
    assert(marked(bitmap, Seq::empty()) =~= bitmap);
}

/// Marking one more probe is one more bitwise OR into the byte it names.
pub proof fn lemma_marked_push(bitmap: Seq<u8>, probes: Seq<int>, index: int)
    requires
        0 <= index < bitmap.len(),
    ensures
        marked(bitmap, probes.push(index)) == marked(bitmap, probes).update(
            index,
            marked(bitmap, probes)[index] | bit_mask(index),
        ),
{
    let longer = probes.push(index);
    let step = marked(bitmap, probes).update(
        index,
        marked(bitmap, probes)[index] | bit_mask(index),
    );
    assert(longer[probes.len() as int] == index);
    assert forall|p: int| 0 <= p < bitmap.len() implies #[trigger] marked(bitmap, longer)[p]
        == step[p] by {
        if p == index {
            lemma_or_mask(bitmap[p], bit_mask(p));
        } else if probes.contains(p) {
            let j = choose|j: int| 0 <= j < probes.len() && probes[j] == p;
            assert(longer[j] == p);
        } else if longer.contains(p) {
            let j = choose|j: int| 0 <= j < longer.len() && longer[j] == p;
            assert(probes[j] == p);
        }
    }
    assert(marked(bitmap, longer) =~= step);
}

} // verus!

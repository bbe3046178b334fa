//! The filter itself: a byte-array bitmap, a probe count and the flag that
//! locks its configuration once it holds data.

use crate::bits::{
    all_marked, as_ints, bit_char, is_marked, lemma_marked_none, lemma_marked_push, marked,
    rendering, zeros,
};
use crate::error::FilterError;
use crate::model::{or_default, FilterView, DEFAULT_HASH_LOOP, DEFAULT_SIZE, TRAILER_LEN};
use crate::probe::{probe, probe_indices, probe_writes};
use std::collections::hash_map::DefaultHasher;
use std::hash::Hasher;
use vstd::bytes::{u64_from_le_bytes, u64_to_le_bytes};
use vstd::prelude::*;
use vstd::slice::{slice_subrange, slice_to_vec};
use vstd::string::{StringExecFns, StringSliceAdditionalSpecFns};

verus! {

/// A Bloom filter. The bitmap's length is the filter's size in bytes.
pub struct BloomFilter {
    hash_loop: usize,
    is_empty: bool,
    bitmap: Vec<u8>,
}

impl View for BloomFilter {
    type V = FilterView;

    closed spec fn view(&self) -> FilterView {
        FilterView {
            bitmap: self.bitmap@,
            hash_loop: self.hash_loop as nat,
            is_empty: self.is_empty,
        }
    }
}

impl BloomFilter {
    #[verifier::type_invariant]
    spec fn inv(self) -> bool {
        self@.wf()
    }

    /// Builds an empty filter. A size or probe count that is absent or zero
    /// falls back to its default.
    pub fn new(size: Option<usize>, hash_loop: Option<usize>) -> (filter: Self)
        ensures
            filter@ == FilterView::fresh(
                match size {
                    Some(n) => or_default(n as nat, DEFAULT_SIZE as nat),
                    None => DEFAULT_SIZE as nat,
                },
                match hash_loop {
                    Some(n) => or_default(n as nat, DEFAULT_HASH_LOOP as nat),
                    None => DEFAULT_HASH_LOOP as nat,
                },
            ),
            filter@.wf(),
    {
        let size = match size {
            Some(n) if n > 0 => n,
            _ => DEFAULT_SIZE,
        };
        let hash_loop = match hash_loop {
            Some(n) if n > 0 => n,
            _ => DEFAULT_HASH_LOOP,
        };
        let bitmap: Vec<u8> = vec![0u8; size];
        assert(bitmap@ =~= zeros(size as nat));
        BloomFilter { hash_loop, is_empty: true, bitmap }
    }

    /// Asks for a bitmap of `size` bytes. An empty filter gets a fresh zeroed
    /// bitmap of that size, or of the default size where `size` is zero; a
    /// filter that holds data is left as it is. Returns the filter so that
    /// calls can be chained.
    pub fn set_size(&mut self, size: usize) -> (filter: &mut Self)
        ensures
            filter@ == old(self)@.resized(size as nat),
            filter@.wf(),
            *final(self) == *final(filter),
    {
        proof {
            use_type_invariant(&*self);
        }
        if self.is_empty {
            let size = if size > 0 {
                size
            } else {
                DEFAULT_SIZE
            };
            let bitmap: Vec<u8> = vec![0u8; size];
            assert(bitmap@ =~= zeros(size as nat));
            self.bitmap = bitmap;
        }
        self
    }

    /// Zeroes the bitmap and marks the filter empty again, which unlocks its
    /// configuration. Size and probe count are kept.
    pub fn clear(&mut self)
        ensures
            final(self)@ == old(self)@.cleared(),
            final(self)@.wf(),
    {
        let bitmap: Vec<u8> = vec![0u8; self.bitmap.len()];
        assert(bitmap@ =~= zeros(self.bitmap@.len()));
        self.bitmap = bitmap;
        self.is_empty = true;
    }

    /// Asks for `hash_loop` rounds per key, or for the default probe count
    /// where `hash_loop` is zero. Granted while the filter is empty; a filter
    /// that holds data is left as it is. Returns the filter so that calls can
    /// be chained.
    pub fn set_hash_loop(&mut self, hash_loop: usize) -> (filter: &mut Self)
        ensures
            filter@ == old(self)@.with_hash_loop(hash_loop as nat),
            filter@.wf(),
            *final(self) == *final(filter),
    {
        proof {
            use_type_invariant(&*self);
        }
        if self.is_empty {
            self.hash_loop = if hash_loop > 0 {
                hash_loop
            } else {
                DEFAULT_HASH_LOOP
            };
        }
        self
    }

    /// Inserts `key`: marks the bit of every probe of the key and locks the
    /// configuration. Inserting a key that is already present changes nothing.
    /// The bitmap must have at least one byte.
    pub fn insert(&mut self, key: &str)
        requires
            old(self)@.size() > 0,
        ensures
            final(self)@ == old(self)@.inserted(key.spec_bytes()),
            final(self)@.wf(),
    {
        proof {
            use_type_invariant(&*self);
        }
        self.is_empty = false;
        let indices = self.hash(key);
        self.insert_bitmap(indices);
    }

    /// Whether `key` may have been inserted: true exactly when the bit of
    /// every probe of the key is set. A key that was inserted is always
    /// reported; a key that was not may be. The bitmap must have at least one
    /// byte.
    pub fn contains(&self, key: &str) -> (found: bool)
        requires
            self@.size() > 0,
        ensures
            found == self@.may_contain(key.spec_bytes()),
    {
        let indices = self.hash(key);
        self.contains_bitmap(indices)
    }

    /// The persisted image of the filter: the bitmap bytes, then the probe
    /// count as eight little-endian bytes. The filter is not changed.
    pub fn to_bytes(&self) -> (image: Vec<u8>)
        ensures
            image@ == self@.image(),
    {
        let mut image = self.bitmap.clone();
        let mut trailer = u64_to_le_bytes(self.hash_loop as u64);
        image.append(&mut trailer);
        image
    }

    /// The bitmap as text for diagnostics: eight binary digits per byte, most
    /// significant bit first.
    pub fn bit_string(&self) -> (text: String)
        ensures
            text@ == rendering(self@.bitmap),
    {
        let mut text = String::new();
        let mut i: usize = 0;
        while i < self.bitmap.len()
            invariant
                i <= self.bitmap@.len(),
                text@ =~= Seq::new(8 * i as nat, |k: int| bit_char(self.bitmap@[k / 8], k % 8)),
            decreases self.bitmap@.len() - i,
        {
            let byte = self.bitmap[i];
            let mut place: u8 = 0;
            while place < 8
                invariant
                    place <= 8,
                    i < self.bitmap@.len(),
                    byte == self.bitmap@[i as int],
                    text@ =~= Seq::new(
                        (8 * i + place) as nat,
                        |k: int| bit_char(self.bitmap@[k / 8], k % 8),
                    ),
                decreases 8 - place,
            {
                proof {
                    reveal_strlit("1");
                    reveal_strlit("0");
                }
                if byte & (0x80u8 >> place) != 0 {
                    text.append("1");
                } else {
                    text.append("0");
                }
                place += 1;
            }
            i += 1;
        }
        text
    }

    /// The number of bytes in the bitmap.
    pub fn size(&self) -> (size: usize)
        ensures
            size == self@.size(),
    {
        self.bitmap.len()
    }

    /// The number of hash rounds per key.
    pub fn hash_loop(&self) -> (hash_loop: usize)
        ensures
            hash_loop == self@.hash_loop,
    {
        self.hash_loop
    }

    /// Whether the filter is still empty, that is, whether its configuration
    /// may still change. An empty filter has no bit set.
    pub fn is_empty(&self) -> (empty: bool)
        ensures
            empty == self@.is_empty,
            empty ==> self@.bitmap == zeros(self@.size()),
    {
        proof {
            use_type_invariant(self);
        }
        self.is_empty
    }

    /// Sets the bit of every probe in `indices`.
    fn insert_bitmap(&mut self, indices: Vec<usize>)
        requires
            !old(self).is_empty,
            forall|j: int| 0 <= j < indices@.len() ==> indices@[j] < old(self).bitmap@.len(),
        ensures
            final(self).bitmap@ == marked(old(self).bitmap@, as_ints(indices@)),
            final(self).hash_loop == old(self).hash_loop,
            !final(self).is_empty,
    {
        proof {
            use_type_invariant(&*self);
        }
        let ghost before = self.bitmap@;
        let ghost probes = as_ints(indices@);
        // The bitmap is moved out while it is written and put back at the end.
        let mut bits: Vec<u8> = Vec::new();
        std::mem::swap(&mut self.bitmap, &mut bits);
        proof {
            lemma_marked_none(before);
            assert(probes.take(0) =~= Seq::empty());
        }
        let mut k: usize = 0;
        while k < indices.len()
            invariant
                k <= indices@.len(),
                probes == as_ints(indices@),
                forall|j: int| 0 <= j < indices@.len() ==> indices@[j] < before.len(),
                bits@ == marked(before, probes.take(k as int)),
                before.len() <= usize::MAX,
                !self.is_empty,
                self.hash_loop == old(self).hash_loop,
            decreases indices@.len() - k,
        {
            let index = indices[k];
            let byte = bits[index];
            bits.set(index, byte | (1u8 << (index % 8)));
            proof {
                lemma_marked_push(before, probes.take(k as int), index as int);
                assert(probes.take(k + 1) =~= probes.take(k as int).push(index as int));
            }
            k += 1;
        }
        proof {
            assert(probes.take(k as int) =~= probes);
        }
        self.bitmap = bits;
    }

    /// Whether the bit of every probe in `indices` is set; stops at the first
    /// that is not.
    fn contains_bitmap(&self, indices: Vec<usize>) -> (found: bool)
        requires
            forall|j: int| 0 <= j < indices@.len() ==> indices@[j] < self.bitmap@.len(),
        ensures
            found == all_marked(self.bitmap@, as_ints(indices@)),
    {
        let ghost probes = as_ints(indices@);
        let mut k: usize = 0;
        while k < indices.len()
            invariant
                k <= indices@.len(),
                probes == as_ints(indices@),
                forall|j: int| 0 <= j < indices@.len() ==> indices@[j] < self.bitmap@.len(),
                forall|j: int| 0 <= j < k ==> is_marked(self.bitmap@, #[trigger] probes[j]),
            decreases indices@.len() - k,
        {
            let index = indices[k];
            let mask = 1u8 << (index % 8);
            if self.bitmap[index] & mask != mask {
                assert(!is_marked(self.bitmap@, probes[k as int]));
                return false;
            }
            k += 1;
        }
        true
    }

    /// The probe sequence of `key`: a leading index zero, then one byte index
    /// per hash round. All rounds share one running hasher. The bitmap must
    /// have at least one byte.
    pub fn hash(&self, key: &str) -> (indices: Vec<usize>)
        requires
            self@.size() > 0,
        ensures
            as_ints(indices@) == self@.probes(key.spec_bytes()),
            indices@.len() == self@.hash_loop + 1,
            forall|j: int| 0 <= j < indices@.len() ==> indices@[j] < self@.size(),
    {
        let size = self.bitmap.len();
        let bytes = key.as_bytes();
        let mut result: Vec<usize> = Vec::new();
        result.push(0);
        let mut hasher = DefaultHasher::new();
        assert(as_ints(result@) =~= probe_indices(bytes@, 0, size as nat));
        let mut i: usize = 0;
        while i < self.hash_loop
            invariant
                i <= self.hash_loop,
                size == self.bitmap@.len(),
                size > 0,
                bytes@ == key.spec_bytes(),
                hasher@ == probe_writes(bytes@, i as nat),
                result@.len() == i + 1,
                forall|j: int| 0 <= j < result@.len() ==> result@[j] < size,
                as_ints(result@) == probe_indices(bytes@, i as nat, size as nat),
            decreases self.hash_loop - i,
        {
            hasher.write(bytes);
            let round = u64_to_le_bytes(i as u64);
            hasher.write(round.as_slice());
            let index = (hasher.finish() % (size as u64)) as usize;
            let ghost earlier = result@;
            result.push(index);
            proof {
                assert(index == probe(bytes@, i as nat, size as nat));
                assert forall|j: int| 0 <= j <= i + 1 implies #[trigger] as_ints(result@)[j]
                    == probe_indices(bytes@, (i + 1) as nat, size as nat)[j] by {
                    if j <= i {
                        assert(as_ints(earlier)[j] == probe_indices(bytes@, i as nat, size as nat)[j]);
                    }
                }
                assert(as_ints(result@) =~= probe_indices(bytes@, (i + 1) as nat, size as nat));
            }
            i += 1;
        }
        result
    }

    /// Loads a persisted image into an empty filter. On success the filter
    /// takes the image's bitmap and probe count and counts as populated; on
    /// failure it is left as it was.
    pub fn load_bytes(&mut self, data: &[u8]) -> (outcome: Result<(), FilterError>)
        ensures
            match old(self)@.loaded(data@) {
                Ok(after) => outcome is Ok && final(self)@ == after,
                Err(e) => outcome == Err::<(), FilterError>(e) && final(self)@ == old(self)@,
            },
            final(self)@.wf(),
    {
        proof {
            use_type_invariant(&*self);
        }
        if !self.is_empty {
            return Err(FilterError::Config);
        }
        let len = data.len();
        if len < TRAILER_LEN {
            return Err(FilterError::Format);
        }
        let split = len - TRAILER_LEN;
        let rounds = u64_from_le_bytes(slice_subrange(data, split, len));
        if rounds > usize::MAX as u64 {
            return Err(FilterError::Format);
        }
        let bitmap = slice_to_vec(slice_subrange(data, 0, split));
        self.is_empty = false;
        self.hash_loop = rounds as usize;
        self.bitmap = bitmap;
        Ok(())
    }
}

} // verus!

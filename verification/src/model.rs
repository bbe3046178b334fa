//! The mathematical model of a filter: its bitmap as a sequence of bytes, its
//! probe count, and whether it is still empty. Every operation of the filter
//! is stated here as a function on this model.

use crate::bits::{all_marked, marked, zeros};
use crate::error::FilterError;
use crate::probe::probe_indices;
use vstd::bytes::{spec_u64_from_le_bytes, spec_u64_to_le_bytes};
use vstd::prelude::*;

verus! {

/// Bytes in the bitmap of a filter whose size is not given, or given as zero.
pub const DEFAULT_SIZE: usize = 1024;

/// Hash rounds per key of a filter whose probe count is not given, or given
/// as zero.
pub const DEFAULT_HASH_LOOP: usize = 10;

/// Width in bytes of the trailer that closes a persisted image.
pub const TRAILER_LEN: usize = 8;

/// What a configuration request settles on: the requested value, or the
/// default where the request is zero.
pub open spec fn or_default(requested: nat, default: nat) -> nat {
    if requested > 0 {
        requested
    } else {
        default
    }
}

/// What a filter is, independent of how it is stored.
pub struct FilterView {
    /// The bytes of the bitmap; its length is the filter's size.
    pub bitmap: Seq<u8>,
    /// The number of hash rounds per key.
    pub hash_loop: nat,
    /// No key has been inserted and no image loaded since the filter was
    /// created or last cleared.
    pub is_empty: bool,
}

impl FilterView {
    /// The number of bytes in the bitmap.
    pub open spec fn size(self) -> nat {
        self.bitmap.len()
    }

    /// The model fits the machine, and a filter that says it is empty has no
    /// bit set.
    pub open spec fn wf(self) -> bool {
        &&& self.size() <= usize::MAX
        &&& self.hash_loop <= usize::MAX
        &&& self.is_empty ==> self.bitmap == zeros(self.size())
    }

    /// An empty filter of `size` zero bytes that probes `hash_loop` rounds
    /// per key.
    pub open spec fn fresh(size: nat, hash_loop: nat) -> FilterView {
        FilterView { bitmap: zeros(size), hash_loop, is_empty: true }
    }

    /// The byte indices that `key` probes in this filter.
    pub open spec fn probes(self, key: Seq<u8>) -> Seq<int> {
        probe_indices(key, self.hash_loop, self.size())
    }

    /// The filter after `key` has been inserted: every probe of the key is
    /// marked and the filter is no longer empty.
    pub open spec fn inserted(self, key: Seq<u8>) -> FilterView {
        FilterView {
            bitmap: marked(self.bitmap, self.probes(key)),
            hash_loop: self.hash_loop,
            is_empty: false,
        }
    }

    /// The filter after each key of `keys` has been inserted in turn.
    pub open spec fn inserted_all(self, keys: Seq<Seq<u8>>) -> FilterView
        decreases keys.len(),
    {
        if keys.len() == 0 {
            self
        } else {
            self.inserted_all(keys.drop_last()).inserted(keys.last())
        }
    }

    /// The answer to a membership query: every probe of `key` is marked.
    pub open spec fn may_contain(self, key: Seq<u8>) -> bool {
        all_marked(self.bitmap, self.probes(key))
    }

    /// The filter after a reset: same size and probe count, no bit set, empty
    /// again.
    pub open spec fn cleared(self) -> FilterView {
        Self::fresh(self.size(), self.hash_loop)
    }

    /// The filter after a request for a bitmap of `size` bytes: granted with a
    /// zeroed bitmap while the filter is empty, ignored once it holds data. A
    /// request for zero bytes is a request for the default size.
    pub open spec fn resized(self, size: nat) -> FilterView {
        if self.is_empty {
            Self::fresh(or_default(size, DEFAULT_SIZE as nat), self.hash_loop)
        } else {
            self
        }
    }

    /// The filter after a request for `hash_loop` rounds per key: granted
    /// while the filter is empty, ignored once it holds data. A request for
    /// zero rounds is a request for the default probe count.
    pub open spec fn with_hash_loop(self, hash_loop: nat) -> FilterView {
        if self.is_empty {
            FilterView {
                bitmap: self.bitmap,
                hash_loop: or_default(hash_loop, DEFAULT_HASH_LOOP as nat),
                is_empty: true,
            }
        } else {
            self
        }
    }

    /// The persisted image: the bitmap bytes, then the probe count as eight
    /// little-endian bytes.
    pub open spec fn image(self) -> Seq<u8> {
        self.bitmap + spec_u64_to_le_bytes(self.hash_loop as u64)
    }

    /// The outcome of loading the image `data` into this filter. A filter that
    /// holds data refuses; an image shorter than the trailer, or whose trailer
    /// exceeds the machine word, is malformed; otherwise the filter takes the
    /// image's bitmap and probe count and counts as populated.
    pub open spec fn loaded(self, data: Seq<u8>) -> Result<FilterView, FilterError> {
        if !self.is_empty {
            Err(FilterError::Config)
        } else if data.len() < TRAILER_LEN || image_hash_loop(data) > usize::MAX {
            Err(FilterError::Format)
        } else {
            Ok(
                FilterView {
                    bitmap: image_bitmap(data),
                    hash_loop: image_hash_loop(data) as nat,
                    is_empty: false,
                },
            )
        }
    }
}

/// The bitmap part of an image: everything before the trailer.
pub open spec fn image_bitmap(data: Seq<u8>) -> Seq<u8> {
    data.subrange(0, data.len() - TRAILER_LEN)
}

/// The probe count that the trailer of an image encodes.
pub open spec fn image_hash_loop(data: Seq<u8>) -> u64 {
    spec_u64_from_le_bytes(data.subrange(data.len() - TRAILER_LEN, data.len() as int))
}

} // verus!

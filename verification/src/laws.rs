//! What holds of every filter, proved over the model: inserted keys are never
//! lost, insertion is idempotent, a saved image loads back to the same filter,
//! and a filter that holds data keeps its configuration.

use crate::bits::{bit_mask, is_marked, lemma_or_mask, lemma_zero_unmarked, zeros};
use crate::error::FilterError;
use crate::model::{
    image_bitmap, image_hash_loop, or_default, FilterView, DEFAULT_HASH_LOOP, DEFAULT_SIZE,
    TRAILER_LEN,
};
use crate::probe::lemma_probes_in_range;
use vstd::bytes::{lemma_auto_spec_u64_to_from_le_bytes, spec_u64_to_le_bytes};
use vstd::prelude::*;

verus! {

/// Insertion only sets bits: a probe that was marked before an insertion is
/// marked after it.
pub proof fn insert_keeps_bits(filter: FilterView, key: Seq<u8>, index: int)
    requires
        is_marked(filter.bitmap, index),
    ensures
        is_marked(filter.inserted(key).bitmap, index),
{
    lemma_or_mask(filter.bitmap[index], bit_mask(index));
}

/// A key is reported right after it has been inserted.
pub proof fn insert_then_contains(filter: FilterView, key: Seq<u8>)
    requires
        filter.size() > 0,
    ensures
        filter.inserted(key).may_contain(key),
{
    let probes = filter.probes(key);
    let after = filter.inserted(key);
    lemma_probes_in_range(key, filter.hash_loop, filter.size());
    assert(after.probes(key) == probes);
    assert forall|j: int| 0 <= j < probes.len() implies is_marked(
        after.bitmap,
        #[trigger] probes[j],
    ) by {
        assert(probes.contains(probes[j]));
        lemma_or_mask(filter.bitmap[probes[j]], bit_mask(probes[j]));
    }
}

/// A key that is reported stays reported when another key is inserted.
pub proof fn insert_keeps_contains(filter: FilterView, key: Seq<u8>, other: Seq<u8>)
    requires
        filter.may_contain(key),
    ensures
        filter.inserted(other).may_contain(key),
{
    let probes = filter.probes(key);
    let after = filter.inserted(other);
    assert(after.probes(key) == probes);
    assert forall|j: int| 0 <= j < probes.len() implies is_marked(
        after.bitmap,
        #[trigger] probes[j],
    ) by {
        insert_keeps_bits(filter, other, probes[j]);
    }
}

/// No false negatives: once a key has been inserted, it is reported however
/// many other keys are inserted before or after it.
pub proof fn no_false_negatives(filter: FilterView, keys: Seq<Seq<u8>>, j: int)
    requires
        filter.size() > 0,
        0 <= j < keys.len(),
    ensures
        filter.inserted_all(keys).may_contain(keys[j]),
    decreases keys.len(),
{
    let earlier = filter.inserted_all(keys.drop_last());
    inserted_all_keeps_shape(filter, keys.drop_last());
    if j == keys.len() - 1 {
        insert_then_contains(earlier, keys.last());
    } else {
        no_false_negatives(filter, keys.drop_last(), j);
        insert_keeps_contains(earlier, keys[j], keys.last());
    }
}

/// Insertions change neither the size nor the probe count.
pub proof fn inserted_all_keeps_shape(filter: FilterView, keys: Seq<Seq<u8>>)
    ensures
        filter.inserted_all(keys).size() == filter.size(),
        filter.inserted_all(keys).hash_loop == filter.hash_loop,
        keys.len() > 0 ==> !filter.inserted_all(keys).is_empty,
    decreases keys.len(),
{
    if keys.len() > 0 {
        inserted_all_keeps_shape(filter, keys.drop_last());
    }
}

/// Idempotence: inserting a key a second time leaves the filter exactly as
/// the first insertion left it.
pub proof fn insert_idempotent(filter: FilterView, key: Seq<u8>)
    ensures
        filter.inserted(key).inserted(key) == filter.inserted(key),
{
    let once = filter.inserted(key);
    let twice = once.inserted(key);
    let probes = filter.probes(key);
    assert(once.probes(key) == probes);
    assert forall|p: int| 0 <= p < filter.size() implies #[trigger] twice.bitmap[p]
        == once.bitmap[p] by {
        lemma_or_mask(filter.bitmap[p], bit_mask(p));
    }
    assert(twice.bitmap =~= once.bitmap);
}

/// Reconfiguration lock: after an insertion, asking for another size or
/// probe count changes nothing.
pub proof fn insert_locks_configuration(
    filter: FilterView,
    key: Seq<u8>,
    size: nat,
    hash_loop: nat,
)
    ensures
        filter.inserted(key).resized(size) == filter.inserted(key),
        filter.inserted(key).with_hash_loop(hash_loop) == filter.inserted(key),
{
}

/// A new filter has at least one byte and at least one round, whatever was
/// asked for.
pub proof fn fresh_is_positive(size: nat, hash_loop: nat)
    ensures
        FilterView::fresh(
            or_default(size, DEFAULT_SIZE as nat),
            or_default(hash_loop, DEFAULT_HASH_LOOP as nat),
        ).size() > 0,
        FilterView::fresh(
            or_default(size, DEFAULT_SIZE as nat),
            or_default(hash_loop, DEFAULT_HASH_LOOP as nat),
        ).hash_loop > 0,
{
}

/// The size stays positive: no insertion, reset or configuration request
/// takes the last byte from a filter. Only loading an image that is nothing
/// but a trailer leaves a filter without bytes.
pub proof fn size_stays_positive(filter: FilterView, key: Seq<u8>, size: nat, hash_loop: nat)
    requires
        filter.size() > 0,
    ensures
        filter.inserted(key).size() > 0,
        filter.cleared().size() > 0,
        filter.resized(size).size() > 0,
        filter.with_hash_loop(hash_loop).size() > 0,
{
}

/// The probe count stays positive: no insertion, reset or configuration
/// request brings it to zero. Only an image whose trailer says zero does.
pub proof fn hash_loop_stays_positive(
    filter: FilterView,
    key: Seq<u8>,
    size: nat,
    hash_loop: nat,
)
    requires
        filter.hash_loop > 0,
    ensures
        filter.inserted(key).hash_loop > 0,
        filter.cleared().hash_loop > 0,
        filter.resized(size).hash_loop > 0,
        filter.with_hash_loop(hash_loop).hash_loop > 0,
{
}

/// A filter with no bit set reports no key at all.
pub proof fn zeroed_contains_nothing(filter: FilterView, key: Seq<u8>)
    requires
        filter.bitmap == zeros(filter.size()),
    ensures
        !filter.may_contain(key),
{
    let probes = filter.probes(key);
    assert(probes[0] == 0);
    lemma_zero_unmarked(0);
    assert(!is_marked(filter.bitmap, probes[0]));
}

/// Clear resets the filter: afterwards no key is reported, and the filter is
/// empty with its size and probe count kept.
pub proof fn clear_forgets_every_key(filter: FilterView, key: Seq<u8>)
    ensures
        !filter.cleared().may_contain(key),
        filter.cleared().is_empty,
        filter.cleared().size() == filter.size(),
        filter.cleared().hash_loop == filter.hash_loop,
{
    zeroed_contains_nothing(filter.cleared(), key);
}

/// An empty filter reports no key.
pub proof fn empty_contains_nothing(filter: FilterView, key: Seq<u8>)
    requires
        filter.wf(),
        filter.is_empty,
    ensures
        !filter.may_contain(key),
{
    zeroed_contains_nothing(filter, key);
}

/// Loading is refused once a key has been inserted, whatever the image.
pub proof fn insert_locks_load(filter: FilterView, key: Seq<u8>, data: Seq<u8>)
    ensures
        filter.inserted(key).loaded(data) == Err::<FilterView, FilterError>(FilterError::Config),
{
}

/// Round trip: the image of a filter loads into any empty filter, which then
/// has the saved filter's bitmap, size and probe count, and so answers every
/// query as the saved filter does.
pub proof fn image_round_trip(saved: FilterView, target: FilterView)
    requires
        saved.wf(),
        target.is_empty,
    ensures
        target.loaded(saved.image()) == Ok::<FilterView, FilterError>(
            FilterView { bitmap: saved.bitmap, hash_loop: saved.hash_loop, is_empty: false },
        ),
        forall|key: Seq<u8>|
            (#[trigger] target.loaded(saved.image())->Ok_0.may_contain(key)) == saved.may_contain(
                key,
            ),
{
    let data = saved.image();
    let trailer = spec_u64_to_le_bytes(saved.hash_loop as u64);
    lemma_auto_spec_u64_to_from_le_bytes();
    assert(trailer.len() == TRAILER_LEN);
    assert(image_bitmap(data) =~= saved.bitmap);
    assert(data.subrange(data.len() - TRAILER_LEN, data.len() as int) =~= trailer);
    assert(image_hash_loop(data) == saved.hash_loop);
}

/// Round trip of inserted keys: every key inserted before a filter was saved
/// is reported by the filter that loaded its image.
pub proof fn image_round_trip_keeps_keys(
    filter: FilterView,
    keys: Seq<Seq<u8>>,
    target: FilterView,
    j: int,
)
    requires
        filter.wf(),
        filter.size() > 0,
        target.is_empty,
        0 <= j < keys.len(),
    ensures
        target.loaded(filter.inserted_all(keys).image()) is Ok,
        target.loaded(filter.inserted_all(keys).image())->Ok_0.may_contain(keys[j]),
        target.loaded(filter.inserted_all(keys).image())->Ok_0.size() == filter.size(),
        target.loaded(filter.inserted_all(keys).image())->Ok_0.hash_loop == filter.hash_loop,
{
    let saved = filter.inserted_all(keys);
    inserted_all_keeps_shape(filter, keys);
    no_false_negatives(filter, keys, j);
    image_round_trip(saved, target);
}

} // verus!

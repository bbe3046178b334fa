//! The probe sequence of a key: which byte indices an insertion marks and a
//! query reads.
//!
//! One running hasher serves all rounds of a key. Round `i` feeds it the key
//! bytes and then the round number, and reads the digest without resetting
//! the state, so the digest of round `i` depends on everything written in
//! rounds `0..=i`.

use std::collections::hash_map::DefaultHasher;
use vstd::bytes::spec_u64_to_le_bytes;
use vstd::prelude::*;
use vstd::std_specs::hash::DefaultHasherAdditionalSpecFns;

verus! {

/// The writes the hasher has received once `rounds` rounds are complete: for
/// each round the key bytes, then the round number as eight little-endian
/// bytes.
pub open spec fn probe_writes(key: Seq<u8>, rounds: nat) -> Seq<Seq<u8>>
    decreases rounds,
{
    if rounds == 0 {
        Seq::empty()
    } else {
        probe_writes(key, (rounds - 1) as nat).push(key).push(
            spec_u64_to_le_bytes((rounds - 1) as u64),
        )
    }
}

/// The 64-bit digest read at the end of round `round`.
pub open spec fn digest(key: Seq<u8>, round: nat) -> u64 {
    DefaultHasher::spec_finish(probe_writes(key, round + 1))
}

/// The byte index probed in round `round` for a bitmap of `size` bytes: the
/// digest reduced modulo the size.
pub open spec fn probe(key: Seq<u8>, round: nat, size: nat) -> int {
    digest(key, round) as int % size as int
}

/// The whole probe sequence of `key`: a leading index zero, then one index
/// per round, `hash_loop + 1` entries in all.
pub open spec fn probe_indices(key: Seq<u8>, hash_loop: nat, size: nat) -> Seq<int> {
    Seq::new(
        hash_loop + 1,
        |j: int|
            if j == 0 {
                0
            } else {
                probe(key, (j - 1) as nat, size)
            },
    )
}

/// Every probe of a key lands inside a bitmap that has at least one byte.
pub proof fn lemma_probes_in_range(key: Seq<u8>, hash_loop: nat, size: nat)
    requires
        size > 0,
    ensures
        probe_indices(key, hash_loop, size).len() == hash_loop + 1,
        forall|j: int|
            0 <= j <= hash_loop ==> 0 <= #[trigger] probe_indices(key, hash_loop, size)[j] < size,
{
}

} // verus!

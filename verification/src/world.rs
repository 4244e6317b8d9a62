//! The world: a cache from chunk position to chunk, filled on first use.
//!
//! A chunk is generated the first time its position is asked for and is kept from
//! then on, unchanged. There is at most one chunk per position and no chunk is
//! ever removed, so the number of chunks held is the number of generations made.

use std::collections::HashMap;
use vstd::prelude::*;
use vstd::relations::injective_on;
use vstd::set_lib::lemma_map_size;
use vstd::std_specs::hash::*;
use crate::chunk::{generated_by, noise_is_total, Chunk, Generator};
use crate::geometry::Pos;

verus! {

broadcast use group_hash_axioms;

/// The key under which the chunk at `pos` is stored: the two coordinates, each
/// moved to start at zero, side by side in one number.
pub open spec fn cache_key(pos: Pos) -> u64 {
    ((pos.x - i32::MIN) * 0x1_0000_0000 + (pos.y - i32::MIN)) as u64
}

/// Different positions have different keys.
pub proof fn lemma_cache_key_injective(p: Pos, q: Pos)
    requires
        cache_key(p) == cache_key(q),
    ensures
        p == q,
{
}

/// Computes the key under which the chunk at `pos` is stored.
pub fn cache_key_of(pos: Pos) -> (key: u64)
    ensures
        key == cache_key(pos),
{
    let high: u64 = (pos.x as i64 - i32::MIN as i64) as u64;
    let low: u64 = (pos.y as i64 - i32::MIN as i64) as u64;
    high * 0x1_0000_0000 + low
}

/// The chunks generated so far, and the generator that makes the missing ones.
pub struct World<F: Fn(i32, i32) -> i32> {
    generator: Generator<F>,
    chunks: HashMap<u64, Chunk>,
}

impl<F: Fn(i32, i32) -> i32> View for World<F> {
    type V = Map<Pos, Seq<u8>>;

    /// The cache as a map from chunk position to the glyphs of the chunk there.
    closed spec fn view(&self) -> Map<Pos, Seq<u8>> {
        Map::new(
            |pos: Pos| self.chunks@.contains_key(cache_key(pos)),
            |pos: Pos| self.chunks@[cache_key(pos)].grid(),
        )
    }
}

impl<F: Fn(i32, i32) -> i32> World<F> {
    /// The noise field that this world's chunks are generated from.
    pub closed spec fn source(&self) -> F {
        self.generator.source()
    }

    /// A world is well formed when its generator is, and every chunk it holds is
    /// well formed, is stored under its own position and was generated from the
    /// world's noise field.
    pub closed spec fn wf(&self) -> bool {
        &&& self.generator.wf()
        &&& forall|key: u64| #[trigger]
            self.chunks@.contains_key(key) ==> {
                &&& self.chunks@[key].wf()
                &&& cache_key(self.chunks@[key].position()) == key
                &&& generated_by(
                    self.generator.source(),
                    self.chunks@[key].position(),
                    self.chunks@[key].grid(),
                )
            }
    }

    /// The number of chunks generated so far: one for each position held.
    pub open spec fn generated(&self) -> nat {
        self@.dom().len()
    }

    /// What holds of every well-formed world: its noise field accepts every
    /// position, it holds finitely many chunks, and each of them lies in the
    /// world and was generated from the noise field at its own position.
    pub proof fn lemma_world_invariant(&self)
        requires
            self.wf(),
        ensures
            noise_is_total(self.source()),
            self@.dom().finite(),
            forall|pos: Pos| #[trigger]
                self@.contains_key(pos) ==> pos.is_chunk_in_world() && generated_by(
                    self.source(),
                    pos,
                    self@[pos],
                ),
    {
        self.lemma_one_key_per_position();
        assert forall|pos: Pos| #[trigger] self@.contains_key(pos) implies pos.is_chunk_in_world()
            && generated_by(self.source(), pos, self@[pos]) by {
            let key = cache_key(pos);
            assert(self.chunks@.contains_key(key));
            lemma_cache_key_injective(self.chunks@[key].position(), pos);
        }
    }

    /// The positions held are as many as the keys of the underlying table.
    proof fn lemma_one_key_per_position(&self)
        requires
            self.wf(),
        ensures
            self@.dom().finite(),
            self@.dom().len() == self.chunks@.dom().len(),
    {
        let keys = self.chunks@.dom();
        let position = |key: u64| self.chunks@[key].position();
        assert(keys.map(position) =~= self@.dom()) by {
            assert forall|pos: Pos| self@.dom().contains(pos) implies keys.map(position).contains(
                pos,
            ) by {
                let key = cache_key(pos);
                assert(keys.contains(key));
                lemma_cache_key_injective(position(key), pos);
            }
        }
        assert(injective_on(position, keys)) by {
            assert forall|a: u64, b: u64|
                keys.contains(a) && keys.contains(b) && #[trigger] position(a)
                    == #[trigger] position(b) implies a == b by {}
        }
        lemma_map_size(keys, self@.dom(), position);
    }

    /// Makes an empty world over `noise`, which gives the fixed-point sample at a
    /// world position.
    pub fn new(noise: F) -> (world: Self)
        requires
            noise_is_total(noise),
        ensures
            world.wf(),
            world.source() == noise,
            world@ == Map::<Pos, Seq<u8>>::empty(),
    {
        let generator = Generator::new(noise);
        let world = World { generator, chunks: HashMap::new() };
        assert(world@ =~= Map::<Pos, Seq<u8>>::empty());
        world
    }

    /// Tells whether the chunk at `pos` has been generated.
    pub fn contains(&self, pos: Pos) -> (found: bool)
        ensures
            found == self@.contains_key(pos),
    {
        self.chunks.contains_key(&cache_key_of(pos))
    }

    /// Returns the chunk at `pos` if it has been generated; generates nothing.
    pub fn chunk(&self, pos: Pos) -> (found: Option<&Chunk>)
        requires
            self.wf(),
        ensures
            found is Some == self@.contains_key(pos),
            found matches Some(chunk) ==> chunk.wf() && chunk.position() == pos && chunk.grid()
                == self@[pos],
    {
        let key = cache_key_of(pos);
        let found = self.chunks.get(&key);
        proof {
            if self.chunks@.contains_key(key) {
                lemma_cache_key_injective(self.chunks@[key].position(), pos);
            }
        }
        found
    }

    /// Returns the number of chunks held, which is the number of chunks ever generated.
    pub fn chunk_count(&self) -> (count: usize)
        requires
            self.wf(),
        ensures
            count == self.generated(),
    {
        proof {
            self.lemma_one_key_per_position();
        }
        self.chunks.len()
    }

    /// Generates the chunk at `pos` and stores it. The position must not hold a
    /// chunk yet: a second chunk for one position is never made.
    pub fn generate_chunk(&mut self, pos: Pos)
        requires
            old(self).wf(),
            pos.is_chunk_in_world(),
            !old(self)@.contains_key(pos),
        ensures
            final(self).wf(),
            final(self).source() == old(self).source(),
            final(self)@.contains_key(pos),
            final(self)@ == old(self)@.insert(pos, final(self)@[pos]),
            generated_by(final(self).source(), pos, final(self)@[pos]),
            final(self).generated() == old(self).generated() + 1,
    {
        proof {
            self.lemma_one_key_per_position();
        }
        let chunk = self.generator.generate_chunk(pos);
        let key = cache_key_of(pos);
        let ghost grid = chunk.grid();
        self.chunks.insert(key, chunk);
        proof {
            assert forall|other: Pos| other != pos implies cache_key(other) != key by {
                if cache_key(other) == key {
                    lemma_cache_key_injective(other, pos);
                }
            }
            assert(final(self)@ =~= old(self)@.insert(pos, grid));
        }
    }

    /// Returns the chunk at `pos`, generating and storing it first if the
    /// position holds none. A chunk that is already held is returned as it is,
    /// and nothing is generated.
    pub fn acquire_chunk(&mut self, pos: Pos) -> (chunk: &Chunk)
        requires
            old(self).wf(),
            pos.is_chunk_in_world(),
        ensures
            final(self).wf(),
            final(self).source() == old(self).source(),
            chunk.wf(),
            chunk.position() == pos,
            final(self)@.contains_key(pos),
            chunk.grid() == final(self)@[pos],
            generated_by(final(self).source(), pos, chunk.grid()),
            old(self)@.contains_key(pos) ==> final(self)@ == old(self)@,
            !old(self)@.contains_key(pos) ==> final(self)@ == old(self)@.insert(pos, chunk.grid()),
            final(self).generated() == old(self).generated() + generations_for(
                old(self)@.dom(),
                pos,
            ),
    {
        let has_chunk = self.contains(pos);
        if !has_chunk {
            self.generate_chunk(pos);
        }
        proof {
            self.lemma_world_invariant();
        }
        self.chunk(pos).unwrap()
    }
}

/// Number of chunks that acquiring `pos` generates in a world that holds the
/// positions `held`: one if the position is new, none if it is held.
pub open spec fn generations_for(held: Set<Pos>, pos: Pos) -> nat {
    if held.contains(pos) {
        0
    } else {
        1
    }
}

/// The positions held once each position of `requests` has been acquired in turn
/// by a world that held the positions `held`.
pub open spec fn held_after(held: Set<Pos>, requests: Seq<Pos>) -> Set<Pos>
    decreases requests.len(),
{
    if requests.len() == 0 {
        held
    } else {
        held_after(held, requests.drop_last()).insert(requests.last())
    }
}

/// Number of chunks generated while each position of `requests` is acquired in
/// turn by a world that held the positions `held`.
pub open spec fn generations_during(held: Set<Pos>, requests: Seq<Pos>) -> nat
    decreases requests.len(),
{
    if requests.len() == 0 {
        0
    } else {
        generations_during(held, requests.drop_last()) + generations_for(
            held_after(held, requests.drop_last()),
            requests.last(),
        )
    }
}

/// Over any sequence of acquisitions, one chunk is generated for each distinct
/// position that was not held before, and none for a position asked for again:
/// the world ends up holding what it held and what was asked for, and in a world
/// that started empty the number of generations is the number of distinct
/// positions asked for.
pub proof fn lemma_one_generation_per_position(held: Set<Pos>, requests: Seq<Pos>)
    requires
        held.finite(),
    ensures
        held_after(held, requests) == held + requests.to_set(),
        held_after(held, requests).finite(),
        held.len() + generations_during(held, requests) == held_after(held, requests).len(),
        held.is_empty() ==> generations_during(held, requests) == requests.to_set().len(),
    decreases requests.len(),
{
    if requests.len() == 0 {
        assert(requests.to_set() =~= Set::<Pos>::empty());
        assert(held + requests.to_set() =~= held);
    } else {
        let earlier = requests.drop_last();
        lemma_one_generation_per_position(held, earlier);
        assert(requests.to_set() =~= earlier.to_set().insert(requests.last())) by {
            assert forall|pos: Pos| requests.to_set().contains(pos) implies earlier.to_set().insert(
                requests.last(),
            ).contains(pos) by {
                let i = choose|i: int| 0 <= i < requests.len() && requests[i] == pos;
                if i < earlier.len() {
                    assert(earlier[i] == pos);
                }
            }
            assert forall|pos: Pos| earlier.to_set().contains(pos) implies requests.to_set().contains(
                pos,
            ) by {
                let i = choose|i: int| 0 <= i < earlier.len() && earlier[i] == pos;
                assert(requests[i] == pos);
            }
            assert(requests[requests.len() - 1] == requests.last());
        }
        assert(held + requests.to_set() =~= (held + earlier.to_set()).insert(requests.last()));
    }
    if held.is_empty() {
        assert(held + requests.to_set() =~= requests.to_set());
    }
}

} // verus!

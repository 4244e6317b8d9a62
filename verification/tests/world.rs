use noise_world::palette::quantize;
use noise_world::world::cache_key_of;
use noise_world::{Chunk, Pos, World, CHUNK_CELLS};

fn waves(x: i32, y: i32) -> i32 {
    let mixed = (x as i64) * 1_234_567 - (y as i64) * 7_654_321;
    (mixed.rem_euclid(131_073) - 65_536) as i32
}

fn grid_of(chunk: &Chunk) -> Vec<u8> {
    let mut grid = Vec::new();
    for ly in 0..128usize {
        grid.extend(chunk.row(ly, 0, 128));
    }
    grid
}

#[test]
fn cache_key_packs_both_coordinates() {
    assert_eq!(cache_key_of(Pos { x: i32::MIN, y: i32::MIN }), 0);
    assert_eq!(cache_key_of(Pos { x: i32::MIN, y: i32::MAX }), 0xffff_ffff);
    assert_eq!(cache_key_of(Pos { x: 0, y: 0 }), 0x8000_0000_8000_0000);
    assert_eq!(cache_key_of(Pos { x: 2, y: 3 }), 0x8000_0002_8000_0003);
    assert_eq!(cache_key_of(Pos { x: -1, y: -1 }), 0x7fff_ffff_7fff_ffff);
    assert_eq!(cache_key_of(Pos { x: i32::MAX, y: i32::MAX }), u64::MAX);
}

#[test]
fn cache_keys_of_different_positions_differ() {
    let coords = [i32::MIN, -2, -1, 0, 1, 2, i32::MAX];
    let mut keys = Vec::new();
    for &x in coords.iter() {
        for &y in coords.iter() {
            keys.push(cache_key_of(Pos { x, y }));
        }
    }
    let total = keys.len();
    keys.sort();
    keys.dedup();
    assert_eq!(keys.len(), total);
}

#[test]
fn new_world_holds_no_chunk() {
    let world = World::new(waves);
    assert_eq!(world.chunk_count(), 0);
    assert!(!world.contains(Pos { x: 0, y: 0 }));
    assert!(world.chunk(Pos { x: 0, y: 0 }).is_none());
}

#[test]
fn acquire_generates_a_missing_chunk() {
    let mut world = World::new(waves);
    let pos = Pos { x: -4, y: 6 };
    let chunk = world.acquire_chunk(pos);
    assert_eq!(chunk.pos(), pos);
    for ly in 0..128usize {
        for lx in 0..128usize {
            let expected = quantize(waves(-4 * 128 + lx as i32, 6 * 128 + ly as i32));
            assert_eq!(chunk.glyph_at(lx, ly), expected);
        }
    }
    assert!(world.contains(pos));
    assert_eq!(world.chunk_count(), 1);
}

#[test]
fn second_acquire_returns_the_same_chunk_without_generating() {
    let calls = std::cell::Cell::new(0usize);
    let counted = |x: i32, y: i32| {
        calls.set(calls.get() + 1);
        waves(x, y)
    };
    let mut world = World::new(counted);
    let pos = Pos { x: 2, y: 3 };
    let first = grid_of(world.acquire_chunk(pos));
    assert_eq!(calls.get(), CHUNK_CELLS);
    assert_eq!(world.chunk_count(), 1);
    let second = grid_of(world.acquire_chunk(pos));
    assert_eq!(calls.get(), CHUNK_CELLS);
    assert_eq!(world.chunk_count(), 1);
    assert_eq!(first, second);
    assert_eq!(world.acquire_chunk(pos).pos(), pos);
}

#[test]
fn one_generation_per_distinct_position() {
    let calls = std::cell::Cell::new(0usize);
    let counted = |x: i32, y: i32| {
        calls.set(calls.get() + 1);
        waves(x, y)
    };
    let mut world = World::new(counted);
    let requests = [
        Pos { x: 0, y: 0 },
        Pos { x: 1, y: 0 },
        Pos { x: 0, y: 0 },
        Pos { x: 0, y: 1 },
        Pos { x: 1, y: 0 },
        Pos { x: -1, y: -1 },
        Pos { x: 0, y: 0 },
        Pos { x: 0, y: 1 },
    ];
    let mut distinct: Vec<Pos> = Vec::new();
    for &pos in requests.iter() {
        world.acquire_chunk(pos);
        if !distinct.contains(&pos) {
            distinct.push(pos);
        }
        assert_eq!(world.chunk_count(), distinct.len());
        assert_eq!(calls.get(), distinct.len() * CHUNK_CELLS);
    }
    assert_eq!(world.chunk_count(), 4);
}

#[test]
fn cached_chunks_stay_unchanged() {
    let mut world = World::new(waves);
    let first = grid_of(world.acquire_chunk(Pos { x: 5, y: 5 }));
    world.acquire_chunk(Pos { x: 6, y: 5 });
    world.acquire_chunk(Pos { x: 5, y: 6 });
    let again = grid_of(world.acquire_chunk(Pos { x: 5, y: 5 }));
    assert_eq!(first, again);
    let held = grid_of(world.chunk(Pos { x: 5, y: 5 }).unwrap());
    assert_eq!(first, held);
    assert_eq!(world.chunk_count(), 3);
}

#[test]
fn generate_chunk_stores_the_chunk() {
    let mut world = World::new(waves);
    let pos = Pos { x: 9, y: -9 };
    world.generate_chunk(pos);
    assert!(world.contains(pos));
    assert!(!world.contains(Pos { x: -9, y: 9 }));
    assert_eq!(world.chunk_count(), 1);
    let chunk = world.chunk(pos).unwrap();
    assert_eq!(chunk.pos(), pos);
    assert_eq!(chunk.glyph_at(0, 0), quantize(waves(9 * 128, -9 * 128)));
}

#[test]
fn lookup_does_not_generate() {
    let calls = std::cell::Cell::new(0usize);
    let counted = |x: i32, y: i32| {
        calls.set(calls.get() + 1);
        waves(x, y)
    };
    let world = World::new(counted);
    assert!(world.chunk(Pos { x: 1, y: 1 }).is_none());
    assert!(!world.contains(Pos { x: 1, y: 1 }));
    assert_eq!(calls.get(), 0);
    assert_eq!(world.chunk_count(), 0);
}

#[test]
fn chunks_at_the_edges_of_the_world_are_told_apart() {
    let mut world = World::new(waves);
    let corners = [
        Pos { x: -16_777_216, y: -16_777_216 },
        Pos { x: -16_777_216, y: 16_777_215 },
        Pos { x: 16_777_215, y: -16_777_216 },
        Pos { x: 16_777_215, y: 16_777_215 },
    ];
    for &pos in corners.iter() {
        assert_eq!(world.acquire_chunk(pos).pos(), pos);
    }
    assert_eq!(world.chunk_count(), 4);
    for &pos in corners.iter() {
        assert_eq!(world.chunk(pos).unwrap().pos(), pos);
    }
}

//! World cells, chunk coordinates and the conversions between them.
//!
//! A world position names one terminal-cell-sized point of the terrain. A chunk
//! position names one square tile of `CHUNK_SIZE` by `CHUNK_SIZE` cells and equals
//! the world position divided by `CHUNK_SIZE`, rounded towards negative infinity.

use vstd::prelude::*;

verus! {

/// Side length of a chunk, in cells.
pub const CHUNK_SIZE: i32 = 128;

/// Number of cells in a chunk.
pub const CHUNK_CELLS: usize = 16384;

/// Smallest chunk coordinate whose cells are world positions.
pub const MIN_CHUNK_COORD: i32 = -16777216;

/// Largest chunk coordinate whose cells are world positions.
pub const MAX_CHUNK_COORD: i32 = 16777215;

/// An integer pair: a world position, a chunk position, or an offset inside a chunk.
#[derive(Copy, Clone, Debug, PartialEq, Eq, Structural)]
pub struct Pos {
    pub x: i32,
    pub y: i32,
}

/// The chunk coordinate that holds world coordinate `p` on one axis: `p / CHUNK_SIZE`
/// rounded down.
pub open spec fn chunk_coord(p: int) -> int {
    p / (CHUNK_SIZE as int)
}

/// The offset of world coordinate `p` inside its chunk on one axis.
pub open spec fn local_coord(p: int) -> int {
    p % (CHUNK_SIZE as int)
}

/// The first world coordinate of chunk coordinate `c` on one axis.
pub open spec fn chunk_origin(c: int) -> int {
    c * (CHUNK_SIZE as int)
}

/// Whether every cell of chunk coordinate `c` is a world coordinate.
pub open spec fn chunk_coord_in_world(c: int) -> bool {
    MIN_CHUNK_COORD <= c <= MAX_CHUNK_COORD
}

/// `value` limited to the range from `low` to `high`.
pub open spec fn clamp(value: int, low: int, high: int) -> int {
    if value < low {
        low
    } else if value > high {
        high
    } else {
        value
    }
}

/// Splitting a world coordinate into chunk coordinate and offset loses nothing: the
/// offset lies inside the chunk, also for a negative coordinate, and origin plus
/// offset gives the coordinate back.
pub proof fn lemma_coord_round_trip(p: int)
    ensures
        0 <= p - chunk_origin(chunk_coord(p)) < CHUNK_SIZE,
        p - chunk_origin(chunk_coord(p)) == local_coord(p),
        chunk_origin(chunk_coord(p)) + local_coord(p) == p,
{
}

/// A cell further along an axis never lies in an earlier chunk.
pub proof fn lemma_chunk_coord_monotone(p: int, q: int)
    requires
        p <= q,
    ensures
        chunk_coord(p) <= chunk_coord(q),
{
}

/// Computes the chunk coordinate of world coordinate `p`, rounding down.
pub fn chunk_coord_of(p: i32) -> (c: i32)
    ensures
        c == chunk_coord(p as int),
        chunk_coord_in_world(c as int),
{
    if p >= 0 {
        p / CHUNK_SIZE
    } else {
        -1 - ((-1 - p) / CHUNK_SIZE)
    }
}

/// Computes the offset of world coordinate `p` inside its chunk.
pub fn local_coord_of(p: i32) -> (l: i32)
    ensures
        l == local_coord(p as int),
        0 <= l < CHUNK_SIZE,
        chunk_origin(chunk_coord(p as int)) + l == p,
{
    if p >= 0 {
        p % CHUNK_SIZE
    } else {
        (CHUNK_SIZE - 1) - ((-1 - p) % CHUNK_SIZE)
    }
}

/// Limits `value` to the range from `low` to `high`.
pub fn clamp_to(value: i64, low: i64, high: i64) -> (r: i64)
    requires
        low <= high,
    ensures
        r == clamp(value as int, low as int, high as int),
        low <= r <= high,
{
    if value < low {
        low
    } else if value > high {
        high
    } else {
        value
    }
}

impl Pos {
    /// Whether this is the position of a chunk all of whose cells are world positions.
    pub open spec fn is_chunk_in_world(self) -> bool {
        chunk_coord_in_world(self.x as int) && chunk_coord_in_world(self.y as int)
    }

    /// The chunk position of the chunk that holds world position `self`.
    pub open spec fn spec_chunk_of(self) -> Pos {
        Pos { x: chunk_coord(self.x as int) as i32, y: chunk_coord(self.y as int) as i32 }
    }

    /// The offset of world position `self` inside its chunk.
    pub open spec fn spec_local_in_chunk(self) -> Pos {
        Pos { x: local_coord(self.x as int) as i32, y: local_coord(self.y as int) as i32 }
    }

    /// The world position of the first cell of chunk `self`.
    pub open spec fn spec_chunk_origin(self) -> Pos {
        Pos { x: chunk_origin(self.x as int) as i32, y: chunk_origin(self.y as int) as i32 }
    }

    /// Converts a world position to the position of the chunk that holds it.
    pub fn chunk_of(self) -> (c: Pos)
        ensures
            c == self.spec_chunk_of(),
            c.x == chunk_coord(self.x as int),
            c.y == chunk_coord(self.y as int),
            c.is_chunk_in_world(),
    {
        Pos { x: chunk_coord_of(self.x), y: chunk_coord_of(self.y) }
    }

    /// Converts a world position to its offset inside the chunk that holds it.
    pub fn local_in_chunk(self) -> (l: Pos)
        ensures
            l == self.spec_local_in_chunk(),
            0 <= l.x < CHUNK_SIZE,
            0 <= l.y < CHUNK_SIZE,
            chunk_origin(self.spec_chunk_of().x as int) + l.x == self.x,
            chunk_origin(self.spec_chunk_of().y as int) + l.y == self.y,
    {
        Pos { x: local_coord_of(self.x), y: local_coord_of(self.y) }
    }

    /// Converts a chunk position to the world position of its first cell.
    pub fn chunk_origin(self) -> (o: Pos)
        requires
            self.is_chunk_in_world(),
        ensures
            o == self.spec_chunk_origin(),
            o.x == chunk_origin(self.x as int),
            o.y == chunk_origin(self.y as int),
    {
        Pos { x: self.x * CHUNK_SIZE, y: self.y * CHUNK_SIZE }
    }
}

} // verus!

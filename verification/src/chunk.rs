//! Chunks and the generator that fills them from a noise field.
//!
//! A chunk is a square tile of glyphs, one per world cell, stored row by row. Its
//! content depends on nothing but its position and the noise field it was
//! generated from.

use vstd::prelude::*;
use crate::geometry::{chunk_origin, Pos, CHUNK_CELLS, CHUNK_SIZE};
use crate::palette::{quantize, quantize_glyph};

verus! {

/// The place of the cell at column `lx`, row `ly` in a chunk's grid.
pub open spec fn cell_index(lx: int, ly: int) -> int {
    ly * (CHUNK_SIZE as int) + lx
}

/// Whether `(lx, ly)` is an offset inside a chunk.
pub open spec fn in_chunk(lx: int, ly: int) -> bool {
    0 <= lx < CHUNK_SIZE && 0 <= ly < CHUNK_SIZE
}

/// Computes the place of the cell at column `lx`, row `ly` in a chunk's grid.
pub fn cell_offset(lx: usize, ly: usize) -> (index: usize)
    requires
        in_chunk(lx as int, ly as int),
    ensures
        index == cell_index(lx as int, ly as int),
        index < CHUNK_CELLS,
{
    let side: usize = CHUNK_SIZE as usize;
    assert(side == 128);
    ly * side + lx
}

/// Whether the noise field accepts every world position.
pub open spec fn noise_is_total<F: Fn(i32, i32) -> i32>(noise: F) -> bool {
    forall|x: i32, y: i32| call_requires(noise, (x, y))
}

/// Whether the noise field has exactly one sample at each world position.
pub open spec fn noise_is_deterministic<F: Fn(i32, i32) -> i32>(noise: F) -> bool {
    forall|x: i32, y: i32, v: i32, w: i32|
        call_ensures(noise, (x, y), v) && call_ensures(noise, (x, y), w) ==> v == w
}

/// Whether `glyph` is what the quantizer gives for a sample of the noise field at
/// world position `(x, y)`.
pub open spec fn glyph_sampled<F: Fn(i32, i32) -> i32>(noise: F, x: int, y: int, glyph: u8) -> bool {
    exists|value: i32|
        #![trigger quantize_glyph(value as int)]
        call_ensures(noise, (x as i32, y as i32), value) && glyph == quantize_glyph(value as int)
}

/// Whether `glyph` is what the quantizer gives for a sample of the noise field at
/// the world cell at offset `(lx, ly)` of the chunk at `pos`.
pub open spec fn cell_sampled<F: Fn(i32, i32) -> i32>(
    noise: F,
    pos: Pos,
    lx: int,
    ly: int,
    glyph: u8,
) -> bool {
    glyph_sampled(noise, chunk_origin(pos.x as int) + lx, chunk_origin(pos.y as int) + ly, glyph)
}

/// Samples the noise field at world position `(x, y)` and quantizes the sample.
pub fn sample_glyph<F: Fn(i32, i32) -> i32>(noise: &F, x: i32, y: i32) -> (glyph: u8)
    requires
        call_requires(*noise, (x, y)),
    ensures
        glyph_sampled(*noise, x as int, y as int, glyph),
{
    let value: i32 = noise(x, y);
    quantize(value)
}

/// Whether `grid` is a full grid for the chunk at `pos`, each cell of it sampled
/// from the noise field at that cell's world position and quantized.
pub open spec fn generated_by<F: Fn(i32, i32) -> i32>(noise: F, pos: Pos, grid: Seq<u8>) -> bool {
    &&& grid.len() == CHUNK_CELLS
    &&& forall|lx: int, ly: int|
        in_chunk(lx, ly) ==> cell_sampled(noise, pos, lx, ly, #[trigger] grid[cell_index(lx, ly)])
}

/// A square tile of generated glyphs.
pub struct Chunk {
    pos: Pos,
    data: [u8; CHUNK_CELLS],
}

impl Chunk {
    /// The chunk position that identifies this chunk.
    pub closed spec fn position(&self) -> Pos {
        self.pos
    }

    /// The glyphs, row by row.
    pub closed spec fn grid(&self) -> Seq<u8> {
        self.data@
    }

    /// The glyph at column `lx`, row `ly`.
    pub open spec fn glyph(&self, lx: int, ly: int) -> u8 {
        self.grid()[cell_index(lx, ly)]
    }

    /// A chunk is well formed when all its cells are world positions and its grid is full.
    pub open spec fn wf(&self) -> bool {
        &&& self.position().is_chunk_in_world()
        &&& self.grid().len() == CHUNK_CELLS
    }

    /// Returns the chunk position.
    pub fn pos(&self) -> (p: Pos)
        ensures
            p == self.position(),
    {
        self.pos
    }

    /// Returns the world position of the chunk's first cell.
    pub fn world_pos(&self) -> (origin: Pos)
        requires
            self.wf(),
        ensures
            origin == self.position().spec_chunk_origin(),
            origin.x == chunk_origin(self.position().x as int),
            origin.y == chunk_origin(self.position().y as int),
    {
        self.pos.chunk_origin()
    }

    /// Returns the glyph at column `lx`, row `ly`.
    pub fn glyph_at(&self, lx: usize, ly: usize) -> (glyph: u8)
        requires
            in_chunk(lx as int, ly as int),
        ensures
            glyph == self.glyph(lx as int, ly as int),
    {
        self.data[cell_offset(lx, ly)]
    }

    /// Copies the glyphs of row `ly` from column `from` up to, not including, column `to`.
    pub fn row(&self, ly: usize, from: usize, to: usize) -> (glyphs: Vec<u8>)
        requires
            ly < CHUNK_SIZE,
            from <= to <= CHUNK_SIZE,
        ensures
            glyphs@.len() == to - from,
            forall|k: int| 0 <= k < to - from ==> glyphs@[k] == self.glyph(from + k, ly as int),
    {
        let mut glyphs: Vec<u8> = Vec::new();
        let mut lx: usize = from;
        while lx < to
            invariant
                ly < CHUNK_SIZE,
                from <= lx <= to <= CHUNK_SIZE,
                glyphs@.len() == lx - from,
                forall|k: int| 0 <= k < lx - from ==> glyphs@[k] == self.glyph(from + k, ly as int),
            decreases to - lx,
        {
            glyphs.push(self.data[cell_offset(lx, ly)]);
            lx = lx + 1;
        }
        glyphs
    }
}

/// Produces chunks from a noise field.
pub struct Generator<F: Fn(i32, i32) -> i32> {
    noise: F,
}

impl<F: Fn(i32, i32) -> i32> Generator<F> {
    /// The noise field that this generator samples.
    pub closed spec fn source(&self) -> F {
        self.noise
    }

    /// A generator is well formed when its noise field accepts every world position.
    pub open spec fn wf(&self) -> bool {
        noise_is_total(self.source())
    }

    /// Makes a generator over `noise`, which gives the fixed-point sample at a
    /// world position.
    pub fn new(noise: F) -> (generator: Self)
        requires
            noise_is_total(noise),
        ensures
            generator.source() == noise,
            generator.wf(),
    {
        Generator { noise }
    }

    /// Generates the chunk at `pos`: every cell is sampled at its world position
    /// and quantized.
    #[verifier::loop_isolation(false)]
    pub fn generate_chunk(&self, pos: Pos) -> (chunk: Chunk)
        requires
            self.wf(),
            pos.is_chunk_in_world(),
        ensures
            chunk.wf(),
            chunk.position() == pos,
            generated_by(self.source(), pos, chunk.grid()),
    {
        let origin = pos.chunk_origin();
        let mut data = [0u8; CHUNK_CELLS];
        let mut y: i32 = 0;
        while y < CHUNK_SIZE
            invariant
                0 <= y <= CHUNK_SIZE,
                forall|lx: int, ly: int|
                    in_chunk(lx, ly) && ly < y ==> cell_sampled(
                        self.source(),
                        pos,
                        lx,
                        ly,
                        #[trigger] data@[cell_index(lx, ly)],
                    ),
            decreases CHUNK_SIZE - y,
        {
            let mut x: i32 = 0;
            while x < CHUNK_SIZE
                invariant
                    0 <= x <= CHUNK_SIZE,
                    forall|lx: int, ly: int|
                        in_chunk(lx, ly) && (ly < y || (ly == y && lx < x)) ==> cell_sampled(
                            self.source(),
                            pos,
                            lx,
                            ly,
                            #[trigger] data@[cell_index(lx, ly)],
                        ),
                decreases CHUNK_SIZE - x,
            {
                let noise_x: i32 = origin.x + x;
                let noise_y: i32 = origin.y + y;
                assert(call_requires(self.source(), (noise_x, noise_y)));
                let glyph: u8 = sample_glyph(&self.noise, noise_x, noise_y);
                let index: usize = (y * CHUNK_SIZE + x) as usize;
                assert(forall|lx: int, ly: int|
                    in_chunk(lx, ly) && !(lx == x && ly == y) ==> #[trigger] cell_index(lx, ly)
                        != index);
                data[index] = glyph;
                x = x + 1;
            }
            y = y + 1;
        }
        Chunk { pos, data }
    }
}

/// A noise field with one sample per position gives one grid per chunk position:
/// two grids generated at the same position are equal, cell for cell.
pub proof fn lemma_generation_deterministic<F: Fn(i32, i32) -> i32>(
    noise: F,
    pos: Pos,
    first: Seq<u8>,
    second: Seq<u8>,
)
    requires
        noise_is_deterministic(noise),
        generated_by(noise, pos, first),
        generated_by(noise, pos, second),
    ensures
        first == second,
{
    assert forall|i: int| 0 <= i < first.len() implies first[i] == second[i] by {
        let lx = i % (CHUNK_SIZE as int);
        let ly = i / (CHUNK_SIZE as int);
        assert(in_chunk(lx, ly));
        assert(cell_index(lx, ly) == i);
        assert(cell_sampled(noise, pos, lx, ly, first[cell_index(lx, ly)]));
        assert(cell_sampled(noise, pos, lx, ly, second[cell_index(lx, ly)]));
    }
    assert(first =~= second);
}

} // verus!

//! Whole frames: the row writes for everything a camera sees.
//!
//! A frame of the chunked world goes through the chunk positions in view, takes
//! each chunk from the world and draws its visible part. The fixed-camera view
//! needs no chunks: it samples the noise field once per screen cell.

use vstd::prelude::*;
use crate::chunk::{
    cell_index, cell_sampled, generated_by, glyph_sampled, in_chunk, noise_is_total, sample_glyph,
};
use crate::geometry::Pos;
use crate::render::{draws, lemma_chunk_draws_visible_cell, render_chunk, row_on_screen, rows_view, visible_rows, Row, RowWrite};
use crate::viewport::{chunks_in_view, lemma_visible_cell_enumerated, viewport_in_world, visible_chunks};
use crate::world::World;

verus! {

/// The row writes of a whole frame: those of each chunk position in turn, the
/// chunk's glyphs taken from `cache`.
pub open spec fn frame_rows(
    camera: Pos,
    width: int,
    height: int,
    positions: Seq<Pos>,
    cache: Map<Pos, Seq<u8>>,
) -> Seq<Row>
    decreases positions.len(),
{
    if positions.len() == 0 {
        Seq::empty()
    } else {
        frame_rows(camera, width, height, positions.drop_last(), cache) + visible_rows(
            camera,
            width,
            height,
            positions.last(),
            cache[positions.last()],
        )
    }
}

/// A frame depends on the cache only at the positions it goes through.
pub proof fn lemma_frame_rows_same_chunks(
    camera: Pos,
    width: int,
    height: int,
    positions: Seq<Pos>,
    cache: Map<Pos, Seq<u8>>,
    other: Map<Pos, Seq<u8>>,
)
    requires
        forall|i: int|
            0 <= i < positions.len() ==> cache[#[trigger] positions[i]] == other[positions[i]],
    ensures
        frame_rows(camera, width, height, positions, cache) == frame_rows(
            camera,
            width,
            height,
            positions,
            other,
        ),
    decreases positions.len(),
{
    if positions.len() > 0 {
        let front = positions.drop_last();
        assert forall|i: int| 0 <= i < front.len() implies cache[#[trigger] front[i]]
            == other[front[i]] by {
            assert(front[i] == positions[i]);
        }
        lemma_frame_rows_same_chunks(camera, width, height, front, cache, other);
        assert(cache[positions.last()] == other[positions.last()]);
    }
}

/// The row writes of each chunk stand in the frame one after another: those of
/// the chunk at index `i` start at the index that is returned.
proof fn lemma_frame_holds_chunk_rows(
    camera: Pos,
    width: int,
    height: int,
    positions: Seq<Pos>,
    cache: Map<Pos, Seq<u8>>,
    i: int,
) -> (start: int)
    requires
        0 <= i < positions.len(),
    ensures
        0 <= start,
        start + visible_rows(camera, width, height, positions[i], cache[positions[i]]).len()
            <= frame_rows(camera, width, height, positions, cache).len(),
        forall|n: int|
            0 <= n < visible_rows(camera, width, height, positions[i], cache[positions[i]]).len()
                ==> #[trigger] frame_rows(camera, width, height, positions, cache)[start + n]
                == visible_rows(camera, width, height, positions[i], cache[positions[i]])[n],
    decreases positions.len(),
{
    let front = positions.drop_last();
    if i == positions.len() - 1 {
        frame_rows(camera, width, height, front, cache).len() as int
    } else {
        assert(front[i] == positions[i]);
        lemma_frame_holds_chunk_rows(camera, width, height, front, cache, i)
    }
}

/// A frame covers the screen: every cell on screen lies in a chunk that the frame
/// goes through, and the frame puts that chunk's glyph for the cell on the screen
/// cell that shows it.
pub proof fn lemma_frame_draws_visible_cell(
    camera: Pos,
    width: int,
    height: int,
    cell: Pos,
    cache: Map<Pos, Seq<u8>>,
)
    requires
        1 <= width <= u16::MAX,
        1 <= height <= u16::MAX,
        camera.x <= cell.x < camera.x + width,
        camera.y <= cell.y < camera.y + height,
    ensures
        chunks_in_view(camera, width, height).contains(cell.spec_chunk_of()),
        draws(
            frame_rows(camera, width, height, chunks_in_view(camera, width, height), cache),
            cell.x - camera.x,
            cell.y - camera.y,
            cache[cell.spec_chunk_of()][cell_index(
                cell.spec_local_in_chunk().x as int,
                cell.spec_local_in_chunk().y as int,
            )],
        ),
{
    let positions = chunks_in_view(camera, width, height);
    let pos = cell.spec_chunk_of();
    let local = cell.spec_local_in_chunk();
    let glyph = cache[pos][cell_index(local.x as int, local.y as int)];
    lemma_visible_cell_enumerated(camera, width, height, cell);
    let i = choose|i: int| 0 <= i < positions.len() && positions[i] == pos;
    let start = lemma_frame_holds_chunk_rows(camera, width, height, positions, cache, i);
    let frame = frame_rows(camera, width, height, positions, cache);
    let rows = visible_rows(camera, width, height, pos, cache[pos]);
    lemma_chunk_draws_visible_cell(camera, width, height, cell, cache[pos]);
    let (n, j) = choose|n: int, j: int|
        #![trigger rows[n].glyphs[j]]
        {
            &&& 0 <= n < rows.len()
            &&& 0 <= j < rows[n].glyphs.len()
            &&& rows[n].row == cell.y - camera.y
            &&& rows[n].col + j == cell.x - camera.x
            &&& rows[n].glyphs[j] == glyph
        };
    assert(frame[start + n] == rows[n]);
    assert(frame[start + n].glyphs[j] == glyph);
}

/// What a frame shows is the noise field: on every screen cell the frame puts a
/// glyph that the quantizer gives for a sample of the noise field at the world
/// position that the cell shows, as long as the chunk of that position was
/// generated from the noise field.
pub proof fn lemma_frame_shows_noise<F: Fn(i32, i32) -> i32>(
    noise: F,
    camera: Pos,
    width: int,
    height: int,
    cell: Pos,
    cache: Map<Pos, Seq<u8>>,
)
    requires
        1 <= width <= u16::MAX,
        1 <= height <= u16::MAX,
        camera.x <= cell.x < camera.x + width,
        camera.y <= cell.y < camera.y + height,
        generated_by(noise, cell.spec_chunk_of(), cache[cell.spec_chunk_of()]),
    ensures
        exists|glyph: u8|
            #![trigger glyph_sampled(noise, cell.x as int, cell.y as int, glyph)]
            glyph_sampled(noise, cell.x as int, cell.y as int, glyph) && draws(
                frame_rows(camera, width, height, chunks_in_view(camera, width, height), cache),
                cell.x - camera.x,
                cell.y - camera.y,
                glyph,
            ),
{
    let pos = cell.spec_chunk_of();
    let local = cell.spec_local_in_chunk();
    let glyph = cache[pos][cell_index(local.x as int, local.y as int)];
    lemma_frame_draws_visible_cell(camera, width, height, cell, cache);
    assert(in_chunk(local.x as int, local.y as int));
    assert(cell_sampled(noise, pos, local.x as int, local.y as int, glyph));
    assert(glyph_sampled(noise, cell.x as int, cell.y as int, glyph));
}

/// Draws one frame: goes through the chunk positions in view, takes each chunk
/// from the world, which generates those it does not hold yet, and collects the
/// row writes for the visible part of each.
pub fn render_chunks_on_screen<F: Fn(i32, i32) -> i32>(
    world: &mut World<F>,
    camera: Pos,
    width: u16,
    height: u16,
) -> (rows: Vec<RowWrite>)
    requires
        old(world).wf(),
        width >= 1,
        height >= 1,
        viewport_in_world(camera, width as int, height as int),
    ensures
        final(world).wf(),
        final(world).source() == old(world).source(),
        forall|pos: Pos|
            final(world)@.contains_key(pos) <==> old(world)@.contains_key(pos) || chunks_in_view(
                camera,
                width as int,
                height as int,
            ).contains(pos),
        forall|pos: Pos| old(world)@.contains_key(pos) ==> final(world)@[pos] == old(world)@[pos],
        rows_view(rows@) == frame_rows(
            camera,
            width as int,
            height as int,
            chunks_in_view(camera, width as int, height as int),
            final(world)@,
        ),
        forall|k: int|
            0 <= k < rows@.len() ==> row_on_screen(#[trigger] rows@[k]@, width as int, height as int),
{
    let positions = visible_chunks(camera, width, height);
    let mut rows: Vec<RowWrite> = Vec::new();
    let mut i: usize = 0;
    while i < positions.len()
        invariant
            width >= 1,
            height >= 1,
            i <= positions@.len(),
            forall|n: int| 0 <= n < positions@.len() ==> (#[trigger] positions@[n]).is_chunk_in_world(),
            world.wf(),
            world.source() == old(world).source(),
            forall|pos: Pos|
                world@.contains_key(pos) <==> old(world)@.contains_key(pos) || positions@.take(
                    i as int,
                ).contains(pos),
            forall|pos: Pos| old(world)@.contains_key(pos) ==> world@[pos] == old(world)@[pos],
            rows_view(rows@) == frame_rows(
                camera,
                width as int,
                height as int,
                positions@.take(i as int),
                world@,
            ),
            forall|k: int|
                0 <= k < rows@.len() ==> row_on_screen(
                    #[trigger] rows@[k]@,
                    width as int,
                    height as int,
                ),
        decreases positions@.len() - i,
    {
        let pos = positions[i];
        let ghost before = world@;
        let ghost rows_before = rows@;
        let ghost done = positions@.take(i as int);
        let ghost next = positions@.take(i + 1);
        let chunk = world.acquire_chunk(pos);
        let mut chunk_rows = render_chunk(camera, width, height, chunk);
        let ghost added = chunk_rows@;
        rows.append(&mut chunk_rows);
        proof {
            assert(next.drop_last() =~= done);
            assert(next.last() == pos);
            assert forall|n: int| 0 <= n < done.len() implies before[#[trigger] done[n]]
                == world@[done[n]] by {
                assert(done.contains(done[n]));
            }
            lemma_frame_rows_same_chunks(camera, width as int, height as int, done, before, world@);
            assert(rows_view(rows@) =~= rows_view(rows_before) + rows_view(added));
            assert forall|p: Pos|
                world@.contains_key(p) <==> old(world)@.contains_key(p) || next.contains(p) by {
                if next.contains(p) {
                    let n = choose|n: int| 0 <= n < next.len() && next[n] == p;
                    if n < i {
                        assert(done[n] == p);
                    }
                }
                if done.contains(p) {
                    let n = choose|n: int| 0 <= n < done.len() && done[n] == p;
                    assert(next[n] == p);
                }
            }
        }
        i = i + 1;
    }
    proof {
        assert(positions@.take(i as int) =~= positions@);
    }
    rows
}

/// The place of screen cell `(x, y)` in a full-screen buffer for a screen of
/// `width` columns, stored row by row.
pub open spec fn screen_index(x: int, y: int, width: int) -> int {
    y * width + x
}

/// Builds the full-screen buffer of one frame of the fixed-camera view: the glyph
/// of screen cell `(x, y)` is sampled at world position `(x, y + offset)`, so
/// that a growing `offset` scrolls the terrain upwards.
#[verifier::loop_isolation(false)]
pub fn fixed_camera_frame<F: Fn(i32, i32) -> i32>(
    noise: &F,
    width: u16,
    height: u16,
    offset: i32,
) -> (buffer: Vec<u8>)
    requires
        noise_is_total(*noise),
        offset + height <= i32::MAX,
    ensures
        buffer@.len() == width * height,
        forall|x: int, y: int|
            0 <= x < width && 0 <= y < height ==> glyph_sampled(
                *noise,
                x,
                y + offset,
                #[trigger] buffer@[screen_index(x, y, width as int)],
            ),
{
    let mut buffer: Vec<u8> = Vec::new();
    let mut y: u16 = 0;
    while y < height
        invariant
            y <= height,
            buffer@.len() == y * width,
            forall|cx: int, cy: int|
                0 <= cx < width && 0 <= cy < y ==> glyph_sampled(
                    *noise,
                    cx,
                    cy + offset,
                    #[trigger] buffer@[screen_index(cx, cy, width as int)],
                ),
        decreases height - y,
    {
        let mut x: u16 = 0;
        while x < width
            invariant
                x <= width,
                buffer@.len() == y * width + x,
                forall|cx: int, cy: int|
                    0 <= cx < width && (0 <= cy < y || (cy == y && cx < x)) ==> glyph_sampled(
                        *noise,
                        cx,
                        cy + offset,
                        #[trigger] buffer@[screen_index(cx, cy, width as int)],
                    ),
            decreases width - x,
        {
            let world_x: i32 = x as i32;
            let world_y: i32 = y as i32 + offset;
            assert(call_requires(*noise, (world_x, world_y)));
            let glyph = sample_glyph(noise, world_x, world_y);
            let ghost before = buffer@;
            buffer.push(glyph);
            proof {
                assert forall|cx: int, cy: int|
                    0 <= cx < width && (0 <= cy < y || (cy == y && cx < x))
                    implies 0 <= #[trigger] screen_index(cx, cy, width as int) < before.len() by {
                    assert(0 <= cy * width + cx < y * width + x) by (nonlinear_arith)
                        requires
                            0 <= cx < width,
                            0 <= cy < y || (cy == y && cx < x),
                    ;
                }
            }
            x = x + 1;
        }
        assert(y * width + width == (y + 1) * width) by (nonlinear_arith);
        y = y + 1;
    }
    assert(height * width == width * height) by (nonlinear_arith);
    buffer
}

} // verus!

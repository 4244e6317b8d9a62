//! The viewport: which chunk positions a camera and a screen size take in.
//!
//! The first chunk holds the camera's own cell, the last one the cell just past
//! the screen's bottom-right corner; a frame goes through every chunk position
//! between the two. A chunk at the far edge may have no cell on screen.

use vstd::prelude::*;
use vstd::arithmetic::div_mod::lemma_fundamental_div_mod_converse;
use crate::geometry::{chunk_coord, lemma_chunk_coord_monotone, Pos};

verus! {

/// Whether a screen of `width` by `height` cells with its top-left cell at
/// `camera` shows world positions only.
pub open spec fn viewport_in_world(camera: Pos, width: int, height: int) -> bool {
    camera.x + width <= i32::MAX && camera.y + height <= i32::MAX
}

/// The chunk that holds the camera's own cell.
pub open spec fn first_chunk(camera: Pos) -> Pos {
    Pos { x: chunk_coord(camera.x as int) as i32, y: chunk_coord(camera.y as int) as i32 }
}

/// The chunk that holds the cell just past the screen's bottom-right corner.
pub open spec fn last_chunk(camera: Pos, width: int, height: int) -> Pos {
    Pos { x: chunk_coord(camera.x + width) as i32, y: chunk_coord(camera.y + height) as i32 }
}

/// Number of chunk columns from the first chunk to the last.
pub open spec fn chunk_columns(camera: Pos, width: int) -> int {
    chunk_coord(camera.x + width) - chunk_coord(camera.x as int) + 1
}

/// Number of chunk rows from the first chunk to the last.
pub open spec fn chunk_rows(camera: Pos, height: int) -> int {
    chunk_coord(camera.y + height) - chunk_coord(camera.y as int) + 1
}

/// The chunk positions that a frame goes through: every position from the first
/// chunk to the last on both axes, both ends included, row by row from the top
/// and from left to right within a row.
pub open spec fn chunks_in_view(camera: Pos, width: int, height: int) -> Seq<Pos> {
    let columns = chunk_columns(camera, width);
    let rows = chunk_rows(camera, height);
    Seq::new(
        (columns * rows) as nat,
        |i: int|
            Pos {
                x: (chunk_coord(camera.x as int) + i % columns) as i32,
                y: (chunk_coord(camera.y as int) + i / columns) as i32,
            },
    )
}

/// Where a chunk position stands among those a frame goes through: the position
/// in chunk column `column` and chunk row `row`, counted from the first chunk,
/// stands at index `row * columns + column`.
pub proof fn lemma_chunks_in_view_index(camera: Pos, width: int, height: int, column: int, row: int)
    requires
        0 <= width,
        0 <= height,
        0 <= column < chunk_columns(camera, width),
        0 <= row < chunk_rows(camera, height),
    ensures
        0 <= row * chunk_columns(camera, width) + column < chunks_in_view(
            camera,
            width,
            height,
        ).len(),
        chunks_in_view(camera, width, height)[row * chunk_columns(camera, width) + column] == (Pos {
            x: (chunk_coord(camera.x as int) + column) as i32,
            y: (chunk_coord(camera.y as int) + row) as i32,
        }),
{
    let columns = chunk_columns(camera, width);
    let rows = chunk_rows(camera, height);
    assert(0 <= row * columns && (row + 1) * columns <= rows * columns && (row + 1) * columns == row
        * columns + columns) by (nonlinear_arith)
        requires
            0 <= row < rows,
            0 < columns,
    ;
    lemma_fundamental_div_mod_converse(row * columns + column, columns, row, column);
}

/// Every chunk position that a frame goes through lies in the world, as long as
/// the screen shows world positions only.
pub proof fn lemma_chunks_in_view_in_world(camera: Pos, width: int, height: int, i: int)
    requires
        0 <= width,
        0 <= height,
        viewport_in_world(camera, width, height),
        0 <= i < chunks_in_view(camera, width, height).len(),
    ensures
        chunks_in_view(camera, width, height)[i].is_chunk_in_world(),
{
    let columns = chunk_columns(camera, width);
    let rows = chunk_rows(camera, height);
    lemma_chunk_coord_monotone(camera.x as int, camera.x + width);
    lemma_chunk_coord_monotone(camera.y as int, camera.y + height);
    assert(0 <= i % columns < columns);
    assert(0 <= i / columns < rows) by (nonlinear_arith)
        requires
            0 <= i < columns * rows,
            0 < columns,
    ;
}

/// A cell on screen lies in one of the chunks that the frame goes through.
pub proof fn lemma_visible_cell_enumerated(camera: Pos, width: int, height: int, cell: Pos)
    requires
        0 <= width,
        0 <= height,
        camera.x <= cell.x < camera.x + width,
        camera.y <= cell.y < camera.y + height,
    ensures
        chunks_in_view(camera, width, height).contains(cell.spec_chunk_of()),
{
    let column = chunk_coord(cell.x as int) - chunk_coord(camera.x as int);
    let row = chunk_coord(cell.y as int) - chunk_coord(camera.y as int);
    lemma_chunk_coord_monotone(camera.x as int, cell.x as int);
    lemma_chunk_coord_monotone(cell.x as int, camera.x + width);
    lemma_chunk_coord_monotone(camera.y as int, cell.y as int);
    lemma_chunk_coord_monotone(cell.y as int, camera.y + height);
    lemma_chunks_in_view_index(camera, width, height, column, row);
    let index = row * chunk_columns(camera, width) + column;
    assert(chunks_in_view(camera, width, height)[index] == cell.spec_chunk_of());
}

/// Tells whether a frame can be drawn: the screen has at least one column and one
/// row and shows world positions only.
pub fn can_render(camera: Pos, width: u16, height: u16) -> (ok: bool)
    ensures
        ok == (width >= 1 && height >= 1 && viewport_in_world(camera, width as int, height as int)),
{
    width >= 1 && height >= 1 && camera.x as i64 + width as i64 <= i32::MAX as i64 && camera.y as i64
        + height as i64 <= i32::MAX as i64
}

/// Computes the chunk that holds the camera's own cell.
pub fn first_chunk_of(camera: Pos) -> (first: Pos)
    ensures
        first == first_chunk(camera),
        first.is_chunk_in_world(),
{
    camera.chunk_of()
}

/// Computes the chunk that holds the cell just past the screen's bottom-right corner.
pub fn last_chunk_of(camera: Pos, width: u16, height: u16) -> (last: Pos)
    requires
        viewport_in_world(camera, width as int, height as int),
    ensures
        last == last_chunk(camera, width as int, height as int),
        last.is_chunk_in_world(),
{
    let corner = Pos { x: camera.x + width as i32, y: camera.y + height as i32 };
    corner.chunk_of()
}

/// Lists the chunk positions that a frame goes through, in the order in which it
/// goes through them.
#[verifier::loop_isolation(false)]
pub fn visible_chunks(camera: Pos, width: u16, height: u16) -> (positions: Vec<Pos>)
    requires
        viewport_in_world(camera, width as int, height as int),
    ensures
        positions@ == chunks_in_view(camera, width as int, height as int),
        forall|i: int| 0 <= i < positions@.len() ==> (#[trigger] positions@[i]).is_chunk_in_world(),
{
    let first = first_chunk_of(camera);
    let last = last_chunk_of(camera, width, height);
    let ghost expected = chunks_in_view(camera, width as int, height as int);
    let ghost columns = chunk_columns(camera, width as int);
    let ghost rows = chunk_rows(camera, height as int);
    proof {
        lemma_chunk_coord_monotone(camera.x as int, camera.x + width);
        lemma_chunk_coord_monotone(camera.y as int, camera.y + height);
    }
    let mut positions: Vec<Pos> = Vec::new();
    let mut y: i32 = first.y;
    while y <= last.y
        invariant
            first.y <= y <= last.y + 1,
            positions@.len() == (y - first.y) * columns,
            forall|i: int| 0 <= i < positions@.len() ==> positions@[i] == expected[i],
        decreases last.y + 1 - y,
    {
        let mut x: i32 = first.x;
        while x <= last.x
            invariant
                first.x <= x <= last.x + 1,
                positions@.len() == (y - first.y) * columns + (x - first.x),
                forall|i: int| 0 <= i < positions@.len() ==> positions@[i] == expected[i],
            decreases last.x + 1 - x,
        {
            proof {
                lemma_chunks_in_view_index(
                    camera,
                    width as int,
                    height as int,
                    x - first.x,
                    y - first.y,
                );
            }
            positions.push(Pos { x, y });
            x = x + 1;
        }
        assert((y - first.y) * columns + columns == (y + 1 - first.y) * columns)
            by (nonlinear_arith);
        y = y + 1;
    }
    proof {
        assert(rows * columns == columns * rows) by (nonlinear_arith);
        assert(positions@ =~= expected);
        assert forall|i: int| 0 <= i < positions@.len() implies (#[trigger] positions@[i]).is_chunk_in_world() by {
            lemma_chunks_in_view_in_world(camera, width as int, height as int, i);
        }
    }
    positions
}

} // verus!

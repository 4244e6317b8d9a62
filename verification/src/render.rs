//! Drawing one chunk: which part of it is on screen, and the rows of glyphs to
//! write for that part.
//!
//! The camera is the world position of the top-left cell on screen. Nothing here
//! touches a terminal: what to draw is returned as a list of row writes, each a
//! cursor position and the glyphs to write from there in one piece.

use vstd::prelude::*;
use crate::chunk::{cell_index, Chunk};
use crate::geometry::{chunk_origin, clamp, clamp_to, Pos, CHUNK_SIZE};

verus! {

/// One contiguous write: the glyphs to put on screen row `row`, starting at column `col`.
#[derive(Debug, PartialEq, Eq)]
pub struct RowWrite {
    pub col: u16,
    pub row: u16,
    pub glyphs: Vec<u8>,
}

/// What a row write says, with its glyphs as a sequence.
pub struct Row {
    pub col: u16,
    pub row: u16,
    pub glyphs: Seq<u8>,
}

impl View for RowWrite {
    type V = Row;

    open spec fn view(&self) -> Row {
        Row { col: self.col, row: self.row, glyphs: self.glyphs@ }
    }
}

/// What a list of row writes says.
pub open spec fn rows_view(rows: Seq<RowWrite>) -> Seq<Row> {
    Seq::new(rows.len(), |i: int| rows[i]@)
}

/// First column (or row) of a chunk that is on screen, for a camera at `camera`
/// and a chunk whose first cell is at `origin` on that axis.
pub open spec fn render_from(camera: int, origin: int) -> int {
    clamp(camera - origin, 0, CHUNK_SIZE as int)
}

/// One past the last column (or row) of a chunk that is on screen, for a screen
/// of `extent` cells on that axis.
pub open spec fn render_to(camera: int, origin: int, extent: int) -> int {
    clamp(camera - origin + extent, 0, CHUNK_SIZE as int)
}

/// Screen column (or row) at which the visible part of a chunk starts.
pub open spec fn cursor_start(camera: int, origin: int, extent: int) -> int {
    clamp(origin - camera, 0, extent - 1)
}

/// Number of columns (or rows) of a chunk that are on screen; none where the chunk
/// lies wholly off screen on that axis.
pub open spec fn visible_len(camera: int, origin: int, extent: int) -> nat {
    let from = render_from(camera, origin);
    let to = render_to(camera, origin, extent);
    if from < to {
        (to - from) as nat
    } else {
        0
    }
}

/// The row writes for the chunk at `pos` with glyphs `grid`, seen by a camera at
/// `camera` on a screen of `width` by `height` cells: one for each visible row of
/// the chunk, from the top, each holding that row's visible columns.
pub open spec fn visible_rows(camera: Pos, width: int, height: int, pos: Pos, grid: Seq<u8>) -> Seq<
    Row,
> {
    let origin_x = chunk_origin(pos.x as int);
    let origin_y = chunk_origin(pos.y as int);
    let from_x = render_from(camera.x as int, origin_x);
    let from_y = render_from(camera.y as int, origin_y);
    let col = cursor_start(camera.x as int, origin_x, width);
    let top = cursor_start(camera.y as int, origin_y, height);
    Seq::new(
        visible_len(camera.y as int, origin_y, height),
        |k: int|
            Row {
                col: col as u16,
                row: (top + k) as u16,
                glyphs: Seq::new(
                    visible_len(camera.x as int, origin_x, width),
                    |j: int| grid[cell_index(from_x + j, from_y + k)],
                ),
            },
    )
}

/// Whether a row write stays on a screen of `width` by `height` cells.
pub open spec fn row_on_screen(row: Row, width: int, height: int) -> bool {
    &&& row.row < height
    &&& row.col + row.glyphs.len() <= width
}

/// Whether the row writes `rows` put `glyph` on the screen cell in column
/// `column` of row `row`.
pub open spec fn draws(rows: Seq<Row>, column: int, row: int, glyph: u8) -> bool {
    exists|n: int, j: int|
        #![trigger rows[n].glyphs[j]]
        {
            &&& 0 <= n < rows.len()
            &&& 0 <= j < rows[n].glyphs.len()
            &&& rows[n].row == row
            &&& rows[n].col + j == column
            &&& rows[n].glyphs[j] == glyph
        }
}

/// No row write for a chunk leaves the screen, wherever the camera and the chunk are.
pub proof fn lemma_rows_on_screen(camera: Pos, width: int, height: int, pos: Pos, grid: Seq<u8>)
    requires
        1 <= width <= u16::MAX,
        1 <= height <= u16::MAX,
    ensures
        forall|k: int|
            0 <= k < visible_rows(camera, width, height, pos, grid).len() ==> row_on_screen(
                #[trigger] visible_rows(camera, width, height, pos, grid)[k],
                width,
                height,
            ),
{
}

/// A cell on screen is drawn where it belongs: the row writes for the cell's
/// chunk put the chunk's glyph for that cell on the screen cell that shows it.
pub proof fn lemma_chunk_draws_visible_cell(
    camera: Pos,
    width: int,
    height: int,
    cell: Pos,
    grid: Seq<u8>,
)
    requires
        1 <= width <= u16::MAX,
        1 <= height <= u16::MAX,
        camera.x <= cell.x < camera.x + width,
        camera.y <= cell.y < camera.y + height,
    ensures
        draws(
            visible_rows(camera, width, height, cell.spec_chunk_of(), grid),
            cell.x - camera.x,
            cell.y - camera.y,
            grid[cell_index(
                cell.spec_local_in_chunk().x as int,
                cell.spec_local_in_chunk().y as int,
            )],
        ),
{
    let pos = cell.spec_chunk_of();
    let local = cell.spec_local_in_chunk();
    let rows = visible_rows(camera, width, height, pos, grid);
    let n = local.y - render_from(camera.y as int, chunk_origin(pos.y as int));
    let j = local.x - render_from(camera.x as int, chunk_origin(pos.x as int));
    assert(0 <= n < rows.len());
    assert(0 <= j < rows[n].glyphs.len());
    assert(rows[n].glyphs[j] == grid[cell_index(local.x as int, local.y as int)]);
}

/// Computes the row writes that draw the visible part of `chunk`.
#[verifier::loop_isolation(false)]
pub fn render_chunk(camera: Pos, width: u16, height: u16, chunk: &Chunk) -> (rows: Vec<RowWrite>)
    requires
        chunk.wf(),
        width >= 1,
        height >= 1,
    ensures
        rows_view(rows@) == visible_rows(
            camera,
            width as int,
            height as int,
            chunk.position(),
            chunk.grid(),
        ),
        forall|k: int|
            0 <= k < rows@.len() ==> row_on_screen(#[trigger] rows@[k]@, width as int, height as int),
{
    let origin = chunk.world_pos();
    let side: i64 = CHUNK_SIZE as i64;
    let offset_x: i64 = camera.x as i64 - origin.x as i64;
    let offset_y: i64 = camera.y as i64 - origin.y as i64;
    let from_x = clamp_to(offset_x, 0, side);
    let from_y = clamp_to(offset_y, 0, side);
    let to_x = clamp_to(offset_x + width as i64, 0, side);
    let to_y = clamp_to(offset_y + height as i64, 0, side);
    let cursor_x = clamp_to(-offset_x, 0, width as i64 - 1);
    let cursor_y = clamp_to(-offset_y, 0, height as i64 - 1);
    let ghost expected = visible_rows(
        camera,
        width as int,
        height as int,
        chunk.position(),
        chunk.grid(),
    );
    proof {
        lemma_rows_on_screen(camera, width as int, height as int, chunk.position(), chunk.grid());
    }
    let mut rows: Vec<RowWrite> = Vec::new();
    let mut y = from_y;
    while y < to_y
        invariant
            from_y <= y,
            y <= to_y || y == from_y,
            rows@.len() == y - from_y,
            forall|k: int| 0 <= k < rows@.len() ==> (#[trigger] rows@[k])@ == expected[k],
        decreases to_y - y,
    {
        let ghost k = y - from_y;
        assert(row_on_screen(expected[k], width as int, height as int));
        let glyphs = if from_x < to_x {
            chunk.row(y as usize, from_x as usize, to_x as usize)
        } else {
            Vec::new()
        };
        assert(glyphs@ =~= expected[k].glyphs);
        rows.push(RowWrite { col: cursor_x as u16, row: (cursor_y + (y - from_y)) as u16, glyphs });
        y = y + 1;
    }
    assert(rows_view(rows@) =~= expected);
    rows
}

} // verus!

//! Procedurally generated 2D terrain, cut into square chunks that are generated on
//! first use and cached, and the arithmetic that maps a camera and a terminal size
//! to the glyph rows to draw.
//!
//! Everything here works on plain values. The noise field is handed in as a
//! function from a world position to a fixed-point sample; the rows to draw are
//! handed back as values for the caller to send to its terminal.

pub mod geometry;
pub mod palette;
pub mod chunk;
pub mod world;
pub mod render;
pub mod viewport;
pub mod frame;
pub mod driver;

pub use chunk::{Chunk, Generator};
pub use driver::{Key, Step};
pub use frame::render_chunks_on_screen;
pub use geometry::{Pos, CHUNK_CELLS, CHUNK_SIZE};
pub use palette::{NOISE_ONE, PALETTE_LEN};
pub use render::{render_chunk, RowWrite};
pub use world::World;

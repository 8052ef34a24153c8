//! Conway's Game of Life on a fixed-size toroidal grid.
//!
//! The engine owns a flat, row-major vector of cells together with the
//! grid's width and height. It maps 2D coordinates to flat positions,
//! counts Moore neighbors with wraparound at the edges, and advances the
//! whole grid one generation at a time under the classic B3/S23 rules.

mod cell;
mod grid;

pub use cell::Cell;
pub use cell::cell_of_bool;
pub use cell::lemma_rule_completeness;
pub use grid::GridView;
pub use grid::IndexError;
pub use grid::Universe;
pub use grid::glyph;
pub use grid::lemma_clear_noop_on_empty;
pub use grid::lemma_degenerate_height;
pub use grid::lemma_degenerate_width;
pub use grid::seeded_at;
pub use grid::wrap_dec;
pub use grid::wrap_inc;

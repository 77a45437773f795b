//! Terminal row accounting for a block of text that is redrawn in place
//! while it grows.
//!
//! `rows` counts the terminal rows that a text occupies when it is wrapped
//! at a given width. `redraw` holds the state of a streamed rendering: the
//! text received so far and the number of rows the cursor has to move up
//! before the next drawing overwrites the previous one.

pub mod segment;
pub mod rows;
pub mod redraw;

pub use rows::{checked_count_lines, count_cluster_rows, count_lines};
pub use redraw::{Action, Payload, Phase, RedrawError, Renderer, Step, StreamEvent};

//! Extraction of engine evaluations from annotated chess games.
//!
//! A game arrives as a sequence of callbacks (headers, moves, comments,
//! variation starts, the end of the game). The visitor replays the mainline
//! on a board and records, for every evaluation annotation found in a
//! comment, the position and ply that the annotation refers to.

pub mod extract;
pub mod position;
pub mod text;
pub mod session;
pub mod visitor;

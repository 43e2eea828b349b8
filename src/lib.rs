//! Borrowed, immutable JSON-shaped values with checked accessors and a
//! structural debug rendering.

pub mod render;
pub mod laws;
pub mod order;
pub mod smuggler;
pub mod value;

pub use render::{Piece, PieceView};
pub use smuggler::JsonSmuggler;
pub use value::{AccessError, Json, Numeric};

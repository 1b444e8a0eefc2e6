//! A horizontal rack of letter tiles that can be dragged, reordered and
//! dropped, with animated repositioning of the tiles that are not being
//! dragged.
//!
//! All coordinates are plain integers in an arbitrary unit chosen by the
//! caller (for example fixed-point subpixels), so that every position and
//! every animation step is exact.

pub mod input;
pub mod laws;
pub mod order;
pub mod rack;
pub mod tile;

pub use rack::Rack;
pub use rack::RackError;
pub use rack::COORD_LIMIT;
pub use tile::Anim;
pub use tile::Tile;

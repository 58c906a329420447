//! A minimal interactive map core: named polygonal territories with
//! owner and army metadata, point-in-polygon hit testing by the
//! even-odd (ray-casting) rule, and a single-selection controller
//! that resolves pointer clicks to territories.

pub mod game;
pub mod geometry;
pub mod territory;

pub use game::GameState;
pub use geometry::Point;
pub use territory::{DisplayColor, Territory};

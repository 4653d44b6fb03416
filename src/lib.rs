//! Integer-valued core of a small path tracer: plain-text image encoding, the
//! order in which pixels are produced, the choice of the nearest hit along a
//! ray, the bounded light-transport walk, and the layout of a random scene.
pub mod layout;
pub mod nearest;
pub mod pixels;
pub mod ppm;
pub mod transport;

pub use layout::{
    is_reserved_column, kind_for_draw, open_cells, place_spheres, random_layout, MaterialKind,
    Placement, GRID_X_END, GRID_X_START, GRID_Z_END, GRID_Z_START,
};
pub use nearest::nearest_hit;
pub use pixels::pixel_order;
pub use ppm::{PpmImage, Rgb};
pub use transport::{walk_next, walk_start, Outcome, Step};

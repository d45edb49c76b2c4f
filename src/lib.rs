pub mod components;
pub mod constants;
pub mod input_system;
pub mod plane;
pub mod rendering_system;
pub mod rules;
pub mod torus;
pub mod universe;

pub use components::{Position, Renderable};
pub use input_system::{InputSystem, PaintAction};
pub use plane::convolve_torus;
pub use rendering_system::visible_positions;
pub use rules::{CELL_IS_FREE, CELL_IS_POPULATED};
pub use universe::{Universe, UniverseError};

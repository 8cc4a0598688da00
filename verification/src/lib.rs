//! A small real-time rendering core: a flat RGB pixel surface, integer-only
//! rasterization primitives that write into it, an interval timer, a
//! keyboard-state tracker and the lifecycle of the frame loop that drives them.

pub mod types;
pub mod surface;
pub mod drawing;
pub mod input;
pub mod timer;
pub mod context;
pub mod engine;
pub mod demos;

pub use crate::context::{Context, FontDescriptor};
pub use crate::engine::{Engine, GameState, Phase, Stage};
pub use crate::input::KeyboardState;
pub use crate::surface::PixelSurface;
pub use crate::types::{Color, Vec2};

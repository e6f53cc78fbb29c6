//! Layout engine for sprite sheets: decides where each source image goes on
//! one shared canvas, composites the pixels and emits the positioning rules.

pub mod canvas;
pub mod cli_args;
pub mod encoding;
pub mod error;
pub mod estimate;
pub mod geometry;
pub mod layout;
pub mod packed;
pub mod packer;
pub mod preview;
pub mod skyline;
pub mod source;
pub mod sprite;
pub mod strip;
pub mod stylesheet;
pub mod utils;

pub use cli_args::CliArgs;
pub use sprite::Sprite;

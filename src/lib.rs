//! A pixel perfect 2D sprite renderer.
//!
//! The library keeps a mirror of the GPU's binding and uniform state and
//! only asks for a state change where the requested value differs from the
//! mirrored one. Textures are copy-on-write handles into an arena of GPU
//! images. Everything the GPU has to do is handed out as a list of
//! [`GlCommand`]s, which the embedding program executes in order.
//!
//! Floats never enter the library: colors, depths and color matrices are
//! carried as the IEEE 754 bit patterns of their components.
pub mod backend;
pub mod command;
pub mod config;
pub mod error;
pub mod pixels;
pub mod state;
pub mod target;
pub mod texture;
pub mod time;

pub use backend::{Backend, DebugProgram, GlConstants, Program, RawTexture};
pub use command::GlCommand;
pub use config::{
    identity_matrix, matrix_eq, BlendMode, ColorMatrix, DebugSegment, DrawConfig,
    Rgba, ONE_BITS,
};
pub use error::{check_texture_size, NewTextureError};
pub use pixels::{flip_rows, gather_rows};
pub use state::OpenGlState;
pub use target::{DrawTarget, Offset, Scaled, WindowSurface};
pub use texture::Texture;
pub use time::{FramePacing, Time};

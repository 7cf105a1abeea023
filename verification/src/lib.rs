//! Library side of a Warcraft III model viewer: the model file format, the
//! data the renderer draws, and the decisions of the viewer's controls.
pub mod model;
pub mod bytes;
pub mod mdx_spec;
pub mod mdx;
pub mod mdx_laws;
pub mod error;
pub mod parser;
pub mod animation;
pub mod hierarchy;
pub mod mesh;
pub mod render;
pub mod glow;
pub mod camera;
pub mod registry;
pub mod textures;
pub mod stats;
pub mod events;

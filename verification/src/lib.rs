//! A fixed-point software rendering core: a vertex stage, line and triangle
//! rasterizers, procedural surface shaders, a depth-tested framebuffer, and
//! the camera and the bodies of a small solar system.
//!
//! Real-valued quantities are carried as integers counted in ten-thousandths
//! (see [`fixed::UNIT`]), so that every rule of the pipeline can be stated
//! and proved over the integers.  Positions, angles in radians, times in
//! seconds and screen coordinates in pixels all count this way; only the
//! depth key of a transformed vertex counts finer (see
//! [`shaders::DEPTH_UNIT`]).
//!
//! What cannot be computed over the integers is asked of the caller as a
//! function value: the sine and cosine of an angle, the heading of a
//! direction, the hash of a scalar, and the matrix products of the vertex
//! stage.  Whatever such a function returns, the library limits it to its
//! range before use, so no function of the library can fail on it.
pub mod fixed;
pub mod color;
pub mod vector;
pub mod vertex;
pub mod fragment;
pub mod line;
pub mod triangle;
pub mod texture;
pub mod camera;
pub mod skybox;
pub mod noise;
pub mod fragment_shaders;
pub mod solar_system;
pub mod shaders;
pub mod framebuffer;
pub mod pipeline;
pub mod orbit;
pub mod ship;

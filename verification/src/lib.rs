//! Resource and data model of a real-time scene renderer: the texture atlas,
//! the model store, the per-model instance registry with its grow-only
//! buffers, and the draw batcher that turns the registry into an ordered list
//! of draw commands.
//!
//! Everything in here is plain data and decisions. Talking to the graphics
//! device, the window and the file system is left to the caller, which feeds
//! the library plain values and carries out the actions it hands back.

pub mod bytes;
pub mod camera;
pub mod frame;
pub mod gui;
pub mod input;
pub mod instance;
pub mod layout;
pub mod model;
pub mod render;
pub mod texture;

//! Draw-command batching on integer surface coordinates.
//!
//! A frame is recorded as a list of draw commands, replayed against a context
//! tracker, tessellated into one vertex/index mesh, and cut into an ordered
//! list of state changes and indexed draw ranges, one draw range for each run
//! of primitives that share pipeline, texture and scissor.

pub mod geometry;
pub mod transform;
pub mod context;
pub mod pipeline;
pub mod material;
pub mod mesh;
pub mod glyph;
pub mod atlas;
pub mod glyph_laws;
pub mod command;
pub mod primitive;
pub mod tessellate;
pub mod batcher;
pub mod batch_laws;
pub mod draw_log;
pub mod frame;
pub mod frame_laws;

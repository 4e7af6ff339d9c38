//! Language resolution, a per-key build registry for expensive inference
//! engines, translation views on those engines, and the text form of
//! embedding vectors.

pub mod dispatch;
pub mod error;
pub mod language;
pub mod laws;
pub mod registry;
pub mod text;
pub mod vector;
pub mod views;

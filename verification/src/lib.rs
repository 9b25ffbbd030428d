//! Upload pipeline for pre-split video segments.
//!
//! The library discovers segment files for a video, renders titles and
//! descriptions from token templates, and drives a per-video, per-part
//! state machine whose persisted progress lets an interrupted run resume
//! without re-uploading finished work.

pub mod data;
pub mod dates;
pub mod errors;
pub mod flow_delegate;
pub mod models;
pub mod parts;
pub mod prelude;
pub mod registry;
pub mod session;
pub mod text;

//! Extraction of a typed model of audio hardware topology — devices with
//! their profiles and routes, sinks, and the resolved default sink — from the
//! schema-less dump an audio subsystem produces.
pub mod clients;
pub mod control;
pub mod decode;
pub mod device;
pub mod json;
pub mod laws;
pub mod parsers;
pub mod profile;
pub mod route;
pub mod sink;
pub mod state;
pub mod text;
pub mod utils;

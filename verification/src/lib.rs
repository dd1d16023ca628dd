//! The decision-making core of the Maturana command line: channel routing,
//! orchestration, request validation and the texts that it sends.

pub mod a2a;
pub mod channels;
pub mod commands;
pub mod graph;
pub mod http;
pub mod json;
pub mod orchestrate;
pub mod text;

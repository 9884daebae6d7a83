//! The core of a gateway that answers chat protocols from one backend.
pub mod anthropic;
pub mod auth;
pub mod blocks;
pub mod delta;
pub mod engine;
pub mod exchange;
pub mod frames;
pub mod gemini;
pub mod ids;
pub mod json;
pub mod laws;
pub mod mapper;
pub mod opening;
pub mod pieces;
pub mod prompt;
pub mod reply;
pub mod routing;
pub mod text;
pub mod wire;
pub mod workspace;

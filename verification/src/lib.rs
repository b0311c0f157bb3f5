//! A small media-serving gateway library.
//!
//! The verified core of a movie catalog server: a path-pattern router with
//! parameter extraction, request dispatch decisions, transcoder argument
//! construction, the state machine that pumps a transcoder's output into a
//! chunked response body, and the JSON wire format for movie records.

pub mod args;
pub mod config;
pub mod ffmpeg;
pub mod handler;
pub mod jsonparse;
pub mod jsonwire;
pub mod matcher;
pub mod movie;
pub mod pump;
pub mod router;
pub mod service;
pub mod text;

//! The decisions behind `POST /analyze-screen`: capture the screen, ask a vision
//! model what it shows, and reply with an object that fits the schema.
//!
//! Nothing here reads a file, spawns a process or opens a connection. What takes
//! turns with the outside world is a state machine: [`pipeline::Pipeline`] for a whole
//! analysis, [`screenshot::Capture`] for a capture and [`downscale::Preparation`] for
//! the image that is sent. Each says what it waits for and takes in what happened.
//!
//! - [`config`]: settings, defaults and environment overrides
//! - [`http`]: routes and replies
//! - [`pipeline`], [`screenshot`], [`downscale`]: the three courses
//! - [`vlm`]: requests to the models and their answers
//! - [`extract`], [`validate`]: from a model's answer to an analysis
//! - [`stagelog`], [`calendar`]: how long the stages take, and log lines with dates
//! - [`json`], [`number`], [`scan`], [`text`]: values and characters
pub mod calendar;
pub mod config;
pub mod downscale;
pub mod extract;
pub mod http;
pub mod json;
pub mod number;
pub mod pipeline;
pub mod scan;
pub mod screenshot;
pub mod stagelog;
pub mod text;
pub mod validate;
pub mod vlm;

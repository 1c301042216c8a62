//! Core of a streaming audio spectrum display: sample framing, a spectral
//! transform stage with quantized magnitude output, bounded hand-off channels
//! with configurable drop policies, a telemetry fan-out, a circular row buffer
//! backing a scrolling display, and a registry of audio source backends.
//!
//! Samples travel through the pipeline as the raw 32-bit patterns of the
//! single-channel float samples a source delivers; the pipeline itself never
//! interprets them, so they are carried as plain `u32` words.

pub mod backend;
pub mod channel;
pub mod engine;
pub mod framer;
pub mod pipeline;
pub mod quantize;
pub mod ring;
pub mod telemetry;

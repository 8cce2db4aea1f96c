//! Audio capture and utterance segmentation for a wake-word voice front end.
//!
//! Frames of 16-bit samples flow through a noise-floor estimator and a
//! pre-trigger ring buffer; once a wake word is reported, an endpoint detector
//! collects the utterance until enough silence has passed, and the encoder
//! packs it into a PCM container.
//!
//! All levels and tunables are exact fractions of integers, so every
//! comparison is decided without rounding.

pub mod fraction;
pub mod frame;
pub mod utterance;
pub mod window;
pub mod noise;
pub mod ring;
pub mod endpoint;
pub mod detector;
pub mod container;
pub mod encoder;
pub mod pipeline;
pub mod dialogue;
pub mod speech;

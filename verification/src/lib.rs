//! Finds the audio and subtitle tracks that are "the same" by language across
//! a batch of Matroska files, and synthesizes the per-file edits that mark an
//! operator-chosen track identity as the default.

pub mod commands;
pub mod deserialize;
pub mod languages;
pub mod laws;
pub mod matroska;
pub mod same;

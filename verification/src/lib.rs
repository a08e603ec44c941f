//! Offline Chinese speech transcription: the decision and text logic of the tool.
use vstd::prelude::*;

pub mod capture;
pub mod cli;
pub mod config;
pub mod diarize;
pub mod env;
pub mod live;
pub mod models;
pub mod text;
pub mod trad;
pub mod transcribe;
pub mod ui;

//! Brinsfield (2013) six-motive employee-silence simulation: the verified
//! core.
//!
//! The six silence motives and their canonical order, the decision-mode and
//! network selectors with their command-line parsers, the calibration
//! anchors, the discrete rules of the per-step mechanisms (motive collapse
//! for the 4- and 3-dimension ablations, knowledge drain), the counts behind
//! the aggregate metrics, the voice-decision prompt, and the reading of LLM
//! replies (JSON-object extraction, decoding with serde_json, decision
//! words, the verdict and its fallback).

pub mod calibration;
pub mod config;
pub mod mechanisms;
pub mod metrics;
pub mod motives;
pub mod prompts;
pub mod reply;
pub mod simulation;
pub mod tally;
pub mod text;
pub mod world;

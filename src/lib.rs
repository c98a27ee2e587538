//! Adaptive selection of practice problems.
//!
//! Given a learner's attempt history and a set of topics, the library decides
//! which problems are eligible (no repetition inside a cool-down window),
//! weights topics by the learner's observed failure rate (Laplace's rule of
//! succession) and draws one problem at random according to those weights.
//! Storage, transport and authentication live outside; they hand the library
//! plain in-memory records.

pub mod models;
pub mod eligibility;
pub mod weighting;
pub mod sampler;
pub mod engine;
pub mod access;
pub mod leaderboard;

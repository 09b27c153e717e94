//! The frontend tools: their names and vocabularies, and the per-turn
//! transcripts a delegation is pinned with.

pub mod catalog;
pub mod handler;
pub mod transcripts;
pub mod instructions;
pub mod spawn;
pub mod respond;

//! Quark: the data, text and bookkeeping layer of a small language-model
//! toolkit — chat templating, batching and packing of token sequences,
//! layer-placement tracking, prompt building for the coding agent and the
//! helpers around them.

pub mod data;
pub mod seqs;
pub mod tokens;
pub mod text;
pub mod chat;
pub mod mcp;
pub mod updater;
pub mod memory;
pub mod code;
pub mod model;
pub mod training;
pub mod checkpoint;
pub mod tokenizer;
pub mod paths;
pub mod order;
pub mod console;
pub mod quant;
pub mod schedule;

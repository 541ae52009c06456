//! Batched completion requests against a text-completion service: prompts are
//! normalised and split into batches, each batch is retried until the service
//! accepts it, and the flat list of choices is shaped back into what the
//! caller asked for. Network traffic and waiting are left to the caller, who
//! drives an [`orchestrator::Completion`]; what is decided along the way is
//! decided here, and proved against the contracts of the functions.

pub mod error;
pub mod batch;
pub mod json;
pub mod decoding;
pub mod text;
pub mod reshape;
pub mod prompt;
pub mod request;
pub mod orchestrator;
pub mod generate_instruction;
pub mod utils;

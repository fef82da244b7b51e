//! Dispatch: the decisions of a local coding-agent dispatcher, verified.

pub mod bytes;
pub mod digest;
pub mod orchestrator;
pub mod planning;
pub mod presenter;
pub mod private_evidence;
pub mod process;
pub mod public_priors;
pub mod record;
pub mod reviewer;
pub mod router;
pub mod runtime;
pub mod setup;
pub mod text;
pub mod text_map;
pub mod yaml;

//! Policy-store generation: prompts a language model for a Cedar schema and
//! one policy file per agent, and decides after each validation whether to
//! accept, ask again with the errors, or give up.

pub mod generator;
pub mod llm;
pub mod prompts;
pub mod types;
pub mod validator;

//! Configuration checks that parsing alone does not make.

use vstd::prelude::*;
use crate::config::Config;
use crate::config::runtime_section::PersistenceBackend;

verus! {

/// The error of the YAML parser.
#[verifier::external_type_specification]
#[verifier::external_body]
pub struct ExYamlError(serde_yaml::Error);

/// Why a configuration was refused.
#[derive(Debug)]
pub enum ConfigError {
    PersistenceUnimplemented { backend: String },
    Serde(serde_yaml::Error),
}

/// Refuses a configuration whose persistence backend is not available:
/// only `memory` is.
pub fn validate(cfg: &Config) -> (res: Result<(), ConfigError>)
    ensures
        cfg.runtime.persistence == PersistenceBackend::Sqlite <==> res is Err,
        res matches Err(e) ==> (e matches ConfigError::PersistenceUnimplemented { backend } && backend@ == "sqlite"@),
{
    if cfg.runtime.persistence == PersistenceBackend::Sqlite {
        return Err(ConfigError::PersistenceUnimplemented { backend: "sqlite".to_owned() });
    }
    Ok(())
}

} // verus!

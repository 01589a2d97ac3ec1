//! Settings of the application. There are none yet.

use vstd::prelude::*;

verus! {

/// anyhow's error type, which `Config::load` reports failures in; the
/// library never looks inside one.
#[verifier::external_type_specification]
#[verifier::external_body]
pub struct ExAnyhowError(anyhow::Error);

/// The application's settings.
#[derive(Debug, Clone, Copy, Default)]
pub struct Config;

impl Config {
    /// Loads the settings; with none defined this always succeeds.
    pub fn load() -> (r: core::result::Result<Config, anyhow::Error>)
        ensures
            r matches Ok(c) && c == Config,
    {
        Ok(Config)
    }
}

} // verus!

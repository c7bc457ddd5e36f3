//! Process configuration and the application state that carries it. Reading
//! the configuration from the environment is the host program's concern;
//! the values live here.

use vstd::prelude::*;

verus! {

/// The default upload size limit: ten megabytes.
pub fn default_max_file_size() -> (r: usize)
    ensures
        r == 10485760,
{
    10 * 1024 * 1024
}

/// The process configuration.
pub struct Config {
    pub max_file_size: usize,
    pub openai_key: String,
}

/// The state shared across request handlers.
pub struct AppState {
    pub config: Config,
}

impl AppState {
    pub fn new(config: Config) -> (r: Self)
        ensures
            r.config == config,
    {
        AppState { config }
    }
}

} // verus!

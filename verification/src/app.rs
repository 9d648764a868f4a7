//! The application object: the configuration it runs with.

use vstd::prelude::*;
use crate::config::Config;

verus! {

pub struct App {
    config: Config,
}

impl App {
    pub closed spec fn spec_config(&self) -> Config {
        self.config
    }

    /// An application that runs with the given configuration.
    pub fn new(config: Config) -> (r: App)
        ensures
            r.spec_config() == config,
    {
        App { config }
    }

    /// The configuration the application runs with.
    pub fn config(&self) -> (r: &Config)
        ensures
            *r == self.spec_config(),
    {
        &self.config
    }
}

} // verus!

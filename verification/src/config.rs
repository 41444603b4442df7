//! The configuration of a runtime: WASI, its directories and arguments, and the start function.
use vstd::prelude::*;

verus! {

/// How a runtime is set up.
#[derive(Debug)]
pub struct Config {
    pub wasi_enabled: bool,
    /// Directories made available to WASI: a host path and the name it is seen under.
    pub wasi_dirs: Vec<(String, String)>,
    pub wasi_args: Vec<String>,
    pub start_function: Option<String>,
}

impl Default for Config {
    fn default() -> (c: Self)
        ensures
            !c.wasi_enabled,
            c.wasi_dirs@.len() == 0,
            c.wasi_args@.len() == 0,
            c.start_function is None,
    {
        Config { wasi_enabled: false, wasi_dirs: Vec::new(), wasi_args: Vec::new(), start_function: None }
    }
}

/// Builds a `Config` step by step.
#[derive(Debug)]
pub struct ConfigBuilder {
    config: Config,
}

impl ConfigBuilder {
    /// The configuration built so far.
    pub closed spec fn spec_config(&self) -> Config {
        self.config
    }

    /// A builder of the default configuration: WASI off, no directories, no arguments, no
    /// start function.
    pub fn new() -> (b: Self)
        ensures
            !b.spec_config().wasi_enabled,
            b.spec_config().wasi_dirs@.len() == 0,
            b.spec_config().wasi_args@.len() == 0,
            b.spec_config().start_function is None,
    {
        ConfigBuilder { config: Config::default() }
    }

    /// Turns WASI on.
    pub fn enable_wasi(&mut self) -> (r: &mut Self)
        ensures
            r.spec_config() == (Config { wasi_enabled: true, ..old(self).spec_config() }),
            *final(self) == *final(r),
    {
        self.config.wasi_enabled = true;
        self
    }

    /// Turns WASI on and sets its directories.
    pub fn set_wasi_dirs(&mut self, dirs: Vec<(String, String)>) -> (r: &mut Self)
        ensures
            r.spec_config() == (Config { wasi_enabled: true, wasi_dirs: dirs, ..old(self).spec_config() }),
            *final(self) == *final(r),
    {
        self.config.wasi_enabled = true;
        self.config.wasi_dirs = dirs;
        self
    }

    /// Turns WASI on and sets its arguments.
    pub fn set_wasi_args(&mut self, args: Vec<String>) -> (r: &mut Self)
        ensures
            r.spec_config() == (Config { wasi_enabled: true, wasi_args: args, ..old(self).spec_config() }),
            *final(self) == *final(r),
    {
        self.config.wasi_enabled = true;
        self.config.wasi_args = args;
        self
    }

    /// Sets the function to run first.
    pub fn set_start_function(&mut self, start_function: String) -> (r: &mut Self)
        ensures
            r.spec_config() == (Config {
                start_function: Some(start_function),
                ..old(self).spec_config()
            }),
            *final(self) == *final(r),
    {
        self.config.start_function = Some(start_function);
        self
    }

    /// The configuration built.
    pub fn finish(self) -> (c: Config)
        ensures
            c == self.spec_config(),
    {
        self.config
    }
}

} // verus!

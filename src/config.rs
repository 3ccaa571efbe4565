//! Configuration of the server process: worker threads and file locations.

use std::path::PathBuf;
use vstd::prelude::*;
use vstd::string::*;

verus! {

#[verifier::external_type_specification]
#[verifier::external_body]
pub struct ExPathBuf(PathBuf);

/// Relies on num_cpus::get: the number of logical CPUs available, documented
/// to be at least one.
#[verifier::external_body]
fn cpu_count() -> (r: usize)
    ensures
        r >= 1,
{
    num_cpus::get()
}

/// Relies on dirs::data_dir: the user's data directory, if it can be found.
#[verifier::external_body]
fn data_dir() -> Option<PathBuf> {
    dirs::data_dir()
}

/// Relies on dirs::config_dir: the user's configuration directory, if it can
/// be found.
#[verifier::external_body]
fn config_dir() -> Option<PathBuf> {
    dirs::config_dir()
}

/// Relies on dirs::home_dir: the user's home directory, if it can be found.
#[verifier::external_body]
fn home_dir() -> Option<PathBuf> {
    dirs::home_dir()
}

/// Relies on PathBuf::push: appends one component to a path.
#[verifier::external_body]
fn push_part(p: &mut PathBuf, part: &str) {
    p.push(part)
}

/// Command-line options of the server.
#[derive(Debug)]
pub struct Opt {
    /// Address to listen on.
    pub addr: String,
    /// Number of threads to use.
    pub threads: Option<usize>,
    /// Location of the config file.
    pub config: Option<PathBuf>,
}

/// Threads used by default on a machine with `cpus` CPUs: all but one, and
/// at least one.
pub open spec fn default_threads(cpus: usize) -> usize {
    if cpus >= 2 {
        (cpus - 1) as usize
    } else {
        1
    }
}

/// Threads used when `wanted` are asked for on a machine with `cpus` CPUs:
/// no more than all but one, and at least one.
pub open spec fn clamp_threads(wanted: usize, cpus: usize) -> usize {
    let cap = if cpus >= 1 {
        (cpus - 1) as usize
    } else {
        0
    };
    let t = if wanted < cap {
        wanted
    } else {
        cap
    };
    if t >= 1 {
        t
    } else {
        1
    }
}

/// Settings that command-line flags can override.
#[derive(Debug, PartialEq, Eq, Structural)]
pub struct FlagConfig {
    pub threads: usize,
}

impl FlagConfig {
    /// The defaults on a machine with `cpus` CPUs.
    pub fn for_cpus(cpus: usize) -> (r: FlagConfig)
        requires
            cpus >= 1,
        ensures
            r.threads == default_threads(cpus),
    {
        let t = cpus - 1;
        FlagConfig { threads: if t >= 1 { t } else { 1 } }
    }

    /// Takes the thread count of `opt`, if it gives one, bounded for a machine
    /// with `cpus` CPUs.
    pub fn merge_opt_for(&mut self, opt: &Opt, cpus: usize)
        requires
            cpus >= 1,
        ensures
            final(self).threads == match opt.threads {
                Some(t) => clamp_threads(t, cpus),
                None => old(self).threads,
            },
    {
        if let Some(threads) = opt.threads {
            let cap = cpus - 1;
            let t = if threads < cap { threads } else { cap };
            self.threads = if t >= 1 { t } else { 1 };
        }
    }

    /// Takes the thread count of `opt`, if it gives one, bounded by the CPUs
    /// of this machine.
    pub fn merge_opt(&mut self, opt: &Opt)
        ensures
            opt.threads is None ==> final(self).threads == old(self).threads,
            opt.threads is Some ==> exists|cpus: usize|
                cpus >= 1 && final(self).threads == clamp_threads(opt.threads->0, cpus),
    {
        let cpus = cpu_count();
        self.merge_opt_for(opt, cpus);
    }
}

impl Default for FlagConfig {
    fn default() -> (r: FlagConfig)
        ensures
            exists|cpus: usize| cpus >= 1 && r.threads == default_threads(cpus),
    {
        FlagConfig::for_cpus(cpu_count())
    }
}

/// Where the database is kept.
#[derive(Debug)]
pub struct DatabaseConfig {
    pub location: Option<PathBuf>,
}

impl DatabaseConfig {
    /// The database under the data directory `data`, if there is one.
    pub fn in_data_dir(data: Option<PathBuf>) -> (r: DatabaseConfig)
        ensures
            r.location is Some <==> data is Some,
    {
        match data {
            Some(d) => {
                let mut path = d;
                push_part(&mut path, "indexa");
                push_part(&mut path, "database.db");
                DatabaseConfig { location: Some(path) }
            },
            None => DatabaseConfig { location: None },
        }
    }
}

impl Default for DatabaseConfig {
    fn default() -> (r: DatabaseConfig) {
        DatabaseConfig::in_data_dir(data_dir())
    }
}

/// The whole configuration.
#[derive(Debug)]
pub struct IndexaConfig {
    pub flags: FlagConfig,
    pub database: DatabaseConfig,
}

impl Default for IndexaConfig {
    fn default() -> (r: IndexaConfig)
        ensures
            r.flags.threads >= 1,
    {
        IndexaConfig { flags: FlagConfig::default(), database: DatabaseConfig::default() }
    }
}

pub open spec fn location_error() -> Seq<char> {
    "Could not determine the location of config file. Please provide the location of config file with -C/--config option."@
}

/// The message when no config file location can be determined.
pub fn location_error_message() -> (r: String)
    ensures
        r@ == location_error(),
{
    proof {
        reveal_strlit(
            "Could not determine the location of config file. Please provide the location of config file with -C/--config option.",
        );
    }
    String::from_str(
        "Could not determine the location of config file. Please provide the location of config file with -C/--config option.",
    )
}

/// Where the config file is: `given` if there is one, else `indexa/config.toml`
/// under the configuration directory on Windows, or `.config/indexa/config.toml`
/// under the home directory elsewhere. Fails where that directory is unknown.
pub fn config_location(given: Option<PathBuf>, on_windows: bool) -> (r: Result<PathBuf, String>)
    ensures
        given is Some ==> r == Ok::<PathBuf, String>(given->0),
        r is Err ==> given is None && r->Err_0@ == location_error(),
{
    if let Some(path) = given {
        return Ok(path);
    }
    if on_windows {
        match config_dir() {
            Some(dir) => {
                let mut path = dir;
                push_part(&mut path, "indexa");
                push_part(&mut path, "config.toml");
                Ok(path)
            },
            None => Err(location_error_message()),
        }
    } else {
        match home_dir() {
            Some(dir) => {
                let mut path = dir;
                push_part(&mut path, ".config");
                push_part(&mut path, "indexa");
                push_part(&mut path, "config.toml");
                Ok(path)
            },
            None => Err(location_error_message()),
        }
    }
}

} // verus!

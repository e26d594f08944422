//! The node agent's configuration. Reading and writing the file is the
//! caller's part.

use crate::riklet::container::RuncConfiguration;
use crate::riklet::image_manager::{
    ImageManagerConfiguration, SkopeoConfiguration, UmociConfiguration,
};
use crate::text::{no_strings, push_str, strings};
use vstd::prelude::*;
use vstd::string::*;

verus! {

/// How long a command may take by default, in milliseconds.
pub const DEFAULT_COMMAND_TIMEOUT: u64 = 30000;

/// Where the configuration file is when the caller names none.
pub const DEFAULT_PATH: &'static str = "/etc/riklet/configuration.toml";

/// The configuration of the node agent.
#[derive(Debug)]
pub struct Configuration {
    /// The address of the scheduler.
    pub scheduler: String,
    pub runner: RuncConfiguration,
    pub manager: ImageManagerConfiguration,
}

impl Default for Configuration {
    /// The configuration that a new node starts with.
    fn default() -> (r: Self)
        ensures
            r.scheduler@ == "http://127.0.0.1:4995"@,
            r.runner.command is None,
            r.runner.root is None,
            !r.runner.rootless,
            !r.runner.debug,
            r.runner.timeout == Some(DEFAULT_COMMAND_TIMEOUT),
            r.manager.image_puller.images_directory is Some,
            r.manager.image_puller.images_directory->0@ == "/var/lib/riklet/images"@,
            r.manager.image_puller.timeout == Some(DEFAULT_COMMAND_TIMEOUT),
            !r.manager.image_puller.debug,
            !r.manager.image_puller.insecure_policy,
            r.manager.oci_manager.bundles_directory is Some,
            r.manager.oci_manager.bundles_directory->0@ == "/var/lib/riklet/bundles"@,
            r.manager.oci_manager.timeout == Some(DEFAULT_COMMAND_TIMEOUT),
            !r.manager.oci_manager.debug,
    {
        Configuration {
            scheduler: String::from_str("http://127.0.0.1:4995"),
            runner: RuncConfiguration {
                debug: false,
                rootless: false,
                root: None,
                command: None,
                timeout: Some(DEFAULT_COMMAND_TIMEOUT),
            },
            manager: ImageManagerConfiguration {
                image_puller: SkopeoConfiguration {
                    images_directory: Some(String::from_str("/var/lib/riklet/images")),
                    timeout: Some(DEFAULT_COMMAND_TIMEOUT),
                    debug: false,
                    insecure_policy: false,
                },
                oci_manager: UmociConfiguration {
                    timeout: Some(DEFAULT_COMMAND_TIMEOUT),
                    bundles_directory: Some(String::from_str("/var/lib/riklet/bundles")),
                    debug: false,
                },
            },
        }
    }
}

/// The directory, if one is named.
pub open spec fn named(directory: Option<String>) -> Seq<Seq<char>> {
    match directory {
        Some(d) => seq![d@],
        None => Seq::empty(),
    }
}

/// What loading the configuration takes: the file to read, or the file to
/// write the default configuration to.
#[derive(Debug, PartialEq, Eq)]
pub enum Load {
    Read(String),
    Create(String),
}

impl Configuration {
    /// What loading the configuration from `path` takes, `exists` saying
    /// whether the file is there: it is read if it is, created if it is not.
    /// Without a path the file is `/etc/riklet/configuration.toml`.
    pub fn load(path: Option<String>, exists: bool) -> (r: Load)
        ensures
            ({
                let file = match path {
                    Some(p) => p@,
                    None => DEFAULT_PATH@,
                };
                match r {
                    Load::Read(f) => exists && f@ == file,
                    Load::Create(f) => !exists && f@ == file,
                }
            }),
    {
        let file = match path {
            Some(p) => p,
            None => String::from_str(DEFAULT_PATH),
        };
        if exists {
            Load::Read(file)
        } else {
            Load::Create(file)
        }
    }

    /// The directories that the node agent needs before it starts, in the
    /// order in which they are made: that of the bundles, then that of the
    /// images, each if the configuration names it.
    pub fn bootstrap(&self) -> (r: Vec<String>)
        ensures
            strings(r@) == named(self.manager.oci_manager.bundles_directory) + named(
                self.manager.image_puller.images_directory,
            ),
    {
        let mut dirs = no_strings();
        match &self.manager.oci_manager.bundles_directory {
            Some(b) => push_str(&mut dirs, b.as_str()),
            None => {},
        }
        assert(strings(dirs@) =~= named(self.manager.oci_manager.bundles_directory));
        let ghost first = strings(dirs@);
        match &self.manager.image_puller.images_directory {
            Some(i) => push_str(&mut dirs, i.as_str()),
            None => {},
        }
        assert(strings(dirs@) =~= first + named(self.manager.image_puller.images_directory));
        dirs
    }
}

} // verus!

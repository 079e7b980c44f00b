use std::path::PathBuf;

use vstd::prelude::*;

verus! {

/// A file system path of the standard library.
#[verifier::external_type_specification]
#[verifier::external_body]
pub struct ExPathBuf(PathBuf);

/// The command line: a command to run, and where the configuration lives
/// if not in the default place.
#[derive(Debug)]
pub struct Cli {
    pub command: Option<Commands>,
    pub config_dir: Option<PathBuf>,
}

/// The commands of the command line.
#[derive(Debug)]
pub enum Commands {
    /// Unimplemented
    Tail,
    /// Serve dbus interface
    Serve,
    /// List all devices and their position
    List { recent: bool },
    /// Set host and credentials
    Login,
}

} // verus!

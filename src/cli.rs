//! The program's command-line arguments, as plain values. Reading them from the
//! process is left to the program; this is what it hands to the library.
use vstd::prelude::*;

verus! {

/// The socket to connect to, and the command to run once connected, if any.
#[derive(Debug)]
pub struct Args {
    pub path: String,
    pub command: Option<Commands>,
}

/// The subcommands.
#[derive(Debug)]
pub enum Commands {
    /// Sends a single command on the socket.
    Send { payload: String },
}

impl Args {
    /// The arguments given on the command line: the socket path, and the
    /// payload of a `send` subcommand where one was given.
    pub fn load_from_cli(path: String, payload: Option<String>) -> (r: Args)
        ensures
            r.path == path,
            match payload {
                Some(p) => r.command matches Some(Commands::Send { payload: q }) && q == p,
                None => r.command is None,
            },
    {
        let command = match payload {
            Some(payload) => Some(Commands::Send { payload }),
            None => None,
        };
        Args { path, command }
    }
}

} // verus!

//! The command lines of the container runtime.

use crate::riklet::command::{Invocation, InvocationView};
use crate::text::{no_strings, push_str, strings};
use vstd::prelude::*;
use vstd::string::*;

verus! {

/// How long a command of the runtime may take when the configuration is
/// silent, in milliseconds.
pub const DEFAULT_TIMEOUT: u64 = 5000;

/// How the runtime is to be run. Paths are expected in canonical form.
#[derive(Debug, Default)]
pub struct RuncConfiguration {
    /// Where the runtime is. If `None`, it is looked for on the search path.
    pub command: Option<String>,
    /// How long a command may take, in milliseconds.
    pub timeout: Option<u64>,
    /// Where the runtime keeps the state of its containers.
    pub root: Option<String>,
    /// Ignore cgroup permission errors.
    pub rootless: bool,
    /// Ask the runtime for debug output.
    pub debug: bool,
}

/// Why the runtime cannot be used.
#[derive(Debug, PartialEq, Eq, Structural)]
pub enum RuncError {
    /// The configuration names no runtime and the search path has none.
    NotFound,
}

/// The runtime, ready to be run.
#[derive(Debug)]
pub struct Runc {
    pub command: String,
    pub timeout: u64,
    pub root: Option<String>,
    pub rootless: bool,
    pub debug: bool,
}

/// The options of the runtime's `run`. Paths are expected in canonical form.
#[derive(Debug)]
pub struct CreateArgs {
    pub pid_file: Option<String>,
    pub console_socket: Option<String>,
    pub no_pivot: bool,
    pub no_new_keyring: bool,
    pub detach: bool,
}

/// `[flag, value]` if there is a value, nothing otherwise.
pub open spec fn valued(flag: Seq<char>, value: Option<String>) -> Seq<Seq<char>> {
    match value {
        Some(v) => seq![flag, v@],
        None => Seq::empty(),
    }
}

/// `[flag]` if `on`, nothing otherwise.
pub open spec fn switch(flag: Seq<char>, on: bool) -> Seq<Seq<char>> {
    if on {
        seq![flag]
    } else {
        Seq::empty()
    }
}

impl CreateArgs {
    /// The arguments that these options stand for.
    pub open spec fn spec_args(&self) -> Seq<Seq<char>> {
        valued("--pid-file"@, self.pid_file) + valued("--console-socket"@, self.console_socket)
            + switch("--no-pivot"@, self.no_pivot) + switch(
            "--no-new-keyring"@,
            self.no_new_keyring,
        ) + switch("--detach"@, self.detach)
    }

    /// The arguments that these options stand for, in the order pid file,
    /// console socket, no pivot, no new keyring, detach.
    pub fn args(&self) -> (r: Vec<String>)
        ensures
            strings(r@) == self.spec_args(),
    {
        let mut args = no_strings();
        match &self.pid_file {
            Some(pid_file) => {
                push_str(&mut args, "--pid-file");
                push_str(&mut args, pid_file.as_str());
            },
            None => {},
        }
        assert(strings(args@) =~= valued("--pid-file"@, self.pid_file));
        let ghost first = strings(args@);
        match &self.console_socket {
            Some(console_socket) => {
                push_str(&mut args, "--console-socket");
                push_str(&mut args, console_socket.as_str());
            },
            None => {},
        }
        assert(strings(args@) =~= first + valued("--console-socket"@, self.console_socket));
        let ghost second = strings(args@);
        if self.no_pivot {
            push_str(&mut args, "--no-pivot");
        }
        assert(strings(args@) =~= second + switch("--no-pivot"@, self.no_pivot));
        let ghost third = strings(args@);
        if self.no_new_keyring {
            push_str(&mut args, "--no-new-keyring");
        }
        assert(strings(args@) =~= third + switch("--no-new-keyring"@, self.no_new_keyring));
        let ghost fourth = strings(args@);
        if self.detach {
            push_str(&mut args, "--detach");
        }
        assert(strings(args@) =~= fourth + switch("--detach"@, self.detach));
        args
    }
}

/// The arguments of `opts`, nothing if there are none.
pub open spec fn option_args(opts: Option<&CreateArgs>) -> Seq<Seq<char>> {
    match opts {
        Some(o) => o.spec_args(),
        None => Seq::empty(),
    }
}

impl Runc {
    /// The runtime as `config` describes it. `found` is where the search path
    /// has the runtime, if it has it; it is used where the configuration names
    /// none. With neither there is no runtime.
    pub fn new(config: RuncConfiguration, found: Option<String>) -> (r: Result<Self, RuncError>)
        ensures
            config.command is None && found is None ==> r == Err::<Self, RuncError>(
                RuncError::NotFound,
            ),
            config.command is Some || found is Some ==> r is Ok && ({
                let runc = r->Ok_0;
                &&& runc.command == (if config.command is Some {
                    config.command->0
                } else {
                    found->0
                })
                &&& runc.timeout == (if config.timeout is Some {
                    config.timeout->0
                } else {
                    DEFAULT_TIMEOUT
                })
                &&& runc.root == config.root
                &&& runc.rootless == config.rootless
                &&& runc.debug == config.debug
            }),
    {
        let command = match config.command {
            Some(c) => c,
            None => match found {
                Some(f) => f,
                None => {
                    return Err(RuncError::NotFound);
                },
            },
        };
        let timeout = match config.timeout {
            Some(t) => t,
            None => DEFAULT_TIMEOUT,
        };
        Ok(
            Runc {
                command,
                timeout,
                root: config.root,
                rootless: config.rootless,
                debug: config.debug,
            },
        )
    }

    /// The arguments that go before every command of the runtime.
    pub open spec fn spec_args(&self) -> Seq<Seq<char>> {
        valued("--root"@, self.root) + switch("--rootless=true"@, self.rootless) + switch(
            "--debug"@,
            self.debug,
        )
    }

    /// The arguments that go before every command of the runtime: the root,
    /// then rootless, then debug, each if it is set.
    pub fn args(&self) -> (r: Vec<String>)
        ensures
            strings(r@) == self.spec_args(),
    {
        let mut args = no_strings();
        match &self.root {
            Some(root) => {
                push_str(&mut args, "--root");
                push_str(&mut args, root.as_str());
            },
            None => {},
        }
        assert(strings(args@) =~= valued("--root"@, self.root));
        let ghost first = strings(args@);
        if self.rootless {
            push_str(&mut args, "--rootless=true");
        }
        assert(strings(args@) =~= first + switch("--rootless=true"@, self.rootless));
        let ghost second = strings(args@);
        if self.debug {
            push_str(&mut args, "--debug");
        }
        assert(strings(args@) =~= second + switch("--debug"@, self.debug));
        args
    }

    /// The command line that lists all containers.
    pub fn list(&self) -> (r: Invocation)
        ensures
            r@ == (InvocationView {
                binary: self.command@,
                args: self.spec_args() + seq!["list"@, "--format=json"@],
            }),
    {
        let mut args = self.args();
        let ghost head = strings(args@);
        push_str(&mut args, "list");
        push_str(&mut args, "--format=json");
        assert(strings(args@) =~= head + seq!["list"@, "--format=json"@]);
        Invocation { binary: self.command.clone(), args }
    }

    /// The command line that runs the container `id` from `bundle`.
    pub fn run(&self, id: &str, bundle: &str, opts: Option<&CreateArgs>) -> (r: Invocation)
        ensures
            r@ == (InvocationView {
                binary: self.command@,
                args: self.spec_args() + seq!["run"@] + option_args(opts) + seq![
                    "--bundle"@,
                    bundle@,
                    id@,
                ],
            }),
    {
        let mut args = self.args();
        let ghost head = strings(args@);
        push_str(&mut args, "run");
        let ghost with_run = strings(args@);
        match opts {
            Some(o) => {
                let mut more = o.args();
                let ghost extra = strings(more@);
                args.append(&mut more);
                assert(strings(args@) =~= with_run + extra);
            },
            None => {
                assert(strings(args@) =~= with_run + Seq::<Seq<char>>::empty());
            },
        }
        push_str(&mut args, "--bundle");
        push_str(&mut args, bundle);
        push_str(&mut args, id);
        assert(strings(args@) =~= head + seq!["run"@] + option_args(opts) + seq![
            "--bundle"@,
            bundle@,
            id@,
        ]);
        Invocation { binary: self.command.clone(), args }
    }

    /// The command line that asks for the state of the container `id`.
    pub fn state(&self, id: &str) -> (r: Invocation)
        ensures
            r@ == (InvocationView {
                binary: self.command@,
                args: self.spec_args() + seq!["state"@, id@],
            }),
    {
        let mut args = self.args();
        let ghost head = strings(args@);
        push_str(&mut args, "state");
        push_str(&mut args, id);
        assert(strings(args@) =~= head + seq!["state"@, id@]);
        Invocation { binary: self.command.clone(), args }
    }
}

/// What it takes to start one container of a workload.
#[derive(Debug)]
pub struct Launch {
    /// `<workload>-<container>-<workload uuid>-<container uuid>`.
    pub id: String,
    /// `/tmp/<container>-<container uuid>`.
    pub socket_path: String,
    pub args: CreateArgs,
}

/// What it takes to start the container `container` of the workload
/// `workload`: the container's id, the path of its console socket, and the
/// options of the run, which detach the container and hand it that socket.
pub fn launch(workload: &str, container: &str, workload_uuid: &str, container_uuid: &str) -> (r:
    Launch)
    ensures
        r.id@ == workload@ + "-"@ + container@ + "-"@ + workload_uuid@ + "-"@ + container_uuid@,
        r.socket_path@ == "/tmp/"@ + container@ + "-"@ + container_uuid@,
        r.args.pid_file is None,
        r.args.console_socket == Some(r.socket_path),
        !r.args.no_pivot,
        !r.args.no_new_keyring,
        r.args.detach,
{
    let mut id = String::from_str(workload);
    id.append("-");
    id.append(container);
    id.append("-");
    id.append(workload_uuid);
    id.append("-");
    id.append(container_uuid);
    let mut socket_path = String::from_str("/tmp/");
    socket_path.append(container);
    socket_path.append("-");
    socket_path.append(container_uuid);
    let args = CreateArgs {
        pid_file: None,
        console_socket: Some(socket_path.clone()),
        no_pivot: false,
        no_new_keyring: false,
        detach: true,
    };
    Launch { id, socket_path, args }
}

} // verus!

//! The programs that the node agent runs, as command lines. Running them is
//! the caller's part; what is handed to them is decided here.

use crate::text::{no_strings, push_str, strings};
use vstd::prelude::*;
use vstd::string::*;

verus! {

/// The name of the program that copies images.
pub const SKOPEO_BIN: &'static str = "skopeo";

/// The name of the program that unpacks images.
pub const UMOCI_BIN: &'static str = "umoci";

/// The name of the container runtime.
pub const RUNC_BIN: &'static str = "cri";

/// Why a program cannot be run.
#[derive(Debug)]
pub enum BinaryError {
    /// No program of that name is on the search path.
    NotFound(String),
}

/// A program and the arguments to run it with.
#[derive(Debug)]
pub struct Invocation {
    pub binary: String,
    pub args: Vec<String>,
}

/// A command line as a value.
pub struct InvocationView {
    pub binary: Seq<char>,
    pub args: Seq<Seq<char>>,
}

impl View for Invocation {
    type V = InvocationView;

    open spec fn view(&self) -> InvocationView {
        InvocationView { binary: self.binary@, args: strings(self.args@) }
    }
}

/// What a run of a program hands back: its error output if it failed and
/// wrote any, its output otherwise.
pub fn select_output(stdout: Vec<u8>, stderr: Vec<u8>, success: bool) -> (r: Vec<u8>)
    ensures
        r == (if stderr.len() != 0 && !success {
            stderr
        } else {
            stdout
        }),
{
    if stderr.len() != 0 && !success {
        stderr
    } else {
        stdout
    }
}

/// A program that is run by its name.
#[derive(Debug)]
pub struct RikCommand {
    pub binary: String,
}

impl RikCommand {
    pub fn create(binary: &str) -> (r: Self)
        ensures
            r.binary@ == binary@,
    {
        RikCommand { binary: String::from_str(binary) }
    }

    /// The command line that runs the program with `args`.
    pub fn execute(&self, args: Vec<String>) -> (r: Invocation)
        ensures
            r@ == (InvocationView { binary: self.binary@, args: strings(args@) }),
    {
        Invocation { binary: self.binary.clone(), args }
    }
}

/// A program that was found on the search path.
#[derive(Debug)]
pub struct Binary {
    pub binary: String,
}

impl Binary {
    /// A handle on the program `binary`. `found` is where the search path has
    /// it, `None` if it has not: then the program is reported as not found.
    pub fn create(binary: &str, found: Option<String>) -> (r: Result<Self, BinaryError>)
        ensures
            match found {
                Some(path) => r is Ok && r->Ok_0.binary == path,
                None => r is Err && (r->Err_0 matches BinaryError::NotFound(name) && name@
                    == binary@),
            },
    {
        match found {
            Some(path) => Ok(Binary { binary: path }),
            None => Err(BinaryError::NotFound(String::from_str(binary))),
        }
    }

    /// The command line that runs the program with `args`.
    pub fn execute(&self, args: Vec<String>) -> (r: Invocation)
        ensures
            r@ == (InvocationView { binary: self.binary@, args: strings(args@) }),
    {
        Invocation { binary: self.binary.clone(), args }
    }
}

/// The program that copies images between registries and directories.
#[derive(Debug)]
pub struct Skopeo {
    pub cmd: Binary,
}

impl Skopeo {
    /// `found` is where the search path has `skopeo`, if it has it.
    pub fn new(found: Option<String>) -> (r: Option<Self>)
        ensures
            match found {
                Some(path) => r is Some && r->0.cmd.binary == path,
                None => r is None,
            },
    {
        match Binary::create(SKOPEO_BIN, found) {
            Ok(binary) => Some(Skopeo { cmd: binary }),
            _ => None,
        }
    }

    /// The command line of `skopeo copy <src> <dst>`.
    pub fn copy(&self, src: &str, dst: &str) -> (r: Invocation)
        ensures
            r@ == (InvocationView { binary: self.cmd.binary@, args: seq!["copy"@, src@, dst@] }),
    {
        let mut args = no_strings();
        push_str(&mut args, "copy");
        push_str(&mut args, src);
        push_str(&mut args, dst);
        assert(strings(args@) =~= seq!["copy"@, src@, dst@]);
        self.cmd.execute(args)
    }
}

/// The program that unpacks images into bundles.
#[derive(Debug)]
pub struct Umoci {
    pub cmd: Binary,
}

impl Umoci {
    /// `found` is where the search path has `umoci`, if it has it.
    pub fn new(found: Option<String>) -> (r: Option<Self>)
        ensures
            match found {
                Some(path) => r is Some && r->0.cmd.binary == path,
                None => r is None,
            },
    {
        match Binary::create(UMOCI_BIN, found) {
            Ok(binary) => Some(Umoci { cmd: binary }),
            _ => None,
        }
    }

    /// The command line of `umoci unpack --rootless --image <src> <dst>`.
    pub fn unpack(&self, src: &str, dst: &str) -> (r: Invocation)
        ensures
            r@ == (InvocationView {
                binary: self.cmd.binary@,
                args: seq!["unpack"@, "--rootless"@, "--image"@, src@, dst@],
            }),
    {
        let mut args = no_strings();
        push_str(&mut args, "unpack");
        push_str(&mut args, "--rootless");
        push_str(&mut args, "--image");
        push_str(&mut args, src);
        push_str(&mut args, dst);
        assert(strings(args@) =~= seq!["unpack"@, "--rootless"@, "--image"@, src@, dst@]);
        self.cmd.execute(args)
    }
}

/// The container runtime, run by its name.
#[derive(Debug)]
pub struct Runc {
    pub cmd: Binary,
}

impl Runc {
    /// `found` is where the search path has the runtime, if it has it.
    pub fn new(found: Option<String>) -> (r: Option<Self>)
        ensures
            match found {
                Some(path) => r is Some && r->0.cmd.binary == path,
                None => r is None,
            },
    {
        match Binary::create(RUNC_BIN, found) {
            Ok(binary) => Some(Runc { cmd: binary }),
            _ => None,
        }
    }

    /// The command line of `run -b <bundle> <name>`.
    pub fn run(&self, bundle: &str, name: &str) -> (r: Invocation)
        ensures
            r@ == (InvocationView {
                binary: self.cmd.binary@,
                args: seq!["run"@, "-b"@, bundle@, name@],
            }),
    {
        let mut args = no_strings();
        push_str(&mut args, "run");
        push_str(&mut args, "-b");
        push_str(&mut args, bundle);
        push_str(&mut args, name);
        assert(strings(args@) =~= seq!["run"@, "-b"@, bundle@, name@]);
        self.cmd.execute(args)
    }
}

/// `umoci`, run by its name.
#[derive(Debug)]
pub struct OCI {

}

impl OCI {
    pub fn new() -> (r: Self) {
        OCI {  }
    }

    /// The command line of `umoci unpack --rootless --image <src> <dest>`.
    pub fn unpack(&self, src: &String, dest: &String) -> (r: Invocation)
        ensures
            r@ == (InvocationView {
                binary: UMOCI_BIN@,
                args: seq!["unpack"@, "--rootless"@, "--image"@, src@, dest@],
            }),
    {
        let mut args = no_strings();
        push_str(&mut args, "unpack");
        push_str(&mut args, "--rootless");
        push_str(&mut args, "--image");
        push_str(&mut args, src.as_str());
        push_str(&mut args, dest.as_str());
        assert(strings(args@) =~= seq!["unpack"@, "--rootless"@, "--image"@, src@, dest@]);
        Invocation { binary: String::from_str(UMOCI_BIN), args }
    }
}

} // verus!

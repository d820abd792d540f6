//! A layered storage device model and its lifecycle orchestrator, for
//! turning a declarative description of a machine's storage layout into
//! on-disk structures and bringing that layout online or offline as a
//! unit.
//!
//! The model is a recursive tree: disks own partitions, a partition may
//! own an encrypted mapping, a volume group with logical volumes, or
//! pooled filesystems. Every mutation of the machine happens through an
//! external tool, so the library never touches the machine itself: its
//! lifecycle operations return plans, sequences of [`Step`]s built
//! from [`Cmd`] values, whose contents the contracts pin down exactly,
//! and record in the tree what the plan's execution resolves (device
//! identities, mapper paths). A caller carries the plans out, captures
//! the enumeration outputs the resolver needs, and hands them back as
//! plain strings.

pub mod disk;
pub mod env;
pub mod error;
pub mod filesystem;
pub mod filesystems;
pub mod gpt;
pub mod hardware;
pub mod initramfs;
pub mod install;
pub mod luks;
pub mod lvm;
pub mod partition;
pub mod partitioning;
pub mod secrets;
pub mod strutil;
pub mod traits;
pub mod zfs;

use vstd::prelude::*;

verus! {

/// A single external command invocation, described as data: the program to
/// run, its arguments in order, and what is piped to its standard input.
#[derive(Debug)]
pub struct Cmd {
    pub program: String,
    pub args: Vec<String>,
    pub stdin: Option<String>,
}

/// Mathematical model of a command: the program name, arguments and
/// standard-input text as character sequences.
pub struct CmdModel {
    pub program: Seq<char>,
    pub args: Seq<Seq<char>>,
    pub stdin: Option<Seq<char>>,
}

impl DeepView for Cmd {
    type V = CmdModel;

    open spec fn deep_view(&self) -> CmdModel {
        self.view()
    }
}

impl View for Cmd {
    type V = CmdModel;

    open spec fn view(&self) -> CmdModel {
        CmdModel {
            program: self.program@,
            args: self.args.deep_view(),
            stdin: match self.stdin {
                Some(s) => Some(s@),
                None => None,
            },
        }
    }
}

impl Cmd {
    /// Start a command description with no arguments and no input.
    pub fn new(program: &str) -> (r: Cmd)
        ensures
            r@.program == program@,
            r@.args == Seq::<Seq<char>>::empty(),
            r@.stdin is None,
    {
        let r = Cmd { program: program.to_owned(), args: Vec::new(), stdin: None };
        assert(r@.args =~= Seq::<Seq<char>>::empty());
        r
    }

    /// Append one argument.
    pub fn arg(self, a: &str) -> (r: Cmd)
        ensures
            r@.program == self@.program,
            r@.args == self@.args.push(a@),
            r@.stdin == self@.stdin,
    {
        let mut args = self.args;
        args.push(a.to_owned());
        let r = Cmd { program: self.program, args, stdin: self.stdin };
        assert(r@.args =~= self@.args.push(a@));
        r
    }

    /// Pipe the given text to the command's standard input.
    pub fn with_stdin(self, text: &str) -> (r: Cmd)
        ensures
            r@.program == self@.program,
            r@.args == self@.args,
            r@.stdin == Some(text@),
    {
        Cmd { program: self.program, args: self.args, stdin: Some(text.to_owned()) }
    }
}

/// One step of a lifecycle plan. Plans are data: the caller carries each
/// step out against the machine, in order, and aborts on the first failure.
#[derive(Debug)]
pub enum Step {
    /// Run the command; it must exit successfully.
    Run(Cmd),
    /// Query the device-mapper status of `label`; run the command only when
    /// the mapping is not already active.
    RunIfNotActive { label: String, cmd: Cmd },
    /// Import all pools, then create the pool `name` seeded from `device`,
    /// or extend it with `device` when a pool of that name is visible
    /// (see `zfs::pool_create` for the two command sequences).
    PoolCreate { name: String, device: String },
    /// Wait the given number of seconds for the kernel to settle.
    Settle(u64),
}

/// Mathematical model of a plan step.
pub enum StepModel {
    Run(CmdModel),
    RunIfNotActive { label: Seq<char>, cmd: CmdModel },
    PoolCreate { name: Seq<char>, device: Seq<char> },
    Settle(int),
}

impl View for Step {
    type V = StepModel;

    open spec fn view(&self) -> StepModel {
        match self {
            Step::Run(cmd) => StepModel::Run(cmd@),
            Step::RunIfNotActive { label, cmd } => StepModel::RunIfNotActive {
                label: label@,
                cmd: cmd@,
            },
            Step::PoolCreate { name, device } => StepModel::PoolCreate {
                name: name@,
                device: device@,
            },
            Step::Settle(secs) => StepModel::Settle(*secs as int),
        }
    }
}

impl DeepView for Step {
    type V = StepModel;

    open spec fn deep_view(&self) -> StepModel {
        self.view()
    }
}

} // verus!

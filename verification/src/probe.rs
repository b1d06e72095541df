//! Finding out whether a command-line tool is installed and which
//! version it reports: first `which <tool>`, then `<path> --version`.
//! The commands are run by the caller; the decisions are made here.

use vstd::prelude::*;
use crate::text::{decode_lossy, lossy_utf8, trim, trim_spec};

verus! {

/// What a finished command left behind.
#[derive(Clone, Debug)]
pub struct CommandOutput {
    /// The command exited with status zero.
    pub success: bool,
    /// What it wrote to standard output.
    pub stdout: Vec<u8>,
}

/// The model of a command outcome: `None` when the command could not be
/// started, else its success and standard output.
pub open spec fn outcome_view(outcome: Option<CommandOutput>) -> Option<(bool, Seq<u8>)> {
    match outcome {
        Some(o) => Some((o.success, o.stdout@)),
        None => None,
    }
}

/// The output of a command as text, with white space trimmed from both
/// ends.
pub open spec fn trimmed_output(stdout: Seq<u8>) -> Seq<char> {
    trim_spec(lossy_utf8(stdout))
}

/// The text of a command's output, trimmed at both ends.
pub fn trimmed_text(stdout: &Vec<u8>) -> (r: String)
    ensures
        r@ == trimmed_output(stdout@),
{
    let text = decode_lossy(stdout.as_slice());
    trim(text.as_str())
}

/// Which of the two commands a probe is waiting for.
#[derive(Clone, Copy, Debug, PartialEq, Eq, Structural)]
pub enum ProbeStage {
    /// Waiting for `which <tool>`.
    Locating,
    /// Waiting for `<path> --version`.
    Querying,
}

/// Whether a tool is installed, and the version it reports.
#[derive(Clone, Debug)]
pub struct ToolReport {
    pub installed: bool,
    pub version: Option<String>,
}

impl ToolReport {
    /// The tool was not found or did not answer.
    pub open spec fn is_absent(self) -> bool {
        !self.installed && self.version is None
    }
}

/// The next thing a probe does.
#[derive(Debug)]
pub enum ProbeStep {
    /// Run `program` with `args`, then hand its outcome back with `stage`.
    Run { program: String, args: Vec<String>, stage: ProbeStage },
    /// The probe is over.
    Done(ToolReport),
}

/// The first step of probing `tool`: `which <tool>`.
pub fn probe_start(tool: &str) -> (r: ProbeStep)
    ensures
        match r {
            ProbeStep::Run { program, args, stage } => program@ == "which"@ && args@.len() == 1
                && args@[0]@ == tool@ && stage == ProbeStage::Locating,
            ProbeStep::Done(_) => false,
        },
{
    ProbeStep::Run {
        program: String::from_str("which"),
        args: vec![String::from_str(tool)],
        stage: ProbeStage::Locating,
    }
}

/// The step after the command of `stage` ended with `outcome` (`None`
/// when it could not be started).  A successful `which` leads to running
/// the path it printed, trimmed, with `--version`; a successful version
/// query ends the probe with the trimmed version.  Anything else ends it
/// with the tool absent.
pub fn probe_next(stage: ProbeStage, outcome: Option<CommandOutput>) -> (r: ProbeStep)
    ensures
        match (stage, outcome_view(outcome)) {
            (ProbeStage::Locating, Some((true, out))) => match r {
                ProbeStep::Run { program, args, stage } => program@ == trimmed_output(out)
                    && args@.len() == 1 && args@[0]@ == "--version"@ && stage
                    == ProbeStage::Querying,
                ProbeStep::Done(_) => false,
            },
            (ProbeStage::Querying, Some((true, out))) => match r {
                ProbeStep::Done(report) => report.installed && (report.version matches Some(
                    v,
                ) && v@ == trimmed_output(out)),
                ProbeStep::Run { .. } => false,
            },
            _ => match r {
                ProbeStep::Done(report) => report.is_absent(),
                ProbeStep::Run { .. } => false,
            },
        },
{
    match (stage, outcome) {
        (ProbeStage::Locating, Some(o)) if o.success => {
            let path = trimmed_text(&o.stdout);
            ProbeStep::Run {
                program: path,
                args: vec![String::from_str("--version")],
                stage: ProbeStage::Querying,
            }
        },
        (ProbeStage::Querying, Some(o)) if o.success => {
            let version = trimmed_text(&o.stdout);
            ProbeStep::Done(ToolReport { installed: true, version: Some(version) })
        },
        _ => ProbeStep::Done(ToolReport { installed: false, version: None }),
    }
}

} // verus!

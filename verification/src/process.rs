//! From the outcome of a process to the text that is shown.
//!
//! The program around the library starts the process and waits for it. What
//! it hands back is a [`ProcessOutcome`]; the rules for turning it into text
//! are here.

use vstd::prelude::*;
use vstd::utf8::{decode_utf8, valid_utf8};

verus! {

/// How an attempt to run a command ended.
#[derive(Debug)]
pub enum ProcessOutcome {
    /// The process started and ran to its end, whatever its exit code.
    /// Holds the bytes it wrote to standard output.
    Completed(Vec<u8>),
    /// The process could not be started. Holds the description of the error.
    SpawnFailed(String),
}

/// A [`ProcessOutcome`] as plain sequences.
pub enum ProcessOutcomeView {
    Completed(Seq<u8>),
    SpawnFailed(Seq<char>),
}

impl View for ProcessOutcome {
    type V = ProcessOutcomeView;

    open spec fn view(&self) -> ProcessOutcomeView {
        match self {
            ProcessOutcome::Completed(stdout) => ProcessOutcomeView::Completed(stdout@),
            ProcessOutcome::SpawnFailed(reason) => ProcessOutcomeView::SpawnFailed(reason@),
        }
    }
}

/// The text that lossy UTF-8 decoding makes of `bytes`: the decoded
/// characters, with U+FFFD in place of each invalid sequence.
pub uninterp spec fn lossy_text(bytes: Seq<u8>) -> Seq<char>;

/// The text shown for an outcome: the decoded output of a process that ran,
/// or a message that says why it did not start.
pub open spec fn outcome_text(outcome: ProcessOutcomeView) -> Seq<char> {
    match outcome {
        ProcessOutcomeView::Completed(stdout) => lossy_text(stdout),
        ProcessOutcomeView::SpawnFailed(reason) => "command error: "@ + reason,
    }
}

/// `String::from_utf8_lossy`, made into an owned `String`. The result is a
/// function of the bytes alone; on valid UTF-8 it is the text that the bytes
/// encode.
#[verifier::external_body]
fn decode_lossy(bytes: &Vec<u8>) -> (text: String)
    ensures
        text@ == lossy_text(bytes@),
        valid_utf8(bytes@) ==> text@ == decode_utf8(bytes@),
{
    String::from_utf8_lossy(bytes).into_owned()
}

/// The message shown when a command could not be started.
pub fn spawn_error_text(reason: &str) -> (text: String)
    ensures
        text@ == "command error: "@ + reason@,
{
    let mut text = String::new();
    text.append("command error: ");
    text.append(reason);
    assert(text@ =~= "command error: "@ + reason@);
    text
}

/// Turns the outcome of a run into the text to show. A failure to start is
/// shown as text too: it is never an error of the library.
pub fn output_text(outcome: &ProcessOutcome) -> (text: String)
    ensures
        text@ == outcome_text(outcome@),
        outcome@ matches ProcessOutcomeView::Completed(stdout) ==> (valid_utf8(stdout)
            ==> text@ == decode_utf8(stdout)),
{
    match outcome {
        ProcessOutcome::Completed(stdout) => decode_lossy(stdout),
        ProcessOutcome::SpawnFailed(reason) => spawn_error_text(reason.as_str()),
    }
}

} // verus!

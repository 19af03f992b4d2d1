//! The enumeration of one directory, driven fill by fill.
//!
//! The driver owns the directory handle and the buffer. After each
//! `getdents64` call it hands the outcome to `Enumeration::on_fill`, which
//! parses the fill and says whether to ask for another one, stop with the
//! complete listing, or give up.

use vstd::prelude::*;
use crate::record::{parse_fill, parse_records};

verus! {

/// Default capacity of the fill buffer, in bytes.
pub const DEFAULT_BUF_SIZE: usize = 5242880;

/// Why a listing failed.
#[derive(PartialEq, Eq, Structural, Debug, Clone, Copy)]
pub enum ListError {
    /// The path does not name an existing directory.
    NotADirectory,
    /// The directory could not be opened.
    OpenFailed,
    /// The enumeration call reported an error.
    ReadFailed,
    /// A fill held a record that is not well framed within the filled bytes.
    MalformedRecord,
}

/// What one enumeration call gave back.
#[derive(PartialEq, Eq, Structural, Debug, Clone, Copy)]
pub enum FillEvent {
    /// The call succeeded and filled this many bytes; zero means that no
    /// entries are left.
    Filled(usize),
    /// The call reported an error.
    Failed,
}

/// What the driver does next.
#[derive(PartialEq, Eq, Structural, Debug, Clone, Copy)]
pub enum Step {
    /// Ask for another fill.
    FillAgain,
    /// The directory has been listed completely.
    Finished,
    /// Give up; the names gathered so far are not a listing.
    Aborted(ListError),
}

/// How the process ends.
#[derive(PartialEq, Eq, Structural, Debug, Clone, Copy)]
pub enum ExitCode {
    Success,
    Error,
}

impl ExitCode {
    /// The process exit status: 0 for success, 1 for any failure.
    pub fn code(&self) -> (r: i32)
        ensures
            r == (if *self == ExitCode::Success { 0i32 } else { 1i32 }),
    {
        match self {
            ExitCode::Success => 0,
            ExitCode::Error => 1,
        }
    }
}

/// The exit code for the outcome of a listing.
pub fn exit_code_of(outcome: &Result<Vec<String>, ListError>) -> (r: ExitCode)
    ensures
        (r == ExitCode::Success) == (outcome is Ok),
{
    match outcome {
        Ok(_) => ExitCode::Success,
        Err(_) => ExitCode::Error,
    }
}

/// The step that follows the outcome `event` of an enumeration call that
/// filled the buffer `buf`.
pub open spec fn step_for(buf: Seq<u8>, event: FillEvent) -> Step {
    match event {
        FillEvent::Failed => Step::Aborted(ListError::ReadFailed),
        FillEvent::Filled(count) => if count == 0 {
            Step::Finished
        } else if count > buf.len() || parse_fill(buf.subrange(0, count as int)) is None {
            Step::Aborted(ListError::MalformedRecord)
        } else {
            Step::FillAgain
        },
    }
}

/// The names gathered from the fills of one directory so far.
pub struct Enumeration {
    names: Vec<String>,
}

impl View for Enumeration {
    type V = Seq<Seq<char>>;

    closed spec fn view(&self) -> Seq<Seq<char>> {
        self.names.deep_view()
    }
}

impl Enumeration {
    /// An enumeration that has gathered nothing yet.
    pub fn new() -> (r: Enumeration)
        ensures
            r@ == Seq::<Seq<char>>::empty(),
    {
        let r = Enumeration { names: Vec::new() };
        assert(r@ =~= Seq::<Seq<char>>::empty());
        r
    }

    /// Takes the outcome of one enumeration call, whose bytes stand at the
    /// start of `buf`, and decides the next step.
    ///
    /// A positive count appends the names that the fill lists and asks for
    /// another fill; zero finishes. A failed call aborts with `ReadFailed`; a
    /// count beyond the buffer, or records that are not well framed within the
    /// filled bytes, abort with `MalformedRecord`. Nothing is gathered from a
    /// fill that aborts.
    pub fn on_fill(&mut self, buf: &[u8], event: FillEvent) -> (step: Step)
        ensures
            step == step_for(buf@, event),
            match (step, event) {
                (Step::FillAgain, FillEvent::Filled(count)) => final(self)@ == old(self)@
                    + parse_fill(buf@.subrange(0, count as int))->0,
                _ => final(self)@ == old(self)@,
            },
    {
        match event {
            FillEvent::Failed => Step::Aborted(ListError::ReadFailed),
            FillEvent::Filled(count) => {
                if count == 0 {
                    Step::Finished
                } else if count > buf.len() {
                    Step::Aborted(ListError::MalformedRecord)
                } else {
                    match parse_records(buf, count) {
                        Some(mut fresh) => {
                            let ghost before = self@;
                            let ghost added = fresh.deep_view();
                            self.names.append(&mut fresh);
                            assert(self@ =~= before + added);
                            Step::FillAgain
                        },
                        None => Step::Aborted(ListError::MalformedRecord),
                    }
                }
            },
        }
    }

    /// The names gathered, in the order the fills listed them.
    pub fn into_names(self) -> (r: Vec<String>)
        ensures
            r.deep_view() == self@,
    {
        self.names
    }
}

} // verus!

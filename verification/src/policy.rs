//! The conversion policy: what is done with one file, step by step.
//!
//! The policy does no work on files itself. It names the next thing to do as
//! an [`Action`], and is told how that went by an [`Event`]. Whoever drives
//! it performs each action and hands back the event, until the action is
//! `Finish`.

use vstd::prelude::*;

use crate::stats::{ConversionOutcome, Status};

verus! {

/// The three switches that decide what happens to existing and to larger
/// outputs. They are independent of each other.
#[derive(Clone, Copy, Debug, PartialEq, Eq, Structural)]
pub struct Flags {
    /// Overwrite an existing output if the new encoding is smaller.
    pub overwrite_if_smaller: bool,
    /// Overwrite existing outputs regardless of size.
    pub overwrite_existing: bool,
    /// Discard an encoding that is not smaller than its input.
    pub discard_if_larger_than_input: bool,
}

/// What is to be done next for a file.
#[derive(Clone, Copy, Debug, PartialEq, Eq)]
pub enum Action {
    /// Look at the output path: is there a file, and how large is it?
    ProbeOutput,
    /// Measure the input file.
    MeasureInput,
    /// Decode the input and encode it in the target format.
    Encode,
    /// Write the encoded bytes to the output path.
    Write,
    /// Nothing is left to do: this is the outcome of the file.
    Finish(ConversionOutcome),
}

/// How an action went.
#[derive(Clone, Copy, Debug, PartialEq, Eq)]
pub enum Event {
    /// The size of the file at the output path, or `None` if there is none.
    OutputProbed(Option<u64>),
    /// The size of the input file.
    InputMeasured(u64),
    /// The input was encoded; the encoding has this many bytes.
    Encoded(u64),
    /// The encoded bytes were written.
    Written,
    /// The action failed.
    Failed,
}

/// Where the work on a file stands.
#[derive(Clone, Copy, Debug, PartialEq, Eq)]
pub enum Phase {
    /// Nothing is known yet; the output path is to be probed.
    PreCheck,
    /// An existing output of this size stays and the file is skipped; the
    /// input is to be measured for the statistics.
    KeepExisting { existing: u64 },
    /// The input is to be encoded.
    Encoding,
    /// The encoding has this size; the output path is probed once more, to
    /// see whether the encoding is smaller than what is there.
    PostCheck { encoded: u64 },
    /// The encoding has this size and may replace what is there; the input
    /// is to be measured.
    Sizing { encoded: u64 },
    /// The encoding is to be written.
    Writing { input: u64, encoded: u64 },
    /// The work is over, with this outcome.
    Done(ConversionOutcome),
}

/// The policy state of one file.
#[derive(Clone, Copy, Debug, PartialEq, Eq)]
pub struct FileJob {
    pub flags: Flags,
    pub phase: Phase,
}

/// The outcome of a file that was skipped without an output to report.
pub open spec fn skipped_outcome() -> ConversionOutcome {
    ConversionOutcome { status: Status::Skipped, input_size: 0, output_size: 0 }
}

/// The outcome of a file whose conversion failed.
pub open spec fn errored_outcome() -> ConversionOutcome {
    ConversionOutcome { status: Status::Errored, input_size: 0, output_size: 0 }
}

impl FileJob {
    /// The state in which the work on a file begins. Where the run was
    /// cancelled before, the file is skipped and nothing is started.
    pub open spec fn spec_start(flags: Flags, cancelled: bool) -> FileJob {
        FileJob {
            flags,
            phase: if cancelled {
                Phase::Done(skipped_outcome())
            } else {
                Phase::PreCheck
            },
        }
    }

    /// The action that the state asks for.
    pub open spec fn spec_action(self) -> Action {
        match self.phase {
            Phase::PreCheck => Action::ProbeOutput,
            Phase::KeepExisting { .. } => Action::MeasureInput,
            Phase::Encoding => Action::Encode,
            Phase::PostCheck { .. } => Action::ProbeOutput,
            Phase::Sizing { .. } => Action::MeasureInput,
            Phase::Writing { .. } => Action::Write,
            Phase::Done(outcome) => Action::Finish(outcome),
        }
    }

    /// The phase that follows on an event.
    ///
    /// Once done, nothing changes. A failure ends the work with `Errored`;
    /// only where an existing output is kept and the input cannot be
    /// measured, the file is skipped all the same, without sizes.
    /// An existing output is kept without encoding where no overwrite flag
    /// is set, and after encoding where `overwrite_if_smaller` is set and the
    /// encoding is not smaller. An encoding that is not smaller than the
    /// input is dropped where `discard_if_larger_than_input` is set. An
    /// event that does not answer the pending action counts as a failure,
    /// so that every event moves the work on.
    pub open spec fn spec_next_phase(self, event: Event) -> Phase {
        match (self.phase, event) {
            (Phase::Done(outcome), _) => Phase::Done(outcome),
            (Phase::KeepExisting { .. }, Event::Failed) => Phase::Done(skipped_outcome()),
            (_, Event::Failed) => Phase::Done(errored_outcome()),
            (Phase::PreCheck, Event::OutputProbed(probe)) => match probe {
                Some(existing) => if !self.flags.overwrite_existing
                    && !self.flags.overwrite_if_smaller {
                    Phase::KeepExisting { existing }
                } else {
                    Phase::Encoding
                },
                None => Phase::Encoding,
            },
            (Phase::KeepExisting { existing }, Event::InputMeasured(input)) => Phase::Done(
                ConversionOutcome {
                    status: Status::Skipped,
                    input_size: input,
                    output_size: existing,
                },
            ),
            (Phase::Encoding, Event::Encoded(encoded)) => if self.flags.overwrite_if_smaller {
                Phase::PostCheck { encoded }
            } else {
                Phase::Sizing { encoded }
            },
            (Phase::PostCheck { encoded }, Event::OutputProbed(probe)) => match probe {
                Some(existing) => if encoded >= existing {
                    Phase::KeepExisting { existing }
                } else {
                    Phase::Sizing { encoded }
                },
                None => Phase::Sizing { encoded },
            },
            (Phase::Sizing { encoded }, Event::InputMeasured(input)) => {
                if self.flags.discard_if_larger_than_input && encoded >= input {
                    Phase::Done(skipped_outcome())
                } else {
                    Phase::Writing { input, encoded }
                }
            },
            (Phase::Writing { input, encoded }, Event::Written) => Phase::Done(
                ConversionOutcome {
                    status: Status::Converted,
                    input_size: input,
                    output_size: encoded,
                },
            ),
            (_, _) => Phase::Done(errored_outcome()),
        }
    }

    /// The state that follows on an event.
    pub open spec fn spec_step(self, event: Event) -> FileJob {
        FileJob { flags: self.flags, phase: self.spec_next_phase(event) }
    }

    /// The outcome, once the work is over.
    pub open spec fn spec_outcome(self) -> Option<ConversionOutcome> {
        match self.phase {
            Phase::Done(outcome) => Some(outcome),
            _ => None,
        }
    }

    /// Begins the work on a file. `cancelled` is what the cancellation flag
    /// held when the file's turn came.
    pub fn start(flags: Flags, cancelled: bool) -> (job: FileJob)
        ensures
            job == Self::spec_start(flags, cancelled),
    {
        if cancelled {
            FileJob { flags, phase: Phase::Done(ConversionOutcome::skipped()) }
        } else {
            FileJob { flags, phase: Phase::PreCheck }
        }
    }

    /// The action to perform next.
    pub fn action(&self) -> (action: Action)
        ensures
            action == self.spec_action(),
    {
        match self.phase {
            Phase::PreCheck => Action::ProbeOutput,
            Phase::KeepExisting { .. } => Action::MeasureInput,
            Phase::Encoding => Action::Encode,
            Phase::PostCheck { .. } => Action::ProbeOutput,
            Phase::Sizing { .. } => Action::MeasureInput,
            Phase::Writing { .. } => Action::Write,
            Phase::Done(outcome) => Action::Finish(outcome),
        }
    }

    /// Takes in how the pending action went and moves on.
    pub fn step(self, event: Event) -> (next: FileJob)
        ensures
            next == self.spec_step(event),
    {
        let flags = self.flags;
        let phase = match (self.phase, event) {
            (Phase::Done(outcome), _) => Phase::Done(outcome),
            (Phase::KeepExisting { .. }, Event::Failed) => Phase::Done(
                ConversionOutcome::skipped(),
            ),
            (_, Event::Failed) => Phase::Done(ConversionOutcome::errored()),
            (Phase::PreCheck, Event::OutputProbed(probe)) => match probe {
                Some(existing) => if !flags.overwrite_existing && !flags.overwrite_if_smaller {
                    Phase::KeepExisting { existing }
                } else {
                    Phase::Encoding
                },
                None => Phase::Encoding,
            },
            (Phase::KeepExisting { existing }, Event::InputMeasured(input)) => Phase::Done(
                ConversionOutcome::kept_existing(input, existing),
            ),
            (Phase::Encoding, Event::Encoded(encoded)) => if flags.overwrite_if_smaller {
                Phase::PostCheck { encoded }
            } else {
                Phase::Sizing { encoded }
            },
            (Phase::PostCheck { encoded }, Event::OutputProbed(probe)) => match probe {
                Some(existing) => if encoded >= existing {
                    Phase::KeepExisting { existing }
                } else {
                    Phase::Sizing { encoded }
                },
                None => Phase::Sizing { encoded },
            },
            (Phase::Sizing { encoded }, Event::InputMeasured(input)) => {
                if flags.discard_if_larger_than_input && encoded >= input {
                    Phase::Done(ConversionOutcome::skipped())
                } else {
                    Phase::Writing { input, encoded }
                }
            },
            (Phase::Writing { input, encoded }, Event::Written) => Phase::Done(
                ConversionOutcome::converted(input, encoded),
            ),
            (_, _) => Phase::Done(ConversionOutcome::errored()),
        };
        FileJob { flags, phase }
    }

    /// The outcome of the file, once the work on it is over.
    pub fn outcome(&self) -> (r: Option<ConversionOutcome>)
        ensures
            r == self.spec_outcome(),
    {
        match self.phase {
            Phase::Done(outcome) => Some(outcome),
            _ => None,
        }
    }
}

/// How many actions a phase is from the end of the work, at most.
pub open spec fn steps_left(phase: Phase) -> nat {
    match phase {
        Phase::PreCheck => 5,
        Phase::Encoding => 4,
        Phase::PostCheck { .. } => 3,
        Phase::Sizing { .. } => 2,
        Phase::KeepExisting { .. } => 1,
        Phase::Writing { .. } => 1,
        Phase::Done(_) => 0,
    }
}

/// The state after a series of events.
pub open spec fn after_events(job: FileJob, events: Seq<Event>) -> FileJob
    decreases events.len(),
{
    if events.len() == 0 {
        job
    } else {
        after_events(job, events.drop_last()).spec_step(events.last())
    }
}

/// Every event brings work that is not over closer to its end, and leaves
/// work that is over as it is.
pub proof fn lemma_step_moves_on(job: FileJob, event: Event)
    ensures
        !(job.phase is Done) ==> steps_left(job.spec_step(event).phase) < steps_left(job.phase),
        job.phase is Done ==> job.spec_step(event) == job,
        job.spec_step(event).flags == job.flags,
{
}

/// After as many events as there are steps left, whatever the events are,
/// the work on a file is over. From the start five events are enough.
pub proof fn lemma_done_after_enough_events(job: FileJob, events: Seq<Event>)
    requires
        events.len() >= steps_left(job.phase),
    ensures
        after_events(job, events).phase is Done,
{
    lemma_steps_left_after(job, events);
}

/// A series of events leaves at most as many steps as it falls short of
/// those that were left.
proof fn lemma_steps_left_after(job: FileJob, events: Seq<Event>)
    ensures
        steps_left(after_events(job, events).phase) + events.len() <= steps_left(job.phase)
            || after_events(job, events).phase is Done,
    decreases events.len(),
{
    if events.len() > 0 {
        lemma_steps_left_after(job, events.drop_last());
        lemma_step_moves_on(after_events(job, events.drop_last()), events.last());
    }
}

} // verus!

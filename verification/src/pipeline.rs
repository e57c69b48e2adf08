//! What a run does to the files, stated over a model of the file system,
//! and the laws of the conversion policy that follow.
//!
//! The model holds of each path whether it names a file and how large that
//! file is. Files are handled one after the other, each all at once, and a
//! write that fails leaves nothing behind.

use vstd::prelude::*;

use crate::policy::{errored_outcome, skipped_outcome, Action, Event, FileJob, Flags, Phase};
use crate::stats::{count_with, lemma_counts_partition, ConversionOutcome, Status};

verus! {

/// The files that exist, each with its size in bytes.
pub type Files = Map<Seq<char>, u64>;

/// One file to convert, and what its conversion will meet.
pub struct Task {
    /// The path of the input.
    pub input: Seq<char>,
    /// The path that the output is written to.
    pub output: Seq<char>,
    /// Whether the run is cancelled when the turn of the file comes.
    pub cancelled: bool,
    /// The size of the encoding, or `None` where decoding or encoding fails.
    pub encoding: Option<u64>,
    /// Whether writing the output succeeds.
    pub writable: bool,
}

/// The size of the file at `path`, if there is one.
pub open spec fn size_of(files: Files, path: Seq<char>) -> Option<u64> {
    if files.contains_key(path) {
        Some(files[path])
    } else {
        None
    }
}

/// How an action goes on `files`, and what it leaves. Probing and measuring
/// read the files; encoding needs the input and gives what the task holds
/// for it; writing puts the encoding at the output path. There is nothing to
/// perform once the work is over.
pub open spec fn perform(files: Files, task: Task, action: Action) -> (Files, Event) {
    match action {
        Action::ProbeOutput => (files, Event::OutputProbed(size_of(files, task.output))),
        Action::MeasureInput => match size_of(files, task.input) {
            Some(size) => (files, Event::InputMeasured(size)),
            None => (files, Event::Failed),
        },
        Action::Encode => match task.encoding {
            Some(encoded) => if files.contains_key(task.input) {
                (files, Event::Encoded(encoded))
            } else {
                (files, Event::Failed)
            },
            None => (files, Event::Failed),
        },
        Action::Write => match task.encoding {
            Some(encoded) => if task.writable {
                (files.insert(task.output, encoded), Event::Written)
            } else {
                (files, Event::Failed)
            },
            None => (files, Event::Failed),
        },
        Action::Finish(_) => (files, Event::Failed),
    }
}

/// Drives `job` on `files` for up to `steps` actions: each action that the
/// job asks for is performed, and the job is told how it went.
pub open spec fn drive(files: Files, task: Task, job: FileJob, steps: nat) -> (Files, FileJob)
    decreases steps,
{
    if steps == 0 || job.phase is Done {
        (files, job)
    } else {
        let (after, event) = perform(files, task, job.spec_action());
        drive(after, task, job.spec_step(event), (steps - 1) as nat)
    }
}

/// No file takes more actions than this.
pub open spec fn max_steps() -> nat {
    5
}

/// Converts one file: the files afterwards, and the outcome.
pub open spec fn run_file(files: Files, flags: Flags, task: Task) -> (Files, ConversionOutcome) {
    let (after, job) = drive(files, task, FileJob::spec_start(flags, task.cancelled), max_steps());
    (
        after,
        match job.phase {
            Phase::Done(outcome) => outcome,
            _ => errored_outcome(),
        },
    )
}

/// Converts the files of `tasks` in order: the files afterwards, and the
/// outcomes in the order of the tasks.
pub open spec fn run_all(files: Files, flags: Flags, tasks: Seq<Task>) -> (
    Files,
    Seq<ConversionOutcome>,
)
    decreases tasks.len(),
{
    if tasks.len() == 0 {
        (files, Seq::empty())
    } else {
        let (before, outcomes) = run_all(files, flags, tasks.drop_last());
        let (after, outcome) = run_file(before, flags, tasks.last());
        (after, outcomes.push(outcome))
    }
}

/// What the policy comes to for one file, in one piece.
///
/// A cancelled run skips the file. An existing output is kept, and the file
/// skipped, where no overwrite flag is set. Else the input is encoded, and a
/// failure there is the outcome. With `overwrite_if_smaller`, an existing
/// output that is not larger than the encoding is kept. With
/// `discard_if_larger_than_input`, an encoding that is not smaller than the
/// input is dropped. Else the encoding is written.
pub open spec fn verdict(files: Files, flags: Flags, task: Task) -> (Files, ConversionOutcome) {
    let existing = size_of(files, task.output);
    let input = size_of(files, task.input);
    if task.cancelled {
        (files, skipped_outcome())
    } else if existing is Some && !flags.overwrite_existing && !flags.overwrite_if_smaller {
        match input {
            Some(size) => (
                files,
                ConversionOutcome {
                    status: Status::Skipped,
                    input_size: size,
                    output_size: existing->0,
                },
            ),
            None => (files, skipped_outcome()),
        }
    } else if input is None || task.encoding is None {
        (files, errored_outcome())
    } else if flags.overwrite_if_smaller && existing is Some && task.encoding->0 >= existing->0 {
        (
            files,
            ConversionOutcome {
                status: Status::Skipped,
                input_size: input->0,
                output_size: existing->0,
            },
        )
    } else if flags.discard_if_larger_than_input && task.encoding->0 >= input->0 {
        (files, skipped_outcome())
    } else if !task.writable {
        (files, errored_outcome())
    } else {
        (
            files.insert(task.output, task.encoding->0),
            ConversionOutcome {
                status: Status::Converted,
                input_size: input->0,
                output_size: task.encoding->0,
            },
        )
    }
}

/// Driving the policy step by step comes to its verdict.
pub proof fn lemma_run_file_is_verdict(files: Files, flags: Flags, task: Task)
    ensures
        run_file(files, flags, task) == verdict(files, flags, task),
{
    reveal_with_fuel(drive, 6);
}

/// The work on a file is over after at most `max_steps()` actions, so that
/// every file comes to an outcome. The outcome carries sizes only where it
/// is `Converted`, or `Skipped` for an output that exists.
pub proof fn lemma_policy_finishes(files: Files, flags: Flags, task: Task)
    ensures
        ({
            let job = drive(
                files,
                task,
                FileJob::spec_start(flags, task.cancelled),
                max_steps(),
            ).1;
            &&& job.phase is Done
            &&& job.spec_outcome() == Some(run_file(files, flags, task).1)
        }),
        ({
            let outcome = run_file(files, flags, task).1;
            &&& outcome.wf()
            &&& outcome.status == Status::Skipped && outcome != skipped_outcome()
                ==> files.contains_key(task.output) && outcome.output_size
                == files[task.output]
        }),
{
    reveal_with_fuel(drive, 6);
}

/// Whether `later` holds every file of `earlier`, at its size.
pub open spec fn keeps(earlier: Files, later: Files) -> bool {
    forall|path: Seq<char>| #[trigger]
        earlier.contains_key(path) ==> later.contains_key(path) && later[path] == earlier[path]
}

/// Each task gets exactly one outcome, so that the counts of converted,
/// skipped and failed files add up to the number of tasks.
pub proof fn lemma_one_outcome_per_task(files: Files, flags: Flags, tasks: Seq<Task>)
    ensures
        ({
            let outcomes = run_all(files, flags, tasks).1;
            &&& outcomes.len() == tasks.len()
            &&& count_with(outcomes, Status::Converted) + count_with(outcomes, Status::Skipped)
                + count_with(outcomes, Status::Errored) == tasks.len()
        }),
    decreases tasks.len(),
{
    if tasks.len() > 0 {
        lemma_one_outcome_per_task(files, flags, tasks.drop_last());
    }
    lemma_counts_partition(run_all(files, flags, tasks).1);
}

/// An output that exists is left alone where no overwrite flag is set: the
/// file is skipped and nothing is written, whether or not the input can be
/// read or encoded. The input is not encoded: what encoding or writing
/// would give plays no part.
pub proof fn lemma_existing_output_is_skipped(
    files: Files,
    flags: Flags,
    task: Task,
    other: Task,
)
    requires
        !flags.overwrite_existing,
        !flags.overwrite_if_smaller,
        files.contains_key(task.output),
        other.input == task.input,
        other.output == task.output,
        other.cancelled == task.cancelled,
    ensures
        run_file(files, flags, task).1.status == Status::Skipped,
        run_file(files, flags, task).0 == files,
        run_file(files, flags, other) == run_file(files, flags, task),
        !task.cancelled ==> ({
            let probed = FileJob::spec_start(flags, false).spec_step(
                Event::OutputProbed(size_of(files, task.output)),
            );
            &&& probed.spec_action() == Action::MeasureInput
            &&& forall|event: Event| (#[trigger] probed.spec_step(event)).phase is Done
        }),
{
    lemma_run_file_is_verdict(files, flags, task);
    lemma_run_file_is_verdict(files, flags, other);
}

/// With `overwrite_if_smaller`, an encoding that is smaller than the existing
/// output replaces it. This holds of a file whose turn comes, whose input
/// can be encoded and whose output can be written, unless the encoding is
/// discarded for being no smaller than the input.
pub proof fn lemma_smaller_encoding_replaces(files: Files, flags: Flags, task: Task)
    requires
        flags.overwrite_if_smaller,
        !task.cancelled,
        task.writable,
        files.contains_key(task.input),
        files.contains_key(task.output),
        task.encoding matches Some(encoded) && encoded < files[task.output] && !(
        flags.discard_if_larger_than_input && encoded >= files[task.input]),
    ensures
        ({
            let (after, outcome) = run_file(files, flags, task);
            &&& outcome.status == Status::Converted
            &&& outcome.output_size == task.encoding->0
            &&& after == files.insert(task.output, task.encoding->0)
        }),
{
    lemma_run_file_is_verdict(files, flags, task);
}

/// With `overwrite_if_smaller`, an existing output that is not larger than
/// the encoding stays as it is, and the file counts as skipped.
pub proof fn lemma_existing_not_larger_stays(files: Files, flags: Flags, task: Task)
    requires
        flags.overwrite_if_smaller,
        !task.cancelled,
        files.contains_key(task.input),
        files.contains_key(task.output),
        task.encoding matches Some(encoded) && encoded >= files[task.output],
    ensures
        ({
            let (after, outcome) = run_file(files, flags, task);
            &&& outcome.status == Status::Skipped
            &&& after == files
        }),
{
    lemma_run_file_is_verdict(files, flags, task);
}

/// With `discard_if_larger_than_input`, an encoding that is not smaller than
/// the input is never written, and the file counts as skipped.
pub proof fn lemma_larger_encoding_is_discarded(files: Files, flags: Flags, task: Task)
    requires
        flags.discard_if_larger_than_input,
        files.contains_key(task.input),
        task.encoding matches Some(encoded) && encoded >= files[task.input],
    ensures
        ({
            let (after, outcome) = run_file(files, flags, task);
            &&& outcome.status == Status::Skipped
            &&& after == files
        }),
{
    lemma_run_file_is_verdict(files, flags, task);
}

/// A file is written only if its outcome is `Converted`, and then only the
/// output path changes. Without overwrite flags no existing file changes.
pub proof fn lemma_run_file_writes(files: Files, flags: Flags, task: Task)
    ensures
        ({
            let (after, outcome) = run_file(files, flags, task);
            &&& outcome.status != Status::Converted ==> after == files
            &&& outcome.status == Status::Converted ==> after == files.insert(
                task.output,
                outcome.output_size,
            )
            &&& !flags.overwrite_existing && !flags.overwrite_if_smaller ==> keeps(files, after)
        }),
{
    lemma_run_file_is_verdict(files, flags, task);
}

/// Without overwrite flags a run changes no file that existed before it.
pub proof fn lemma_run_all_keeps(files: Files, flags: Flags, tasks: Seq<Task>)
    requires
        !flags.overwrite_existing,
        !flags.overwrite_if_smaller,
    ensures
        keeps(files, run_all(files, flags, tasks).0),
    decreases tasks.len(),
{
    if tasks.len() > 0 {
        let before = run_all(files, flags, tasks.drop_last()).0;
        lemma_run_all_keeps(files, flags, tasks.drop_last());
        lemma_run_file_writes(before, flags, tasks.last());
        let after = run_all(files, flags, tasks).0;
        assert forall|path: Seq<char>| #[trigger]
            files.contains_key(path) implies after.contains_key(path) && after[path]
            == files[path] by {
            assert(before.contains_key(path));
        }
    }
}

/// The run of the first `n` tasks is the beginning of the run of all.
pub proof fn lemma_run_all_prefix(files: Files, flags: Flags, tasks: Seq<Task>, n: int)
    requires
        0 <= n < tasks.len(),
    ensures
        ({
            let before = run_all(files, flags, tasks.take(n)).0;
            &&& run_all(files, flags, tasks).1.len() == tasks.len()
            &&& run_all(files, flags, tasks).1[n] == run_file(before, flags, tasks[n]).1
            &&& run_all(files, flags, tasks.take(n + 1)).0 == run_file(before, flags, tasks[n]).0
        }),
    decreases tasks.len(),
{
    lemma_one_outcome_per_task(files, flags, tasks);
    lemma_one_outcome_per_task(files, flags, tasks.drop_last());
    assert(tasks.take(n + 1).drop_last() == tasks.take(n));
    assert(tasks.take(n + 1).last() == tasks[n]);
    if n == tasks.len() - 1 {
        assert(tasks.take(n) == tasks.drop_last());
    } else {
        lemma_run_all_prefix(files, flags, tasks.drop_last(), n);
        assert(tasks.drop_last().take(n) == tasks.take(n));
    }
}

/// Whether two tasks are the same file under the same circumstances, but
/// for the state of the cancellation flag.
pub open spec fn same_work(a: Task, b: Task) -> bool {
    &&& a.input == b.input
    &&& a.output == b.output
    &&& a.encoding == b.encoding
    &&& a.writable == b.writable
}

/// Running twice converts nothing the second time.
///
/// Let no overwrite flag be set, let every input exist, and let the first
/// run go uninterrupted. Then a second run over the same files, which meets
/// what the first one met, writes nothing and converts nothing, and skips
/// every file that the first run did not fail on.
pub proof fn lemma_second_run_converts_nothing(
    files: Files,
    flags: Flags,
    first: Seq<Task>,
    second: Seq<Task>,
)
    requires
        !flags.overwrite_existing,
        !flags.overwrite_if_smaller,
        first.len() == second.len(),
        forall|i: int| 0 <= i < first.len() ==> same_work(#[trigger] first[i], second[i]),
        forall|i: int| 0 <= i < first.len() ==> !(#[trigger] first[i]).cancelled,
        forall|i: int| 0 <= i < first.len() ==> files.contains_key((#[trigger] first[i]).input),
    ensures
        ({
            let (between, earlier) = run_all(files, flags, first);
            let (after, later) = run_all(between, flags, second);
            &&& after == between
            &&& later.len() == first.len()
            &&& earlier.len() == first.len()
            &&& forall|i: int|
                0 <= i < first.len() ==> (#[trigger] later[i]).status != Status::Converted
            &&& forall|i: int|
                0 <= i < first.len() && earlier[i].status != Status::Errored ==> (
                #[trigger] later[i]).status == Status::Skipped
        }),
{
    let (between, earlier) = run_all(files, flags, first);
    lemma_one_outcome_per_task(files, flags, first);
    lemma_second_run_prefix(files, flags, first, second, first.len() as int);
    assert(second.take(second.len() as int) == second);
    let later = run_all(between, flags, second).1;
    lemma_one_outcome_per_task(between, flags, second);
    assert forall|i: int| 0 <= i < first.len() implies (#[trigger] later[i]).status
        != Status::Converted && (earlier[i].status != Status::Errored ==> later[i].status
        == Status::Skipped) by {
        lemma_second_run_prefix(files, flags, first, second, i);
        lemma_second_run_step(files, flags, first, second, i);
        lemma_run_all_prefix(between, flags, second, i);
        lemma_run_all_prefix(files, flags, first, i);
    }
}

/// The first `n` files of the second run leave the files as the first run
/// left them.
proof fn lemma_second_run_prefix(
    files: Files,
    flags: Flags,
    first: Seq<Task>,
    second: Seq<Task>,
    n: int,
)
    requires
        !flags.overwrite_existing,
        !flags.overwrite_if_smaller,
        first.len() == second.len(),
        forall|i: int| 0 <= i < first.len() ==> same_work(#[trigger] first[i], second[i]),
        forall|i: int| 0 <= i < first.len() ==> !(#[trigger] first[i]).cancelled,
        forall|i: int| 0 <= i < first.len() ==> files.contains_key((#[trigger] first[i]).input),
        0 <= n <= first.len(),
    ensures
        run_all(run_all(files, flags, first).0, flags, second.take(n)).0 == run_all(
            files,
            flags,
            first,
        ).0,
    decreases n,
{
    let between = run_all(files, flags, first).0;
    if n > 0 {
        lemma_second_run_prefix(files, flags, first, second, n - 1);
        lemma_second_run_step(files, flags, first, second, n - 1);
        assert(second.take(n).drop_last() == second.take(n - 1));
        assert(second.take(n).last() == second[n - 1]);
        lemma_run_file_writes(between, flags, second[n - 1]);
    }
}

/// On the files that the first run left, the file at `i` is not converted
/// again, and is skipped if the first run did not fail on it.
proof fn lemma_second_run_step(
    files: Files,
    flags: Flags,
    first: Seq<Task>,
    second: Seq<Task>,
    i: int,
)
    requires
        !flags.overwrite_existing,
        !flags.overwrite_if_smaller,
        first.len() == second.len(),
        forall|i: int| 0 <= i < first.len() ==> same_work(#[trigger] first[i], second[i]),
        forall|i: int| 0 <= i < first.len() ==> !(#[trigger] first[i]).cancelled,
        forall|i: int| 0 <= i < first.len() ==> files.contains_key((#[trigger] first[i]).input),
        0 <= i < first.len(),
    ensures
        ({
            let between = run_all(files, flags, first).0;
            let before = run_all(files, flags, first.take(i)).0;
            let earlier = run_file(before, flags, first[i]).1;
            let later = run_file(between, flags, second[i]).1;
            &&& later.status != Status::Converted
            &&& earlier.status != Status::Errored ==> later.status == Status::Skipped
        }),
{
    let between = run_all(files, flags, first).0;
    let before = run_all(files, flags, first.take(i)).0;
    let beyond = run_all(files, flags, first.take(i + 1)).0;
    let task = first[i];
    let again = second[i];
    assert(same_work(task, again));
    assert(files.contains_key(task.input));
    lemma_run_all_keeps(files, flags, first.take(i));
    lemma_run_all_keeps(files, flags, first);
    lemma_run_all_prefix(files, flags, first, i);
    lemma_run_all_continues(files, flags, first, i + 1);
    lemma_run_all_keeps(beyond, flags, first.skip(i + 1));
    lemma_run_file_is_verdict(before, flags, task);
    lemma_run_file_is_verdict(between, flags, again);
    assert(before.contains_key(task.input) && before[task.input] == files[task.input]);
    assert(between.contains_key(task.input) && between[task.input] == files[task.input]);
    if before.contains_key(task.output) {
        assert(beyond.contains_key(task.output));
        assert(between.contains_key(task.output));
    }
    if run_file(before, flags, task).1.status == Status::Converted {
        assert(beyond.contains_key(task.output));
        assert(between.contains_key(task.output));
    }
}

/// A run is the run of its first `n` tasks followed by the run of the rest.
pub proof fn lemma_run_all_continues(files: Files, flags: Flags, tasks: Seq<Task>, n: int)
    requires
        0 <= n <= tasks.len(),
    ensures
        run_all(files, flags, tasks).0 == run_all(
            run_all(files, flags, tasks.take(n)).0,
            flags,
            tasks.skip(n),
        ).0,
    decreases tasks.len(),
{
    if n == tasks.len() {
        assert(tasks.take(n) == tasks);
        assert(tasks.skip(n).len() == 0);
    } else {
        lemma_run_all_continues(files, flags, tasks.drop_last(), n);
        assert(tasks.drop_last().take(n) == tasks.take(n));
        assert(tasks.skip(n).drop_last() == tasks.drop_last().skip(n));
        assert(tasks.skip(n).last() == tasks.last());
    }
}

} // verus!

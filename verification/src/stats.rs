//! Per-file outcomes and their reduction into the statistics of a run.

use vstd::prelude::*;

verus! {

/// How the conversion of one file ended.
#[derive(Clone, Copy, Debug, PartialEq, Eq, Structural)]
pub enum Status {
    /// The encoded bytes were written to the output path.
    Converted,
    /// Nothing was written and nothing went wrong.
    Skipped,
    /// Reading, decoding, encoding or writing failed.
    Errored,
}

/// The result of one file: how it ended, and the sizes in bytes of the input
/// and of the output that stands at the output path.
#[derive(Clone, Copy, Debug, PartialEq, Eq, Structural)]
pub struct ConversionOutcome {
    pub status: Status,
    pub input_size: u64,
    pub output_size: u64,
}

impl ConversionOutcome {
    /// An outcome that is not `Converted` carries no sizes, unless the file
    /// was skipped for an output that already existed. So a failure never
    /// carries any.
    pub open spec fn wf(self) -> bool {
        self.status == Status::Errored ==> self.input_size == 0 && self.output_size == 0
    }

    /// Whether the sizes of this outcome enter the totals of a run.
    pub open spec fn counts_bytes(self) -> bool {
        self.status != Status::Errored
    }

    /// The file was converted: `input_size` bytes in, `output_size` bytes out.
    pub fn converted(input_size: u64, output_size: u64) -> (r: ConversionOutcome)
        ensures
            r == (ConversionOutcome { status: Status::Converted, input_size, output_size }),
            r.wf(),
    {
        ConversionOutcome { status: Status::Converted, input_size, output_size }
    }

    /// The file was skipped because its output exists already and stays:
    /// the sizes are those of the input and of the existing output.
    pub fn kept_existing(input_size: u64, existing_size: u64) -> (r: ConversionOutcome)
        ensures
            r == (ConversionOutcome {
                status: Status::Skipped,
                input_size,
                output_size: existing_size,
            }),
            r.wf(),
    {
        ConversionOutcome { status: Status::Skipped, input_size, output_size: existing_size }
    }

    /// The file was skipped and left no output to report: the run was
    /// interrupted before its turn, or its encoding was discarded.
    pub fn skipped() -> (r: ConversionOutcome)
        ensures
            r == (ConversionOutcome { status: Status::Skipped, input_size: 0, output_size: 0 }),
            r.wf(),
    {
        ConversionOutcome { status: Status::Skipped, input_size: 0, output_size: 0 }
    }

    /// The conversion of the file failed.
    pub fn errored() -> (r: ConversionOutcome)
        ensures
            r == (ConversionOutcome { status: Status::Errored, input_size: 0, output_size: 0 }),
            r.wf(),
    {
        ConversionOutcome { status: Status::Errored, input_size: 0, output_size: 0 }
    }
}

/// How many of the outcomes ended with `status`.
pub open spec fn count_with(outcomes: Seq<ConversionOutcome>, status: Status) -> nat
    decreases outcomes.len(),
{
    if outcomes.len() == 0 {
        0
    } else {
        count_with(outcomes.drop_last(), status) + if outcomes.last().status == status {
            1nat
        } else {
            0nat
        }
    }
}

/// The sum of the input sizes of the outcomes that count bytes.
pub open spec fn input_bytes(outcomes: Seq<ConversionOutcome>) -> nat
    decreases outcomes.len(),
{
    if outcomes.len() == 0 {
        0
    } else {
        input_bytes(outcomes.drop_last()) + if outcomes.last().counts_bytes() {
            outcomes.last().input_size as nat
        } else {
            0nat
        }
    }
}

/// The sum of the output sizes of the outcomes that count bytes.
pub open spec fn output_bytes(outcomes: Seq<ConversionOutcome>) -> nat
    decreases outcomes.len(),
{
    if outcomes.len() == 0 {
        0
    } else {
        output_bytes(outcomes.drop_last()) + if outcomes.last().counts_bytes() {
            outcomes.last().output_size as nat
        } else {
            0nat
        }
    }
}

/// The statistics of a run. The totals are wide enough for the exact sum of
/// any number of 64-bit sizes.
#[derive(Clone, Copy, Debug, PartialEq, Eq, Structural)]
pub struct Report {
    pub converted_count: usize,
    pub skipped_count: usize,
    pub errored_count: usize,
    pub total_input_bytes: u128,
    pub total_output_bytes: u128,
}

impl Report {
    /// Whether this is the report of the given outcomes.
    pub open spec fn summarizes(self, outcomes: Seq<ConversionOutcome>) -> bool {
        &&& self.converted_count == count_with(outcomes, Status::Converted)
        &&& self.skipped_count == count_with(outcomes, Status::Skipped)
        &&& self.errored_count == count_with(outcomes, Status::Errored)
        &&& self.total_input_bytes == input_bytes(outcomes)
        &&& self.total_output_bytes == output_bytes(outcomes)
    }

    /// Whether a compression ratio can be given: both totals are positive.
    pub open spec fn spec_sizes_known(self) -> bool {
        self.total_input_bytes > 0 && self.total_output_bytes > 0
    }

    /// Whether the sizes are determinate, so that the ratio of output to
    /// input bytes may be reported. Where this is `false` there is nothing to
    /// divide by.
    pub fn sizes_known(&self) -> (r: bool)
        ensures
            r == self.spec_sizes_known(),
    {
        self.total_input_bytes > 0 && self.total_output_bytes > 0
    }

    /// The compression ratio in hundredths of a percent, rounded down: the
    /// output bytes as a share of the input bytes.
    pub open spec fn spec_ratio(self) -> int {
        self.total_output_bytes * 10000 / (self.total_input_bytes as int)
    }

    /// The compression ratio, in hundredths of a percent. There is none
    /// where the sizes are not determinate, nor where it cannot be computed
    /// in 128 bits.
    pub fn compression_ratio(&self) -> (r: Option<u128>)
        ensures
            r is Some <==> self.spec_sizes_known() && self.total_output_bytes * 10000
                <= u128::MAX,
            r matches Some(ratio) ==> ratio == self.spec_ratio(),
    {
        if !self.sizes_known() {
            return None;
        }
        match self.total_output_bytes.checked_mul(10000) {
            Some(scaled) => Some(scaled / self.total_input_bytes),
            None => None,
        }
    }
}

/// Every outcome has exactly one status, so the three counts add up to the
/// number of outcomes.
pub proof fn lemma_counts_partition(outcomes: Seq<ConversionOutcome>)
    ensures
        count_with(outcomes, Status::Converted) + count_with(outcomes, Status::Skipped)
            + count_with(outcomes, Status::Errored) == outcomes.len(),
    decreases outcomes.len(),
{
    if outcomes.len() > 0 {
        lemma_counts_partition(outcomes.drop_last());
    }
}

/// No total exceeds what as many 64-bit sizes as there are outcomes can add
/// up to.
pub proof fn lemma_totals_bounded(outcomes: Seq<ConversionOutcome>)
    ensures
        input_bytes(outcomes) <= outcomes.len() * u64::MAX,
        output_bytes(outcomes) <= outcomes.len() * u64::MAX,
    decreases outcomes.len(),
{
    if outcomes.len() > 0 {
        lemma_totals_bounded(outcomes.drop_last());
    }
}

/// Of no outcomes there is nothing to report: all counts and totals are
/// zero, and the sizes are not determinate.
pub proof fn lemma_empty_report(report: Report)
    requires
        report.summarizes(Seq::<ConversionOutcome>::empty()),
    ensures
        report.converted_count == 0,
        report.skipped_count == 0,
        report.errored_count == 0,
        report.total_input_bytes == 0,
        report.total_output_bytes == 0,
        !report.spec_sizes_known(),
{
}

/// Reduces per-file outcomes into counts by status and total sizes. Only
/// outcomes that are not failures contribute to the totals.
pub fn aggregate(outcomes: &Vec<ConversionOutcome>) -> (report: Report)
    ensures
        report.summarizes(outcomes@),
        report.converted_count + report.skipped_count + report.errored_count == outcomes.len(),
{
    let mut report = Report {
        converted_count: 0,
        skipped_count: 0,
        errored_count: 0,
        total_input_bytes: 0,
        total_output_bytes: 0,
    };
    let mut i: usize = 0;
    while i < outcomes.len()
        invariant
            i <= outcomes.len(),
            report.summarizes(outcomes@.take(i as int)),
        decreases outcomes.len() - i,
    {
        let ghost before = outcomes@.take(i as int);
        let ghost after = outcomes@.take(i + 1);
        proof {
            assert(after.drop_last() == before);
            assert(after.last() == outcomes@[i as int]);
            lemma_totals_bounded(before);
            lemma_counts_partition(before);
            assert(before.len() * u64::MAX + u64::MAX <= usize::MAX * u64::MAX + u64::MAX)
                by (nonlinear_arith)
                requires
                    before.len() <= usize::MAX,
            ;
        }
        let o = outcomes[i];
        match o.status {
            Status::Converted => {
                report.converted_count = report.converted_count + 1;
            },
            Status::Skipped => {
                report.skipped_count = report.skipped_count + 1;
            },
            Status::Errored => {
                report.errored_count = report.errored_count + 1;
            },
        }
        if o.status != Status::Errored {
            report.total_input_bytes = report.total_input_bytes + o.input_size as u128;
            report.total_output_bytes = report.total_output_bytes + o.output_size as u128;
        }
        i += 1;
    }
    proof {
        assert(outcomes@.take(outcomes@.len() as int) == outcomes@);
        lemma_counts_partition(outcomes@);
    }
    report
}

} // verus!

//! The separation job as a sequence of steps: which piece of work comes
//! next, which progress reports are sent, when audio is resampled, and how
//! the output files are named. The work itself (reading, model inference,
//! resampling, writing) is carried out by the caller, which reports back.
use vstd::prelude::*;
use crate::stage::Stage;
use crate::text::join2;
use crate::paths::{file_stem_of, path_file_stem};

verus! {

/// The sample rate the separation model works at.
pub const WORK_RATE: u32 = 44100;

/// A progress report: `stage` is `done / total` complete.
#[derive(Clone, Copy, Debug, PartialEq, Eq, Structural)]
pub struct Progress {
    pub stage: Stage,
    pub done: u64,
    pub total: u64,
}

impl Progress {
    /// The fraction is a proper one: a positive denominator and at most one whole.
    pub open spec fn is_fraction(self) -> bool {
        self.total > 0 && self.done <= self.total
    }
}

/// A piece of work the caller carries out.
#[derive(Clone, Copy, Debug, PartialEq, Eq, Structural)]
pub enum Job {
    /// Find or obtain the model file.
    EnsureModel,
    /// Decode the input file.
    Decode,
    /// Resample the decoded input.
    ResampleInput { from: u32, to: u32 },
    /// Load the separation model.
    LoadSeparator,
    /// Run the separation.
    Separate,
    /// Resample the separated vocals.
    ResampleVocals { from: u32, to: u32 },
    /// Resample the separated accompaniment.
    ResampleAccompaniment { from: u32, to: u32 },
    /// Create the output directory.
    CreateOutputDir,
    /// Write the vocals file.
    WriteVocals,
    /// Write the accompaniment file.
    WriteAccompaniment,
}

/// What the caller does next.
#[derive(Clone, Copy, Debug, PartialEq, Eq, Structural)]
pub enum Command {
    /// Send a progress report.
    Report(Progress),
    /// Carry out a piece of work; on failure the job ends with its error.
    Run(Job),
    /// The job is complete; the outputs have this sample rate.
    Finish { sample_rate: u32 },
}

/// What the caller reports after a command.
#[derive(Clone, Copy, Debug, PartialEq, Eq, Structural)]
pub enum Event {
    /// The command was carried out.
    Done,
    /// The input was decoded; it has this sample rate.
    Decoded { sample_rate: u32 },
}

/// Position in the job.
#[derive(Clone, Copy, Debug, PartialEq, Eq, Structural)]
pub enum Phase {
    ReportModel,
    EnsureModel,
    ReportDecodeStart,
    Decode,
    ReportDecodeEnd,
    ReportResampleStart,
    ResampleInput,
    ReportResampleEnd,
    ReportSeparateStart,
    LoadSeparator,
    Separate,
    ReportResampleOutputStart,
    ResampleVocals,
    ResampleAccompaniment,
    ReportResampleOutputEnd,
    ReportWriteStart,
    CreateOutputDir,
    WriteVocals,
    ReportWriteHalf,
    WriteAccompaniment,
    ReportWriteEnd,
    Finished,
}

/// The state of a separation job: where it is, and the input's sample rate once known.
#[derive(Clone, Copy, Debug, PartialEq, Eq, Structural)]
pub struct Pipeline {
    pub phase: Phase,
    pub input_rate: u32,
}

/// Order of the phases; every step moves to a later one.
pub open spec fn rank(p: Phase) -> nat {
    match p {
        Phase::ReportModel => 0,
        Phase::EnsureModel => 1,
        Phase::ReportDecodeStart => 2,
        Phase::Decode => 3,
        Phase::ReportDecodeEnd => 4,
        Phase::ReportResampleStart => 5,
        Phase::ResampleInput => 6,
        Phase::ReportResampleEnd => 7,
        Phase::ReportSeparateStart => 8,
        Phase::LoadSeparator => 9,
        Phase::Separate => 10,
        Phase::ReportResampleOutputStart => 11,
        Phase::ResampleVocals => 12,
        Phase::ResampleAccompaniment => 13,
        Phase::ReportResampleOutputEnd => 14,
        Phase::ReportWriteStart => 15,
        Phase::CreateOutputDir => 16,
        Phase::WriteVocals => 17,
        Phase::ReportWriteHalf => 18,
        Phase::WriteAccompaniment => 19,
        Phase::ReportWriteEnd => 20,
        Phase::Finished => 21,
    }
}

/// A report of `stage` at `done / total`.
pub open spec fn report(stage: Stage, done: u64, total: u64) -> Command {
    Command::Report(Progress { stage, done, total })
}

/// The command issued in `phase` for an input of sample rate `rate`.
pub open spec fn spec_command(phase: Phase, rate: u32) -> Command {
    match phase {
        Phase::ReportModel => report(Stage::DownloadingModel, 0, 1),
        Phase::EnsureModel => Command::Run(Job::EnsureModel),
        Phase::ReportDecodeStart => report(Stage::Decoding, 0, 1),
        Phase::Decode => Command::Run(Job::Decode),
        Phase::ReportDecodeEnd => report(Stage::Decoding, 1, 1),
        Phase::ReportResampleStart => report(Stage::Resampling, 0, 1),
        Phase::ResampleInput => Command::Run(Job::ResampleInput { from: rate, to: WORK_RATE }),
        Phase::ReportResampleEnd => report(Stage::Resampling, 1, 1),
        Phase::ReportSeparateStart => report(Stage::Separating, 0, 1),
        Phase::LoadSeparator => Command::Run(Job::LoadSeparator),
        Phase::Separate => Command::Run(Job::Separate),
        Phase::ReportResampleOutputStart => report(Stage::ResamplingOutput, 0, 1),
        Phase::ResampleVocals => Command::Run(Job::ResampleVocals { from: WORK_RATE, to: rate }),
        Phase::ResampleAccompaniment => Command::Run(
            Job::ResampleAccompaniment { from: WORK_RATE, to: rate },
        ),
        Phase::ReportResampleOutputEnd => report(Stage::ResamplingOutput, 1, 1),
        Phase::ReportWriteStart => report(Stage::Writing, 0, 1),
        Phase::CreateOutputDir => Command::Run(Job::CreateOutputDir),
        Phase::WriteVocals => Command::Run(Job::WriteVocals),
        Phase::ReportWriteHalf => report(Stage::Writing, 1, 2),
        Phase::WriteAccompaniment => Command::Run(Job::WriteAccompaniment),
        Phase::ReportWriteEnd => report(Stage::Writing, 1, 1),
        Phase::Finished => Command::Finish { sample_rate: rate },
    }
}

/// The phase after `phase`; the resampling phases are skipped when the
/// input is already at the working rate.
pub open spec fn spec_next(phase: Phase, rate: u32) -> Phase {
    match phase {
        Phase::ReportModel => Phase::EnsureModel,
        Phase::EnsureModel => Phase::ReportDecodeStart,
        Phase::ReportDecodeStart => Phase::Decode,
        Phase::Decode => Phase::ReportDecodeEnd,
        Phase::ReportDecodeEnd => if rate != WORK_RATE {
            Phase::ReportResampleStart
        } else {
            Phase::ReportSeparateStart
        },
        Phase::ReportResampleStart => Phase::ResampleInput,
        Phase::ResampleInput => Phase::ReportResampleEnd,
        Phase::ReportResampleEnd => Phase::ReportSeparateStart,
        Phase::ReportSeparateStart => Phase::LoadSeparator,
        Phase::LoadSeparator => Phase::Separate,
        Phase::Separate => if rate != WORK_RATE {
            Phase::ReportResampleOutputStart
        } else {
            Phase::ReportWriteStart
        },
        Phase::ReportResampleOutputStart => Phase::ResampleVocals,
        Phase::ResampleVocals => Phase::ResampleAccompaniment,
        Phase::ResampleAccompaniment => Phase::ReportResampleOutputEnd,
        Phase::ReportResampleOutputEnd => Phase::ReportWriteStart,
        Phase::ReportWriteStart => Phase::CreateOutputDir,
        Phase::CreateOutputDir => Phase::WriteVocals,
        Phase::WriteVocals => Phase::ReportWriteHalf,
        Phase::ReportWriteHalf => Phase::WriteAccompaniment,
        Phase::WriteAccompaniment => Phase::ReportWriteEnd,
        Phase::ReportWriteEnd => Phase::Finished,
        Phase::Finished => Phase::Finished,
    }
}

/// The state after `ev` in state `s`: the decode result fixes the input rate.
pub open spec fn spec_step(s: Pipeline, ev: Event) -> Pipeline {
    let rate = match ev {
        Event::Decoded { sample_rate } => sample_rate,
        Event::Done => s.input_rate,
    };
    Pipeline { phase: spec_next(s.phase, rate), input_rate: rate }
}

/// The event a successful caller reports in `phase` for an input at `rate`.
pub open spec fn success_event(phase: Phase, rate: u32) -> Event {
    if phase == Phase::Decode {
        Event::Decoded { sample_rate: rate }
    } else {
        Event::Done
    }
}

impl Pipeline {
    /// A job at its start.
    pub fn new() -> (p: Self)
        ensures
            p.phase == Phase::ReportModel,
            p.input_rate == 0,
    {
        Pipeline { phase: Phase::ReportModel, input_rate: 0 }
    }

    /// The command to carry out now.
    pub fn command(&self) -> (c: Command)
        ensures
            c == spec_command(self.phase, self.input_rate),
    {
        let rate = self.input_rate;
        match self.phase {
            Phase::ReportModel => Command::Report(
                Progress { stage: Stage::DownloadingModel, done: 0, total: 1 },
            ),
            Phase::EnsureModel => Command::Run(Job::EnsureModel),
            Phase::ReportDecodeStart => Command::Report(
                Progress { stage: Stage::Decoding, done: 0, total: 1 },
            ),
            Phase::Decode => Command::Run(Job::Decode),
            Phase::ReportDecodeEnd => Command::Report(
                Progress { stage: Stage::Decoding, done: 1, total: 1 },
            ),
            Phase::ReportResampleStart => Command::Report(
                Progress { stage: Stage::Resampling, done: 0, total: 1 },
            ),
            Phase::ResampleInput => Command::Run(Job::ResampleInput { from: rate, to: WORK_RATE }),
            Phase::ReportResampleEnd => Command::Report(
                Progress { stage: Stage::Resampling, done: 1, total: 1 },
            ),
            Phase::ReportSeparateStart => Command::Report(
                Progress { stage: Stage::Separating, done: 0, total: 1 },
            ),
            Phase::LoadSeparator => Command::Run(Job::LoadSeparator),
            Phase::Separate => Command::Run(Job::Separate),
            Phase::ReportResampleOutputStart => Command::Report(
                Progress { stage: Stage::ResamplingOutput, done: 0, total: 1 },
            ),
            Phase::ResampleVocals => Command::Run(Job::ResampleVocals { from: WORK_RATE, to: rate }),
            Phase::ResampleAccompaniment => Command::Run(
                Job::ResampleAccompaniment { from: WORK_RATE, to: rate },
            ),
            Phase::ReportResampleOutputEnd => Command::Report(
                Progress { stage: Stage::ResamplingOutput, done: 1, total: 1 },
            ),
            Phase::ReportWriteStart => Command::Report(
                Progress { stage: Stage::Writing, done: 0, total: 1 },
            ),
            Phase::CreateOutputDir => Command::Run(Job::CreateOutputDir),
            Phase::WriteVocals => Command::Run(Job::WriteVocals),
            Phase::ReportWriteHalf => Command::Report(
                Progress { stage: Stage::Writing, done: 1, total: 2 },
            ),
            Phase::WriteAccompaniment => Command::Run(Job::WriteAccompaniment),
            Phase::ReportWriteEnd => Command::Report(
                Progress { stage: Stage::Writing, done: 1, total: 1 },
            ),
            Phase::Finished => Command::Finish { sample_rate: rate },
        }
    }

    /// Moves past the current command, given what came of it.
    pub fn advance(&mut self, ev: Event)
        requires
            old(self).phase != Phase::Finished,
            (ev is Decoded) <==> old(self).phase == Phase::Decode,
        ensures
            *final(self) == spec_step(*old(self), ev),
            rank(final(self).phase) > rank(old(self).phase),
    {
        let rate = match ev {
            Event::Decoded { sample_rate } => sample_rate,
            Event::Done => self.input_rate,
        };
        let differs = rate != WORK_RATE;
        let next = match self.phase {
            Phase::ReportModel => Phase::EnsureModel,
            Phase::EnsureModel => Phase::ReportDecodeStart,
            Phase::ReportDecodeStart => Phase::Decode,
            Phase::Decode => Phase::ReportDecodeEnd,
            Phase::ReportDecodeEnd => if differs {
                Phase::ReportResampleStart
            } else {
                Phase::ReportSeparateStart
            },
            Phase::ReportResampleStart => Phase::ResampleInput,
            Phase::ResampleInput => Phase::ReportResampleEnd,
            Phase::ReportResampleEnd => Phase::ReportSeparateStart,
            Phase::ReportSeparateStart => Phase::LoadSeparator,
            Phase::LoadSeparator => Phase::Separate,
            Phase::Separate => if differs {
                Phase::ReportResampleOutputStart
            } else {
                Phase::ReportWriteStart
            },
            Phase::ReportResampleOutputStart => Phase::ResampleVocals,
            Phase::ResampleVocals => Phase::ResampleAccompaniment,
            Phase::ResampleAccompaniment => Phase::ReportResampleOutputEnd,
            Phase::ReportResampleOutputEnd => Phase::ReportWriteStart,
            Phase::ReportWriteStart => Phase::CreateOutputDir,
            Phase::CreateOutputDir => Phase::WriteVocals,
            Phase::WriteVocals => Phase::ReportWriteHalf,
            Phase::ReportWriteHalf => Phase::WriteAccompaniment,
            Phase::WriteAccompaniment => Phase::ReportWriteEnd,
            Phase::ReportWriteEnd => Phase::Finished,
            Phase::Finished => Phase::Finished,
        };
        self.phase = next;
        self.input_rate = rate;
    }
}

/// The commands of a successful job for an input at `rate`, from state `s`,
/// following at most `fuel` steps.
pub open spec fn trace_from(s: Pipeline, rate: u32, fuel: nat) -> Seq<Command>
    decreases fuel,
{
    if s.phase == Phase::Finished || fuel == 0 {
        seq![spec_command(s.phase, s.input_rate)]
    } else {
        seq![spec_command(s.phase, s.input_rate)] + trace_from(
            spec_step(s, success_event(s.phase, rate)),
            rate,
            (fuel - 1) as nat,
        )
    }
}

/// The commands of a successful job for an input at `rate`.
pub open spec fn trace(rate: u32) -> Seq<Command> {
    trace_from(Pipeline { phase: Phase::ReportModel, input_rate: 0 }, rate, 21)
}

/// The opening commands: model, then decoding.
pub open spec fn head_part() -> Seq<Command> {
    seq![
        report(Stage::DownloadingModel, 0, 1),
        Command::Run(Job::EnsureModel),
        report(Stage::Decoding, 0, 1),
        Command::Run(Job::Decode),
        report(Stage::Decoding, 1, 1),
    ]
}

/// Resampling of the input to the working rate.
pub open spec fn resample_input_part(rate: u32) -> Seq<Command> {
    seq![
        report(Stage::Resampling, 0, 1),
        Command::Run(Job::ResampleInput { from: rate, to: WORK_RATE }),
        report(Stage::Resampling, 1, 1),
    ]
}

/// Loading the model and separating.
pub open spec fn separate_part() -> Seq<Command> {
    seq![
        report(Stage::Separating, 0, 1),
        Command::Run(Job::LoadSeparator),
        Command::Run(Job::Separate),
    ]
}

/// Resampling both outputs back to the input rate.
pub open spec fn resample_output_part(rate: u32) -> Seq<Command> {
    seq![
        report(Stage::ResamplingOutput, 0, 1),
        Command::Run(Job::ResampleVocals { from: WORK_RATE, to: rate }),
        Command::Run(Job::ResampleAccompaniment { from: WORK_RATE, to: rate }),
        report(Stage::ResamplingOutput, 1, 1),
    ]
}

/// Writing the two files, then completion at the input rate.
pub open spec fn write_part(rate: u32) -> Seq<Command> {
    seq![
        report(Stage::Writing, 0, 1),
        Command::Run(Job::CreateOutputDir),
        Command::Run(Job::WriteVocals),
        report(Stage::Writing, 1, 2),
        Command::Run(Job::WriteAccompaniment),
        report(Stage::Writing, 1, 1),
        Command::Finish { sample_rate: rate },
    ]
}

/// The commands in order for an input at `rate`: model, decoding, input
/// resampling when the rate is not the working rate, separation, output
/// resampling back to the input rate under the same condition, the output
/// directory and the two files, with progress reports between, and the
/// completion at the input's rate.
pub open spec fn expected_trace(rate: u32) -> Seq<Command> {
    if rate != WORK_RATE {
        head_part() + resample_input_part(rate) + separate_part() + resample_output_part(rate)
            + write_part(rate)
    } else {
        head_part() + separate_part() + write_part(rate)
    }
}

proof fn lemma_from_write(rate: u32, fuel: nat)
    requires
        fuel >= 6,
    ensures
        trace_from(Pipeline { phase: Phase::ReportWriteStart, input_rate: rate }, rate, fuel)
            == write_part(rate),
{
    reveal_with_fuel(trace_from, 7);
    assert(trace_from(Pipeline { phase: Phase::ReportWriteStart, input_rate: rate }, rate, fuel)
        =~= write_part(rate));
}

proof fn lemma_from_resample_output(rate: u32, fuel: nat)
    requires
        fuel >= 10,
        rate != WORK_RATE,
    ensures
        trace_from(Pipeline { phase: Phase::ReportResampleOutputStart, input_rate: rate }, rate, fuel)
            == resample_output_part(rate) + write_part(rate),
{
    reveal_with_fuel(trace_from, 5);
    lemma_from_write(rate, (fuel - 4) as nat);
    assert(trace_from(Pipeline { phase: Phase::ReportResampleOutputStart, input_rate: rate }, rate, fuel)
        =~= resample_output_part(rate) + write_part(rate));
}

proof fn lemma_from_separate(rate: u32, fuel: nat)
    requires
        fuel >= 13,
    ensures
        trace_from(Pipeline { phase: Phase::ReportSeparateStart, input_rate: rate }, rate, fuel)
            == separate_part() + if rate != WORK_RATE {
            resample_output_part(rate) + write_part(rate)
        } else {
            write_part(rate)
        },
{
    reveal_with_fuel(trace_from, 4);
    if rate != WORK_RATE {
        lemma_from_resample_output(rate, (fuel - 3) as nat);
    } else {
        lemma_from_write(rate, (fuel - 3) as nat);
    }
    assert(trace_from(Pipeline { phase: Phase::ReportSeparateStart, input_rate: rate }, rate, fuel)
        =~= separate_part() + if rate != WORK_RATE {
        resample_output_part(rate) + write_part(rate)
    } else {
        write_part(rate)
    });
}

/// A successful job issues exactly the expected commands.
pub proof fn lemma_trace_is_expected(rate: u32)
    ensures
        trace(rate) == expected_trace(rate),
{
    let s0 = Pipeline { phase: Phase::ReportModel, input_rate: 0 };
    let s5 = Pipeline {
        phase: if rate != WORK_RATE {
            Phase::ReportResampleStart
        } else {
            Phase::ReportSeparateStart
        },
        input_rate: rate,
    };
    assert(trace_from(s0, rate, 21) =~= head_part() + trace_from(s5, rate, 16)) by {
        reveal_with_fuel(trace_from, 6);
    }
    if rate != WORK_RATE {
        lemma_from_separate(rate, 13);
        assert(trace_from(s5, rate, 16) =~= resample_input_part(rate) + trace_from(
            Pipeline { phase: Phase::ReportSeparateStart, input_rate: rate },
            rate,
            13,
        )) by {
            reveal_with_fuel(trace_from, 4);
        }
        assert(trace(rate) =~= expected_trace(rate));
    } else {
        lemma_from_separate(rate, 16);
        assert(trace(rate) =~= expected_trace(rate));
    }
}

/// Resampling happens exactly when the input is not at the working rate:
/// then the input goes to the working rate, both outputs go back to the
/// input's rate, and the job completes at the input's rate either way.
pub proof fn lemma_resampling_round_trip(rate: u32)
    ensures
        (exists|i: int|
            0 <= i < trace(rate).len() && #[trigger] trace(rate)[i] == Command::Run(
                Job::ResampleInput { from: rate, to: WORK_RATE },
            )) <==> rate != WORK_RATE,
        (exists|i: int|
            0 <= i < trace(rate).len() && #[trigger] trace(rate)[i] == Command::Run(
                Job::ResampleVocals { from: WORK_RATE, to: rate },
            )) <==> rate != WORK_RATE,
        (exists|i: int|
            0 <= i < trace(rate).len() && #[trigger] trace(rate)[i] == Command::Run(
                Job::ResampleAccompaniment { from: WORK_RATE, to: rate },
            )) <==> rate != WORK_RATE,
        trace(rate).last() == (Command::Finish { sample_rate: rate }),
{
    lemma_trace_is_expected(rate);
    let t = trace(rate);
    if rate != WORK_RATE {
        assert(t[6] == Command::Run(Job::ResampleInput { from: rate, to: WORK_RATE }));
        assert(t[12] == Command::Run(Job::ResampleVocals { from: WORK_RATE, to: rate }));
        assert(t[13] == Command::Run(Job::ResampleAccompaniment { from: WORK_RATE, to: rate }));
    } else {
        assert(forall|i: int| 0 <= i < t.len() ==> !(#[trigger] t[i] matches Command::Run(Job::ResampleInput { .. })));
        assert(forall|i: int| 0 <= i < t.len() ==> !(#[trigger] t[i] matches Command::Run(Job::ResampleVocals { .. })));
        assert(forall|i: int| 0 <= i < t.len() ==> !(#[trigger] t[i] matches Command::Run(Job::ResampleAccompaniment { .. })));
    }
}

/// Every progress report of a successful job is a proper fraction, and the
/// files are written only after the separation and the creation of the
/// output directory, the vocals before the accompaniment.
pub proof fn lemma_trace_order(rate: u32)
    ensures
        forall|i: int|
            0 <= i < trace(rate).len() ==> (#[trigger] trace(rate)[i] matches Command::Report(p)
                ==> p.is_fraction()),
        ({
            let t = trace(rate);
            exists|s: int, c: int, v: int, a: int|
                0 <= s < c < v < a < t.len() && t[s] == Command::Run(Job::Separate) && t[c]
                    == Command::Run(Job::CreateOutputDir) && t[v] == Command::Run(Job::WriteVocals)
                    && t[a] == Command::Run(Job::WriteAccompaniment)
        }),
{
    lemma_trace_is_expected(rate);
    let t = trace(rate);
    let sep: int = if rate != WORK_RATE { 10 } else { 7 };
    let dir: int = if rate != WORK_RATE { 16 } else { 9 };
    assert(t[sep] == Command::Run(Job::Separate));
    assert(t[dir] == Command::Run(Job::CreateOutputDir));
    assert(t[dir + 1] == Command::Run(Job::WriteVocals));
    assert(t[dir + 3] == Command::Run(Job::WriteAccompaniment));
    assert forall|i: int| 0 <= i < t.len() implies (#[trigger] t[i] matches Command::Report(p)
        ==> p.is_fraction()) by {
        if rate != WORK_RATE {
            assert(t.len() == 22);
        } else {
            assert(t.len() == 15);
        }
    }
}

/// Progress reports do not steer the job: a phase that reports is never
/// the decoding phase, so the only event it admits is `Done`, and the next
/// state follows from the phase and the known rate alone, whatever became
/// of the report.
pub proof fn lemma_reports_do_not_steer(phase: Phase, rate: u32)
    ensures
        spec_command(phase, rate) is Report ==> phase != Phase::Decode && spec_step(
            Pipeline { phase, input_rate: rate },
            Event::Done,
        ) == (Pipeline { phase: spec_next(phase, rate), input_rate: rate }),
{
}

/// The report sent after model window `idx` of `n_chunks` is processed.
pub fn separation_progress(idx: usize, n_chunks: usize) -> (p: Progress)
    requires
        idx < n_chunks,
    ensures
        p == (Progress { stage: Stage::Separating, done: (idx + 1) as u64, total: n_chunks as u64 }),
        p.is_fraction(),
{
    Progress { stage: Stage::Separating, done: (idx + 1) as u64, total: n_chunks as u64 }
}

/// The report sent while the model downloads: the received share of the
/// announced size, or nothing done while the size is unknown.
pub fn download_progress(downloaded: u64, total: u64) -> (p: Progress)
    ensures
        p.stage == Stage::DownloadingModel,
        total > 0 ==> p.done == downloaded && p.total == total,
        total == 0 ==> p.done == 0 && p.total == 1,
{
    if total > 0 {
        Progress { stage: Stage::DownloadingModel, done: downloaded, total }
    } else {
        Progress { stage: Stage::DownloadingModel, done: 0, total: 1 }
    }
}

/// File name suffix of the separated vocals.
pub open spec fn vocals_suffix() -> Seq<char> {
    "_vocals.wav"@
}

/// File name suffix of the separated accompaniment.
pub open spec fn accompaniment_suffix() -> Seq<char> {
    "_accompaniment.wav"@
}

/// The names of the two output files for an input whose file stem is `stem`.
pub fn output_names_for_stem(stem: &str) -> (r: (String, String))
    ensures
        r.0@ == stem@ + vocals_suffix(),
        r.1@ == stem@ + accompaniment_suffix(),
{
    (join2(stem, "_vocals.wav"), join2(stem, "_accompaniment.wav"))
}

/// The two output files never share a name.
pub proof fn lemma_output_names_differ(stem: Seq<char>)
    ensures
        stem + vocals_suffix() != stem + accompaniment_suffix(),
{
    reveal_strlit("_vocals.wav");
    reveal_strlit("_accompaniment.wav");
    assert((stem + vocals_suffix()).len() != (stem + accompaniment_suffix()).len());
}

/// The stem of the input path, empty when the path has none.
pub open spec fn stem_or_empty(path: Seq<char>) -> Seq<char> {
    match path_file_stem(path) {
        Some(s) => s,
        None => Seq::empty(),
    }
}

/// The names of the two output files for the input at `input_path`.
pub fn output_file_names(input_path: &str) -> (r: (String, String))
    ensures
        r.0@ == stem_or_empty(input_path@) + vocals_suffix(),
        r.1@ == stem_or_empty(input_path@) + accompaniment_suffix(),
{
    match file_stem_of(input_path) {
        Some(stem) => output_names_for_stem(stem.as_str()),
        None => {
            proof {
                reveal_strlit("");
            }
            output_names_for_stem("")
        },
    }
}

} // verus!

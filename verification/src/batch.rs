//! Batch execution: the bookkeeping of a batch of instructions run in
//! order, where a step whose dependency failed is skipped, a failed step
//! may stop the batch (fail-fast), and later steps may take their
//! arguments from the outputs of earlier ones.
use vstd::prelude::*;

use crate::text::{append_chars, chars_of, decimal, decimal_chars, string_of};

verus! {

// ---------------------------------------------------------------------------
// Step results
// ---------------------------------------------------------------------------

/// What became of one step.
pub enum StepOutcome<O> {
    /// The step ran and produced this output.
    Done(O),
    /// The step ran and failed with this message.
    Failed(String),
    /// The step did not run because the step with this number failed or was skipped.
    Skipped(u32),
}

/// The outcome of the instruction numbered `step`.
pub struct StepResult<O> {
    pub step: u32,
    pub outcome: StepOutcome<O>,
}

/// Whether the instruction with dependencies `deps` may run.
#[derive(PartialEq, Eq, Structural, Clone, Copy, Debug)]
pub enum StepDecision {
    /// Run it.
    Dispatch,
    /// Skip it, because dependency `dep` failed.
    Skip(u32),
}

/// The first dependency in `deps`, from index `i` on, that names a
/// failed step of the batch.
pub open spec fn first_failed_dep(deps: Seq<u32>, failed: Seq<bool>, i: int) -> Option<u32>
    decreases deps.len() - i,
{
    if i < 0 || i >= deps.len() {
        None
    } else if (deps[i] as int) < failed.len() && failed[deps[i] as int] {
        Some(deps[i])
    } else {
        first_failed_dep(deps, failed, i + 1)
    }
}

/// `failed` with step `step` marked failed, when it is a step of the batch.
pub open spec fn mark_failed(failed: Seq<bool>, step: u32) -> Seq<bool> {
    if (step as int) < failed.len() {
        failed.update(step as int, true)
    } else {
        failed
    }
}

/// Where a batch run is: not begun, running its instructions, or finished.
#[derive(PartialEq, Eq, Structural, Clone, Copy, Debug)]
pub enum BatchPhase {
    Ready,
    Running,
    Finished,
}

/// The state of a batch being run: the step numbers of its instructions in
/// order, the output of each step that ran, which steps failed or were
/// skipped, and one result per instruction handled so far. A batch with an
/// undo label runs inside one undo block under that label: `begin` says to
/// open it, every instruction is decided and recorded while the batch
/// runs, and `end` says to close it.
pub struct BatchRun<O> {
    steps: Vec<u32>,
    fail_fast: bool,
    undo_label: Option<String>,
    phase: BatchPhase,
    outputs: Vec<Option<O>>,
    failed: Vec<bool>,
    results: Vec<StepResult<O>>,
}

/// The characters of an optional string.
pub open spec fn opt_text(o: Option<String>) -> Option<Seq<char>> {
    match o {
        Some(s) => Some(s@),
        None => None,
    }
}

/// The step numbers of a sequence of results.
pub open spec fn result_steps<O>(rs: Seq<StepResult<O>>) -> Seq<u32> {
    rs.map_values(|r: StepResult<O>| r.step)
}

/// The results that skip each of `steps` because step `cause` failed.
pub open spec fn skipped_because<O>(steps: Seq<u32>, cause: u32) -> Seq<StepResult<O>> {
    steps.map_values(|s: u32| StepResult { step: s, outcome: StepOutcome::<O>::Skipped(cause) })
}

fn copy_label(o: &Option<String>) -> (r: Option<String>)
    ensures
        opt_text(r) == opt_text(*o),
{
    match o {
        Some(s) => Some(crate::text::string_of(&crate::text::chars_of(s.as_str()))),
        None => None,
    }
}

impl<O: Clone> BatchRun<O> {
    /// One output slot and one failure flag per instruction, and the
    /// results so far belong to the first instructions, in order.
    pub closed spec fn wf(&self) -> bool {
        &&& self.outputs@.len() == self.steps@.len()
        &&& self.failed@.len() == self.steps@.len()
        &&& self.results@.len() <= self.steps@.len()
        &&& result_steps(self.results@) == self.steps@.take(self.results@.len() as int)
    }

    /// The step numbers of the instructions, in order.
    pub closed spec fn steps(&self) -> Seq<u32> {
        self.steps@
    }

    /// Whether a failed step stops the batch.
    pub closed spec fn fail_fast(&self) -> bool {
        self.fail_fast
    }

    /// The label of the undo block the batch runs in, if any.
    pub closed spec fn undo_label(&self) -> Option<Seq<char>> {
        opt_text(self.undo_label)
    }

    /// Where the run is.
    pub closed spec fn phase(&self) -> BatchPhase {
        self.phase
    }

    /// For each step number below the number of instructions, whether that
    /// step failed or was skipped.
    pub closed spec fn failed(&self) -> Seq<bool> {
        self.failed@
    }

    /// For each step number below the number of instructions, the output
    /// of that step, if it ran.
    pub closed spec fn outputs(&self) -> Seq<Option<O>> {
        self.outputs@
    }

    /// The results so far, one per instruction handled, in order.
    pub closed spec fn results(&self) -> Seq<StepResult<O>> {
        self.results@
    }

    /// A batch of instructions with these step numbers, none handled yet,
    /// to run in an undo block labelled `undo_label` when there is one.
    pub fn new(steps: Vec<u32>, fail_fast: bool, undo_label: Option<String>) -> (r: Self)
        ensures
            r.wf(),
            r.steps() == steps@,
            r.fail_fast() == fail_fast,
            r.undo_label() == opt_text(undo_label),
            r.phase() == BatchPhase::Ready,
            r.failed() == Seq::new(steps@.len(), |i: int| false),
            r.outputs() == Seq::new(steps@.len(), |i: int| None::<O>),
            r.results().len() == 0,
    {
        let n = steps.len();
        let mut outputs: Vec<Option<O>> = Vec::new();
        let mut failed: Vec<bool> = Vec::new();
        let mut i: usize = 0;
        while i < n
            invariant
                i <= n,
                outputs@ == Seq::new(i as nat, |j: int| None::<O>),
                failed@ == Seq::new(i as nat, |j: int| false),
            decreases n - i,
        {
            outputs.push(None);
            failed.push(false);
            assert(outputs@ =~= Seq::new((i + 1) as nat, |j: int| None::<O>));
            assert(failed@ =~= Seq::new((i + 1) as nat, |j: int| false));
            i = i + 1;
        }
        let r = BatchRun { steps, fail_fast, undo_label, phase: BatchPhase::Ready, outputs, failed, results: Vec::new() };
        assert(result_steps(r.results@) =~= r.steps@.take(0));
        r
    }

    /// Start the run: the label of the undo block to open before the first
    /// instruction, or `None` when the batch has no undo label.
    pub fn begin(&mut self) -> (r: Option<String>)
        requires
            old(self).wf(),
            old(self).phase() == BatchPhase::Ready,
        ensures
            final(self).wf(),
            final(self).phase() == BatchPhase::Running,
            opt_text(r) == old(self).undo_label(),
            final(self).undo_label() == old(self).undo_label(),
            final(self).steps() == old(self).steps(),
            final(self).fail_fast() == old(self).fail_fast(),
            final(self).failed() == old(self).failed(),
            final(self).outputs() == old(self).outputs(),
            final(self).results() == old(self).results(),
    {
        self.phase = BatchPhase::Running;
        copy_label(&self.undo_label)
    }

    /// Finish the run: the label of the undo block to close after the last
    /// instruction handled (the one `begin` opened), or `None` when the
    /// batch has no undo label.
    pub fn end(&mut self) -> (r: Option<String>)
        requires
            old(self).wf(),
            old(self).phase() == BatchPhase::Running,
        ensures
            final(self).wf(),
            final(self).phase() == BatchPhase::Finished,
            opt_text(r) == old(self).undo_label(),
            final(self).undo_label() == old(self).undo_label(),
            final(self).steps() == old(self).steps(),
            final(self).fail_fast() == old(self).fail_fast(),
            final(self).failed() == old(self).failed(),
            final(self).outputs() == old(self).outputs(),
            final(self).results() == old(self).results(),
    {
        self.phase = BatchPhase::Finished;
        copy_label(&self.undo_label)
    }

    /// The step number of the next instruction to handle, or `None` when
    /// every instruction has its result.
    pub fn next_step(&self) -> (r: Option<u32>)
        requires
            self.wf(),
        ensures
            self.results().len() < self.steps().len() ==> r == Some(self.steps()[self.results().len() as int]),
            self.results().len() == self.steps().len() ==> r is None,
    {
        let k = self.results.len();
        if k < self.steps.len() {
            Some(self.steps[k])
        } else {
            None
        }
    }

    /// Whether an instruction with dependencies `deps` runs: it is skipped
    /// because of the first of its dependencies that names a step of the
    /// batch that failed or was skipped.
    pub fn decide(&self, deps: &[u32]) -> (r: StepDecision)
        requires
            self.wf(),
            self.phase() == BatchPhase::Running,
        ensures
            r == (match first_failed_dep(deps@, self.failed(), 0) {
                Some(d) => StepDecision::Skip(d),
                None => StepDecision::Dispatch,
            }),
    {
        let mut i: usize = 0;
        while i < deps.len()
            invariant
                i <= deps.len(),
                first_failed_dep(deps@, self.failed@, 0) == first_failed_dep(deps@, self.failed@, i as int),
            decreases deps.len() - i,
        {
            let d = deps[i] as usize;
            if d < self.failed.len() && self.failed[d] {
                return StepDecision::Skip(deps[i]);
            }
            i = i + 1;
        }
        StepDecision::Dispatch
    }

    proof fn lemma_push_result(&self, r: StepResult<O>)
        requires
            self.wf(),
            self.results@.len() < self.steps@.len(),
            r.step == self.steps@[self.results@.len() as int],
        ensures
            result_steps(self.results@.push(r)) == self.steps@.take(self.results@.len() as int + 1),
    {
        assert(result_steps(self.results@.push(r)) =~= self.steps@.take(self.results@.len() as int + 1));
    }

    /// Record that the next instruction was skipped because of `dep`: its
    /// step counts as failed for the steps that depend on it.
    pub fn record_skipped(&mut self, dep: u32)
        requires
            old(self).wf(),
            old(self).results().len() < old(self).steps().len(),
            old(self).phase() == BatchPhase::Running,
        ensures
            final(self).wf(),
            final(self).steps() == old(self).steps(),
            final(self).fail_fast() == old(self).fail_fast(),
            final(self).phase() == old(self).phase(),
            final(self).undo_label() == old(self).undo_label(),
            final(self).failed() == mark_failed(old(self).failed(), old(self).steps()[old(self).results().len() as int]),
            final(self).outputs() == old(self).outputs(),
            final(self).results() == old(self).results().push(
                StepResult { step: old(self).steps()[old(self).results().len() as int], outcome: StepOutcome::Skipped(dep) },
            ),
    {
        let step = self.steps[self.results.len()];
        if (step as usize) < self.failed.len() {
            self.failed.set(step as usize, true);
        }
        let r = StepResult { step, outcome: StepOutcome::Skipped(dep) };
        proof { self.lemma_push_result(r); }
        self.results.push(r);
    }

    /// Record that the next instruction ran and produced `output`: a copy of
    /// it becomes its step's output, for later steps to read.
    pub fn record_ok(&mut self, output: O)
        requires
            old(self).wf(),
            old(self).results().len() < old(self).steps().len(),
            old(self).phase() == BatchPhase::Running,
        ensures
            final(self).wf(),
            final(self).steps() == old(self).steps(),
            final(self).fail_fast() == old(self).fail_fast(),
            final(self).phase() == old(self).phase(),
            final(self).undo_label() == old(self).undo_label(),
            final(self).failed() == old(self).failed(),
            ({
                let step = old(self).steps()[old(self).results().len() as int];
                &&& (step as int) < old(self).outputs().len() ==> {
                    &&& final(self).outputs().len() == old(self).outputs().len()
                    &&& forall|i: int| 0 <= i < old(self).outputs().len() && i != step ==> #[trigger] final(self).outputs()[i] == old(self).outputs()[i]
                    &&& final(self).outputs()[step as int] matches Some(c) && cloned(output, c)
                }
                &&& (step as int) >= old(self).outputs().len() ==> final(self).outputs() == old(self).outputs()
                &&& final(self).results() == old(self).results().push(
                    StepResult { step, outcome: StepOutcome::Done(output) },
                )
            }),
    {
        let step = self.steps[self.results.len()];
        if (step as usize) < self.outputs.len() {
            let c = output.clone();
            self.outputs.set(step as usize, Some(c));
        }
        let r = StepResult { step, outcome: StepOutcome::Done(output) };
        proof { self.lemma_push_result(r); }
        self.results.push(r);
    }

    /// Record that the next instruction ran and failed with `message`. With
    /// fail-fast, every instruction after it is recorded as skipped because
    /// of it, and `true` says the batch stops.
    pub fn record_error(&mut self, message: String) -> (stop: bool)
        requires
            old(self).wf(),
            old(self).results().len() < old(self).steps().len(),
            old(self).phase() == BatchPhase::Running,
        ensures
            final(self).wf(),
            final(self).steps() == old(self).steps(),
            final(self).fail_fast() == old(self).fail_fast(),
            final(self).phase() == old(self).phase(),
            final(self).undo_label() == old(self).undo_label(),
            final(self).outputs() == old(self).outputs(),
            stop == old(self).fail_fast(),
            ({
                let k = old(self).results().len() as int;
                let step = old(self).steps()[k];
                &&& final(self).failed() == mark_failed(old(self).failed(), step)
                &&& final(self).results() == old(self).results().push(
                    StepResult { step, outcome: StepOutcome::Failed(message) },
                ) + (if old(self).fail_fast() {
                    skipped_because::<O>(old(self).steps().skip(k + 1), step)
                } else {
                    Seq::empty()
                })
            }),
    {
        let step = self.steps[self.results.len()];
        if (step as usize) < self.failed.len() {
            self.failed.set(step as usize, true);
        }
        let r = StepResult { step, outcome: StepOutcome::Failed(message) };
        proof { self.lemma_push_result(r); }
        self.results.push(r);
        let ghost base = self.results@;
        let ghost k1 = self.results@.len() as int;
        let ghost steps0 = self.steps@;
        let ghost outputs0 = self.outputs@;
        let ghost failed0 = self.failed@;
        let ghost phase0 = self.phase;
        let ghost label0 = self.undo_label;
        if self.fail_fast {
            let mut i: usize = self.results.len();
            while i < self.steps.len()
                invariant
                    k1 <= i <= self.steps@.len(),
                    self.results@ == base + skipped_because::<O>(self.steps@.subrange(k1, i as int), step),
                    self.results@.len() == i,
                    base.len() == k1,
                    result_steps(base) == self.steps@.take(k1),
                    self.steps@ == steps0,
                    self.outputs@ == outputs0,
                    self.failed@ == failed0,
                    self.phase == phase0,
                    self.undo_label == label0,
                    self.outputs@.len() == self.steps@.len(),
                    self.failed@.len() == self.steps@.len(),
                    self.fail_fast,
                decreases self.steps@.len() - i,
            {
                let s = self.steps[i];
                self.results.push(StepResult { step: s, outcome: StepOutcome::Skipped(step) });
                assert(self.steps@.subrange(k1, i + 1) =~= self.steps@.subrange(k1, i as int).push(s));
                assert(skipped_because::<O>(self.steps@.subrange(k1, i + 1), step) =~= skipped_because::<O>(self.steps@.subrange(k1, i as int), step).push(
                    StepResult { step: s, outcome: StepOutcome::Skipped(step) },
                ));
                i = i + 1;
            }
            assert(self.steps@.subrange(k1, self.steps@.len() as int) =~= self.steps@.skip(k1));
            assert(result_steps(self.results@) =~= self.steps@.take(self.results@.len() as int)) by {
                assert forall|j: int| 0 <= j < self.results@.len() implies #[trigger] result_steps(self.results@)[j] == self.steps@[j] by {
                    if j >= k1 {
                        assert(self.results@[j] == skipped_because::<O>(self.steps@.subrange(k1, self.steps@.len() as int), step)[j - k1]);
                    } else {
                        assert(self.results@[j] == base[j]);
                        assert(result_steps(base)[j] == self.steps@.take(k1)[j]);
                    }
                }
            }
            true
        } else {
            assert(self.results@ =~= base + Seq::<StepResult<O>>::empty());
            false
        }
    }

    /// The outputs of the steps that ran, by step number.
    pub fn outputs_slice(&self) -> (r: &[Option<O>])
        ensures
            r@ == self.outputs(),
    {
        self.outputs.as_slice()
    }

    /// The results, one per instruction handled, in order, once the run
    /// is finished (its undo block, if any, closed).
    pub fn into_results(self) -> (r: Vec<StepResult<O>>)
        requires
            self.phase() == BatchPhase::Finished,
        ensures
            r@ == self.results(),
    {
        self.results
    }
}

/// Once every instruction of a batch is handled, there is exactly one
/// result per instruction, and the results come in the instructions' order.
pub proof fn lemma_one_result_per_instruction<O: Clone>(run: &BatchRun<O>)
    requires
        run.wf(),
        run.results().len() == run.steps().len(),
    ensures
        result_steps(run.results()) == run.steps(),
{
    assert(run.steps@.take(run.steps@.len() as int) =~= run.steps@);
}

// ---------------------------------------------------------------------------
// Arguments taken from earlier steps
// ---------------------------------------------------------------------------

/// What argument resolution reads of a step's output.
pub enum StepValue {
    /// A project's info, with its GUID.
    ProjectInfo(String),
    /// Perhaps a project's info (its GUID).
    OptProjectInfo(Option<String>),
    /// A track, with its GUID.
    Track(String),
    /// Perhaps a track (its GUID).
    OptTrack(Option<String>),
    /// A string (`add_track` gives the new track's GUID this way).
    Str(String),
    /// A list of tracks, by GUID.
    TrackList(Vec<String>),
    /// Any other output.
    Other,
}

/// What a resolved argument is: the literal written in the instruction,
/// or the object with this GUID taken from an earlier step.
pub enum Resolved<'a, L> {
    Literal(&'a L),
    FromGuid(String),
}

/// What an argument may refer to in an earlier step's output.
#[derive(PartialEq, Eq, Structural, Clone, Copy, Debug)]
pub enum ExpectedOutput {
    ProjectInfo,
    TrackOrString,
    TrackList,
    TrackForFxChain,
}

/// Why an argument could not be taken from an earlier step.
#[derive(PartialEq, Eq, Structural, Clone, Copy, Debug)]
pub enum ResolveError {
    /// The step has no output (it did not run, failed, or is not a step of the batch).
    NoOutput(u32),
    /// The step's output is of another kind than the argument needs.
    WrongOutput { step: u32, expected: ExpectedOutput },
    /// The step's track list has `len` items and `index` is past its end.
    IndexOutOfBounds { step: u32, len: usize, index: u32 },
}

/// How the expected output of a step is named in error messages.
pub open spec fn expected_name(e: ExpectedOutput) -> Seq<char> {
    match e {
        ExpectedOutput::ProjectInfo => "ProjectInfo"@,
        ExpectedOutput::TrackOrString => "Track or String"@,
        ExpectedOutput::TrackList => "TrackList"@,
        ExpectedOutput::TrackForFxChain => "Track for FxChainContext"@,
    }
}

/// The message of a resolution error: `step N has no output`; `step N
/// produced another output, expected K`; `step N track list has L items,
/// index I out of bounds`.
pub open spec fn resolve_message(e: ResolveError) -> Seq<char> {
    match e {
        ResolveError::NoOutput(n) => "step "@ + decimal(n as nat) + " has no output"@,
        ResolveError::WrongOutput { step, expected } => "step "@ + decimal(step as nat)
            + " produced another output, expected "@ + expected_name(expected),
        ResolveError::IndexOutOfBounds { step, len, index } => "step "@ + decimal(step as nat)
            + " track list has "@ + decimal(len as nat) + " items, index "@ + decimal(index as nat)
            + " out of bounds"@,
    }
}

fn expected_text(e: ExpectedOutput) -> (r: &'static str)
    ensures
        r@ == expected_name(e),
{
    match e {
        ExpectedOutput::ProjectInfo => "ProjectInfo",
        ExpectedOutput::TrackOrString => "Track or String",
        ExpectedOutput::TrackList => "TrackList",
        ExpectedOutput::TrackForFxChain => "Track for FxChainContext",
    }
}

impl ResolveError {
    /// The error's message, as a batch step reports it.
    pub fn message(&self) -> (r: String)
        ensures
            r@ == resolve_message(*self),
    {
        let mut v = chars_of("step ");
        match *self {
            ResolveError::NoOutput(n) => {
                append_chars(&mut v, &decimal_chars(n as u64));
                append_chars(&mut v, &chars_of(" has no output"));
            },
            ResolveError::WrongOutput { step, expected } => {
                append_chars(&mut v, &decimal_chars(step as u64));
                append_chars(&mut v, &chars_of(" produced another output, expected "));
                append_chars(&mut v, &chars_of(expected_text(expected)));
            },
            ResolveError::IndexOutOfBounds { step, len, index } => {
                append_chars(&mut v, &decimal_chars(step as u64));
                append_chars(&mut v, &chars_of(" track list has "));
                append_chars(&mut v, &decimal_chars(len as u64));
                append_chars(&mut v, &chars_of(" items, index "));
                append_chars(&mut v, &decimal_chars(index as u64));
                append_chars(&mut v, &chars_of(" out of bounds"));
            },
        }
        string_of(&v)
    }
}

/// A project argument: a literal project context, or the project that an earlier step gave.
pub enum ProjectArg<C> {
    Literal(C),
    FromStep(u32),
}

/// A track argument: a literal track reference, the track an earlier step
/// gave, or the track at an index in the track list an earlier step gave.
pub enum TrackArg<R> {
    Literal(R),
    FromStep(u32),
    FromStepIndex(u32, u32),
}

/// An FX-chain argument: a literal chain context, or the normal chain of
/// the track an earlier step gave.
pub enum FxChainArg<C> {
    Literal(C),
    TrackFromStep(u32),
}

/// The GUID that the output of step `n` gives for an argument expecting
/// `expected`, or why it gives none.
pub open spec fn step_guid_spec(
    outputs: Seq<Option<StepValue>>,
    n: u32,
    expected: ExpectedOutput,
) -> Result<Seq<char>, ResolveError> {
    if (n as int) >= outputs.len() || outputs[n as int] is None {
        Err(ResolveError::NoOutput(n))
    } else {
        match (outputs[n as int]->0, expected) {
            (StepValue::ProjectInfo(g), ExpectedOutput::ProjectInfo) => Ok(g@),
            (StepValue::OptProjectInfo(Some(g)), ExpectedOutput::ProjectInfo) => Ok(g@),
            (StepValue::Track(g), ExpectedOutput::TrackOrString) => Ok(g@),
            (StepValue::OptTrack(Some(g)), ExpectedOutput::TrackOrString) => Ok(g@),
            (StepValue::Str(g), ExpectedOutput::TrackOrString) => Ok(g@),
            (StepValue::Track(g), ExpectedOutput::TrackForFxChain) => Ok(g@),
            (StepValue::OptTrack(Some(g)), ExpectedOutput::TrackForFxChain) => Ok(g@),
            (StepValue::Str(g), ExpectedOutput::TrackForFxChain) => Ok(g@),
            _ => Err(ResolveError::WrongOutput { step: n, expected }),
        }
    }
}

/// An argument taken from an earlier step resolves to the GUID of what that
/// step gave, as long as it gave one of the kind the argument needs: a
/// track, a present optional track or a GUID string for a track or an FX
/// chain; a project or a present optional project for a project. An absent
/// optional value, a missing output or another kind does not resolve.
pub proof fn lemma_step_guid_takes_present_values(outputs: Seq<Option<StepValue>>, n: u32, g: String)
    ensures
        (n as int) < outputs.len() && (outputs[n as int] == Some(StepValue::Track(g))
            || outputs[n as int] == Some(StepValue::OptTrack(Some(g)))
            || outputs[n as int] == Some(StepValue::Str(g))) ==> step_guid_spec(outputs, n, ExpectedOutput::TrackOrString)
            == Ok::<Seq<char>, ResolveError>(g@) && step_guid_spec(outputs, n, ExpectedOutput::TrackForFxChain)
            == Ok::<Seq<char>, ResolveError>(g@),
        (n as int) < outputs.len() && (outputs[n as int] == Some(StepValue::ProjectInfo(g))
            || outputs[n as int] == Some(StepValue::OptProjectInfo(Some(g)))) ==> step_guid_spec(
            outputs,
            n,
            ExpectedOutput::ProjectInfo,
        ) == Ok::<Seq<char>, ResolveError>(g@),
        (n as int) < outputs.len() && (outputs[n as int] == Some(StepValue::OptTrack(None))
            || outputs[n as int] == Some(StepValue::OptProjectInfo(None))
            || outputs[n as int] == Some(StepValue::Other)) ==> forall|e: ExpectedOutput|
            #[trigger] step_guid_spec(outputs, n, e) == Err::<Seq<char>, ResolveError>(
                ResolveError::WrongOutput { step: n, expected: e },
            ),
        ((n as int) >= outputs.len() || outputs[n as int] is None) ==> forall|e: ExpectedOutput|
            #[trigger] step_guid_spec(outputs, n, e) == Err::<Seq<char>, ResolveError>(ResolveError::NoOutput(n)),
{
}

fn copy_string(s: &String) -> (r: String)
    ensures
        r@ == s@,
{
    crate::text::string_of(&crate::text::chars_of(s.as_str()))
}

fn step_guid(outputs: &[Option<StepValue>], n: u32, expected: ExpectedOutput) -> (r: Result<String, ResolveError>)
    ensures
        match r {
            Ok(g) => step_guid_spec(outputs@, n, expected) == Ok::<Seq<char>, ResolveError>(g@),
            Err(e) => step_guid_spec(outputs@, n, expected) == Err::<Seq<char>, ResolveError>(e),
        },
{
    if n as usize >= outputs.len() {
        return Err(ResolveError::NoOutput(n));
    }
    match &outputs[n as usize] {
        None => Err(ResolveError::NoOutput(n)),
        Some(v) => match (v, expected) {
            (StepValue::ProjectInfo(g), ExpectedOutput::ProjectInfo) => Ok(copy_string(g)),
            (StepValue::OptProjectInfo(Some(g)), ExpectedOutput::ProjectInfo) => Ok(copy_string(g)),
            (StepValue::Track(g), ExpectedOutput::TrackOrString) => Ok(copy_string(g)),
            (StepValue::OptTrack(Some(g)), ExpectedOutput::TrackOrString) => Ok(copy_string(g)),
            (StepValue::Str(g), ExpectedOutput::TrackOrString) => Ok(copy_string(g)),
            (StepValue::Track(g), ExpectedOutput::TrackForFxChain) => Ok(copy_string(g)),
            (StepValue::OptTrack(Some(g)), ExpectedOutput::TrackForFxChain) => Ok(copy_string(g)),
            (StepValue::Str(g), ExpectedOutput::TrackForFxChain) => Ok(copy_string(g)),
            _ => Err(ResolveError::WrongOutput { step: n, expected }),
        },
    }
}

/// Resolve a project argument: a literal stays as written; `FromStep(n)`
/// gives the project whose GUID step `n`'s project info holds.
pub fn resolve_project_arg<'a, C>(arg: &'a ProjectArg<C>, outputs: &[Option<StepValue>]) -> (r: Result<Resolved<'a, C>, ResolveError>)
    ensures
        match arg {
            ProjectArg::Literal(c) => r matches Ok(Resolved::Literal(x)) && x == c,
            ProjectArg::FromStep(n) => match step_guid_spec(outputs@, *n, ExpectedOutput::ProjectInfo) {
                Ok(g) => r matches Ok(Resolved::FromGuid(h)) && h@ == g,
                Err(e) => r == Err::<Resolved<'a, C>, ResolveError>(e),
            },
        },
{
    match arg {
        ProjectArg::Literal(c) => Ok(Resolved::Literal(c)),
        ProjectArg::FromStep(n) => match step_guid(outputs, *n, ExpectedOutput::ProjectInfo) {
            Ok(g) => Ok(Resolved::FromGuid(g)),
            Err(e) => Err(e),
        },
    }
}

/// The GUID at `index` in step `n`'s track list, or why there is none.
pub open spec fn step_track_at_spec(outputs: Seq<Option<StepValue>>, n: u32, index: u32) -> Result<Seq<char>, ResolveError> {
    if (n as int) >= outputs.len() || outputs[n as int] is None {
        Err(ResolveError::NoOutput(n))
    } else {
        match outputs[n as int]->0 {
            StepValue::TrackList(ts) => if (index as int) < ts@.len() {
                Ok(ts@[index as int]@)
            } else {
                Err(ResolveError::IndexOutOfBounds { step: n, len: ts@.len() as usize, index })
            },
            _ => Err(ResolveError::WrongOutput { step: n, expected: ExpectedOutput::TrackList }),
        }
    }
}

/// Resolve a track argument: a literal stays as written; `FromStep(n)`
/// gives the track that step `n` gave (a track, or a string GUID);
/// `FromStepIndex(n, i)` gives the track at index `i` of step `n`'s track list.
pub fn resolve_track_arg<'a, R>(arg: &'a TrackArg<R>, outputs: &[Option<StepValue>]) -> (r: Result<Resolved<'a, R>, ResolveError>)
    ensures
        match arg {
            TrackArg::Literal(x) => r matches Ok(Resolved::Literal(y)) && y == x,
            TrackArg::FromStep(n) => match step_guid_spec(outputs@, *n, ExpectedOutput::TrackOrString) {
                Ok(g) => r matches Ok(Resolved::FromGuid(h)) && h@ == g,
                Err(e) => r == Err::<Resolved<'a, R>, ResolveError>(e),
            },
            TrackArg::FromStepIndex(n, i) => match step_track_at_spec(outputs@, *n, *i) {
                Ok(g) => r matches Ok(Resolved::FromGuid(h)) && h@ == g,
                Err(e) => r == Err::<Resolved<'a, R>, ResolveError>(e),
            },
        },
{
    match arg {
        TrackArg::Literal(x) => Ok(Resolved::Literal(x)),
        TrackArg::FromStep(n) => match step_guid(outputs, *n, ExpectedOutput::TrackOrString) {
            Ok(g) => Ok(Resolved::FromGuid(g)),
            Err(e) => Err(e),
        },
        TrackArg::FromStepIndex(n, i) => {
            let n = *n;
            let i = *i;
            if n as usize >= outputs.len() {
                return Err(ResolveError::NoOutput(n));
            }
            match &outputs[n as usize] {
                None => Err(ResolveError::NoOutput(n)),
                Some(StepValue::TrackList(ts)) => {
                    if (i as usize) < ts.len() {
                        Ok(Resolved::FromGuid(copy_string(&ts[i as usize])))
                    } else {
                        Err(ResolveError::IndexOutOfBounds { step: n, len: ts.len(), index: i })
                    }
                },
                Some(_) => Err(ResolveError::WrongOutput { step: n, expected: ExpectedOutput::TrackList }),
            }
        },
    }
}

/// Resolve an FX-chain argument: a literal stays as written;
/// `TrackFromStep(n)` gives the chain of the track that step `n` gave (a
/// track, or a string GUID).
pub fn resolve_fx_chain_arg<'a, C>(arg: &'a FxChainArg<C>, outputs: &[Option<StepValue>]) -> (r: Result<Resolved<'a, C>, ResolveError>)
    ensures
        match arg {
            FxChainArg::Literal(c) => r matches Ok(Resolved::Literal(x)) && x == c,
            FxChainArg::TrackFromStep(n) => match step_guid_spec(outputs@, *n, ExpectedOutput::TrackForFxChain) {
                Ok(g) => r matches Ok(Resolved::FromGuid(h)) && h@ == g,
                Err(e) => r == Err::<Resolved<'a, C>, ResolveError>(e),
            },
        },
{
    match arg {
        FxChainArg::Literal(c) => Ok(Resolved::Literal(c)),
        FxChainArg::TrackFromStep(n) => match step_guid(outputs, *n, ExpectedOutput::TrackForFxChain) {
            Ok(g) => Ok(Resolved::FromGuid(g)),
            Err(e) => Err(e),
        },
    }
}

// ---------------------------------------------------------------------------
// Choosing how a batch runs
// ---------------------------------------------------------------------------

/// The service an instruction of a batch addresses.
#[derive(PartialEq, Eq, Structural, Clone, Copy, Debug)]
pub enum BatchOpKind {
    Project,
    Transport,
    Track,
    Fx,
    Routing,
    Item,
    Take,
    Automation,
    Marker,
    Region,
    TempoMap,
    Midi,
    LiveMidi,
    ExtState,
    AudioEngine,
    PositionConversion,
    Health,
    ActionRegistry,
    Toolbar,
    PluginLoader,
    Peak,
    Resource,
    AudioAccessor,
    MidiAnalysis,
}

/// Whether the synchronous path runs operations of this kind: all but
/// automation, toolbar and plugin-loader operations.
pub open spec fn sync_supported_spec(kind: BatchOpKind) -> bool {
    !(kind == BatchOpKind::Automation || kind == BatchOpKind::Toolbar || kind == BatchOpKind::PluginLoader)
}

/// Whether the synchronous path runs operations of this kind.
pub fn is_sync_supported(kind: BatchOpKind) -> (r: bool)
    ensures
        r == sync_supported_spec(kind),
{
    match kind {
        BatchOpKind::Automation | BatchOpKind::Toolbar | BatchOpKind::PluginLoader => false,
        _ => true,
    }
}

/// Whether every instruction, of these kinds, can take the synchronous path.
pub fn all_ops_sync_supported(kinds: &[BatchOpKind]) -> (r: bool)
    ensures
        r == (forall|i: int| 0 <= i < kinds@.len() ==> sync_supported_spec(#[trigger] kinds@[i])),
{
    let mut i: usize = 0;
    while i < kinds.len()
        invariant
            i <= kinds.len(),
            forall|j: int| 0 <= j < i ==> sync_supported_spec(#[trigger] kinds@[j]),
        decreases kinds.len() - i,
    {
        if !is_sync_supported(kinds[i]) {
            return false;
        }
        i = i + 1;
    }
    true
}

/// How a batch runs: all in one main-thread call, or one call per operation.
#[derive(PartialEq, Eq, Structural, Clone, Copy, Debug)]
pub enum BatchPath {
    Sync,
    Async,
}

/// The path a batch of instructions of these kinds takes: the synchronous
/// one by default, the asynchronous one when some operation lacks
/// synchronous support.
pub fn choose_batch_path(kinds: &[BatchOpKind]) -> (r: BatchPath)
    ensures
        r == (if forall|i: int| 0 <= i < kinds@.len() ==> sync_supported_spec(#[trigger] kinds@[i]) {
            BatchPath::Sync
        } else {
            BatchPath::Async
        }),
{
    if all_ops_sync_supported(kinds) {
        BatchPath::Sync
    } else {
        BatchPath::Async
    }
}

/// The error an operation of a service that is not implemented answers:
/// automation operations fail with `AutomationService is not yet
/// implemented`; `None` for every other kind.
pub fn unimplemented_op_error(kind: BatchOpKind) -> (r: Option<String>)
    ensures
        kind == BatchOpKind::Automation ==> (r matches Some(m) && m@ == "AutomationService is not yet implemented"@),
        kind != BatchOpKind::Automation ==> r is None,
{
    match kind {
        BatchOpKind::Automation => Some(crate::text::string_of(&crate::text::chars_of("AutomationService is not yet implemented"))),
        _ => None,
    }
}

} // verus!

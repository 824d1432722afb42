use vstd::prelude::*;

use crate::payload::{
    plain_of, tagged_of, text_of, to_plain, to_tagged, Payload, PayloadView, Tag,
};

verus! {

/// The representation a work unit natively works on. A tagged unit carries
/// the tag that is attached when its predecessor hands it plain text: this is
/// configuration given by whoever builds the pipeline, never guessed.
#[derive(Clone, Copy, Debug, PartialEq, Eq, Structural)]
pub enum UnitKind {
    Plain,
    Tagged(Tag),
}

/// A payload converted to the native representation of a unit of `kind`.
/// Nothing is converted where the representations already agree.
pub open spec fn native_input(kind: UnitKind, p: PayloadView) -> PayloadView {
    match kind {
        UnitKind::Plain => match p {
            PayloadView::Tagged(t) => PayloadView::Plain(plain_of(t)),
            PayloadView::Plain(_) => p,
        },
        UnitKind::Tagged(tag) => match p {
            PayloadView::Plain(s) => PayloadView::Tagged(tagged_of(s, tag)),
            PayloadView::Tagged(_) => p,
        },
    }
}

/// Converts `p` to the native representation of a unit of `kind`.
pub fn bridge(p: Payload, kind: UnitKind) -> (r: Payload)
    ensures
        r@ == native_input(kind, p@),
{
    match kind {
        UnitKind::Plain => match p {
            Payload::Tagged(t) => Payload::Plain(to_plain(t)),
            Payload::Plain(s) => Payload::Plain(s),
        },
        UnitKind::Tagged(tag) => match p {
            Payload::Plain(s) => Payload::Tagged(to_tagged(s, tag)),
            Payload::Tagged(t) => Payload::Tagged(t),
        },
    }
}

/// The state of one run between two units: the index of the unit to run
/// next and the payload carried forward so far.
#[derive(Debug)]
pub struct Run {
    next: usize,
    payload: Payload,
}

pub struct RunView {
    pub next: nat,
    pub payload: PayloadView,
}

impl View for Run {
    type V = RunView;

    closed spec fn view(&self) -> RunView {
        RunView { next: self.next as nat, payload: self.payload@ }
    }
}

/// What the driver of a run is to do next.
#[derive(Debug)]
pub enum Step {
    /// Acquire the guard of unit `index`, execute it on `input`, release it.
    Execute { index: usize, input: Payload },
    /// Every unit has run: the final text.
    Done(String),
}

pub enum StepView {
    Execute { index: nat, input: PayloadView },
    Done(Seq<char>),
}

impl View for Step {
    type V = StepView;

    open spec fn view(&self) -> StepView {
        match self {
            Step::Execute { index, input } => StepView::Execute {
                index: *index as nat,
                input: input@,
            },
            Step::Done(s) => StepView::Done(s@),
        }
    }
}

/// How the execution of one unit ended, as the driver reports it.
#[derive(Debug)]
pub enum Outcome {
    /// The unit produced a payload (in either representation).
    Completed(Payload),
    /// The unit reported a failure with a human-readable cause.
    Failed(String),
    /// The unit's guard could not be acquired.
    LockFailed,
}

pub enum OutcomeView {
    Completed(PayloadView),
    Failed(Seq<char>),
    LockFailed,
}

impl View for Outcome {
    type V = OutcomeView;

    open spec fn view(&self) -> OutcomeView {
        match self {
            Outcome::Completed(p) => OutcomeView::Completed(p@),
            Outcome::Failed(c) => OutcomeView::Failed(c@),
            Outcome::LockFailed => OutcomeView::LockFailed,
        }
    }
}

/// Why a run stopped before its end. Each kind names the unit it is about by
/// its number in the pipeline, counting from 1: the unit at position `i` is
/// unit `i + 1`.
#[derive(Debug)]
pub enum PipelineError {
    /// Unit number `index` failed its own transformation.
    Unit { index: usize, cause: String },
    /// The guard of unit number `index` could not be acquired.
    Lock { index: usize },
    /// Bridging representations for unit number `index` failed. Bridging is
    /// total between the two current representations, so no run reports
    /// this; it stands for representations that cannot hold each other.
    Conversion { index: usize },
}

pub enum PipelineErrorView {
    Unit { index: nat, cause: Seq<char> },
    Lock { index: nat },
    Conversion { index: nat },
}

impl View for PipelineError {
    type V = PipelineErrorView;

    open spec fn view(&self) -> PipelineErrorView {
        match self {
            PipelineError::Unit { index, cause } => PipelineErrorView::Unit {
                index: *index as nat,
                cause: cause@,
            },
            PipelineError::Lock { index } => PipelineErrorView::Lock { index: *index as nat },
            PipelineError::Conversion { index } => PipelineErrorView::Conversion {
                index: *index as nat,
            },
        }
    }
}

impl PipelineError {
    /// The number, counting from 1, of the unit the error is about.
    pub fn index(&self) -> (r: usize)
        ensures
            r as nat == error_index(self@),
    {
        match self {
            PipelineError::Unit { index, .. } => *index,
            PipelineError::Lock { index } => *index,
            PipelineError::Conversion { index } => *index,
        }
    }
}

/// What an error says in words: a failed unit's own cause, or a fixed text.
pub open spec fn error_message(e: PipelineErrorView) -> Seq<char> {
    match e {
        PipelineErrorView::Unit { cause, .. } => cause,
        PipelineErrorView::Lock { .. } => "could not acquire the mutex lock"@,
        PipelineErrorView::Conversion { .. } => "could not convert the payload to the unit's representation"@,
    }
}

impl PipelineError {
    /// What the error says in words.
    pub fn message(&self) -> (r: String)
        ensures
            r@ == error_message(self@),
    {
        match self {
            PipelineError::Unit { cause, .. } => cause.clone(),
            PipelineError::Lock { .. } => String::from_str("could not acquire the mutex lock"),
            PipelineError::Conversion { .. } => String::from_str("could not convert the payload to the unit's representation"),
        }
    }
}

pub open spec fn error_index(e: PipelineErrorView) -> nat {
    match e {
        PipelineErrorView::Unit { index, .. } => index,
        PipelineErrorView::Lock { index } => index,
        PipelineErrorView::Conversion { index } => index,
    }
}

/// The state a run starts in: at the first unit, with the caller's text.
pub open spec fn start_of(text: Seq<char>) -> RunView {
    RunView { next: 0, payload: PayloadView::Plain(text) }
}

/// The step that follows `run` in a pipeline of `units`: the next unit in
/// declared order, on the payload bridged to its representation, or the end.
pub open spec fn step_of(units: Seq<UnitKind>, run: RunView) -> StepView {
    if run.next < units.len() {
        StepView::Execute {
            index: run.next,
            input: native_input(units[run.next as int], run.payload),
        }
    } else {
        StepView::Done(text_of(run.payload))
    }
}

/// The state after the unit at position `index` ended with `outcome`: a
/// completed unit hands its payload to the unit after it, anything else ends
/// the run with an error naming the unit by its number, `index + 1`.
pub open spec fn advance_of(index: nat, outcome: OutcomeView) -> Result<RunView, PipelineErrorView> {
    match outcome {
        OutcomeView::Completed(p) => Ok(RunView { next: index + 1, payload: p }),
        OutcomeView::Failed(cause) => Err(PipelineErrorView::Unit { index: index + 1, cause }),
        OutcomeView::LockFailed => Err(PipelineErrorView::Lock { index: index + 1 }),
    }
}

/// An ordered sequence of units, fixed once built.
#[derive(Debug)]
pub struct Pipeline {
    units: Vec<UnitKind>,
}

impl View for Pipeline {
    type V = Seq<UnitKind>;

    closed spec fn view(&self) -> Seq<UnitKind> {
        self.units@
    }
}

impl Pipeline {
    /// A pipeline over `units`, in the order given.
    pub fn new(units: Vec<UnitKind>) -> (r: Pipeline)
        ensures
            r@ == units@,
    {
        Pipeline { units }
    }

    /// The number of units.
    pub fn len(&self) -> (r: usize)
        ensures
            r == self@.len(),
    {
        self.units.len()
    }

    /// The kind of the unit at `index`.
    pub fn kind(&self, index: usize) -> (r: UnitKind)
        requires
            index < self@.len(),
        ensures
            r == self@[index as int],
    {
        self.units[index]
    }

    /// Starts a run on `text`.
    pub fn start(&self, text: String) -> (r: Run)
        ensures
            r@ == start_of(text@),
    {
        Run { next: 0, payload: Payload::Plain(text) }
    }

    /// What to do with `run`: execute its next unit, or hand out the result.
    pub fn next_step(&self, run: Run) -> (r: Step)
        ensures
            r@ == step_of(self@, run@),
    {
        let Run { next, payload } = run;
        if next < self.units.len() {
            Step::Execute { index: next, input: bridge(payload, self.units[next]) }
        } else {
            Step::Done(payload.into_text())
        }
    }

    /// Carries a run on after the unit at `index` ended with `outcome`.
    pub fn advance(&self, index: usize, outcome: Outcome) -> (r: Result<Run, PipelineError>)
        requires
            index < self@.len(),
        ensures
            match r {
                Ok(run) => advance_of(index as nat, outcome@) == Ok::<RunView, PipelineErrorView>(run@),
                Err(e) => advance_of(index as nat, outcome@) == Err::<RunView, PipelineErrorView>(e@),
            },
    {
        // The view alone does not bound the length by `usize::MAX`; reading
        // the length does, and with it `index + 1` below.
        let count = self.units.len();
        assert(index < count);
        match outcome {
            Outcome::Completed(p) => Ok(Run { next: index + 1, payload: p }),
            Outcome::Failed(cause) => Err(PipelineError::Unit { index: index + 1, cause }),
            Outcome::LockFailed => Err(PipelineError::Lock { index: index + 1 }),
        }
    }
}

/// One execution of a unit: which unit ran, on what, and how it ended.
pub struct Execution {
    pub index: nat,
    pub input: PayloadView,
    pub outcome: OutcomeView,
}

/// The payload carried forward after the executions of `trace`: the output
/// of the last execution where it completed, and otherwise, before any
/// execution or after a failed one, the caller's text (a failed unit hands
/// nothing on).
pub open spec fn payload_after(text: Seq<char>, trace: Seq<Execution>) -> PayloadView {
    if trace.len() > 0 && trace.last().outcome is Completed {
        trace.last().outcome->Completed_0
    } else {
        PayloadView::Plain(text)
    }
}

/// `trace` is how a run of `text` through `units` went so far: the units ran
/// one at a time in declared order, each on the output of the one before it
/// bridged to its own representation, and only the last one may have failed.
pub open spec fn trace_of_run(units: Seq<UnitKind>, text: Seq<char>, trace: Seq<Execution>) -> bool {
    &&& trace.len() <= units.len()
    &&& forall|k: int|
        0 <= k < trace.len() ==> {
            &&& (#[trigger] trace[k]).index == k
            &&& trace[k].input == native_input(units[k], payload_after(text, trace.take(k)))
        }
    &&& forall|k: int| 0 <= k < trace.len() - 1 ==> (#[trigger] trace[k]).outcome is Completed
}

/// What a run whose executions were `trace` gives its caller: the error of a
/// failed last unit, or else the text of the payload carried forward.
pub open spec fn run_result(text: Seq<char>, trace: Seq<Execution>) -> Result<Seq<char>, PipelineErrorView> {
    if trace.len() > 0 && !(trace.last().outcome is Completed) {
        match trace.last().outcome {
            OutcomeView::Failed(cause) => Err(PipelineErrorView::Unit { index: trace.last().index + 1, cause }),
            _ => Err(PipelineErrorView::Lock { index: trace.last().index + 1 }),
        }
    } else {
        Ok(text_of(payload_after(text, trace)))
    }
}

/// The executions recorded in `after` beyond those in `before`.
pub open spec fn executions_since(before: Seq<Execution>, after: Seq<Execution>) -> Seq<Execution> {
    after.skip(before.len() as int)
}

/// Executes the units of a pipeline on its behalf. An implementor owns the
/// units and their guards: `execute` holds the guard of unit `index`, and no
/// other, while that unit runs.
pub trait UnitRunner {
    /// The executions so far, in order.
    spec fn executed(&self) -> Seq<Execution>;

    /// Executes the unit at `index` on `input` under the unit's guard.
    fn execute(&mut self, index: usize, input: Payload) -> (r: Outcome)
        ensures
            final(self).executed() == old(self).executed().push(
                Execution { index: index as nat, input: input@, outcome: r@ },
            ),
    ;
}

impl Pipeline {
    /// Runs `text` through every unit in order, each on the output of the one
    /// before it, bridged to its representation. The first failure ends the
    /// run: no later unit executes, and the error names the failing unit.
    pub fn process<R: UnitRunner>(&self, runner: &mut R, text: String) -> (r: Result<String, PipelineError>)
        ensures
            self@.len() == 0 ==> (r matches Ok(t) && t@ == text@),
            final(runner).executed().take(old(runner).executed().len() as int) == old(runner).executed(),
            trace_of_run(self@, text@, executions_since(old(runner).executed(), final(runner).executed())),
            r is Ok ==> executions_since(old(runner).executed(), final(runner).executed()).len() == self@.len(),
            match r {
                Ok(t) => run_result(text@, executions_since(old(runner).executed(), final(runner).executed()))
                    == Ok::<Seq<char>, PipelineErrorView>(t@),
                Err(e) => run_result(text@, executions_since(old(runner).executed(), final(runner).executed()))
                    == Err::<Seq<char>, PipelineErrorView>(e@),
            },
    {
        let mut run = self.start(text);
        let ghost first = runner.executed();
        assert(runner.executed().take(first.len() as int) =~= first);
        assert(executions_since(first, runner.executed()) =~= seq![]);
        loop
            invariant
                first == old(runner).executed(),
                run@.next <= self@.len(),
                runner.executed().len() == first.len() + run@.next,
                runner.executed().take(first.len() as int) == first,
                trace_of_run(self@, text@, executions_since(first, runner.executed())),
                forall|k: int|
                    0 <= k < run@.next ==> (#[trigger] executions_since(first, runner.executed())[k]).outcome is Completed,
                run@.payload == payload_after(text@, executions_since(first, runner.executed())),
                self@.len() == 0 ==> run@ == start_of(text@),
            decreases self@.len() - run@.next,
        {
            let ghost done = run@.next;
            let ghost trace = executions_since(first, runner.executed());
            let ghost payload = run@.payload;
            match self.next_step(run) {
                Step::Done(t) => {
                    assert(done == self@.len());
                    return Ok(t);
                },
                Step::Execute { index, input } => {
                    let ghost before = runner.executed();
                    let outcome = runner.execute(index, input);
                    let ghost step = Execution { index: index as nat, input: input@, outcome: outcome@ };
                    let ghost grown = executions_since(first, runner.executed());
                    assert(grown =~= trace.push(step));
                    assert(runner.executed().take(first.len() as int) =~= before.take(first.len() as int));
                    assert(grown.take(done as int) =~= trace);
                    assert forall|k: int| 0 <= k < done implies #[trigger] grown.take(k) =~= trace.take(k) by {
                        assert(grown.take(k) =~= trace.take(k));
                    }
                    assert(trace_of_run(self@, text@, grown));
                    match self.advance(index, outcome) {
                        Ok(next) => {
                            run = next;
                        },
                        Err(e) => {
                            return Err(e);
                        },
                    }
                },
            }
        }
    }
}

/// A pipeline without units hands back the caller's text unchanged: its
/// first step is the end, and a run of it executes nothing and gives the text.
pub proof fn lemma_empty_pipeline_is_identity(units: Seq<UnitKind>, text: Seq<char>, trace: Seq<Execution>)
    requires
        units.len() == 0,
        trace_of_run(units, text, trace),
    ensures
        step_of(units, start_of(text)) == StepView::Done(text),
        trace.len() == 0,
        run_result(text, trace) == Ok::<Seq<char>, PipelineErrorView>(text),
{
}

/// Fail-fast: in a run, a unit that fails is the last one to execute, and
/// the run's error names that unit and its cause.
pub proof fn lemma_failure_ends_the_run(units: Seq<UnitKind>, text: Seq<char>, trace: Seq<Execution>, k: int)
    requires
        trace_of_run(units, text, trace),
        0 <= k < trace.len(),
        trace[k].outcome is Failed,
    ensures
        k == trace.len() - 1,
        run_result(text, trace) == Err::<Seq<char>, PipelineErrorView>(
            PipelineErrorView::Unit { index: (k + 1) as nat, cause: trace[k].outcome->Failed_0 },
        ),
{
}

} // verus!

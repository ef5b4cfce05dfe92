//! The build pipeline that follows a successful rendering: a fixed list of
//! steps, run one after the other, where the first failure ends the run.
//!
//! The pipeline is a state machine.  Running a step is the caller's part:
//! the caller asks which step is pending, runs it, and records its result.
//! Nothing is rolled back when a step fails; what earlier steps did stays
//! done.

use vstd::prelude::*;

use crate::text::same_text;

verus! {

/// One step of the pipeline: a name for diagnostics, and the command that
/// performs it.
#[derive(Debug, PartialEq, Eq)]
pub struct StepSpec {
    pub name: String,
    pub program: String,
    pub args: Vec<String>,
}

pub struct StepModel {
    pub name: Seq<char>,
    pub program: Seq<char>,
    pub args: Seq<Seq<char>>,
}

impl View for StepSpec {
    type V = StepModel;

    open spec fn view(&self) -> StepModel {
        StepModel { name: self.name@, program: self.program@, args: self.args.deep_view() }
    }
}

impl DeepView for StepSpec {
    type V = StepModel;

    open spec fn deep_view(&self) -> StepModel {
        self@
    }
}

/// How a step ended, as its caller saw it.
#[derive(Debug, PartialEq, Eq)]
pub struct PipelineStepResult {
    pub step_name: String,
    pub succeeded: bool,
    pub combined_output: String,
}

pub struct StepResultModel {
    pub step_name: Seq<char>,
    pub succeeded: bool,
    pub combined_output: Seq<char>,
}

impl View for PipelineStepResult {
    type V = StepResultModel;

    open spec fn view(&self) -> StepResultModel {
        StepResultModel {
            step_name: self.step_name@,
            succeeded: self.succeeded,
            combined_output: self.combined_output@,
        }
    }
}

/// The step that failed, and what it printed.
#[derive(Debug, PartialEq, Eq)]
pub struct PipelineError {
    pub step_name: String,
    pub details: String,
}

pub struct PipelineErrorModel {
    pub step_name: Seq<char>,
    pub details: Seq<char>,
}

impl View for PipelineError {
    type V = PipelineErrorModel;

    open spec fn view(&self) -> PipelineErrorModel {
        PipelineErrorModel { step_name: self.step_name@, details: self.details@ }
    }
}

/// Where a pipeline stands.  `Running(i)` waits for the result of step `i`;
/// `Failed(i, details)` keeps what the failing step `i` printed.
#[derive(Debug, PartialEq, Eq)]
pub enum PipelineState {
    NotStarted,
    Running(usize),
    Succeeded,
    Failed(usize, String),
}

pub enum StateModel {
    NotStarted,
    Running(int),
    Succeeded,
    Failed(int, Seq<char>),
}

impl View for PipelineState {
    type V = StateModel;

    open spec fn view(&self) -> StateModel {
        match self {
            PipelineState::NotStarted => StateModel::NotStarted,
            PipelineState::Running(i) => StateModel::Running(*i as int),
            PipelineState::Succeeded => StateModel::Succeeded,
            PipelineState::Failed(i, details) => StateModel::Failed(*i as int, details@),
        }
    }
}

/// A pipeline: its steps in declared order, and where it stands.
#[derive(Debug)]
pub struct Pipeline {
    steps: Vec<StepSpec>,
    state: PipelineState,
}

pub struct PipelineModel {
    pub steps: Seq<StepModel>,
    pub state: StateModel,
}

impl PipelineModel {
    /// A step that is awaited or has failed is one of the declared steps.
    pub open spec fn well_formed(self) -> bool {
        match self.state {
            StateModel::Running(i) => 0 <= i < self.steps.len(),
            StateModel::Failed(i, _) => 0 <= i < self.steps.len(),
            _ => true,
        }
    }

    /// The step whose result is awaited.
    pub open spec fn pending(self) -> Option<StepModel> {
        match self.state {
            StateModel::Running(i) => Some(self.steps[i]),
            _ => None,
        }
    }

    /// `result` is the result of the awaited step.
    pub open spec fn awaits(self, result: StepResultModel) -> bool {
        self.state matches StateModel::Running(i) && self.steps[i].name == result.step_name
    }

    /// The pipeline after it was told to begin.  Only a pipeline that has
    /// not started yet begins; one without steps has then succeeded.
    pub open spec fn started(self) -> PipelineModel {
        match self.state {
            StateModel::NotStarted => PipelineModel {
                state: if self.steps.len() == 0 {
                    StateModel::Succeeded
                } else {
                    StateModel::Running(0)
                },
                ..self
            },
            _ => self,
        }
    }

    /// The pipeline after `result` was recorded.  A result that is not the
    /// awaited one changes nothing.  A failure ends the run at its step; a
    /// success moves on to the next step, or ends the run after the last.
    pub open spec fn recorded(self, result: StepResultModel) -> PipelineModel {
        if self.awaits(result) {
            let i = self.state->Running_0;
            PipelineModel {
                state: if !result.succeeded {
                    StateModel::Failed(i, result.combined_output)
                } else if i + 1 < self.steps.len() {
                    StateModel::Running(i + 1)
                } else {
                    StateModel::Succeeded
                },
                ..self
            }
        } else {
            self
        }
    }

    /// How the run ended, once it has ended.
    pub open spec fn outcome(self) -> Option<Result<(), PipelineErrorModel>> {
        match self.state {
            StateModel::Succeeded => Some(Ok(())),
            StateModel::Failed(i, details) => Some(
                Err(PipelineErrorModel { step_name: self.steps[i].name, details }),
            ),
            _ => None,
        }
    }

    /// The pipeline after each of `results` was recorded in turn.
    pub open spec fn replayed(self, results: Seq<StepResultModel>) -> PipelineModel
        decreases results.len(),
    {
        if results.len() == 0 {
            self
        } else {
            self.replayed(results.drop_last()).recorded(results.last())
        }
    }
}

impl View for Pipeline {
    type V = PipelineModel;

    closed spec fn view(&self) -> PipelineModel {
        PipelineModel { steps: self.steps.deep_view(), state: self.state@ }
    }
}

impl StepSpec {
    pub fn new(name: &str, program: &str, args: Vec<String>) -> (step: StepSpec)
        ensures
            step@ == (StepModel { name: name@, program: program@, args: args.deep_view() }),
    {
        StepSpec { name: name.to_owned(), program: program.to_owned(), args }
    }
}

impl Clone for StepSpec {
    fn clone(&self) -> (copy: StepSpec)
        ensures
            copy@ == self@,
    {
        let n = self.args.len();
        let mut args: Vec<String> = Vec::new();
        let mut i: usize = 0;
        while i < n
            invariant
                n == self.args@.len(),
                i <= n,
                args@.len() == i,
                forall|j: int| 0 <= j < i ==> (#[trigger] args@[j])@ == self.args@[j]@,
            decreases n - i,
        {
            args.push(self.args[i].clone());
            i += 1;
        }
        assert(args.deep_view() =~= self.args.deep_view());
        StepSpec { name: self.name.clone(), program: self.program.clone(), args }
    }
}

impl PipelineStepResult {
    pub fn new(step_name: &str, succeeded: bool, combined_output: &str) -> (result:
        PipelineStepResult)
        ensures
            result@ == (StepResultModel {
                step_name: step_name@,
                succeeded,
                combined_output: combined_output@,
            }),
    {
        PipelineStepResult {
            step_name: step_name.to_owned(),
            succeeded,
            combined_output: combined_output.to_owned(),
        }
    }
}

impl Pipeline {
    #[verifier::type_invariant]
    spec fn inv(self) -> bool {
        self@.well_formed()
    }

    /// A pipeline over `steps` that has not started yet.
    pub fn new(steps: Vec<StepSpec>) -> (pipeline: Pipeline)
        ensures
            pipeline@ == (PipelineModel {
                steps: steps.deep_view(),
                state: StateModel::NotStarted,
            }),
    {
        Pipeline { steps, state: PipelineState::NotStarted }
    }

    /// Begins the run.
    pub fn start(&mut self)
        ensures
            final(self)@ == old(self)@.started(),
    {
        match self.state {
            PipelineState::NotStarted => {
                if self.steps.len() == 0 {
                    self.state = PipelineState::Succeeded;
                } else {
                    self.state = PipelineState::Running(0);
                }
            },
            _ => {},
        }
    }

    /// The step to run now, if the pipeline waits for one.
    pub fn pending(&self) -> (step: Option<&StepSpec>)
        ensures
            self@.well_formed(),
            step.deep_view() == self@.pending(),
    {
        proof {
            use_type_invariant(self);
        }
        match self.state {
            PipelineState::Running(i) => Some(&self.steps[i]),
            _ => None,
        }
    }

    /// Records how a step ended.
    pub fn record(&mut self, result: PipelineStepResult)
        ensures
            final(self)@ == old(self)@.recorded(result@),
    {
        proof {
            use_type_invariant(&*self);
        }
        let n = self.steps.len();
        match self.state {
            PipelineState::Running(i) => {
                if same_text(self.steps[i].name.as_str(), result.step_name.as_str()) {
                    if !result.succeeded {
                        self.state = PipelineState::Failed(i, result.combined_output);
                    } else if i + 1 < n {
                        self.state = PipelineState::Running(i + 1);
                    } else {
                        self.state = PipelineState::Succeeded;
                    }
                }
            },
            _ => {},
        }
    }

    /// Where the pipeline stands.
    pub fn state(&self) -> (state: &PipelineState)
        ensures
            self@.well_formed(),
            state@ == self@.state,
    {
        proof {
            use_type_invariant(self);
        }
        &self.state
    }

    /// The steps of the pipeline, in declared order.
    pub fn steps(&self) -> (steps: &Vec<StepSpec>)
        ensures
            steps.deep_view() == self@.steps,
    {
        &self.steps
    }

    /// How the run ended: `None` while it has not ended.
    pub fn outcome(&self) -> (ended: Option<Result<(), PipelineError>>)
        ensures
            self@.well_formed(),
            match ended {
                Some(Ok(_)) => self@.outcome() == Some(Ok::<(), PipelineErrorModel>(())),
                Some(Err(e)) => self@.outcome() == Some(Err::<(), PipelineErrorModel>(e@)),
                None => self@.outcome() is None,
            },
    {
        proof {
            use_type_invariant(self);
        }
        match &self.state {
            PipelineState::Succeeded => Some(Ok(())),
            PipelineState::Failed(i, details) => Some(
                Err(
                    PipelineError {
                        step_name: self.steps[*i].name.clone(),
                        details: details.clone(),
                    },
                ),
            ),
            _ => None,
        }
    }
}

/// Result `k` is the first of `results` that reports a failure.
pub open spec fn is_first_failure(results: Seq<StepResultModel>, k: int) -> bool {
    &&& 0 <= k < results.len()
    &&& !results[k].succeeded
    &&& forall|j: int| 0 <= j < k ==> (#[trigger] results[j]).succeeded
}

/// Each of `results` is the result of the step at its place in `steps`.
pub open spec fn answer_in_order(steps: Seq<StepModel>, results: Seq<StepResultModel>) -> bool {
    &&& results.len() <= steps.len()
    &&& forall|k: int| 0 <= k < results.len() ==> (#[trigger] results[k]).step_name == steps[k].name
}

/// Beginning and recording leave the declared steps as they are, and a
/// well-formed pipeline well-formed.
pub proof fn lemma_steps_are_fixed(p: PipelineModel, result: StepResultModel)
    requires
        p.well_formed(),
    ensures
        p.started().well_formed(),
        p.started().steps == p.steps,
        p.recorded(result).well_formed(),
        p.recorded(result).steps == p.steps,
{
}

/// Recording one list of results after another is recording them all.
pub proof fn lemma_replay_in_parts(
    p: PipelineModel,
    first: Seq<StepResultModel>,
    then: Seq<StepResultModel>,
)
    ensures
        p.replayed(first + then) == p.replayed(first).replayed(then),
    decreases then.len(),
{
    if then.len() == 0 {
        assert(first + then =~= first);
    } else {
        assert((first + then).drop_last() =~= first + then.drop_last());
        assert((first + then).last() == then.last());
        lemma_replay_in_parts(p, first, then.drop_last());
    }
}

/// A run that has ended stays as it ended.  No step is pending, and
/// whatever is recorded afterwards changes nothing: after a failure no
/// later step starts.
pub proof fn lemma_ended_run_is_final(p: PipelineModel, results: Seq<StepResultModel>)
    requires
        p.state is Succeeded || p.state is Failed,
    ensures
        p.pending() is None,
        p.replayed(results) == p,
    decreases results.len(),
{
    if results.len() > 0 {
        lemma_ended_run_is_final(p, results.drop_last());
    }
}

/// Steps run in declared order.  While every step succeeds, the pipeline
/// waits for the step that follows the last one recorded, and it has
/// succeeded when all are recorded.
pub proof fn lemma_successes_advance(steps: Seq<StepModel>, results: Seq<StepResultModel>)
    requires
        answer_in_order(steps, results),
        forall|k: int| 0 <= k < results.len() ==> (#[trigger] results[k]).succeeded,
    ensures
        (PipelineModel { steps, state: StateModel::NotStarted }).started().replayed(results)
            == (PipelineModel {
            steps,
            state: if results.len() == steps.len() {
                StateModel::Succeeded
            } else {
                StateModel::Running(results.len() as int)
            },
        }),
    decreases results.len(),
{
    if results.len() > 0 {
        let earlier = results.drop_last();
        assert forall|k: int| 0 <= k < earlier.len() implies (#[trigger] earlier[k]).succeeded by {
            assert(earlier[k] == results[k]);
        }
        assert(answer_in_order(steps, earlier)) by {
            assert forall|k: int| 0 <= k < earlier.len() implies (#[trigger] earlier[k]).step_name
                == steps[k].name by {
                assert(earlier[k] == results[k]);
            }
        }
        lemma_successes_advance(steps, earlier);
        assert(results.last() == results[results.len() - 1]);
    }
}

/// The first failure ends the run.  The pipeline has failed at the step of
/// the first failing result and keeps what that step printed; the steps
/// after it never start, whatever else is recorded.
pub proof fn lemma_first_failure_ends_run(
    steps: Seq<StepModel>,
    results: Seq<StepResultModel>,
    k: int,
)
    requires
        answer_in_order(steps, results),
        is_first_failure(results, k),
    ensures
        (PipelineModel { steps, state: StateModel::NotStarted }).started().replayed(results)
            == (PipelineModel { steps, state: StateModel::Failed(k, results[k].combined_output) }),
        (PipelineModel { steps, state: StateModel::NotStarted }).started().replayed(
            results,
        ).outcome() == Some(
            Err::<(), PipelineErrorModel>(
                PipelineErrorModel {
                    step_name: steps[k].name,
                    details: results[k].combined_output,
                },
            ),
        ),
{
    let begun = (PipelineModel { steps, state: StateModel::NotStarted }).started();
    let passed = results.take(k);
    let rest = results.skip(k + 1);
    assert(results =~= passed + seq![results[k]] + rest);
    assert(answer_in_order(steps, passed));
    lemma_successes_advance(steps, passed);
    let failed = begun.replayed(passed).recorded(results[k]);
    assert(begun.replayed(passed + seq![results[k]]) == failed) by {
        assert((passed + seq![results[k]]).drop_last() =~= passed);
    }
    lemma_replay_in_parts(begun, passed + seq![results[k]], rest);
    lemma_ended_run_is_final(failed, rest);
}

} // verus!

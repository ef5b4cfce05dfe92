//! One generation from start to end, as a state machine.
//!
//! A generation renders its templates in order and then, unless the caller
//! opted out, runs the build pipeline.  Rendering and running are the
//! caller's part.  The machine says what to do next ([`Request`]), the
//! caller does it and hands back what happened ([`Event`]), until the
//! machine says that it is done.  The first failure of any kind ends the
//! generation with that failure.

use vstd::prelude::*;

use crate::context::{utc_now, AppInfo, ContextModel, GenerationContext, Timestamp};
use crate::error::{Error, ErrorModel};
use crate::fields::{resolution, resolve, warned_names, FieldModel, FieldToken};
use crate::mappings::{MappingModel, Mappings};
use crate::outcome::{
    collect_messages, report, ArtifactOutcome, OutcomeModel, RenderError, RenderErrorModel,
};
use crate::pipeline::{
    answer_in_order, is_first_failure, lemma_first_failure_ends_run, lemma_successes_advance,
    Pipeline, PipelineErrorModel, PipelineModel, PipelineStepResult, StateModel, StepModel,
    StepResultModel, StepSpec,
};

verus! {

/// The templates of a model, by name.
#[derive(Debug, Clone, Copy, PartialEq, Eq)]
pub enum TemplateId {
    /// The schema definition.
    Model,
    /// The test scaffold that goes with it.
    ModelTest,
}

/// What the caller is asked to do next.
#[derive(Debug, PartialEq, Eq)]
pub enum Request {
    /// Render this template against the context of the generation.
    Render(TemplateId),
    /// Run this build step.
    RunStep(StepSpec),
    /// Nothing more: the generation has ended, with the report or with the
    /// failure that ended it.
    Done(Result<String, Error>),
}

pub enum RequestModel {
    Render(TemplateId),
    RunStep(StepModel),
    Done(Result<Seq<char>, ErrorModel>),
}

impl View for Request {
    type V = RequestModel;

    open spec fn view(&self) -> RequestModel {
        match self {
            Request::Render(template) => RequestModel::Render(*template),
            Request::RunStep(step) => RequestModel::RunStep(step@),
            Request::Done(Ok(messages)) => RequestModel::Done(Ok(messages@)),
            Request::Done(Err(error)) => RequestModel::Done(Err(error@)),
        }
    }
}

/// What happened when the caller did what it was asked to do.
#[derive(Debug, PartialEq, Eq)]
pub enum Event {
    Rendered(ArtifactOutcome),
    RenderFailed(RenderError),
    StepFinished(PipelineStepResult),
}

pub enum EventModel {
    Rendered(OutcomeModel),
    RenderFailed(RenderErrorModel),
    StepFinished(StepResultModel),
}

impl View for Event {
    type V = EventModel;

    open spec fn view(&self) -> EventModel {
        match self {
            Event::Rendered(outcome) => EventModel::Rendered(outcome@),
            Event::RenderFailed(error) => EventModel::RenderFailed(error@),
            Event::StepFinished(result) => EventModel::StepFinished(result@),
        }
    }
}

/// A generation under way.
#[derive(Debug)]
pub struct Generation {
    context: GenerationContext,
    templates: Vec<TemplateId>,
    outcomes: Vec<ArtifactOutcome>,
    render_failure: Option<RenderError>,
    migration_only: bool,
    pipeline: Pipeline,
}

pub struct GenerationModel {
    pub context: ContextModel,
    /// The templates to render, in order.
    pub templates: Seq<TemplateId>,
    /// The outcomes of the templates rendered so far.
    pub outcomes: Seq<OutcomeModel>,
    pub render_failure: Option<RenderErrorModel>,
    /// The caller opted out of the build pipeline.
    pub migration_only: bool,
    pub pipeline: PipelineModel,
}

impl GenerationModel {
    /// The pipeline has started exactly when it was not opted out of and
    /// every template has been rendered.
    pub open spec fn well_formed(self) -> bool {
        &&& self.pipeline.well_formed()
        &&& self.outcomes.len() <= self.templates.len()
        &&& self.render_failure is Some ==> self.outcomes.len() < self.templates.len()
        &&& self.pipeline.state is NotStarted <==> self.migration_only || self.outcomes.len()
            < self.templates.len()
    }

    /// A generation that has done nothing yet.
    pub open spec fn planned(
        context: ContextModel,
        templates: Seq<TemplateId>,
        steps: Seq<StepModel>,
        migration_only: bool,
    ) -> GenerationModel {
        let pipeline = PipelineModel { steps, state: StateModel::NotStarted };
        GenerationModel {
            context,
            templates,
            outcomes: Seq::empty(),
            render_failure: None,
            migration_only,
            pipeline: if templates.len() == 0 && !migration_only {
                pipeline.started()
            } else {
                pipeline
            },
        }
    }

    /// What is to be done next.
    pub open spec fn request(self) -> RequestModel {
        if let Some(error) = self.render_failure {
            RequestModel::Done(Err(ErrorModel::Render(error)))
        } else if self.outcomes.len() < self.templates.len() {
            RequestModel::Render(self.templates[self.outcomes.len() as int])
        } else if self.migration_only {
            RequestModel::Done(Ok(report(self.outcomes)))
        } else {
            match self.pipeline.state {
                StateModel::Running(i) => RequestModel::RunStep(self.pipeline.steps[i]),
                StateModel::Failed(i, details) => RequestModel::Done(
                    Err(
                        ErrorModel::Pipeline(
                            PipelineErrorModel { step_name: self.pipeline.steps[i].name, details },
                        ),
                    ),
                ),
                _ => RequestModel::Done(Ok(report(self.outcomes))),
            }
        }
    }

    /// The generation after `event`.  An event that does not answer the
    /// request changes nothing.
    pub open spec fn after(self, event: EventModel) -> GenerationModel {
        match (self.request(), event) {
            (RequestModel::Render(_), EventModel::Rendered(outcome)) => {
                let outcomes = self.outcomes.push(outcome);
                GenerationModel {
                    outcomes,
                    pipeline: if outcomes.len() == self.templates.len() && !self.migration_only {
                        self.pipeline.started()
                    } else {
                        self.pipeline
                    },
                    ..self
                }
            },
            (RequestModel::Render(_), EventModel::RenderFailed(error)) => GenerationModel {
                render_failure: Some(error),
                ..self
            },
            (RequestModel::RunStep(_), EventModel::StepFinished(result)) => GenerationModel {
                pipeline: self.pipeline.recorded(result),
                ..self
            },
            _ => self,
        }
    }

    /// The generation after each of `events` in turn.
    pub open spec fn replayed(self, events: Seq<EventModel>) -> GenerationModel
        decreases events.len(),
    {
        if events.len() == 0 {
            self
        } else {
            self.replayed(events.drop_last()).after(events.last())
        }
    }
}

/// What starting the generation of a model gives: the plan of its standard
/// templates and build steps around the resolved fields, or the unknown
/// type token that fails the resolution.
pub open spec fn begun(
    name: Seq<char>,
    is_link: bool,
    migration_only: bool,
    fields: Seq<FieldModel>,
    app_name: Seq<char>,
    table: Seq<MappingModel>,
    timestamp: Timestamp,
) -> Result<GenerationModel, ErrorModel> {
    match resolution(table, fields) {
        Ok(resolved) => Ok(
            GenerationModel::planned(
                ContextModel {
                    entity_name: name,
                    timestamp,
                    package_name: app_name,
                    is_link_table: is_link,
                    columns: resolved.columns,
                    references: resolved.references,
                },
                spec_standard_templates(),
                spec_standard_steps(),
                migration_only,
            ),
        ),
        Err(unknown) => Err(ErrorModel::TypeNotFound(unknown)),
    }
}

/// The templates of every model: the schema definition, then its test.
pub open spec fn spec_standard_templates() -> Seq<TemplateId> {
    seq![TemplateId::Model, TemplateId::ModelTest]
}

/// The build steps that follow the rendering: apply the pending schema
/// changes, then regenerate the data-access bindings.
pub open spec fn spec_standard_steps() -> Seq<StepModel> {
    seq![
        StepModel {
            name: "loco db migration"@,
            program: "cargo"@,
            args: seq!["loco-tool"@, "db"@, "migrate"@],
        },
        StepModel {
            name: "loco db entities"@,
            program: "cargo"@,
            args: seq!["loco-tool"@, "db"@, "entities"@],
        },
    ]
}

impl View for Generation {
    type V = GenerationModel;

    closed spec fn view(&self) -> GenerationModel {
        GenerationModel {
            context: self.context@,
            templates: self.templates@,
            outcomes: self.outcomes.deep_view(),
            render_failure: match self.render_failure {
                Some(error) => Some(error@),
                None => None,
            },
            migration_only: self.migration_only,
            pipeline: self.pipeline@,
        }
    }
}

/// The templates of every model, in the order in which they are rendered.
pub fn standard_templates() -> (templates: Vec<TemplateId>)
    ensures
        templates@ == spec_standard_templates(),
{
    let mut templates: Vec<TemplateId> = Vec::new();
    templates.push(TemplateId::Model);
    templates.push(TemplateId::ModelTest);
    assert(templates@ =~= spec_standard_templates());
    templates
}

fn tool_step(name: &str, command: &str) -> (step: StepSpec)
    ensures
        step@ == (StepModel {
            name: name@,
            program: "cargo"@,
            args: seq!["loco-tool"@, "db"@, command@],
        }),
{
    let mut args: Vec<String> = Vec::new();
    args.push("loco-tool".to_owned());
    args.push("db".to_owned());
    args.push(command.to_owned());
    assert(args.deep_view() =~= seq!["loco-tool"@, "db"@, command@]);
    StepSpec::new(name, "cargo", args)
}

/// The build steps that follow the rendering, in the order in which they
/// run.
pub fn standard_steps() -> (steps: Vec<StepSpec>)
    ensures
        steps.deep_view() == spec_standard_steps(),
{
    let mut steps: Vec<StepSpec> = Vec::new();
    steps.push(tool_step("loco db migration", "migrate"));
    steps.push(tool_step("loco db entities", "entities"));
    assert(steps.deep_view() =~= spec_standard_steps());
    steps
}

impl Generation {
    #[verifier::type_invariant]
    spec fn inv(self) -> bool {
        self@.well_formed()
    }

    /// A generation that is to render `templates` against `context` and
    /// then, unless `migration_only` is set, to run `steps`.
    pub fn plan(
        context: GenerationContext,
        templates: Vec<TemplateId>,
        steps: Vec<StepSpec>,
        migration_only: bool,
    ) -> (generation: Generation)
        ensures
            generation@ == GenerationModel::planned(
                context@,
                templates@,
                steps.deep_view(),
                migration_only,
            ),
            generation@.well_formed(),
    {
        let mut pipeline = Pipeline::new(steps);
        if templates.len() == 0 && !migration_only {
            pipeline.start();
        }
        let outcomes: Vec<ArtifactOutcome> = Vec::new();
        assert(outcomes.deep_view() =~= Seq::<OutcomeModel>::empty());
        Generation {
            context,
            templates,
            outcomes,
            render_failure: None,
            migration_only,
            pipeline,
        }
    }

    /// Resolves `fields` against `mappings` and plans the generation of the
    /// model `name`: its two templates and, unless `migration_only` is set,
    /// the standard build steps.  An unknown type token fails the start, and
    /// nothing is planned.  The reserved names that the resolution skips
    /// are appended to `warnings`.
    pub fn start(
        name: &str,
        is_link: bool,
        migration_only: bool,
        fields: &[FieldToken],
        appinfo: &AppInfo,
        mappings: &Mappings,
        timestamp: Timestamp,
        warnings: &mut Vec<String>,
    ) -> (started: Result<Generation, Error>)
        ensures
            final(warnings).deep_view() == old(warnings).deep_view() + warned_names(
                mappings@,
                fields.deep_view(),
            ),
            match started {
                Ok(generation) => Ok::<GenerationModel, ErrorModel>(generation@),
                Err(error) => Err::<GenerationModel, ErrorModel>(error@),
            } == begun(
                name@,
                is_link,
                migration_only,
                fields.deep_view(),
                appinfo.app_name@,
                mappings@,
                timestamp,
            ),
    {
        match resolve(fields, mappings, warnings) {
            Ok(resolved) => {
                let context = GenerationContext::new(
                    name,
                    is_link,
                    appinfo.app_name.as_str(),
                    resolved.columns,
                    resolved.references,
                    timestamp,
                );
                Ok(
                    Generation::plan(
                        context,
                        standard_templates(),
                        standard_steps(),
                        migration_only,
                    ),
                )
            },
            Err(unknown) => Err(Error::TypeNotFound(unknown)),
        }
    }

    /// As [`Generation::start`], stamped with the current time by the wall
    /// clock.
    pub fn start_now(
        name: &str,
        is_link: bool,
        migration_only: bool,
        fields: &[FieldToken],
        appinfo: &AppInfo,
        mappings: &Mappings,
        warnings: &mut Vec<String>,
    ) -> (started: Result<Generation, Error>)
        ensures
            final(warnings).deep_view() == old(warnings).deep_view() + warned_names(
                mappings@,
                fields.deep_view(),
            ),
            exists|now: Timestamp|
                now.is_clock_reading() && #[trigger] begun(
                    name@,
                    is_link,
                    migration_only,
                    fields.deep_view(),
                    appinfo.app_name@,
                    mappings@,
                    now,
                ) == match started {
                    Ok(generation) => Ok::<GenerationModel, ErrorModel>(generation@),
                    Err(error) => Err::<GenerationModel, ErrorModel>(error@),
                },
    {
        let now = utc_now();
        Generation::start(name, is_link, migration_only, fields, appinfo, mappings, now, warnings)
    }

    /// The context that the templates are rendered against.
    pub fn context(&self) -> (context: &GenerationContext)
        ensures
            context@ == self@.context,
    {
        &self.context
    }

    /// What the caller is to do next.
    pub fn request(&self) -> (request: Request)
        ensures
            self@.well_formed(),
            request@ == self@.request(),
    {
        proof {
            use_type_invariant(self);
        }
        match &self.render_failure {
            Some(error) => {
                return Request::Done(Err(Error::Render(error.clone())));
            },
            None => {},
        }
        let rendered = self.outcomes.len();
        if rendered < self.templates.len() {
            return Request::Render(self.templates[rendered]);
        }
        if self.migration_only {
            return Request::Done(Ok(collect_messages(self.outcomes.as_slice())));
        }
        match self.pipeline.pending() {
            Some(step) => Request::RunStep(step.clone()),
            None => match self.pipeline.outcome() {
                Some(Err(error)) => Request::Done(Err(Error::Pipeline(error))),
                _ => Request::Done(Ok(collect_messages(self.outcomes.as_slice()))),
            },
        }
    }

    /// Takes in what happened and moves on.
    pub fn handle(self, event: Event) -> (next: Generation)
        ensures
            next@ == self@.after(event@),
            next@.well_formed(),
    {
        proof {
            use_type_invariant(&self);
        }
        let Generation {
            context,
            templates,
            mut outcomes,
            mut render_failure,
            migration_only,
            mut pipeline,
        } = self;
        let rendering = render_failure.is_none() && outcomes.len() < templates.len();
        match event {
            Event::Rendered(outcome) => {
                if rendering {
                    let ghost before = outcomes.deep_view();
                    outcomes.push(outcome);
                    assert(outcomes.deep_view() =~= before.push(outcome@));
                    if outcomes.len() == templates.len() && !migration_only {
                        pipeline.start();
                    }
                }
            },
            Event::RenderFailed(error) => {
                if rendering {
                    render_failure = Some(error);
                }
            },
            Event::StepFinished(result) => {
                if !rendering && render_failure.is_none() && !migration_only {
                    pipeline.record(result);
                }
            },
        }
        Generation {
            context,
            templates,
            outcomes,
            render_failure,
            migration_only,
            pipeline,
        }
    }
}

/// The events that report `outcomes`, one rendering after the other.
pub open spec fn renderings(outcomes: Seq<OutcomeModel>) -> Seq<EventModel> {
    outcomes.map_values(|outcome: OutcomeModel| EventModel::Rendered(outcome))
}

/// The events that report `results`, one step after the other.
pub open spec fn step_reports(results: Seq<StepResultModel>) -> Seq<EventModel> {
    results.map_values(|result: StepResultModel| EventModel::StepFinished(result))
}

/// A planned generation is well-formed.
pub proof fn lemma_plan_is_well_formed(
    context: ContextModel,
    templates: Seq<TemplateId>,
    steps: Seq<StepModel>,
    migration_only: bool,
)
    ensures
        GenerationModel::planned(context, templates, steps, migration_only).well_formed(),
{
}

/// No event touches the plan.  The context, the templates, the steps and
/// the opt-out stay as they were planned, the outcomes collected so far
/// stay in place, and a well-formed generation stays well-formed.
pub proof fn lemma_plan_is_fixed(g: GenerationModel, events: Seq<EventModel>)
    requires
        g.well_formed(),
    ensures
        g.replayed(events).well_formed(),
        g.replayed(events).context == g.context,
        g.replayed(events).templates == g.templates,
        g.replayed(events).migration_only == g.migration_only,
        g.replayed(events).pipeline.steps == g.pipeline.steps,
        g.outcomes.is_prefix_of(g.replayed(events).outcomes),
    decreases events.len(),
{
    if events.len() > 0 {
        lemma_plan_is_fixed(g, events.drop_last());
        let before = g.replayed(events.drop_last());
        let after = before.after(events.last());
        assert(before.outcomes.is_prefix_of(after.outcomes));
    }
}

/// Recording one list of events after another is recording them all.
pub proof fn lemma_replay_in_parts(
    g: GenerationModel,
    first: Seq<EventModel>,
    then: Seq<EventModel>,
)
    ensures
        g.replayed(first + then) == g.replayed(first).replayed(then),
    decreases then.len(),
{
    if then.len() == 0 {
        assert(first + then =~= first);
    } else {
        assert((first + then).drop_last() =~= first + then.drop_last());
        assert((first + then).last() == then.last());
        lemma_replay_in_parts(g, first, then.drop_last());
    }
}

/// A generation that is done stays done: whatever is reported afterwards,
/// nothing changes and nothing more is asked for.
pub proof fn lemma_done_is_final(g: GenerationModel, events: Seq<EventModel>)
    requires
        g.request() is Done,
    ensures
        g.replayed(events) == g,
    decreases events.len(),
{
    if events.len() > 0 {
        lemma_done_is_final(g, events.drop_last());
    }
}

/// With the pipeline opted out of, no build step is ever asked for and the
/// pipeline never starts, whatever the steps are and whatever is reported.
/// When the generation is done without a failed rendering, its result is
/// the report of the renderings.
pub proof fn lemma_opt_out_skips_pipeline(g: GenerationModel, events: Seq<EventModel>)
    requires
        g.well_formed(),
        g.migration_only,
    ensures
        !(g.replayed(events).request() is RunStep),
        g.replayed(events).pipeline == g.pipeline,
        g.pipeline.state is NotStarted,
        g.replayed(events).request() is Done && g.replayed(events).render_failure is None
            ==> g.replayed(events).request() == RequestModel::Done(
            Ok(report(g.replayed(events).outcomes)),
        ),
    decreases events.len(),
{
    if events.len() > 0 {
        lemma_opt_out_skips_pipeline(g, events.drop_last());
        lemma_plan_is_fixed(g, events.drop_last());
    }
}

/// Rendering goes template by template.  After the outcomes of the first
/// templates are reported, those outcomes are collected in order, and the
/// pipeline has started exactly when they are all there and it was not
/// opted out of.
pub proof fn lemma_renderings_collect(
    context: ContextModel,
    templates: Seq<TemplateId>,
    steps: Seq<StepModel>,
    migration_only: bool,
    outcomes: Seq<OutcomeModel>,
)
    requires
        outcomes.len() <= templates.len(),
    ensures
        ({
            let start = GenerationModel::planned(
                context,
                templates,
                steps,
                migration_only,
            );
            let pipeline = PipelineModel { steps, state: StateModel::NotStarted };
            start.replayed(renderings(outcomes)) == GenerationModel {
                outcomes,
                pipeline: if outcomes.len() == templates.len() && !migration_only {
                    pipeline.started()
                } else {
                    pipeline
                },
                ..start
            }
        }),
        outcomes.len() < templates.len() ==> GenerationModel::planned(
            context,
            templates,
            steps,
            migration_only,
        ).replayed(renderings(outcomes)).request() == RequestModel::Render(
            templates[outcomes.len() as int],
        ),
    decreases outcomes.len(),
{
    let start = GenerationModel::planned(context, templates, steps, migration_only);
    if outcomes.len() > 0 {
        let earlier = outcomes.drop_last();
        lemma_renderings_collect(context, templates, steps, migration_only, earlier);
        assert(renderings(outcomes).drop_last() =~= renderings(earlier));
        assert(renderings(outcomes).last() == EventModel::Rendered(outcomes.last()));
        assert(earlier.push(outcomes.last()) =~= outcomes);
    } else {
        assert(start.outcomes =~= outcomes);
    }
}

/// With the pipeline opted out of, a generation whose templates all render
/// ends with the report of the renderings, however the steps would have
/// ended.
pub proof fn lemma_opt_out_report(
    context: ContextModel,
    templates: Seq<TemplateId>,
    steps: Seq<StepModel>,
    outcomes: Seq<OutcomeModel>,
)
    requires
        outcomes.len() == templates.len(),
    ensures
        GenerationModel::planned(context, templates, steps, true).replayed(
            renderings(outcomes),
        ).request() == RequestModel::Done(Ok(report(outcomes))),
{
    lemma_renderings_collect(context, templates, steps, true, outcomes);
}

/// A failed rendering ends the generation with that failure, word for
/// word.  No further template is rendered and the pipeline never starts,
/// whatever is reported afterwards.
pub proof fn lemma_render_failure_ends_generation(
    g: GenerationModel,
    error: RenderErrorModel,
    events: Seq<EventModel>,
)
    requires
        g.well_formed(),
        g.request() is Render,
    ensures
        g.after(EventModel::RenderFailed(error)).replayed(events).request() == RequestModel::Done(
            Err(ErrorModel::Render(error)),
        ),
        g.after(EventModel::RenderFailed(error)).replayed(events).pipeline.state is NotStarted,
        g.after(EventModel::RenderFailed(error)).replayed(events).outcomes == g.outcomes,
{
    lemma_done_is_final(g.after(EventModel::RenderFailed(error)), events);
}

/// Once every template is rendered, the reports of the build steps go to
/// the pipeline, one by one.
pub proof fn lemma_step_reports_reach_pipeline(g: GenerationModel, results: Seq<StepResultModel>)
    requires
        g.well_formed(),
        !g.migration_only,
        g.outcomes.len() == g.templates.len(),
    ensures
        g.replayed(step_reports(results)) == (GenerationModel {
            pipeline: g.pipeline.replayed(results),
            ..g
        }),
    decreases results.len(),
{
    if results.len() > 0 {
        let earlier = results.drop_last();
        lemma_step_reports_reach_pipeline(g, earlier);
        lemma_plan_is_fixed(g, step_reports(earlier));
        assert(step_reports(results).drop_last() =~= step_reports(earlier));
        assert(step_reports(results).last() == EventModel::StepFinished(results.last()));
    }
}

/// A generation whose templates all render and whose build steps all
/// succeed ends with the report of the renderings: the same report as
/// without the pipeline.
pub proof fn lemma_full_run_reports(
    context: ContextModel,
    templates: Seq<TemplateId>,
    steps: Seq<StepModel>,
    outcomes: Seq<OutcomeModel>,
    results: Seq<StepResultModel>,
)
    requires
        outcomes.len() == templates.len(),
        results.len() == steps.len(),
        answer_in_order(steps, results),
        forall|k: int| 0 <= k < results.len() ==> (#[trigger] results[k]).succeeded,
    ensures
        GenerationModel::planned(context, templates, steps, false).replayed(
            renderings(outcomes) + step_reports(results),
        ).request() == RequestModel::Done(Ok(report(outcomes))),
{
    let start = GenerationModel::planned(context, templates, steps, false);
    lemma_renderings_collect(context, templates, steps, false, outcomes);
    lemma_plan_is_well_formed(context, templates, steps, false);
    lemma_plan_is_fixed(start, renderings(outcomes));
    let rendered = start.replayed(renderings(outcomes));
    lemma_replay_in_parts(start, renderings(outcomes), step_reports(results));
    lemma_step_reports_reach_pipeline(rendered, results);
    lemma_successes_advance(steps, results);
}

/// A failing build step ends the generation with the failure of that step,
/// although every artifact has been written: the error names the step and
/// carries what it printed, and the steps after it never start.
pub proof fn lemma_step_failure_ends_generation(
    context: ContextModel,
    templates: Seq<TemplateId>,
    steps: Seq<StepModel>,
    outcomes: Seq<OutcomeModel>,
    results: Seq<StepResultModel>,
    k: int,
)
    requires
        outcomes.len() == templates.len(),
        answer_in_order(steps, results),
        is_first_failure(results, k),
    ensures
        GenerationModel::planned(context, templates, steps, false).replayed(
            renderings(outcomes) + step_reports(results),
        ).request() == RequestModel::Done(
            Err(
                ErrorModel::Pipeline(
                    PipelineErrorModel {
                        step_name: steps[k].name,
                        details: results[k].combined_output,
                    },
                ),
            ),
        ),
{
    let start = GenerationModel::planned(context, templates, steps, false);
    lemma_renderings_collect(context, templates, steps, false, outcomes);
    lemma_plan_is_well_formed(context, templates, steps, false);
    lemma_plan_is_fixed(start, renderings(outcomes));
    let rendered = start.replayed(renderings(outcomes));
    lemma_replay_in_parts(start, renderings(outcomes), step_reports(results));
    lemma_step_reports_reach_pipeline(rendered, results);
    lemma_first_failure_ends_run(steps, results, k);
}

} // verus!

use loco_gen::context::{AppInfo, GenerationContext, Timestamp};
use loco_gen::error::Error;
use loco_gen::fields::{FieldToken, ResolvedColumn, ResolvedReference, TypeNotFound};
use loco_gen::generation::{
    standard_steps, standard_templates, Event, Generation, Request, TemplateId,
};
use loco_gen::mappings::{Mappings, TypeMapping};
use loco_gen::outcome::{ArtifactAction, ArtifactOutcome, RenderError};
use loco_gen::pipeline::{PipelineError, PipelineStepResult, StepSpec};

fn mappings() -> Mappings {
    Mappings::new(vec![
        TypeMapping::new("string", "string_null"),
        TypeMapping::new("int", "integer_null"),
    ])
}

fn moment() -> Timestamp {
    Timestamp { seconds: 1_700_000_000, nanos: 42 }
}

fn movies(migration_only: bool) -> Generation {
    Generation::start(
        "movies",
        false,
        migration_only,
        &[FieldToken::new("title", "string")],
        &AppInfo::new("saas"),
        &mappings(),
        moment(),
        &mut Vec::new(),
    )
    .expect("starts")
}

fn rendered(message: &str) -> Event {
    Event::Rendered(ArtifactOutcome::new("migration/src/x.rs", ArtifactAction::Created, message))
}

fn step_passed(name: &str) -> Event {
    Event::StepFinished(PipelineStepResult::new(name, true, "ok"))
}

fn step_failed(name: &str, output: &str) -> Event {
    Event::StepFinished(PipelineStepResult::new(name, false, output))
}

fn migrate_step() -> StepSpec {
    StepSpec::new(
        "loco db migration",
        "cargo",
        vec!["loco-tool".to_string(), "db".to_string(), "migrate".to_string()],
    )
}

fn entities_step() -> StepSpec {
    StepSpec::new(
        "loco db entities",
        "cargo",
        vec!["loco-tool".to_string(), "db".to_string(), "entities".to_string()],
    )
}

#[test]
fn test_can_generate_model() {
    let mut warnings = Vec::new();
    let generation = Generation::start_now(
        "movies",
        false,
        true,
        &[FieldToken::new(&"title".to_string(), &"string".to_string())],
        &AppInfo { app_name: "saas".to_string() },
        &mappings(),
        &mut warnings,
    )
    .expect("generate");
    assert!(warnings.is_empty());
    let context = generation.context();
    assert_eq!(context.entity_name(), "movies");
    assert_eq!(context.package_name(), "saas");
    assert!(!context.is_link_table());
    assert_eq!(
        context.columns(),
        &vec![ResolvedColumn {
            name: "title".to_string(),
            schema_type: "string_null".to_string()
        }]
    );
    assert!(context.references().is_empty());
    assert_eq!(generation.request(), Request::Render(TemplateId::Model));
    let generation = generation.handle(rendered("Migration for `movies` added!"));
    assert_eq!(generation.request(), Request::Render(TemplateId::ModelTest));
    let generation = generation.handle(rendered("Tests for `movies` added."));
    assert_eq!(
        generation.request(),
        Request::Done(Ok("Migration for `movies` added!\nTests for `movies` added.".to_string()))
    );
}

#[test]
fn start_takes_the_timestamp_it_is_given() {
    let generation = movies(true);
    assert_eq!(generation.context().timestamp(), moment());
    assert_eq!(generation.context().entity_name(), "movies");
    assert_eq!(generation.context().package_name(), "saas");
}

#[test]
fn standard_plan_is_two_templates_and_two_steps() {
    assert_eq!(standard_templates(), vec![TemplateId::Model, TemplateId::ModelTest]);
    assert_eq!(standard_steps(), vec![migrate_step(), entities_step()]);
}

#[test]
fn context_keeps_what_it_was_given() {
    let columns = vec![ResolvedColumn {
        name: "user_id".to_string(),
        schema_type: "integer".to_string(),
    }];
    let references = vec![ResolvedReference {
        target_entity: "user".to_string(),
        foreign_key_column: "user_id".to_string(),
    }];
    let context = GenerationContext::new(
        "posts",
        true,
        "blog",
        columns.clone(),
        references.clone(),
        Timestamp { seconds: 7, nanos: 9 },
    );
    assert_eq!(context.entity_name(), "posts");
    assert!(context.is_link_table());
    assert_eq!(context.package_name(), "blog");
    assert_eq!(context.columns(), &columns);
    assert_eq!(context.references(), &references);
    assert_eq!(context.timestamp(), Timestamp { seconds: 7, nanos: 9 });
}

#[test]
fn start_resolves_references_into_the_context() {
    let mut warnings = Vec::new();
    let generation = Generation::start(
        "posts",
        true,
        true,
        &[
            FieldToken::new("user", "references"),
            FieldToken::new("created_at", "string"),
            FieldToken::new("author", "references:people"),
        ],
        &AppInfo::new("blog"),
        &mappings(),
        moment(),
        &mut warnings,
    )
    .expect("starts");
    let context = generation.context();
    assert!(context.is_link_table());
    assert_eq!(
        context.columns(),
        &vec![
            ResolvedColumn { name: "user_id".to_string(), schema_type: "integer".to_string() },
            ResolvedColumn { name: "author_id".to_string(), schema_type: "integer".to_string() },
        ]
    );
    assert_eq!(
        context.references(),
        &vec![
            ResolvedReference {
                target_entity: "user".to_string(),
                foreign_key_column: "user_id".to_string()
            },
            ResolvedReference {
                target_entity: "people".to_string(),
                foreign_key_column: "author_id".to_string()
            },
        ]
    );
    assert_eq!(warnings, vec!["created_at".to_string()]);
}

#[test]
fn unknown_type_fails_the_start() {
    let started = Generation::start(
        "movies",
        false,
        false,
        &[FieldToken::new("title", "string"), FieldToken::new("year", "number")],
        &AppInfo::new("saas"),
        &mappings(),
        moment(),
        &mut Vec::new(),
    );
    match started {
        Err(Error::TypeNotFound(unknown)) => assert_eq!(
            unknown,
            TypeNotFound {
                token: "number".to_string(),
                valid_tokens: vec!["string".to_string(), "int".to_string()],
            }
        ),
        _ => panic!("an unknown type must fail the start"),
    }
}

#[test]
fn start_now_is_stamped_by_the_clock() {
    let mut warnings = Vec::new();
    let generation = Generation::start_now(
        "movies",
        false,
        true,
        &[FieldToken::new("title", "string"), FieldToken::new("update_at", "string")],
        &AppInfo::new("saas"),
        &mappings(),
        &mut warnings,
    )
    .expect("starts");
    assert_eq!(warnings, vec!["update_at".to_string()]);
    let stamp = generation.context().timestamp();
    assert!(stamp.seconds >= 0);
    assert!(stamp.nanos < 1_000_000_000);
    assert_eq!(generation.context().entity_name(), "movies");
    assert_eq!(generation.request(), Request::Render(TemplateId::Model));
    let unknown = Generation::start_now(
        "movies",
        false,
        true,
        &[FieldToken::new("title", "nope")],
        &AppInfo::new("saas"),
        &mappings(),
        &mut warnings,
    );
    assert!(matches!(unknown, Err(Error::TypeNotFound(_))));
}

#[test]
fn opting_out_skips_the_pipeline() {
    let generation = movies(true);
    let generation = generation.handle(rendered("one"));
    let generation = generation.handle(rendered("two"));
    assert_eq!(generation.request(), Request::Done(Ok("one\ntwo".to_string())));
    let generation = generation.handle(step_failed("loco db migration", "would have failed"));
    assert_eq!(generation.request(), Request::Done(Ok("one\ntwo".to_string())));
}

#[test]
fn opting_out_never_asks_for_a_step() {
    let mut generation = Generation::plan(
        GenerationContext::new("x", false, "app", Vec::new(), Vec::new(), moment()),
        vec![TemplateId::Model],
        vec![StepSpec::new("doomed", "false", Vec::new())],
        true,
    );
    let events = vec![
        step_failed("doomed", "early"),
        rendered("only"),
        step_failed("doomed", "late"),
        step_passed("doomed"),
        rendered("extra"),
    ];
    assert!(!matches!(generation.request(), Request::RunStep(_)));
    for event in events {
        generation = generation.handle(event);
        assert!(!matches!(generation.request(), Request::RunStep(_)));
    }
    assert_eq!(generation.request(), Request::Done(Ok("only".to_string())));
}

#[test]
fn full_run_renders_then_builds_then_reports() {
    let generation = movies(false);
    assert_eq!(generation.request(), Request::Render(TemplateId::Model));
    let generation = generation.handle(rendered("one"));
    assert_eq!(generation.request(), Request::Render(TemplateId::ModelTest));
    let generation = generation.handle(rendered("two"));
    assert_eq!(generation.request(), Request::RunStep(migrate_step()));
    let generation = generation.handle(step_passed("loco db migration"));
    assert_eq!(generation.request(), Request::RunStep(entities_step()));
    let generation = generation.handle(step_passed("loco db entities"));
    assert_eq!(generation.request(), Request::Done(Ok("one\ntwo".to_string())));
}

#[test]
fn report_is_the_same_with_and_without_pipeline() {
    let with = movies(false)
        .handle(rendered("one"))
        .handle(rendered("two"))
        .handle(step_passed("loco db migration"))
        .handle(step_passed("loco db entities"));
    let without = movies(true).handle(rendered("one")).handle(rendered("two"));
    assert_eq!(with.request(), without.request());
}

#[test]
fn failed_rendering_ends_the_generation() {
    let generation = movies(false).handle(rendered("one"));
    let generation = generation.handle(Event::RenderFailed(RenderError::new("disk full")));
    let failure = Request::Done(Err(Error::Render(RenderError::new("disk full"))));
    assert_eq!(generation.request(), failure);
    let generation = generation
        .handle(rendered("two"))
        .handle(step_passed("loco db migration"))
        .handle(Event::RenderFailed(RenderError::new("another")));
    assert_eq!(generation.request(), failure);
}

#[test]
fn failed_first_rendering_renders_nothing_more() {
    let generation = movies(false).handle(Event::RenderFailed(RenderError::new("no template")));
    assert_eq!(
        generation.request(),
        Request::Done(Err(Error::Render(RenderError::new("no template"))))
    );
}

#[test]
fn failed_step_ends_the_generation() {
    let generation = movies(false).handle(rendered("one")).handle(rendered("two"));
    let generation = generation.handle(step_failed("loco db migration", "no database"));
    let failure = Request::Done(Err(Error::Pipeline(PipelineError {
        step_name: "loco db migration".to_string(),
        details: "no database".to_string(),
    })));
    assert_eq!(generation.request(), failure);
    let generation = generation.handle(step_passed("loco db entities"));
    assert_eq!(generation.request(), failure);
}

#[test]
fn failed_second_step_is_reported_by_name() {
    let generation = movies(false)
        .handle(rendered("one"))
        .handle(rendered("two"))
        .handle(step_passed("loco db migration"))
        .handle(step_failed("loco db entities", "cannot connect"));
    assert_eq!(
        generation.request(),
        Request::Done(Err(Error::Pipeline(PipelineError {
            step_name: "loco db entities".to_string(),
            details: "cannot connect".to_string(),
        })))
    );
}

#[test]
fn events_that_answer_nothing_change_nothing() {
    let generation = movies(false);
    let generation = generation.handle(step_passed("loco db migration"));
    assert_eq!(generation.request(), Request::Render(TemplateId::Model));
    let generation = generation.handle(rendered("one")).handle(rendered("two"));
    let generation = generation.handle(rendered("three"));
    let generation = generation.handle(Event::RenderFailed(RenderError::new("late")));
    let generation = generation.handle(step_passed("loco db entities"));
    assert_eq!(generation.request(), Request::RunStep(migrate_step()));
    let generation = generation
        .handle(step_passed("loco db migration"))
        .handle(step_passed("loco db entities"));
    assert_eq!(generation.request(), Request::Done(Ok("one\ntwo".to_string())));
}

#[test]
fn plan_without_templates_goes_straight_to_the_steps() {
    let context = GenerationContext::new("x", false, "app", Vec::new(), Vec::new(), moment());
    let generation = Generation::plan(
        context,
        Vec::new(),
        vec![StepSpec::new("only", "tool", Vec::new())],
        false,
    );
    assert_eq!(generation.request(), Request::RunStep(StepSpec::new("only", "tool", Vec::new())));
    let generation = generation.handle(step_passed("only"));
    assert_eq!(generation.request(), Request::Done(Ok(String::new())));
}

#[test]
fn plan_without_templates_and_steps_is_done() {
    let context = GenerationContext::new("x", false, "app", Vec::new(), Vec::new(), moment());
    let generation = Generation::plan(context, Vec::new(), Vec::new(), false);
    assert_eq!(generation.request(), Request::Done(Ok(String::new())));
}

#[test]
fn context_is_the_same_at_every_stage() {
    let generation = movies(false);
    let before = format!("{:?}", generation.context());
    let generation = generation
        .handle(rendered("one"))
        .handle(rendered("two"))
        .handle(step_failed("loco db migration", "x"));
    assert_eq!(format!("{:?}", generation.context()), before);
}

use loco_gen::fields::{
    is_ignored, parse_type, resolve, FieldToken, Resolution, ResolvedColumn, ResolvedReference,
    TypeNotFound, TypeShape,
};
use loco_gen::mappings::{Mappings, TypeMapping};

fn sample_table() -> Mappings {
    Mappings::new(vec![
        TypeMapping::new("string", "string_null"),
        TypeMapping::new("string!", "string"),
        TypeMapping::new("int", "integer_null"),
        TypeMapping::new("bool", "boolean_null"),
    ])
}

/// Resolves and drops the warnings.
fn quiet(fields: &[FieldToken], table: &Mappings) -> Result<Resolution, TypeNotFound> {
    resolve(fields, table, &mut Vec::new())
}

fn field(name: &str, raw_type: &str) -> FieldToken {
    FieldToken::new(name, raw_type)
}

fn column(name: &str, schema_type: &str) -> ResolvedColumn {
    ResolvedColumn { name: name.to_string(), schema_type: schema_type.to_string() }
}

fn reference(target: &str, key: &str) -> ResolvedReference {
    ResolvedReference { target_entity: target.to_string(), foreign_key_column: key.to_string() }
}

#[test]
fn scalar_field_becomes_one_column() {
    let mut warnings = Vec::new();
    let resolved =
        resolve(&[field("title", "string")], &sample_table(), &mut warnings).expect("resolves");
    assert_eq!(resolved.columns, vec![column("title", "string_null")]);
    assert!(resolved.references.is_empty());
    assert!(warnings.is_empty());
}

#[test]
fn reference_field_becomes_key_column_and_reference() {
    let resolved = quiet(&[field("user", "references")], &sample_table()).expect("resolves");
    assert_eq!(resolved.columns, vec![column("user_id", "integer")]);
    assert_eq!(resolved.references, vec![reference("user", "user_id")]);
}

#[test]
fn qualified_reference_names_its_target() {
    let resolved =
        quiet(&[field("author", "references:people")], &sample_table()).expect("resolves");
    assert_eq!(resolved.columns, vec![column("author_id", "integer")]);
    assert_eq!(resolved.references, vec![reference("people", "author_id")]);
}

#[test]
fn reserved_field_is_skipped_with_a_warning() {
    let mut warnings = Vec::new();
    let resolved = resolve(&[field("created_at", "string")], &sample_table(), &mut warnings)
        .expect("resolves");
    assert!(resolved.columns.is_empty());
    assert!(resolved.references.is_empty());
    assert_eq!(warnings, vec!["created_at".to_string()]);
}

#[test]
fn every_reserved_spelling_is_skipped() {
    let fields = [
        field("created_at", "string"),
        field("updated_at", "int"),
        field("create_at", "references"),
        field("update_at", "no_such_type"),
    ];
    let mut warnings = Vec::new();
    let resolved = resolve(&fields, &sample_table(), &mut warnings).expect("resolves");
    assert!(resolved.columns.is_empty());
    assert!(resolved.references.is_empty());
    assert_eq!(
        warnings,
        vec![
            "created_at".to_string(),
            "updated_at".to_string(),
            "create_at".to_string(),
            "update_at".to_string(),
        ]
    );
}

#[test]
fn reserved_names_are_case_sensitive_and_exact() {
    assert!(is_ignored("created_at"));
    assert!(is_ignored("updated_at"));
    assert!(is_ignored("create_at"));
    assert!(is_ignored("update_at"));
    assert!(!is_ignored("Created_at"));
    assert!(!is_ignored("created_at "));
    assert!(!is_ignored("created"));
    assert!(!is_ignored(""));
    let mut warnings = Vec::new();
    let resolved = resolve(&[field("Created_At", "string")], &sample_table(), &mut warnings)
        .expect("resolves");
    assert_eq!(resolved.columns, vec![column("Created_At", "string_null")]);
    assert!(warnings.is_empty());
}

#[test]
fn unknown_type_fails_with_token_and_known_tokens() {
    let error = quiet(&[field("title", "varchar")], &sample_table()).expect_err("fails");
    assert_eq!(
        error,
        TypeNotFound {
            token: "varchar".to_string(),
            valid_tokens: vec![
                "string".to_string(),
                "string!".to_string(),
                "int".to_string(),
                "bool".to_string(),
            ],
        }
    );
}

#[test]
fn first_unknown_type_is_the_one_reported() {
    let fields = [
        field("title", "string"),
        field("created_at", "nothing"),
        field("a", "first_bad"),
        field("b", "second_bad"),
    ];
    let error = quiet(&fields, &sample_table()).expect_err("fails");
    assert_eq!(error.token, "first_bad");
}

#[test]
fn unknown_type_after_good_fields_yields_nothing() {
    let fields = [field("title", "string"), field("user", "references"), field("x", "nope")];
    let outcome = quiet(&fields, &sample_table());
    assert!(outcome.is_err());
}

#[test]
fn order_of_declaration_is_kept() {
    let fields = [
        field("title", "string"),
        field("updated_at", "string"),
        field("user", "references"),
        field("count", "int"),
        field("created_at", "int"),
        field("author", "references:people"),
        field("done", "bool"),
    ];
    let mut warnings = Vec::new();
    let resolved = resolve(&fields, &sample_table(), &mut warnings).expect("resolves");
    assert_eq!(
        resolved.columns,
        vec![
            column("title", "string_null"),
            column("user_id", "integer"),
            column("count", "integer_null"),
            column("author_id", "integer"),
            column("done", "boolean_null"),
        ]
    );
    assert_eq!(
        resolved.references,
        vec![reference("user", "user_id"), reference("people", "author_id")]
    );
    assert_eq!(warnings, vec!["updated_at".to_string(), "created_at".to_string()]);
}

#[test]
fn warnings_are_appended_to_what_is_there() {
    let mut warnings = vec!["earlier".to_string()];
    resolve(&[field("update_at", "int"), field("a", "int")], &sample_table(), &mut warnings)
        .expect("resolves");
    resolve(&[field("create_at", "int")], &sample_table(), &mut warnings).expect("resolves");
    assert_eq!(
        warnings,
        vec!["earlier".to_string(), "update_at".to_string(), "create_at".to_string()]
    );
}

#[test]
fn warnings_stop_at_the_first_unknown_type() {
    let fields = [
        field("created_at", "string"),
        field("title", "string"),
        field("updated_at", "string"),
        field("year", "number"),
        field("create_at", "string"),
    ];
    let mut warnings = Vec::new();
    let error = resolve(&fields, &sample_table(), &mut warnings).expect_err("fails");
    assert_eq!(error.token, "number");
    assert_eq!(warnings, vec!["created_at".to_string(), "updated_at".to_string()]);
}

#[test]
fn dropping_reserved_fields_changes_nothing() {
    let with = [
        field("title", "string"),
        field("created_at", "string"),
        field("user", "references"),
        field("update_at", "whatever"),
    ];
    let without = [field("title", "string"), field("user", "references")];
    let a = quiet(&with, &sample_table()).expect("resolves");
    let b = quiet(&without, &sample_table()).expect("resolves");
    assert_eq!(a.columns, b.columns);
    assert_eq!(a.references, b.references);
}

#[test]
fn resolving_in_parts_gives_the_whole() {
    let first = [field("title", "string"), field("user", "references")];
    let then = [field("count", "int"), field("author", "references:people")];
    let whole = [first[0].clone(), first[1].clone(), then[0].clone(), then[1].clone()];
    let a = quiet(&first, &sample_table()).expect("resolves");
    let b = quiet(&then, &sample_table()).expect("resolves");
    let all = quiet(&whole, &sample_table()).expect("resolves");
    let mut columns = a.columns.clone();
    columns.extend(b.columns.clone());
    let mut references = a.references.clone();
    references.extend(b.references.clone());
    assert_eq!(all.columns, columns);
    assert_eq!(all.references, references);
}

#[test]
fn every_reference_has_its_key_column() {
    let fields = [
        field("user", "references"),
        field("title", "string"),
        field("author", "references:people"),
    ];
    let resolved = quiet(&fields, &sample_table()).expect("resolves");
    assert_eq!(resolved.references.len(), 2);
    for r in &resolved.references {
        assert!(resolved.columns.contains(&column(&r.foreign_key_column, "integer")));
    }
}

#[test]
fn duplicate_fields_pass_through() {
    let fields = [field("title", "string"), field("title", "int")];
    let resolved = quiet(&fields, &sample_table()).expect("resolves");
    assert_eq!(
        resolved.columns,
        vec![column("title", "string_null"), column("title", "integer_null")]
    );
}

#[test]
fn reserved_name_wins_over_reference_type() {
    let resolved = quiet(&[field("created_at", "references")], &sample_table()).expect("ok");
    assert!(resolved.columns.is_empty());
    assert!(resolved.references.is_empty());
}

#[test]
fn reference_target_is_not_checked() {
    let resolved =
        quiet(&[field("owner", "references:")], &sample_table()).expect("resolves");
    assert_eq!(resolved.references, vec![reference("", "owner_id")]);
    let resolved =
        quiet(&[field("owner", "references:no such entity")], &sample_table())
            .expect("resolves");
    assert_eq!(resolved.references, vec![reference("no such entity", "owner_id")]);
}

#[test]
fn reference_tokens_need_no_table() {
    let empty = Mappings::new(Vec::new());
    let resolved = quiet(&[field("user", "references")], &empty).expect("resolves");
    assert_eq!(resolved.columns, vec![column("user_id", "integer")]);
    let error = quiet(&[field("title", "string")], &empty).expect_err("fails");
    assert_eq!(error, TypeNotFound { token: "string".to_string(), valid_tokens: Vec::new() });
}

#[test]
fn near_reference_tokens_are_looked_up() {
    let error = quiet(&[field("user", "reference")], &sample_table()).expect_err("fails");
    assert_eq!(error.token, "reference");
    let error = quiet(&[field("user", "References")], &sample_table()).expect_err("fails");
    assert_eq!(error.token, "References");
    let error = quiet(&[field("user", "referencesx")], &sample_table()).expect_err("fails");
    assert_eq!(error.token, "referencesx");
}

#[test]
fn no_fields_resolve_to_nothing() {
    let mut warnings = Vec::new();
    let resolved = resolve(&[], &sample_table(), &mut warnings).expect("resolves");
    assert!(resolved.columns.is_empty());
    assert!(resolved.references.is_empty());
    assert!(warnings.is_empty());
}

#[test]
fn type_tokens_have_three_shapes() {
    assert_eq!(parse_type("references"), TypeShape::Reference);
    assert_eq!(parse_type("references:people"), TypeShape::ReferenceTo("people".to_string()));
    assert_eq!(parse_type("references:"), TypeShape::ReferenceTo(String::new()));
    assert_eq!(parse_type("references:a:b"), TypeShape::ReferenceTo("a:b".to_string()));
    assert_eq!(parse_type("string"), TypeShape::Scalar);
    assert_eq!(parse_type(""), TypeShape::Scalar);
    assert_eq!(parse_type("reference"), TypeShape::Scalar);
    assert_eq!(parse_type(" references"), TypeShape::Scalar);
}

#[test]
fn non_ascii_names_and_targets_are_kept() {
    let resolved =
        quiet(&[field("größe", "references:日本語")], &sample_table()).expect("resolves");
    assert_eq!(resolved.columns, vec![column("größe_id", "integer")]);
    assert_eq!(resolved.references, vec![reference("日本語", "größe_id")]);
}

#[test]
fn table_lookup_takes_the_first_row() {
    let table = Mappings::new(vec![
        TypeMapping::new("string", "first"),
        TypeMapping::new("int", "integer_null"),
        TypeMapping::new("string", "second"),
    ]);
    assert_eq!(table.schema_field("string"), Some(&"first".to_string()));
    assert_eq!(table.schema_field("int"), Some(&"integer_null".to_string()));
    assert_eq!(table.schema_field("String"), None);
    assert_eq!(table.schema_field(""), None);
    assert_eq!(
        table.schema_fields(),
        vec!["string".to_string(), "int".to_string(), "string".to_string()]
    );
}

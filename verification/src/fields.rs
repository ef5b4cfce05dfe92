//! Field resolution: from user-declared `(name, type token)` pairs to schema
//! columns and foreign-key references.
//!
//! Each field is classified once.  A reserved name is skipped.  A token that
//! is exactly `references`, or starts with `references:`, denotes a
//! relationship and yields an integer foreign-key column together with a
//! reference.  Every other token is looked up in the type mapping table, and
//! the first token that the table does not know fails the whole resolution.

use vstd::prelude::*;

use crate::mappings::{has_token, schema_of, tokens, MappingModel, Mappings};
use crate::sequences::{
    lemma_filter_map_after_filter, lemma_filter_map_all, lemma_filter_map_concat,
    lemma_filter_map_keeps, lemma_filter_map_none, lemma_filter_map_one,
};
use crate::text::{joined, same_text, strip_prefix};

verus! {

/// One user-declared field.
#[derive(Debug, Clone, PartialEq, Eq)]
pub struct FieldToken {
    pub name: String,
    pub raw_type: String,
}

pub struct FieldModel {
    pub name: Seq<char>,
    pub raw_type: Seq<char>,
}

impl View for FieldToken {
    type V = FieldModel;

    open spec fn view(&self) -> FieldModel {
        FieldModel { name: self.name@, raw_type: self.raw_type@ }
    }
}

impl DeepView for FieldToken {
    type V = FieldModel;

    open spec fn deep_view(&self) -> FieldModel {
        self@
    }
}

/// A column of the generated schema.
#[derive(Debug, Clone, PartialEq, Eq)]
pub struct ResolvedColumn {
    pub name: String,
    pub schema_type: String,
}

pub struct ColumnModel {
    pub name: Seq<char>,
    pub schema_type: Seq<char>,
}

impl View for ResolvedColumn {
    type V = ColumnModel;

    open spec fn view(&self) -> ColumnModel {
        ColumnModel { name: self.name@, schema_type: self.schema_type@ }
    }
}

impl DeepView for ResolvedColumn {
    type V = ColumnModel;

    open spec fn deep_view(&self) -> ColumnModel {
        self@
    }
}

/// A relationship to another entity, kept in a foreign-key column.
#[derive(Debug, Clone, PartialEq, Eq)]
pub struct ResolvedReference {
    pub target_entity: String,
    pub foreign_key_column: String,
}

pub struct ReferenceModel {
    pub target_entity: Seq<char>,
    pub foreign_key_column: Seq<char>,
}

impl View for ResolvedReference {
    type V = ReferenceModel;

    open spec fn view(&self) -> ReferenceModel {
        ReferenceModel {
            target_entity: self.target_entity@,
            foreign_key_column: self.foreign_key_column@,
        }
    }
}

impl DeepView for ResolvedReference {
    type V = ReferenceModel;

    open spec fn deep_view(&self) -> ReferenceModel {
        self@
    }
}

/// The shape of a type token, told apart before any table lookup.
#[derive(Debug, Clone, PartialEq, Eq)]
pub enum TypeShape {
    /// `references`: the field is named after the entity it points to.
    Reference,
    /// `references:<target>`: the entity is named in the token.
    ReferenceTo(String),
    /// Anything else: a token of the type mapping table.
    Scalar,
}

pub enum ShapeModel {
    Reference,
    ReferenceTo(Seq<char>),
    Scalar,
}

impl View for TypeShape {
    type V = ShapeModel;

    open spec fn view(&self) -> ShapeModel {
        match self {
            TypeShape::Reference => ShapeModel::Reference,
            TypeShape::ReferenceTo(target) => ShapeModel::ReferenceTo(target@),
            TypeShape::Scalar => ShapeModel::Scalar,
        }
    }
}

/// The failure of a resolution: a token that the table does not know, and
/// the tokens that it does know.
#[derive(Debug, Clone, PartialEq, Eq)]
pub struct TypeNotFound {
    pub token: String,
    pub valid_tokens: Vec<String>,
}

pub struct TypeNotFoundModel {
    pub token: Seq<char>,
    pub valid_tokens: Seq<Seq<char>>,
}

impl View for TypeNotFound {
    type V = TypeNotFoundModel;

    open spec fn view(&self) -> TypeNotFoundModel {
        TypeNotFoundModel { token: self.token@, valid_tokens: self.valid_tokens.deep_view() }
    }
}

/// What a successful resolution yields.
#[derive(Debug, Clone, PartialEq, Eq)]
pub struct Resolution {
    pub columns: Vec<ResolvedColumn>,
    pub references: Vec<ResolvedReference>,
}

pub struct ResolutionModel {
    pub columns: Seq<ColumnModel>,
    pub references: Seq<ReferenceModel>,
}

impl View for Resolution {
    type V = ResolutionModel;

    open spec fn view(&self) -> ResolutionModel {
        ResolutionModel {
            columns: self.columns.deep_view(),
            references: self.references.deep_view(),
        }
    }
}

/// The names that the host framework fills in by itself: the creation and
/// update timestamps, each under two spellings.
pub open spec fn ignore_set() -> Set<Seq<char>> {
    set!["created_at"@, "updated_at"@, "create_at"@, "update_at"@]
}

pub open spec fn is_reserved(name: Seq<char>) -> bool {
    ignore_set().contains(name)
}

/// The name of the foreign-key column of a reference field.
pub open spec fn foreign_key(name: Seq<char>) -> Seq<char> {
    name + "_id"@
}

pub open spec fn shape_of(raw_type: Seq<char>) -> ShapeModel {
    if raw_type == "references"@ {
        ShapeModel::Reference
    } else if "references:"@.is_prefix_of(raw_type) {
        ShapeModel::ReferenceTo(raw_type.skip("references:"@.len() as int))
    } else {
        ShapeModel::Scalar
    }
}

/// The entity that a reference field points to, if the field is one.
pub open spec fn target_of(f: FieldModel) -> Option<Seq<char>> {
    match shape_of(f.raw_type) {
        ShapeModel::Reference => Some(f.name),
        ShapeModel::ReferenceTo(target) => Some(target),
        ShapeModel::Scalar => None,
    }
}

/// The reference that `f` contributes, if any.
pub open spec fn reference_of(f: FieldModel) -> Option<ReferenceModel> {
    if is_reserved(f.name) {
        None
    } else {
        match target_of(f) {
            Some(target) => Some(
                ReferenceModel { target_entity: target, foreign_key_column: foreign_key(f.name) },
            ),
            None => None,
        }
    }
}

/// The column that `f` contributes, if any.
pub open spec fn column_of(table: Seq<MappingModel>, f: FieldModel) -> Option<ColumnModel> {
    if is_reserved(f.name) {
        None
    } else if target_of(f) is Some {
        Some(ColumnModel { name: foreign_key(f.name), schema_type: "integer"@ })
    } else {
        match schema_of(table, f.raw_type) {
            Some(schema_type) => Some(ColumnModel { name: f.name, schema_type }),
            None => None,
        }
    }
}

/// The name of `f`, if `f` is skipped as reserved.
pub open spec fn ignored_of(f: FieldModel) -> Option<Seq<char>> {
    if is_reserved(f.name) {
        Some(f.name)
    } else {
        None
    }
}

/// `f` is to be looked up in the table, and the table does not know its
/// token.
pub open spec fn is_unknown(table: Seq<MappingModel>, f: FieldModel) -> bool {
    &&& !is_reserved(f.name)
    &&& target_of(f) is None
    &&& schema_of(table, f.raw_type) is None
}

pub open spec fn has_unknown(table: Seq<MappingModel>, fields: Seq<FieldModel>) -> bool {
    exists|i: int| 0 <= i < fields.len() && is_unknown(table, #[trigger] fields[i])
}

/// Field `i` is the first one whose token the table does not know.
pub open spec fn is_first_unknown(
    table: Seq<MappingModel>,
    fields: Seq<FieldModel>,
    i: int,
) -> bool {
    &&& 0 <= i < fields.len()
    &&& is_unknown(table, fields[i])
    &&& forall|j: int| 0 <= j < i ==> !is_unknown(table, #[trigger] fields[j])
}

pub open spec fn resolved_columns(
    table: Seq<MappingModel>,
    fields: Seq<FieldModel>,
) -> Seq<ColumnModel> {
    fields.filter_map(|f: FieldModel| column_of(table, f))
}

pub open spec fn resolved_references(fields: Seq<FieldModel>) -> Seq<ReferenceModel> {
    fields.filter_map(|f: FieldModel| reference_of(f))
}

/// The reserved names among `fields`, one for each occurrence.
pub open spec fn ignored_names(fields: Seq<FieldModel>) -> Seq<Seq<char>> {
    fields.filter_map(|f: FieldModel| ignored_of(f))
}

/// The fields that a resolution looks at: all of them, or, where a token is
/// unknown, those before the first such field.
pub open spec fn examined(table: Seq<MappingModel>, fields: Seq<FieldModel>) -> Seq<FieldModel> {
    if has_unknown(table, fields) {
        fields.take(choose|i: int| is_first_unknown(table, fields, i))
    } else {
        fields
    }
}

/// The names that a resolution warns about: the reserved names among the
/// fields that it looks at.
pub open spec fn warned_names(table: Seq<MappingModel>, fields: Seq<FieldModel>) -> Seq<
    Seq<char>,
> {
    ignored_names(examined(table, fields))
}

/// What resolving `fields` against `table` gives: all columns and
/// references in declaration order, or the first unknown token and nothing
/// else.
pub open spec fn resolution(table: Seq<MappingModel>, fields: Seq<FieldModel>) -> Result<
    ResolutionModel,
    TypeNotFoundModel,
> {
    if has_unknown(table, fields) {
        let i = choose|i: int| is_first_unknown(table, fields, i);
        Err(TypeNotFoundModel { token: fields[i].raw_type, valid_tokens: tokens(table) })
    } else {
        Ok(
            ResolutionModel {
                columns: resolved_columns(table, fields),
                references: resolved_references(fields),
            },
        )
    }
}

/// The first unknown field is the one that `resolution` reports.
pub proof fn lemma_first_unknown_decides(
    table: Seq<MappingModel>,
    fields: Seq<FieldModel>,
    i: int,
)
    requires
        is_first_unknown(table, fields, i),
    ensures
        resolution(table, fields) == Err::<ResolutionModel, TypeNotFoundModel>(
            TypeNotFoundModel { token: fields[i].raw_type, valid_tokens: tokens(table) },
        ),
        examined(table, fields) == fields.take(i),
{
    let k = choose|k: int| is_first_unknown(table, fields, k);
    assert(is_first_unknown(table, fields, k));
    assert(k == i) by {
        if k < i {
            assert(!is_unknown(table, fields[k]));
        } else if i < k {
            assert(!is_unknown(table, fields[i]));
        }
    }
}

impl FieldToken {
    pub fn new(name: &str, raw_type: &str) -> (field: FieldToken)
        ensures
            field@.name == name@,
            field@.raw_type == raw_type@,
    {
        FieldToken { name: name.to_owned(), raw_type: raw_type.to_owned() }
    }
}

/// Whether the host framework fills in a field of this name by itself.
pub fn is_ignored(name: &str) -> (reserved: bool)
    ensures
        reserved == is_reserved(name@),
{
    same_text(name, "created_at") || same_text(name, "updated_at") || same_text(name, "create_at")
        || same_text(name, "update_at")
}

/// Tells a relationship token from a token of the type mapping table.
pub fn parse_type(raw_type: &str) -> (shape: TypeShape)
    ensures
        shape@ == shape_of(raw_type@),
{
    if same_text(raw_type, "references") {
        TypeShape::Reference
    } else {
        match strip_prefix(raw_type, "references:") {
            Some(target) => TypeShape::ReferenceTo(target.to_owned()),
            None => TypeShape::Scalar,
        }
    }
}

/// Resolves `fields`, in declaration order, against `mappings`.
///
/// Every reserved name that is skipped on the way is appended to
/// `warnings`, for the caller to warn about: skipping a field is worth a
/// notice and never a failure.
pub fn resolve(fields: &[FieldToken], mappings: &Mappings, warnings: &mut Vec<String>) -> (res:
    Result<Resolution, TypeNotFound>)
    ensures
        final(warnings).deep_view() == old(warnings).deep_view() + warned_names(
            mappings@,
            fields.deep_view(),
        ),
        match res {
            Ok(r) => resolution(mappings@, fields.deep_view()) == Ok::<
                ResolutionModel,
                TypeNotFoundModel,
            >(r@),
            Err(e) => resolution(mappings@, fields.deep_view()) == Err::<
                ResolutionModel,
                TypeNotFoundModel,
            >(e@),
        },
{
    let ghost table = mappings@;
    let ghost all = fields.deep_view();
    let n = fields.len();
    let ghost earlier = warnings.deep_view();
    let mut columns: Vec<ResolvedColumn> = Vec::new();
    let mut references: Vec<ResolvedReference> = Vec::new();
    let mut i: usize = 0;
    assert(warnings.deep_view() =~= earlier + ignored_names(all.take(0)));
    while i < n
        invariant
            n == fields@.len(),
            i <= n,
            table == mappings@,
            all == fields.deep_view(),
            all.len() == n,
            forall|j: int| 0 <= j < i ==> !is_unknown(table, #[trigger] all[j]),
            columns.deep_view() == resolved_columns(table, all.take(i as int)),
            references.deep_view() == resolved_references(all.take(i as int)),
            earlier == old(warnings).deep_view(),
            warnings.deep_view() == earlier + ignored_names(all.take(i as int)),
        decreases n - i,
    {
        let field = &fields[i];
        let ghost f = all[i as int];
        let ghost before_columns = columns.deep_view();
        let ghost before_references = references.deep_view();
        let ghost before_warnings = warnings.deep_view();
        proof {
            assert(f == field@);
            all.lemma_filter_map_take_succ(|f: FieldModel| column_of(table, f), i as int);
            all.lemma_filter_map_take_succ(|f: FieldModel| reference_of(f), i as int);
            all.lemma_filter_map_take_succ(|f: FieldModel| ignored_of(f), i as int);
        }
        if is_ignored(field.name.as_str()) {
            warnings.push(field.name.clone());
            assert(warnings.deep_view() =~= before_warnings.push(f.name));
        } else {
            let target = match parse_type(field.raw_type.as_str()) {
                TypeShape::Reference => Some(field.name.clone()),
                TypeShape::ReferenceTo(target) => Some(target),
                TypeShape::Scalar => None,
            };
            match target {
                Some(target_entity) => {
                    let key = joined(field.name.as_str(), "_id");
                    columns.push(
                        ResolvedColumn { name: key.clone(), schema_type: "integer".to_owned() },
                    );
                    references.push(ResolvedReference { target_entity, foreign_key_column: key });
                    assert(columns.deep_view() =~= before_columns.push(column_of(table, f)->0));
                    assert(references.deep_view() =~= before_references.push(reference_of(f)->0));
                },
                None => match mappings.schema_field(field.raw_type.as_str()) {
                    Some(schema_type) => {
                        columns.push(
                            ResolvedColumn {
                                name: field.name.clone(),
                                schema_type: schema_type.clone(),
                            },
                        );
                        assert(columns.deep_view() =~= before_columns.push(column_of(table, f)->0));
                    },
                    None => {
                        let error = TypeNotFound {
                            token: field.raw_type.clone(),
                            valid_tokens: mappings.schema_fields(),
                        };
                        proof {
                            assert(is_first_unknown(table, all, i as int));
                            lemma_first_unknown_decides(table, all, i as int);
                        }
                        return Err(error);
                    },
                },
            }
        }
        i += 1;
    }
    assert(all.take(n as int) =~= all);
    assert(!has_unknown(table, all));
    Ok(Resolution { columns, references })
}

/// The fields that are not skipped as reserved, in declaration order.
pub open spec fn kept(fields: Seq<FieldModel>) -> Seq<FieldModel> {
    fields.filter(|f: FieldModel| !is_reserved(f.name))
}

/// The relationship fields that are not skipped as reserved, in declaration
/// order.
pub open spec fn kept_relations(fields: Seq<FieldModel>) -> Seq<FieldModel> {
    fields.filter(|f: FieldModel| !is_reserved(f.name) && target_of(f) is Some)
}

/// Below an unknown field there is a first one.
pub proof fn lemma_least_unknown(table: Seq<MappingModel>, fields: Seq<FieldModel>, i: int)
    requires
        0 <= i < fields.len(),
        is_unknown(table, fields[i]),
    ensures
        exists|k: int| 0 <= k <= i && is_first_unknown(table, fields, k),
    decreases i,
{
    if exists|j: int| 0 <= j < i && is_unknown(table, #[trigger] fields[j]) {
        let j = choose|j: int| 0 <= j < i && is_unknown(table, #[trigger] fields[j]);
        lemma_least_unknown(table, fields, j);
    } else {
        assert(is_first_unknown(table, fields, i));
    }
}

/// Warnings come in declaration order: what is warned about among the
/// first fields stays at the front of what is warned about among them all.
pub proof fn lemma_warnings_grow(fields: Seq<FieldModel>, n: int)
    requires
        0 <= n <= fields.len(),
    ensures
        ignored_names(fields.take(n)).is_prefix_of(ignored_names(fields)),
{
    assert(fields =~= fields.take(n) + fields.skip(n));
    lemma_filter_map_concat(fields.take(n), fields.skip(n), |f: FieldModel| ignored_of(f));
}

/// Declaration order is kept.  Resolving a list in two parts and putting
/// the results one after the other gives what resolving the whole list
/// gives, and the whole fails exactly when one of the parts does.
pub proof fn lemma_order_is_kept(
    table: Seq<MappingModel>,
    a: Seq<FieldModel>,
    b: Seq<FieldModel>,
)
    ensures
        resolved_columns(table, a + b) == resolved_columns(table, a) + resolved_columns(table, b),
        resolved_references(a + b) == resolved_references(a) + resolved_references(b),
        ignored_names(a + b) == ignored_names(a) + ignored_names(b),
        has_unknown(table, a + b) == (has_unknown(table, a) || has_unknown(table, b)),
{
    lemma_filter_map_concat(a, b, |f: FieldModel| column_of(table, f));
    lemma_filter_map_concat(a, b, |f: FieldModel| reference_of(f));
    lemma_filter_map_concat(a, b, |f: FieldModel| ignored_of(f));
    if has_unknown(table, a + b) {
        let i = choose|i: int| 0 <= i < (a + b).len() && is_unknown(table, #[trigger] (a + b)[i]);
        if i < a.len() {
            assert(is_unknown(table, a[i]));
        } else {
            assert(is_unknown(table, b[i - a.len()]));
        }
    }
    if has_unknown(table, a) {
        let i = choose|i: int| 0 <= i < a.len() && is_unknown(table, #[trigger] a[i]);
        assert(is_unknown(table, (a + b)[i]));
    }
    if has_unknown(table, b) {
        let i = choose|i: int| 0 <= i < b.len() && is_unknown(table, #[trigger] b[i]);
        assert(is_unknown(table, (a + b)[a.len() + i]));
    }
}

/// On success the columns are, one for one and in declaration order, the
/// columns of the fields that are left when the reserved ones are removed.
pub proof fn lemma_columns_follow_kept_fields(table: Seq<MappingModel>, fields: Seq<FieldModel>)
    requires
        !has_unknown(table, fields),
    ensures
        resolved_columns(table, fields).len() == kept(fields).len(),
        forall|i: int|
            0 <= i < kept(fields).len() ==> column_of(table, #[trigger] kept(fields)[i]) == Some(
                resolved_columns(table, fields)[i],
            ),
{
    broadcast use Seq::lemma_filter_pred;

    let keep = |f: FieldModel| !is_reserved(f.name);
    let column = |f: FieldModel| column_of(table, f);
    lemma_filter_map_after_filter(fields, keep, column);
    assert forall|i: int| 0 <= i < kept(fields).len() implies column(
        #[trigger] kept(fields)[i],
    ) is Some by {
        let f = kept(fields)[i];
        assert(keep(f));
        assert(kept(fields).contains(f));
        fields.lemma_filter_contains_rev(keep, f);
        let j = choose|j: int| 0 <= j < fields.len() && fields[j] == f;
        assert(!is_unknown(table, fields[j]));
    }
    lemma_filter_map_all(kept(fields), column);
}

/// The references are, one for one and in declaration order, those of the
/// relationship fields that are left when the reserved ones are removed.
pub proof fn lemma_references_follow_kept_fields(fields: Seq<FieldModel>)
    ensures
        resolved_references(fields).len() == kept_relations(fields).len(),
        forall|i: int|
            0 <= i < kept_relations(fields).len() ==> reference_of(
                #[trigger] kept_relations(fields)[i],
            ) == Some(resolved_references(fields)[i]),
{
    broadcast use Seq::lemma_filter_pred;

    let keep = |f: FieldModel| !is_reserved(f.name) && target_of(f) is Some;
    let reference = |f: FieldModel| reference_of(f);
    lemma_filter_map_after_filter(fields, keep, reference);
    assert forall|i: int| 0 <= i < kept_relations(fields).len() implies reference(
        #[trigger] kept_relations(fields)[i],
    ) is Some by {
        assert(keep(kept_relations(fields)[i]));
    }
    lemma_filter_map_all(kept_relations(fields), reference);
}

/// A field with a reserved name is skipped and never fails the resolution:
/// with it or without it the resolution ends the same way, on success with
/// the same columns and references.
pub proof fn lemma_reserved_field_is_skipped(
    table: Seq<MappingModel>,
    before: Seq<FieldModel>,
    f: FieldModel,
    after: Seq<FieldModel>,
)
    requires
        is_reserved(f.name),
    ensures
        column_of(table, f) is None,
        reference_of(f) is None,
        !is_unknown(table, f),
        resolution(table, before + seq![f] + after) == resolution(table, before + after),
        !has_unknown(table, before) ==> warned_names(table, before + seq![f] + after).contains(
            f.name,
        ),
{
    let with = before + seq![f] + after;
    let without = before + after;
    lemma_order_is_kept(table, before, seq![f]);
    lemma_order_is_kept(table, before + seq![f], after);
    lemma_order_is_kept(table, before, after);
    lemma_filter_map_one(f, |f: FieldModel| column_of(table, f));
    lemma_filter_map_one(f, |f: FieldModel| reference_of(f));
    lemma_filter_map_one(f, |f: FieldModel| ignored_of(f));
    assert(!has_unknown(table, seq![f])) by {
        if has_unknown(table, seq![f]) {
            let alone = seq![f];
            let i = choose|i: int| 0 <= i < alone.len() && is_unknown(table, #[trigger] alone[i]);
            assert(alone[i] == f);
        }
    }
    assert(resolved_columns(table, with) =~= resolved_columns(table, without));
    assert(resolved_references(with) =~= resolved_references(without));
    if has_unknown(table, without) {
        let k = choose|k: int| 0 <= k < without.len() && is_unknown(table, #[trigger] without[k]);
        lemma_least_unknown(table, without, k);
        let i = choose|i: int| is_first_unknown(table, without, i);
        let shifted = if i < before.len() {
            i
        } else {
            i + 1
        };
        assert(with[shifted] == without[i]);
        assert forall|j: int| 0 <= j < shifted implies !is_unknown(table, #[trigger] with[j]) by {
            if j < before.len() {
                assert(with[j] == without[j]);
            } else if j == before.len() {
                assert(with[j] == f);
            } else {
                assert(with[j] == without[j - 1]);
            }
        }
        assert(is_first_unknown(table, with, shifted));
        lemma_first_unknown_decides(table, with, shifted);
        lemma_first_unknown_decides(table, without, i);
    }
    if !has_unknown(table, before) {
        let looked = examined(table, with);
        let m = before.len() as int + 1;
        assert(looked.len() >= m && looked.take(m) =~= before + seq![f]) by {
            if has_unknown(table, with) {
                let i = choose|i: int| is_first_unknown(table, with, i);
                if i < before.len() {
                    assert(is_unknown(table, before[i]));
                } else if i == before.len() {
                    assert(with[i] == f);
                }
            }
        }
        lemma_warnings_grow(looked, m);
        let upto = ignored_names(before + seq![f]);
        assert(upto.last() == f.name);
        assert(warned_names(table, with)[upto.len() - 1] == f.name);
    }
}

/// Fields that all carry reserved names resolve to no column and no
/// reference, whatever their type tokens are and whatever the table holds.
pub proof fn lemma_reserved_fields_resolve_to_nothing(
    table: Seq<MappingModel>,
    fields: Seq<FieldModel>,
)
    requires
        forall|i: int| 0 <= i < fields.len() ==> is_reserved((#[trigger] fields[i]).name),
    ensures
        resolution(table, fields) == Ok::<ResolutionModel, TypeNotFoundModel>(
            ResolutionModel { columns: Seq::empty(), references: Seq::empty() },
        ),
        warned_names(table, fields) == fields.map_values(|f: FieldModel| f.name),
{
    lemma_filter_map_none(fields, |f: FieldModel| column_of(table, f));
    lemma_filter_map_none(fields, |f: FieldModel| reference_of(f));
    lemma_filter_map_all(fields, |f: FieldModel| ignored_of(f));
    assert(ignored_names(fields) =~= fields.map_values(|f: FieldModel| f.name));
}

/// A field of type `references` yields, at its place among the others, one
/// integer column named after it with `_id` appended, and one reference to
/// the entity that the field is named after.
pub proof fn lemma_reference_field(
    table: Seq<MappingModel>,
    before: Seq<FieldModel>,
    f: FieldModel,
    after: Seq<FieldModel>,
)
    requires
        !is_reserved(f.name),
        f.raw_type == "references"@,
    ensures
        !is_unknown(table, f),
        resolved_columns(table, before + seq![f] + after) == resolved_columns(table, before)
            + seq![ColumnModel { name: f.name + "_id"@, schema_type: "integer"@ }]
            + resolved_columns(table, after),
        resolved_references(before + seq![f] + after) == resolved_references(before)
            + seq![ReferenceModel { target_entity: f.name, foreign_key_column: f.name + "_id"@ }]
            + resolved_references(after),
{
    lemma_order_is_kept(table, before, seq![f]);
    lemma_order_is_kept(table, before + seq![f], after);
    lemma_filter_map_one(f, |f: FieldModel| column_of(table, f));
    lemma_filter_map_one(f, |f: FieldModel| reference_of(f));
}

/// A field of type `references:<target>` yields, at its place among the
/// others, one integer column named after it with `_id` appended, and one
/// reference to `<target>`.
pub proof fn lemma_qualified_reference_field(
    table: Seq<MappingModel>,
    before: Seq<FieldModel>,
    f: FieldModel,
    target: Seq<char>,
    after: Seq<FieldModel>,
)
    requires
        !is_reserved(f.name),
        f.raw_type == "references:"@ + target,
    ensures
        !is_unknown(table, f),
        resolved_columns(table, before + seq![f] + after) == resolved_columns(table, before)
            + seq![ColumnModel { name: f.name + "_id"@, schema_type: "integer"@ }]
            + resolved_columns(table, after),
        resolved_references(before + seq![f] + after) == resolved_references(before)
            + seq![ReferenceModel { target_entity: target, foreign_key_column: f.name + "_id"@ }]
            + resolved_references(after),
{
    reveal_strlit("references");
    reveal_strlit("references:");
    let prefix = "references:"@;
    assert(f.raw_type.len() == prefix.len() + target.len());
    assert(f.raw_type != "references"@);
    assert(prefix =~= f.raw_type.subrange(0, prefix.len() as int));
    assert(f.raw_type.skip(prefix.len() as int) =~= target);
    assert(shape_of(f.raw_type) == ShapeModel::ReferenceTo(target));
    lemma_order_is_kept(table, before, seq![f]);
    lemma_order_is_kept(table, before + seq![f], after);
    lemma_filter_map_one(f, |f: FieldModel| column_of(table, f));
    lemma_filter_map_one(f, |f: FieldModel| reference_of(f));
}

/// Columns and references stay in step: every reference that comes out has
/// its integer foreign-key column among the columns.
pub proof fn lemma_reference_has_its_column(
    table: Seq<MappingModel>,
    fields: Seq<FieldModel>,
    k: int,
)
    requires
        0 <= k < resolved_references(fields).len(),
    ensures
        resolved_columns(table, fields).contains(
            ColumnModel {
                name: resolved_references(fields)[k].foreign_key_column,
                schema_type: "integer"@,
            },
        ),
{
    let r = resolved_references(fields)[k];
    assert(resolved_references(fields).contains(r));
    fields.lemma_filter_map_contains(|f: FieldModel| reference_of(f), r);
    let t = choose|t: FieldModel| #[trigger] fields.contains(t) && reference_of(t) == Some(r);
    let i = choose|i: int| 0 <= i < fields.len() && fields[i] == t;
    lemma_filter_map_keeps(fields, |f: FieldModel| column_of(table, f), i);
}

/// No column carries a reserved name: a reserved field yields none, and a
/// foreign-key column ends in `_id`, which no reserved name does.
pub proof fn lemma_no_column_is_reserved(
    table: Seq<MappingModel>,
    fields: Seq<FieldModel>,
    k: int,
)
    requires
        0 <= k < resolved_columns(table, fields).len(),
    ensures
        !is_reserved(resolved_columns(table, fields)[k].name),
{
    let c = resolved_columns(table, fields)[k];
    assert(resolved_columns(table, fields).contains(c));
    fields.lemma_filter_map_contains(|f: FieldModel| column_of(table, f), c);
    let f = choose|f: FieldModel| #[trigger] fields.contains(f) && column_of(table, f) == Some(c);
    if target_of(f) is Some {
        reveal_strlit("_id");
        reveal_strlit("created_at");
        reveal_strlit("updated_at");
        reveal_strlit("create_at");
        reveal_strlit("update_at");
        let key = foreign_key(f.name);
        assert(key[key.len() - 1] == 'd');
        assert("created_at"@[9] == 't');
        assert("updated_at"@[9] == 't');
        assert("create_at"@[8] == 't');
        assert("update_at"@[8] == 't');
    }
}

/// A token that the table does not hold, on a field that is neither
/// reserved nor a reference, fails the whole resolution: the error names a
/// token that the table lacks, lists the table's tokens, and no column or
/// reference comes out.
pub proof fn lemma_absent_token_fails(
    table: Seq<MappingModel>,
    fields: Seq<FieldModel>,
    i: int,
)
    requires
        0 <= i < fields.len(),
        !is_reserved(fields[i].name),
        fields[i].raw_type != "references"@,
        !"references:"@.is_prefix_of(fields[i].raw_type),
        !has_token(table, fields[i].raw_type),
    ensures
        resolution(table, fields) is Err,
        resolution(table, fields)->Err_0.valid_tokens == tokens(table),
        !has_token(table, resolution(table, fields)->Err_0.token),
        exists|k: int|
            0 <= k <= i && is_first_unknown(table, fields, k) && resolution(
                table,
                fields,
            )->Err_0.token == fields[k].raw_type,
{
    assert(is_unknown(table, fields[i]));
    lemma_least_unknown(table, fields, i);
    let k = choose|k: int| 0 <= k <= i && is_first_unknown(table, fields, k);
    lemma_first_unknown_decides(table, fields, k);
}

} // verus!

//! The type mapping table: a read-only registry from type token to schema
//! type.  Where the table's data comes from is the caller's business; the
//! library only queries it.

use vstd::prelude::*;

use crate::text::same_text;

verus! {

/// One row of the table.
#[derive(Debug, Clone, PartialEq, Eq)]
pub struct TypeMapping {
    pub token: String,
    pub schema_type: String,
}

/// What a [`TypeMapping`] says, as plain text.
pub struct MappingModel {
    pub token: Seq<char>,
    pub schema_type: Seq<char>,
}

impl View for TypeMapping {
    type V = MappingModel;

    open spec fn view(&self) -> MappingModel {
        MappingModel { token: self.token@, schema_type: self.schema_type@ }
    }
}

impl DeepView for TypeMapping {
    type V = MappingModel;

    open spec fn deep_view(&self) -> MappingModel {
        self@
    }
}

/// The rows of the table, in the order in which they are listed in
/// diagnostics.  Where a token occurs twice, the earlier row decides.
#[derive(Debug, Clone, PartialEq, Eq)]
pub struct Mappings {
    pub field_types: Vec<TypeMapping>,
}

impl View for Mappings {
    type V = Seq<MappingModel>;

    open spec fn view(&self) -> Seq<MappingModel> {
        self.field_types.deep_view()
    }
}

/// Row `i` is the first row of `table` that is filed under `token`.
pub open spec fn is_first_match(table: Seq<MappingModel>, token: Seq<char>, i: int) -> bool {
    &&& 0 <= i < table.len()
    &&& table[i].token == token
    &&& forall|j: int| 0 <= j < i ==> (#[trigger] table[j]).token != token
}

/// Some row of `table` is filed under `token`.
pub open spec fn has_token(table: Seq<MappingModel>, token: Seq<char>) -> bool {
    exists|i: int| 0 <= i < table.len() && (#[trigger] table[i]).token == token
}

/// The schema type that `table` gives for `token`.
pub open spec fn schema_of(table: Seq<MappingModel>, token: Seq<char>) -> Option<Seq<char>> {
    if has_token(table, token) {
        Some(table[choose|i: int| is_first_match(table, token, i)].schema_type)
    } else {
        None
    }
}

/// Every token of `table`, row by row.
pub open spec fn tokens(table: Seq<MappingModel>) -> Seq<Seq<char>> {
    table.map_values(|m: MappingModel| m.token)
}

/// The first row filed under a token is the one that `schema_of` reads.
pub proof fn lemma_first_match_decides(table: Seq<MappingModel>, token: Seq<char>, i: int)
    requires
        is_first_match(table, token, i),
    ensures
        schema_of(table, token) == Some(table[i].schema_type),
{
    let k = choose|k: int| is_first_match(table, token, k);
    assert(is_first_match(table, token, k));
    assert(k == i) by {
        if k < i {
            assert(table[k].token != token);
        } else if i < k {
            assert(table[i].token != token);
        }
    }
}

impl TypeMapping {
    pub fn new(token: &str, schema_type: &str) -> (row: TypeMapping)
        ensures
            row@.token == token@,
            row@.schema_type == schema_type@,
    {
        TypeMapping { token: token.to_owned(), schema_type: schema_type.to_owned() }
    }
}

impl Mappings {
    pub fn new(field_types: Vec<TypeMapping>) -> (table: Mappings)
        ensures
            table@ == field_types.deep_view(),
    {
        Mappings { field_types }
    }

    /// Looks `token` up.  `None` means that the table has no such token.
    pub fn schema_field(&self, token: &str) -> (found: Option<&String>)
        ensures
            found.deep_view() == schema_of(self@, token@),
    {
        let n = self.field_types.len();
        let mut i: usize = 0;
        while i < n
            invariant
                n == self.field_types@.len(),
                i <= n,
                forall|j: int| 0 <= j < i ==> (#[trigger] self@[j]).token != token@,
            decreases n - i,
        {
            let row = &self.field_types[i];
            assert(self@[i as int] == row@);
            if same_text(row.token.as_str(), token) {
                proof {
                    lemma_first_match_decides(self@, token@, i as int);
                }
                return Some(&row.schema_type);
            }
            i += 1;
        }
        None
    }

    /// The tokens that the table knows, for diagnostics.
    pub fn schema_fields(&self) -> (known: Vec<String>)
        ensures
            known.deep_view() == tokens(self@),
    {
        let n = self.field_types.len();
        let mut known: Vec<String> = Vec::new();
        let mut i: usize = 0;
        while i < n
            invariant
                n == self.field_types@.len(),
                i <= n,
                known@.len() == i,
                forall|j: int| 0 <= j < i ==> (#[trigger] known@[j])@ == self@[j].token,
            decreases n - i,
        {
            assert(self@[i as int] == self.field_types@[i as int]@);
            known.push(self.field_types[i].token.clone());
            i += 1;
        }
        assert(known.deep_view() =~= tokens(self@));
        known
    }
}

} // verus!

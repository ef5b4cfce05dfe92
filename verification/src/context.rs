//! The generation context: everything that the templates are rendered
//! against, assembled once and never changed afterwards.

use vstd::prelude::*;

use crate::fields::{ColumnModel, ReferenceModel, ResolvedColumn, ResolvedReference};

verus! {

/// A point in time: whole seconds since 1970-01-01 00:00:00 UTC, and the
/// nanoseconds into that second.
#[derive(Debug, Clone, Copy, PartialEq, Eq)]
pub struct Timestamp {
    pub seconds: i64,
    pub nanos: u32,
}

impl Timestamp {
    /// What a reading of the wall clock always satisfies: it lies at or
    /// after the start of 1970, and its nanoseconds stay within the second.
    pub open spec fn is_clock_reading(self) -> bool {
        self.seconds >= 0 && self.nanos < 1_000_000_000
    }
}

/// The application that the artifacts are generated for.
#[derive(Debug, Clone, PartialEq, Eq)]
pub struct AppInfo {
    pub app_name: String,
}

/// The variables that every template sees.
#[derive(Debug, PartialEq, Eq)]
pub struct GenerationContext {
    entity_name: String,
    timestamp: Timestamp,
    package_name: String,
    is_link_table: bool,
    columns: Vec<ResolvedColumn>,
    references: Vec<ResolvedReference>,
}

pub struct ContextModel {
    pub entity_name: Seq<char>,
    pub timestamp: Timestamp,
    pub package_name: Seq<char>,
    pub is_link_table: bool,
    pub columns: Seq<ColumnModel>,
    pub references: Seq<ReferenceModel>,
}

impl View for GenerationContext {
    type V = ContextModel;

    closed spec fn view(&self) -> ContextModel {
        ContextModel {
            entity_name: self.entity_name@,
            timestamp: self.timestamp,
            package_name: self.package_name@,
            is_link_table: self.is_link_table,
            columns: self.columns.deep_view(),
            references: self.references.deep_view(),
        }
    }
}

/// Reads the wall clock with `chrono::Utc::now` and takes the reading apart
/// with `DateTime::timestamp` and `DateTime::timestamp_subsec_nanos`.
///
/// Not proved: that the reading is a clock reading in the sense above.
/// chrono builds it from the time that has passed since the start of 1970,
/// so the seconds are not negative, and from the sub-second part of that
/// duration, which is below one second.  On a machine whose clock is set
/// before 1970 chrono panics instead of returning.
#[verifier::external_body]
pub(crate) fn utc_now() -> (now: Timestamp)
    ensures
        now.is_clock_reading(),
{
    let now = chrono::Utc::now();
    Timestamp { seconds: now.timestamp(), nanos: now.timestamp_subsec_nanos() }
}

impl AppInfo {
    pub fn new(app_name: &str) -> (info: AppInfo)
        ensures
            info.app_name@ == app_name@,
    {
        AppInfo { app_name: app_name.to_owned() }
    }
}

impl GenerationContext {
    /// Puts the context together.  Nothing is checked and nothing can fail.
    pub fn new(
        entity_name: &str,
        is_link_table: bool,
        package_name: &str,
        columns: Vec<ResolvedColumn>,
        references: Vec<ResolvedReference>,
        timestamp: Timestamp,
    ) -> (context: GenerationContext)
        ensures
            context@ == (ContextModel {
                entity_name: entity_name@,
                timestamp,
                package_name: package_name@,
                is_link_table,
                columns: columns.deep_view(),
                references: references.deep_view(),
            }),
    {
        GenerationContext {
            entity_name: entity_name.to_owned(),
            timestamp,
            package_name: package_name.to_owned(),
            is_link_table,
            columns,
            references,
        }
    }

    pub fn entity_name(&self) -> (name: &String)
        ensures
            name@ == self@.entity_name,
    {
        &self.entity_name
    }

    pub fn timestamp(&self) -> (timestamp: Timestamp)
        ensures
            timestamp == self@.timestamp,
    {
        self.timestamp
    }

    pub fn package_name(&self) -> (name: &String)
        ensures
            name@ == self@.package_name,
    {
        &self.package_name
    }

    pub fn is_link_table(&self) -> (is_link: bool)
        ensures
            is_link == self@.is_link_table,
    {
        self.is_link_table
    }

    pub fn columns(&self) -> (columns: &Vec<ResolvedColumn>)
        ensures
            columns.deep_view() == self@.columns,
    {
        &self.columns
    }

    pub fn references(&self) -> (references: &Vec<ResolvedReference>)
        ensures
            references.deep_view() == self@.references,
    {
        &self.references
    }
}

} // verus!

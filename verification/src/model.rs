//! The data that flows from an artifact description to a worker plan.

use vstd::prelude::*;

verus! {

/// The kind of artifact a worker is generated from.
#[derive(Debug, Clone, Copy, PartialEq, Eq, Structural)]
pub enum SourceType {
    OpenApi,
    Graphql,
    Har,
    Docs,
    Url,
    Manual,
}

impl Default for SourceType {
    fn default() -> (r: Self)
        ensures
            r == SourceType::Manual,
    {
        SourceType::Manual
    }
}

/// The source type given, or `Manual` when none is.
pub open spec fn source_type_or_default(t: Option<SourceType>) -> SourceType {
    match t {
        Some(t) => t,
        None => SourceType::Manual,
    }
}

/// What a caller says about the artifact a worker is wanted for.
#[derive(Debug, Clone)]
pub struct ArtifactInput {
    pub name: String,
    pub goal: Option<String>,
    pub source_type: Option<SourceType>,
    pub source: Option<String>,
    pub functions: Vec<String>,
    pub output_dir: Option<String>,
}

/// The side effects a generated function declares.
#[derive(Debug, Clone, Copy, PartialEq, Eq, Structural)]
pub enum SideEffects {
    Read,
    Write,
    Sync,
    ExternalCall,
}

/// One named field of a flat JSON object schema and its description.
#[derive(Debug, Clone)]
pub struct SchemaField {
    pub name: String,
    pub description: String,
}

/// The plan of one function of a generated worker.
#[derive(Debug, Clone)]
pub struct WorkerFunctionPlan {
    pub function_id: String,
    pub purpose: String,
    pub side_effects: SideEffects,
    pub inputs: Vec<SchemaField>,
    pub output: Vec<SchemaField>,
}

/// The plan of a whole generated worker.
#[derive(Debug, Clone)]
pub struct WorkerPlan {
    pub worker_name: String,
    pub namespace: String,
    pub source_type: SourceType,
    pub source: Option<String>,
    pub goal: String,
    pub functions: Vec<WorkerFunctionPlan>,
    pub uses_workers: Vec<String>,
    pub notes: Vec<String>,
}

/// What inspecting an artifact suggests.
#[derive(Debug, Clone)]
pub struct InspectResult {
    pub name: String,
    pub namespace: String,
    pub source_type: SourceType,
    pub source: Option<String>,
    pub suggested_functions: Vec<String>,
    pub recommendation: String,
    pub existing_workers_to_use: Vec<String>,
}

/// The outcome of checking a generated worker against its plan.
#[derive(Debug, Clone)]
pub struct VerificationReport {
    pub ok: bool,
    pub worker_path: String,
    pub function_count: usize,
    pub missing_registrations: Vec<String>,
}

/// The text of an optional string, empty when absent.
pub open spec fn opt_text(o: Option<String>) -> Seq<char> {
    match o {
        Some(s) => s@,
        None => seq![],
    }
}

/// A schema as pairs of field name and description.
pub open spec fn schema_view(fields: Seq<SchemaField>) -> Seq<(Seq<char>, Seq<char>)> {
    fields.map_values(|f: SchemaField| (f.name@, f.description@))
}

/// A copy of an optional string.
pub fn clone_opt_string(o: &Option<String>) -> (r: Option<String>)
    ensures
        r == *o,
{
    match o {
        Some(s) => Some(s.clone()),
        None => None,
    }
}

/// A copy of a list of strings.
pub fn clone_strings(v: &Vec<String>) -> (r: Vec<String>)
    ensures
        r.deep_view() == v.deep_view(),
{
    let mut r: Vec<String> = Vec::new();
    let mut i: usize = 0;
    while i < v.len()
        invariant
            i <= v@.len(),
            r@.len() == i,
            forall|k: int| 0 <= k < i ==> #[trigger] r@[k]@ == v@[k]@,
        decreases v@.len() - i,
    {
        r.push(v[i].clone());
        i = i + 1;
    }
    assert(r.deep_view() == v.deep_view());
    r
}

} // verus!

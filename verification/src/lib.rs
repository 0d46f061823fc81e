//! Planning, rendering and checking of narrowly scoped iii workers.

pub mod text;
pub mod slug;
pub mod model;
pub mod planner;
pub mod render;
pub mod check;

pub use check::check_worker_source;
pub use model::{
    ArtifactInput, InspectResult, SchemaField, SideEffects, SourceType, VerificationReport,
    WorkerFunctionPlan, WorkerPlan,
};
pub use planner::{
    infer_functions, infer_functions_from, inspect_artifact, output_dir_for, plan_function,
    plan_worker,
};
pub use render::{render_worker_cargo, render_worker_readme, render_worker_source};
pub use slug::{slugify, slugify_lowered, titleize};

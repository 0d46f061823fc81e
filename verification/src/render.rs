//! The files of a generated worker, rendered from its plan.

use vstd::prelude::*;
use vstd::string::StringExecFns;
use crate::model::{WorkerFunctionPlan, WorkerPlan};
use crate::text::{
    has_substring, join_with, lemma_substring_in_concat, lemma_substring_middle, replace_all, replace_str,
};

verus! {

/// The handler name of a function: its identifier with `::` turned into `_`.
pub open spec fn handler_name_of(function_id: Seq<char>) -> Seq<char> {
    replace_all(function_id, "::"@, "_"@)
}

/// The registration line of one function in the worker's `main`.
pub open spec fn registration_text(f: WorkerFunctionPlan) -> Seq<char> {
    "    iii.register_function(RegisterFunction::new(\""@ + f.function_id@ + "\", "@
        + handler_name_of(f.function_id@) + "));\n"@
}

/// The start of a function's handler definition: `fn <handler>(`.
pub open spec fn handler_signature_start(f: WorkerFunctionPlan) -> Seq<char> {
    "fn "@ + handler_name_of(f.function_id@) + "("@
}

/// The reminder that a function's handler is still to be written.
pub open spec fn handler_todo(f: WorkerFunctionPlan) -> Seq<char> {
    "// TODO: implement "@ + f.purpose@
}

/// The handler stub of one function.
pub open spec fn handler_text(f: WorkerFunctionPlan) -> Seq<char> {
    "\n/// "@ + f.purpose@ + "\n"@ + handler_signature_start(f) + "input: serde_json::Value) -> serde_json::Value {\n    "@
        + handler_todo(f) + "\n    input\n}\n"@
}

/// The registration lines of all functions, in plan order.
pub open spec fn registrations_text(fs: Seq<WorkerFunctionPlan>) -> Seq<char>
    decreases fs.len(),
{
    if fs.len() == 0 {
        seq![]
    } else {
        registrations_text(fs.drop_last()) + registration_text(fs.last())
    }
}

/// The handler stubs of all functions, in plan order.
pub open spec fn handlers_text(fs: Seq<WorkerFunctionPlan>) -> Seq<char>
    decreases fs.len(),
{
    if fs.len() == 0 {
        seq![]
    } else {
        handlers_text(fs.drop_last()) + handler_text(fs.last())
    }
}

/// The part of the worker's `src/main.rs` before its registrations.
pub open spec fn worker_source_head(plan: WorkerPlan) -> Seq<char> {
    "//! Generated Rust iii worker scaffold for "@ + plan.worker_name@
        + ".\n//!\n//! Registers each planned function with the iii engine; function IDs are kept\n//! explicit so verification can catch drift.\n\nuse iii_sdk::{register_worker, InitOptions, RegisterFunction};\n\nfn main() {\n    let engine_url = std::env::var(\"III_URL\").unwrap_or_else(|_| \"ws://localhost:49134\".to_string());\n    println!(\"starting "@
        + plan.worker_name@ + " against {engine_url}\");\n    let iii = register_worker(&engine_url, InitOptions::default());\n"@
}

/// The part of the worker's `src/main.rs` after its registrations.
pub open spec fn worker_source_tail(plan: WorkerPlan) -> Seq<char> {
    "    std::thread::park();\n    iii.shutdown();\n}\n"@ + handlers_text(plan.functions@)
}

/// The `src/main.rs` of a generated worker.
pub open spec fn worker_source_text(plan: WorkerPlan) -> Seq<char> {
    worker_source_head(plan) + registrations_text(plan.functions@) + worker_source_tail(plan)
}

/// The `Cargo.toml` of a generated worker.
pub open spec fn worker_cargo_text(plan: WorkerPlan) -> Seq<char> {
    "[package]\nname = \""@ + plan.worker_name@
        + "\"\nversion = \"0.1.0\"\nedition = \"2021\"\n\n[dependencies]\nanyhow = \"1.0\"\nserde = { version = \"1.0\", features = [\"derive\"] }\nserde_json = \"1.0\"\n# iii-sdk = \"latest\"\n"@
}

/// The README line of one function.
pub open spec fn readme_line(f: WorkerFunctionPlan) -> Seq<char> {
    "- `"@ + f.function_id@ + "` — "@ + f.purpose@
}

/// The `README.md` of a generated worker.
pub open spec fn worker_readme_text(plan: WorkerPlan) -> Seq<char> {
    "# "@ + plan.worker_name@ + "\n\nGenerated by artifact-cli.\n\n## Functions\n\n"@ + join_with(
        plan.functions@.map_values(|f: WorkerFunctionPlan| readme_line(f)),
        "\n"@,
    ) + "\n"@
}

/// The `src/main.rs` of a generated worker: a scaffold that imports `iii_sdk`,
/// registers one handler per planned function under the function's identifier,
/// and holds a stub for each handler.
pub fn render_worker_source(plan: &WorkerPlan) -> (r: String)
    ensures
        r@ == worker_source_text(*plan),
{
    let mut regs = String::new();
    let mut handlers = String::new();
    let mut i: usize = 0;
    proof {
        reveal_strlit("::");
    }
    while i < plan.functions.len()
        invariant
            i <= plan.functions@.len(),
            regs@ == registrations_text(plan.functions@.take(i as int)),
            handlers@ == handlers_text(plan.functions@.take(i as int)),
            "::"@.len() > 0,
        decreases plan.functions@.len() - i,
    {
        let f = &plan.functions[i];
        let handler = replace_str(f.function_id.as_str(), "::", "_");
        regs.append("    iii.register_function(RegisterFunction::new(\"");
        regs.append(f.function_id.as_str());
        regs.append("\", ");
        regs.append(handler.as_str());
        regs.append("));\n");
        handlers.append("\n/// ");
        handlers.append(f.purpose.as_str());
        handlers.append("\n");
        handlers.append("fn ");
        handlers.append(handler.as_str());
        handlers.append("(");
        handlers.append("input: serde_json::Value) -> serde_json::Value {\n    ");
        handlers.append("// TODO: implement ");
        handlers.append(f.purpose.as_str());
        handlers.append("\n    input\n}\n");
        assert(plan.functions@.take(i + 1).drop_last() == plan.functions@.take(i as int));
        i = i + 1;
    }
    assert(plan.functions@.take(plan.functions@.len() as int) == plan.functions@);
    let mut out = "//! Generated Rust iii worker scaffold for ".to_owned();
    out.append(plan.worker_name.as_str());
    out.append(
        ".\n//!\n//! Registers each planned function with the iii engine; function IDs are kept\n//! explicit so verification can catch drift.\n\nuse iii_sdk::{register_worker, InitOptions, RegisterFunction};\n\nfn main() {\n    let engine_url = std::env::var(\"III_URL\").unwrap_or_else(|_| \"ws://localhost:49134\".to_string());\n    println!(\"starting ",
    );
    out.append(plan.worker_name.as_str());
    out.append(" against {engine_url}\");\n    let iii = register_worker(&engine_url, InitOptions::default());\n");
    out.append(regs.as_str());
    out.append("    std::thread::park();\n    iii.shutdown();\n}\n");
    out.append(handlers.as_str());
    out
}

/// The `Cargo.toml` of a generated worker, named after it.
pub fn render_worker_cargo(plan: &WorkerPlan) -> (r: String)
    ensures
        r@ == worker_cargo_text(*plan),
{
    let mut out = "[package]\nname = \"".to_owned();
    out.append(plan.worker_name.as_str());
    out.append(
        "\"\nversion = \"0.1.0\"\nedition = \"2021\"\n\n[dependencies]\nanyhow = \"1.0\"\nserde = { version = \"1.0\", features = [\"derive\"] }\nserde_json = \"1.0\"\n# iii-sdk = \"latest\"\n",
    );
    out
}

/// The `README.md` of a generated worker: its name and one line per function.
pub fn render_worker_readme(plan: &WorkerPlan) -> (r: String)
    ensures
        r@ == worker_readme_text(*plan),
{
    let ghost lines = plan.functions@.map_values(|f: WorkerFunctionPlan| readme_line(f));
    let mut body = String::new();
    let mut i: usize = 0;
    while i < plan.functions.len()
        invariant
            i <= plan.functions@.len(),
            lines == plan.functions@.map_values(|f: WorkerFunctionPlan| readme_line(f)),
            body@ == join_with(lines.take(i as int), "\n"@),
        decreases plan.functions@.len() - i,
    {
        let ghost before = body@;
        let f = &plan.functions[i];
        if i > 0 {
            body.append("\n");
        }
        body.append("- `");
        body.append(f.function_id.as_str());
        body.append("` — ");
        body.append(f.purpose.as_str());
        assert(lines.take(i + 1).drop_last() == lines.take(i as int));
        assert(lines[i as int] == readme_line(*f));
        if i == 0 {
            assert(before == Seq::<char>::empty());
        }
        i = i + 1;
    }
    assert(lines.take(plan.functions@.len() as int) == lines);
    let mut out = "# ".to_owned();
    out.append(plan.worker_name.as_str());
    out.append("\n\nGenerated by artifact-cli.\n\n## Functions\n\n");
    out.append(body.as_str());
    out.append("\n");
    out
}

proof fn lemma_handlers_hold_stubs(fs: Seq<WorkerFunctionPlan>)
    ensures
        forall|i: int| 0 <= i < fs.len() ==> has_substring(handlers_text(fs), #[trigger] handler_signature_start(fs[i])),
        forall|i: int| 0 <= i < fs.len() ==> has_substring(handlers_text(fs), #[trigger] handler_todo(fs[i])),
    decreases fs.len(),
{
    if fs.len() > 0 {
        let p = fs.drop_last();
        lemma_handlers_hold_stubs(p);
        let f = fs.last();
        let a = "\n/// "@ + f.purpose@ + "\n"@;
        let b = "input: serde_json::Value) -> serde_json::Value {\n    "@;
        let c = "\n    input\n}\n"@;
        let sig = handler_signature_start(f);
        let todo = handler_todo(f);
        assert(handler_text(f) == a + sig + (b + todo + c));
        assert(handler_text(f) == (a + sig + b) + todo + c);
        lemma_substring_middle(a, sig, b + todo + c);
        lemma_substring_middle(a + sig + b, todo, c);
        assert forall|i: int| 0 <= i < fs.len() implies has_substring(handlers_text(fs), #[trigger] handler_signature_start(fs[i])) by {
            lemma_substring_in_concat(handlers_text(p), handler_text(f), handler_signature_start(fs[i]));
            if i < fs.len() - 1 {
                assert(p[i] == fs[i]);
            }
        }
        assert forall|i: int| 0 <= i < fs.len() implies has_substring(handlers_text(fs), #[trigger] handler_todo(fs[i])) by {
            lemma_substring_in_concat(handlers_text(p), handler_text(f), handler_todo(fs[i]));
            if i < fs.len() - 1 {
                assert(p[i] == fs[i]);
            }
        }
    }
}

/// Every function that the worker registers has a handler stub: the rendered
/// source defines `fn <handler>(` for it and holds its `// TODO: implement <purpose>`.
pub proof fn every_registered_handler_has_a_stub(plan: WorkerPlan)
    ensures
        forall|i: int| 0 <= i < plan.functions@.len() ==> has_substring(
            worker_source_text(plan),
            "fn "@ + handler_name_of(#[trigger] plan.functions@[i].function_id@) + "("@,
        ),
        forall|i: int| 0 <= i < plan.functions@.len() ==> has_substring(
            worker_source_text(plan),
            "// TODO: implement "@ + (#[trigger] plan.functions@[i]).purpose@,
        ),
{
    let fs = plan.functions@;
    lemma_handlers_hold_stubs(fs);
    let head = worker_source_head(plan) + registrations_text(fs);
    let t = "    std::thread::park();\n    iii.shutdown();\n}\n"@;
    assert(worker_source_text(plan) == (head + t) + handlers_text(fs));
    assert forall|i: int| 0 <= i < fs.len() implies has_substring(
        worker_source_text(plan),
        "fn "@ + handler_name_of(#[trigger] fs[i].function_id@) + "("@,
    ) by {
        assert(handler_signature_start(fs[i]) == "fn "@ + handler_name_of(fs[i].function_id@) + "("@);
        lemma_substring_in_concat(head + t, handlers_text(fs), handler_signature_start(fs[i]));
    }
    assert forall|i: int| 0 <= i < fs.len() implies has_substring(
        worker_source_text(plan),
        "// TODO: implement "@ + (#[trigger] fs[i]).purpose@,
    ) by {
        assert(handler_todo(fs[i]) == "// TODO: implement "@ + fs[i].purpose@);
        lemma_substring_in_concat(head + t, handlers_text(fs), handler_todo(fs[i]));
    }
}

} // verus!

use artifact_cli::{
    check_worker_source, plan_worker, render_worker_cargo, render_worker_readme,
    render_worker_source, ArtifactInput, SourceType,
};

fn hackernews() -> ArtifactInput {
    ArtifactInput {
        name: "hackernews".into(),
        goal: Some("focused agent access to top stories".into()),
        source_type: Some(SourceType::Docs),
        source: Some("https://github.com/HackerNews/API".into()),
        functions: vec!["top_stories".into(), "get_item".into()],
        output_dir: None,
    }
}

#[test]
fn worker_source_lists_registrations() {
    let plan = plan_worker(&hackernews());
    let source = render_worker_source(&plan);
    let expected = [
        "//! Generated Rust iii worker scaffold for hackernews-worker.\n",
        "//!\n",
        "//! Registers each planned function with the iii engine; function IDs are kept\n",
        "//! explicit so verification can catch drift.\n",
        "\n",
        "use iii_sdk::{register_worker, InitOptions, RegisterFunction};\n",
        "\n",
        "fn main() {\n",
        "    let engine_url = std::env::var(\"III_URL\").unwrap_or_else(|_| \"ws://localhost:49134\".to_string());\n",
        "    println!(\"starting hackernews-worker against {engine_url}\");\n",
        "    let iii = register_worker(&engine_url, InitOptions::default());\n",
        "    iii.register_function(RegisterFunction::new(\"hackernews::top_stories\", hackernews_top_stories));\n",
        "    iii.register_function(RegisterFunction::new(\"hackernews::get_item\", hackernews_get_item));\n",
        "    std::thread::park();\n",
        "    iii.shutdown();\n",
        "}\n",
        "\n",
        "/// Top Stories for the hackernews worker\n",
        "fn hackernews_top_stories(input: serde_json::Value) -> serde_json::Value {\n",
        "    // TODO: implement Top Stories for the hackernews worker\n",
        "    input\n",
        "}\n",
        "\n",
        "/// Get Item for the hackernews worker\n",
        "fn hackernews_get_item(input: serde_json::Value) -> serde_json::Value {\n",
        "    // TODO: implement Get Item for the hackernews worker\n",
        "    input\n",
        "}\n",
    ]
    .join("");
    assert_eq!(source, expected);
}

#[test]
fn worker_cargo_and_readme() {
    let plan = plan_worker(&hackernews());
    assert_eq!(
        render_worker_cargo(&plan),
        "[package]\nname = \"hackernews-worker\"\nversion = \"0.1.0\"\nedition = \"2021\"\n\n[dependencies]\nanyhow = \"1.0\"\nserde = { version = \"1.0\", features = [\"derive\"] }\nserde_json = \"1.0\"\n# iii-sdk = \"latest\"\n"
    );
    assert_eq!(
        render_worker_readme(&plan),
        "# hackernews-worker\n\nGenerated by artifact-cli.\n\n## Functions\n\n- `hackernews::top_stories` — Top Stories for the hackernews worker\n- `hackernews::get_item` — Get Item for the hackernews worker\n"
    );
}

#[test]
fn rendered_worker_passes_its_check() {
    let plan = plan_worker(&hackernews());
    let source = render_worker_source(&plan);
    let report = check_worker_source(&plan, "w/src/main.rs".into(), &source);
    assert!(report.ok, "missing: {:?}", report.missing_registrations);
    assert_eq!(report.function_count, 2);
    assert_eq!(report.worker_path, "w/src/main.rs");
    assert!(report.missing_registrations.is_empty());
}

#[test]
fn check_reports_drifted_registrations() {
    let plan = plan_worker(&hackernews());
    let source = "fn main() { /* hackernews::get_item */ }";
    let report = check_worker_source(&plan, "main.rs".into(), source);
    assert!(!report.ok);
    assert_eq!(report.function_count, 2);
    assert_eq!(report.missing_registrations, vec!["hackernews::top_stories"]);
}

#[test]
fn generates_and_verifies_rust_worker_scaffold_using_iii_sdk_apis() {
    let input = ArtifactInput {
        name: "hackernews".into(),
        goal: Some("focused agent access to top stories".into()),
        source_type: Some(SourceType::Docs),
        source: Some("https://github.com/HackerNews/API".into()),
        functions: vec!["top_stories".into(), "get_item".into()],
        output_dir: None,
    };

    let plan = plan_worker(&input);
    let worker_source = render_worker_source(&plan);
    assert!(worker_source.contains("use iii_sdk::{register_worker, InitOptions, RegisterFunction"));
    assert!(worker_source.contains("iii.register_function(RegisterFunction::new"));
    assert!(!worker_source.contains("// iii.register_function"));

    let verified = check_worker_source(&plan, "src/main.rs".into(), &worker_source);
    assert!(verified.ok, "missing: {:?}", verified.missing_registrations);
    assert_eq!(verified.function_count, 2);
}

use artifact_cli::{
    infer_functions, infer_functions_from, inspect_artifact, output_dir_for, plan_function,
    plan_worker, ArtifactInput, SideEffects, SourceType,
};

fn input(name: &str, goal: Option<&str>, source: Option<&str>) -> ArtifactInput {
    ArtifactInput {
        name: name.into(),
        goal: goal.map(|g| g.into()),
        source_type: None,
        source: source.map(|s| s.into()),
        functions: vec![],
        output_dir: None,
    }
}

#[test]
fn source_type_defaults_to_manual() {
    assert_eq!(SourceType::default(), SourceType::Manual);
    let inspected = inspect_artifact(&input("x", None, None));
    assert_eq!(inspected.source_type, SourceType::Manual);
}

#[test]
fn inference_branches() {
    assert_eq!(infer_functions(&input("HN", None, None)), vec!["top_stories", "get_item", "search_cached_stories"]);
    assert_eq!(infer_functions(&input("tracker", Some("Blocked ISSUES"), None)), vec!["list_items", "blocked_items", "risk_summary"]);
    assert_eq!(infer_functions(&input("kb", None, Some("https://docs.example.com"))), vec!["search", "get_document", "answer_with_sources"]);
    assert_eq!(infer_functions(&input("code", Some("Pull Request review"), None)), vec!["repo_summary", "stale_prs", "open_issues"]);
    assert_eq!(infer_functions(&input("weather", None, None)), vec!["inspect", "list", "get"]);
}

#[test]
fn explicit_functions_are_kept() {
    let mut i = input("hackernews", None, None);
    i.functions = vec!["one".into(), "Two Words".into()];
    assert_eq!(infer_functions(&i), vec!["one", "Two Words"]);
    let inspected = inspect_artifact(&i);
    assert_eq!(inspected.suggested_functions, vec!["hackernews::one", "hackernews::two_words"]);
}

#[test]
fn inference_from_lowered_text() {
    let none: Vec<String> = vec![];
    assert_eq!(infer_functions_from(&none, "hn", ""), vec!["top_stories", "get_item", "search_cached_stories"]);
    assert_eq!(infer_functions_from(&none, "x", "a jira board"), vec!["list_items", "blocked_items", "risk_summary"]);
    assert_eq!(infer_functions_from(&none, "HN", ""), vec!["inspect", "list", "get"]);
}

#[test]
fn planned_function_declares_side_effects() {
    let f = plan_function("crm", "Sync Contacts");
    assert_eq!(f.function_id, "crm::sync_contacts");
    assert_eq!(f.purpose, "Sync Contacts for the crm worker");
    assert_eq!(f.side_effects, SideEffects::Sync);
    assert_eq!(f.inputs.len(), 1);
    assert_eq!(f.inputs[0].name, "force");
    assert_eq!(f.inputs[0].description, "boolean optional; bypass cache when true");
    let names: Vec<&str> = f.output.iter().map(|s| s.name.as_str()).collect();
    assert_eq!(names, vec!["ok", "data", "sources"]);

    let g = plan_function("crm", "get_item");
    assert_eq!(g.side_effects, SideEffects::ExternalCall);
    assert_eq!(g.inputs[0].name, "query");
    assert_eq!(g.inputs[0].description, "string/object; focused request payload for this function");
    assert_eq!(plan_function("crm", "refresh_cache").side_effects, SideEffects::Sync);
}

#[test]
fn plan_of_unnamed_goal() {
    let plan = plan_worker(&input("Github Repo", None, None));
    assert_eq!(plan.namespace, "github_repo");
    assert_eq!(plan.worker_name, "github-repo-worker");
    assert_eq!(plan.goal, "Expose focused agent-operable functions for Github Repo.");
    assert_eq!(plan.source_type, SourceType::Manual);
    assert_eq!(
        plan.uses_workers,
        vec!["iii-state", "iii-queue", "iii-sandbox", "iii-http", "iii-observability"]
    );
    assert_eq!(plan.notes.len(), 4);
    assert_eq!(plan.notes[0], "Keep function count small and job-specific.");
    let ids: Vec<&str> = plan.functions.iter().map(|f| f.function_id.as_str()).collect();
    assert_eq!(ids, vec!["github_repo::repo_summary", "github_repo::stale_prs", "github_repo::open_issues"]);
}

#[test]
fn plan_and_inspection_agree() {
    let i = input("Linear Risk", Some("blocked issues"), None);
    let plan = plan_worker(&i);
    let inspected = inspect_artifact(&i);
    let ids: Vec<String> = plan.functions.iter().map(|f| f.function_id.clone()).collect();
    assert_eq!(ids, inspected.suggested_functions);
    assert_eq!(plan.namespace, inspected.namespace);
    assert_eq!(
        inspected.existing_workers_to_use,
        vec!["iii-state", "iii-queue", "iii-sandbox", "iii-observability"]
    );
    assert_eq!(
        inspected.recommendation,
        "Generate a narrow iii worker around the specific job, not a generic full API wrapper."
    );
}

#[test]
fn output_directory_defaults_under_generated() {
    let mut i = input("hackernews", None, None);
    let plan = plan_worker(&i);
    assert_eq!(output_dir_for(&i, &plan), "generated/hackernews-worker");
    i.output_dir = Some("/tmp/out".into());
    assert_eq!(output_dir_for(&i, &plan), "/tmp/out");
}

#[test]
fn inference_ignores_ascii_case_of_text() {
    let a = input("GitHub Repo", Some("Pull Request checks"), Some("HTTPS://API.GITHUB.COM"));
    let b = input("github repo", Some("pull request CHECKS"), Some("https://api.github.com"));
    assert_eq!(infer_functions(&a), infer_functions(&b));
    assert_eq!(infer_functions(&a), vec!["repo_summary", "stale_prs", "open_issues"]);
}

#[test]
fn inference_ignores_ascii_case_beside_unicode_text() {
    let a = input("Über Tracker", Some("Blocked Issues für Teams"), None);
    let b = input("über tracker", Some("BLOCKED ISSUES FüR TEAMS"), None);
    assert_eq!(infer_functions(&a), infer_functions(&b));
    assert_eq!(infer_functions(&a), vec!["list_items", "blocked_items", "risk_summary"]);
}

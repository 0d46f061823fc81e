//! Choosing the few functions a worker exposes, and planning the worker.

use vstd::prelude::*;
use vstd::string::StringExecFns;
use crate::model::{
    clone_opt_string, clone_strings, opt_text, schema_view, source_type_or_default, ArtifactInput,
    InspectResult, SchemaField, SideEffects, SourceType, WorkerFunctionPlan, WorkerPlan,
};
use crate::slug::{is_lower_slug, is_slug, slug_is_well_formed, slug_of, slugify, title_of, titleize};
use crate::text::{
    ascii_fold, contains_str, has_substring, lemma_ascii_fold_concat, lemma_fold_keeps_non_ascii,
    lemma_lower_each_fold, lower_each, lowercase_str, replace_char, replace_char_in, str_equal, str_lowercase,
};

verus! {

/// The text that function inference searches: goal, source and name, space separated.
pub open spec fn haystack_of(input: ArtifactInput) -> Seq<char> {
    opt_text(input.goal) + seq![' '] + opt_text(input.source) + seq![' '] + input.name@
}

/// The functions of a worker: those given explicitly, else a small job-specific
/// set chosen from the lowercased name and the lowercased haystack.
pub open spec fn inferred_from(
    functions: Seq<Seq<char>>,
    name_lower: Seq<char>,
    haystack_lower: Seq<char>,
) -> Seq<Seq<char>> {
    if functions.len() > 0 {
        functions
    } else if has_substring(name_lower, "hackernews"@) || name_lower == "hn"@ || has_substring(
        haystack_lower,
        "top stories"@,
    ) {
        seq!["top_stories"@, "get_item"@, "search_cached_stories"@]
    } else if has_substring(haystack_lower, "issue"@) || has_substring(haystack_lower, "linear"@)
        || has_substring(haystack_lower, "jira"@) {
        seq!["list_items"@, "blocked_items"@, "risk_summary"@]
    } else if has_substring(haystack_lower, "search"@) || has_substring(haystack_lower, "docs"@) {
        seq!["search"@, "get_document"@, "answer_with_sources"@]
    } else if has_substring(haystack_lower, "github"@) || has_substring(haystack_lower, "repo"@)
        || has_substring(haystack_lower, "pull request"@) {
        seq!["repo_summary"@, "stale_prs"@, "open_issues"@]
    } else {
        seq!["inspect"@, "list"@, "get"@]
    }
}

/// The functions inferred for an artifact.
pub open spec fn inferred_functions(input: ArtifactInput) -> Seq<Seq<char>> {
    inferred_from(
        input.functions.deep_view(),
        str_lowercase(input.name@),
        str_lowercase(haystack_of(input)),
    )
}

/// The functions inferred for an artifact whose text is lowercased character by character.
pub open spec fn charwise_inferred_functions(input: ArtifactInput) -> Seq<Seq<char>> {
    inferred_from(
        input.functions.deep_view(),
        lower_each(input.name@),
        lower_each(haystack_of(input)),
    )
}

/// The namespaced identifier of a function: `namespace::slug`.
pub open spec fn function_id_of(namespace: Seq<char>, function: Seq<char>) -> Seq<char> {
    namespace + "::"@ + slug_of(function)
}

/// A function whose slug mentions syncing or refreshing.
pub open spec fn is_sync_like(clean: Seq<char>) -> bool {
    has_substring(clean, "sync"@) || has_substring(clean, "refresh"@)
}

pub open spec fn input_schema_of(sync_like: bool) -> Seq<(Seq<char>, Seq<char>)> {
    if sync_like {
        seq![("force"@, "boolean optional; bypass cache when true"@)]
    } else {
        seq![("query"@, "string/object; focused request payload for this function"@)]
    }
}

pub open spec fn output_schema() -> Seq<(Seq<char>, Seq<char>)> {
    seq![
        ("ok"@, "boolean success flag"@),
        ("data"@, "function-specific result payload"@),
        ("sources"@, "optional source/provenance list"@),
    ]
}

/// `p` is the plan of `function` in the worker with the given namespace.
pub open spec fn is_function_plan(p: WorkerFunctionPlan, namespace: Seq<char>, function: Seq<char>) -> bool {
    let clean = slug_of(function);
    let sync_like = is_sync_like(clean);
    &&& p.function_id@ == function_id_of(namespace, function)
    &&& p.purpose@ == title_of(clean) + " for the "@ + namespace + " worker"@
    &&& p.side_effects == (if sync_like { SideEffects::Sync } else { SideEffects::ExternalCall })
    &&& schema_view(p.inputs@) == input_schema_of(sync_like)
    &&& schema_view(p.output@) == output_schema()
}

pub open spec fn recommendation_text() -> Seq<char> {
    "Generate a narrow iii worker around the specific job, not a generic full API wrapper."@
}

pub open spec fn inspect_workers() -> Seq<Seq<char>> {
    seq!["iii-state"@, "iii-queue"@, "iii-sandbox"@, "iii-observability"@]
}

pub open spec fn plan_workers() -> Seq<Seq<char>> {
    seq!["iii-state"@, "iii-queue"@, "iii-sandbox"@, "iii-http"@, "iii-observability"@]
}

pub open spec fn plan_notes() -> Seq<Seq<char>> {
    seq![
        "Keep function count small and job-specific."@,
        "Prefer read-only functions unless the worker explicitly syncs or mutates external state."@,
        "Persist manifests and source fingerprints through iii-state."@,
        "Run generated code checks inside iii-sandbox before publishing."@,
    ]
}

/// The identifiers that inspecting an artifact suggests.
pub open spec fn suggested_ids(input: ArtifactInput) -> Seq<Seq<char>> {
    let namespace = slug_of(input.name@);
    inferred_functions(input).map_values(|f: Seq<char>| function_id_of(namespace, f))
}

/// The namespace and every function slug of an artifact are lowercase slugs,
/// so its function identifiers hold only `[a-z0-9_]` and the `::` between.
pub open spec fn has_lowercase_ids(input: ArtifactInput) -> bool {
    &&& is_lower_slug(slug_of(input.name@))
    &&& forall|i: int| 0 <= i < inferred_functions(input).len() ==> is_lower_slug(
        #[trigger] slug_of(inferred_functions(input)[i]),
    )
}

/// `r` is what inspecting `input` gives.
pub open spec fn is_inspection_of(input: ArtifactInput, r: InspectResult) -> bool {
    &&& r.name@ == input.name@
    &&& r.namespace@ == slug_of(input.name@)
    &&& r.source_type == source_type_or_default(input.source_type)
    &&& r.source == input.source
    &&& r.suggested_functions.deep_view() == suggested_ids(input)
    &&& r.recommendation@ == recommendation_text()
    &&& r.existing_workers_to_use.deep_view() == inspect_workers()
}

/// The name of the worker in a namespace: underscores become dashes, `-worker` follows.
pub open spec fn worker_name_of(namespace: Seq<char>) -> Seq<char> {
    replace_char(namespace, '_', '-') + "-worker"@
}

pub open spec fn goal_of(input: ArtifactInput) -> Seq<char> {
    match input.goal {
        Some(g) => g@,
        None => "Expose focused agent-operable functions for "@ + input.name@ + "."@,
    }
}

/// `p` is the plan of a worker for `input`.
pub open spec fn is_plan_of(input: ArtifactInput, p: WorkerPlan) -> bool {
    let namespace = slug_of(input.name@);
    let fs = inferred_functions(input);
    &&& p.namespace@ == namespace
    &&& p.worker_name@ == worker_name_of(namespace)
    &&& p.source_type == source_type_or_default(input.source_type)
    &&& p.source == input.source
    &&& p.goal@ == goal_of(input)
    &&& p.functions@.len() == fs.len()
    &&& forall|i: int| 0 <= i < fs.len() ==> is_function_plan(#[trigger] p.functions@[i], namespace, fs[i])
    &&& p.uses_workers.deep_view() == plan_workers()
    &&& p.notes.deep_view() == plan_notes()
}

/// The functions of a worker, given the lowercased name and lowercased haystack
/// of its artifact: the explicit ones when there are any, else a fixed set of three
/// matched by keywords.
pub fn infer_functions_from(functions: &Vec<String>, name_lower: &str, haystack_lower: &str) -> (r: Vec<String>)
    ensures
        r.deep_view() == inferred_from(functions.deep_view(), name_lower@, haystack_lower@),
{
    if functions.len() > 0 {
        return clone_strings(functions);
    }
    let h = haystack_lower;
    if contains_str(name_lower, "hackernews") || str_equal(name_lower, "hn") || contains_str(h, "top stories") {
        return vec!["top_stories".to_owned(), "get_item".to_owned(), "search_cached_stories".to_owned()];
    }
    if contains_str(h, "issue") || contains_str(h, "linear") || contains_str(h, "jira") {
        return vec!["list_items".to_owned(), "blocked_items".to_owned(), "risk_summary".to_owned()];
    }
    if contains_str(h, "search") || contains_str(h, "docs") {
        return vec!["search".to_owned(), "get_document".to_owned(), "answer_with_sources".to_owned()];
    }
    if contains_str(h, "github") || contains_str(h, "repo") || contains_str(h, "pull request") {
        return vec!["repo_summary".to_owned(), "stale_prs".to_owned(), "open_issues".to_owned()];
    }
    vec!["inspect".to_owned(), "list".to_owned(), "get".to_owned()]
}

/// The functions inferred for an artifact.
pub fn infer_functions(input: &ArtifactInput) -> (r: Vec<String>)
    ensures
        r.deep_view() == inferred_functions(*input),
        !input.name@.contains('\u{3A3}') && !haystack_of(*input).contains('\u{3A3}') ==> r.deep_view()
            == charwise_inferred_functions(*input),
{
    let mut haystack = String::new();
    match &input.goal {
        Some(g) => haystack.append(g.as_str()),
        None => {},
    }
    haystack.append(" ");
    match &input.source {
        Some(s) => haystack.append(s.as_str()),
        None => {},
    }
    haystack.append(" ");
    haystack.append(input.name.as_str());
    proof {
        reveal_strlit(" ");
    }
    assert(haystack@ == haystack_of(*input));
    let haystack_lower = lowercase_str(haystack.as_str());
    let name_lower = lowercase_str(input.name.as_str());
    infer_functions_from(&input.functions, name_lower.as_str(), haystack_lower.as_str())
}

fn schema_field(name: &str, description: &str) -> (f: SchemaField)
    ensures
        f.name@ == name@,
        f.description@ == description@,
{
    SchemaField { name: name.to_owned(), description: description.to_owned() }
}

/// The plan of one function of the worker in `namespace`: its namespaced slug as
/// identifier, a titled purpose, and a declared side effect (`Sync` for functions
/// that sync or refresh, `ExternalCall` otherwise) with matching schemas.
pub fn plan_function(namespace: &str, function: &str) -> (p: WorkerFunctionPlan)
    ensures
        is_function_plan(p, namespace@, function@),
        is_lower_slug(slug_of(function@)),
{
    let clean = slugify(function);
    let sync_like = contains_str(clean.as_str(), "sync") || contains_str(clean.as_str(), "refresh");
    let mut function_id = namespace.to_owned();
    function_id.append("::");
    function_id.append(clean.as_str());
    let mut purpose = titleize(clean.as_str());
    purpose.append(" for the ");
    purpose.append(namespace);
    purpose.append(" worker");
    let inputs = if sync_like {
        vec![schema_field("force", "boolean optional; bypass cache when true")]
    } else {
        vec![schema_field("query", "string/object; focused request payload for this function")]
    };
    let output = vec![
        schema_field("ok", "boolean success flag"),
        schema_field("data", "function-specific result payload"),
        schema_field("sources", "optional source/provenance list"),
    ];
    let p = WorkerFunctionPlan {
        function_id,
        purpose,
        side_effects: if sync_like {
            SideEffects::Sync
        } else {
            SideEffects::ExternalCall
        },
        inputs,
        output,
    };
    assert(schema_view(p.inputs@) == input_schema_of(sync_like));
    assert(schema_view(p.output@) == output_schema());
    p
}

/// Inspects an artifact: its namespace, its source type (`Manual` by default) and the
/// namespaced functions a narrow worker around it would expose.
pub fn inspect_artifact(input: &ArtifactInput) -> (r: InspectResult)
    ensures
        is_inspection_of(*input, r),
        has_lowercase_ids(*input),
{
    let namespace = slugify(input.name.as_str());
    let source_type = match input.source_type {
        Some(t) => t,
        None => SourceType::default(),
    };
    let functions = infer_functions(input);
    let mut suggested: Vec<String> = Vec::new();
    let mut i: usize = 0;
    while i < functions.len()
        invariant
            i <= functions@.len(),
            functions.deep_view() == inferred_functions(*input),
            namespace@ == slug_of(input.name@),
            suggested@.len() == i,
            forall|k: int| 0 <= k < i ==> #[trigger] suggested@[k]@ == function_id_of(namespace@, functions@[k]@),
            forall|k: int| 0 <= k < i ==> is_lower_slug(#[trigger] slug_of(functions@[k]@)),
        decreases functions@.len() - i,
    {
        let mut id = namespace.clone();
        id.append("::");
        let slug = slugify(functions[i].as_str());
        id.append(slug.as_str());
        suggested.push(id);
        i = i + 1;
    }
    let ghost fs = inferred_functions(*input);
    assert(suggested.deep_view() == suggested_ids(*input)) by {
        assert(suggested.deep_view().len() == fs.len());
        assert forall|k: int| 0 <= k < fs.len() implies #[trigger] suggested.deep_view()[k] == suggested_ids(*input)[k] by {
            assert(functions@[k]@ == fs[k]);
        }
    }
    assert forall|k: int| 0 <= k < fs.len() implies is_lower_slug(#[trigger] slug_of(fs[k])) by {
        assert(functions@[k]@ == fs[k]);
    }
    let workers = vec![
        "iii-state".to_owned(),
        "iii-queue".to_owned(),
        "iii-sandbox".to_owned(),
        "iii-observability".to_owned(),
    ];
    assert(workers.deep_view() == inspect_workers());
    InspectResult {
        name: input.name.clone(),
        namespace,
        source_type,
        source: clone_opt_string(&input.source),
        suggested_functions: suggested,
        recommendation: "Generate a narrow iii worker around the specific job, not a generic full API wrapper.".to_owned(),
        existing_workers_to_use: workers,
    }
}

/// Plans a worker for an artifact: a namespace and worker name from the artifact's
/// name, one planned function per inferred function, the iii workers it composes
/// with and the notes that keep it narrow.
pub fn plan_worker(input: &ArtifactInput) -> (p: WorkerPlan)
    ensures
        is_plan_of(*input, p),
        has_lowercase_ids(*input),
{
    let namespace = slugify(input.name.as_str());
    let source_type = match input.source_type {
        Some(t) => t,
        None => SourceType::default(),
    };
    let inferred = infer_functions(input);
    let mut functions: Vec<WorkerFunctionPlan> = Vec::new();
    let mut i: usize = 0;
    while i < inferred.len()
        invariant
            i <= inferred@.len(),
            inferred.deep_view() == inferred_functions(*input),
            namespace@ == slug_of(input.name@),
            functions@.len() == i,
            forall|k: int| 0 <= k < i ==> is_function_plan(#[trigger] functions@[k], namespace@, inferred@[k]@),
            forall|k: int| 0 <= k < i ==> is_lower_slug(#[trigger] slug_of(inferred@[k]@)),
        decreases inferred@.len() - i,
    {
        functions.push(plan_function(namespace.as_str(), inferred[i].as_str()));
        i = i + 1;
    }
    let ghost fs = inferred_functions(*input);
    assert forall|k: int| 0 <= k < fs.len() implies is_function_plan(#[trigger] functions@[k], namespace@, fs[k]) by {
        assert(inferred@[k]@ == fs[k]);
    }
    assert forall|k: int| 0 <= k < fs.len() implies is_lower_slug(#[trigger] slug_of(fs[k])) by {
        assert(inferred@[k]@ == fs[k]);
    }
    let mut worker_name = replace_char_in(namespace.as_str(), '_', '-');
    worker_name.append("-worker");
    let goal = match &input.goal {
        Some(g) => g.clone(),
        None => {
            let mut g = "Expose focused agent-operable functions for ".to_owned();
            g.append(input.name.as_str());
            g.append(".");
            g
        },
    };
    let uses_workers = vec![
        "iii-state".to_owned(),
        "iii-queue".to_owned(),
        "iii-sandbox".to_owned(),
        "iii-http".to_owned(),
        "iii-observability".to_owned(),
    ];
    assert(uses_workers.deep_view() == plan_workers());
    let notes = vec![
        "Keep function count small and job-specific.".to_owned(),
        "Prefer read-only functions unless the worker explicitly syncs or mutates external state.".to_owned(),
        "Persist manifests and source fingerprints through iii-state.".to_owned(),
        "Run generated code checks inside iii-sandbox before publishing.".to_owned(),
    ];
    assert(notes.deep_view() == plan_notes());
    WorkerPlan {
        worker_name,
        namespace,
        source_type,
        source: clone_opt_string(&input.source),
        goal,
        functions,
        uses_workers,
        notes,
    }
}

/// Where a worker is written: the directory the input names, else
/// `generated/<worker name>`.
pub fn output_dir_for(input: &ArtifactInput, plan: &WorkerPlan) -> (dir: String)
    ensures
        dir@ == match input.output_dir {
            Some(d) => d@,
            None => "generated/"@ + plan.worker_name@,
        },
{
    match &input.output_dir {
        Some(d) => d.clone(),
        None => {
            let mut dir = "generated/".to_owned();
            dir.append(plan.worker_name.as_str());
            dir
        },
    }
}

/// Artifacts whose name, goal and source differ only in the case of ASCII letters
/// get the same functions: their character-by-character lowercasings agree, and
/// they hold `Σ` alike, so `infer_functions` returns the same for both wherever its
/// text holds no `Σ`.
pub proof fn inference_ignores_ascii_case(a: ArtifactInput, b: ArtifactInput)
    requires
        a.functions.deep_view() == b.functions.deep_view(),
        ascii_fold(a.name@) == ascii_fold(b.name@),
        ascii_fold(opt_text(a.goal)) == ascii_fold(opt_text(b.goal)),
        ascii_fold(opt_text(a.source)) == ascii_fold(opt_text(b.source)),
    ensures
        charwise_inferred_functions(a) == charwise_inferred_functions(b),
        a.name@.contains('\u{3A3}') <==> b.name@.contains('\u{3A3}'),
        haystack_of(a).contains('\u{3A3}') <==> haystack_of(b).contains('\u{3A3}'),
{
    assert forall|x: ArtifactInput| #[trigger] ascii_fold(haystack_of(x)) == ascii_fold(opt_text(x.goal))
        + ascii_fold(seq![' ']) + ascii_fold(opt_text(x.source)) + ascii_fold(seq![' ']) + ascii_fold(x.name@) by {
        let g = opt_text(x.goal);
        let s = opt_text(x.source);
        lemma_ascii_fold_concat(g, seq![' ']);
        lemma_ascii_fold_concat(g + seq![' '], s);
        lemma_ascii_fold_concat(g + seq![' '] + s, seq![' ']);
        lemma_ascii_fold_concat(g + seq![' '] + s + seq![' '], x.name@);
    }
    assert(ascii_fold(haystack_of(a)) == ascii_fold(haystack_of(b)));
    lemma_lower_each_fold(a.name@, b.name@);
    lemma_lower_each_fold(haystack_of(a), haystack_of(b));
    lemma_fold_keeps_non_ascii(a.name@, b.name@, '\u{3A3}');
    lemma_fold_keeps_non_ascii(haystack_of(a), haystack_of(b), '\u{3A3}');
}

/// A worker keeps the functions its artifact names; only when none are named
/// does it get exactly three inferred ones.
pub proof fn explicit_functions_kept_else_three(input: ArtifactInput)
    ensures
        input.functions@.len() > 0 ==> inferred_functions(input) == input.functions.deep_view(),
        input.functions@.len() == 0 ==> inferred_functions(input).len() == 3,
{
    assert(input.functions.deep_view().len() == input.functions@.len());
}

/// Planning and inspecting the same artifact agree on namespace, source type,
/// source and on the function identifiers, in order.
pub proof fn plan_matches_inspection(input: ArtifactInput, plan: WorkerPlan, inspected: InspectResult)
    requires
        is_plan_of(input, plan),
        is_inspection_of(input, inspected),
    ensures
        plan.namespace@ == inspected.namespace@,
        plan.source_type == inspected.source_type,
        plan.source == inspected.source,
        plan.functions@.map_values(|f: WorkerFunctionPlan| f.function_id@) == inspected.suggested_functions.deep_view(),
{
    let ids = plan.functions@.map_values(|f: WorkerFunctionPlan| f.function_id@);
    let fs = inferred_functions(input);
    assert forall|i: int| 0 <= i < ids.len() implies #[trigger] ids[i] == inspected.suggested_functions.deep_view()[i] by {
        assert(is_function_plan(plan.functions@[i], slug_of(input.name@), fs[i]));
    }
    assert(ids == inspected.suggested_functions.deep_view());
}

/// Every planned function identifier is the worker's namespace, `::`, and a
/// well-formed slug of the function; the namespace is a well-formed slug too.
pub proof fn planned_ids_are_namespaced_slugs(input: ArtifactInput, plan: WorkerPlan)
    requires
        is_plan_of(input, plan),
    ensures
        is_slug(plan.namespace@),
        forall|i: int| 0 <= i < plan.functions@.len() ==> {
            let s = slug_of(inferred_functions(input)[i]);
            &&& is_slug(s)
            &&& #[trigger] plan.functions@[i].function_id@ == plan.namespace@ + "::"@ + s
        },
{
    slug_is_well_formed(input.name@);
    let fs = inferred_functions(input);
    assert forall|i: int| 0 <= i < plan.functions@.len() implies {
        let s = slug_of(fs[i]);
        &&& is_slug(s)
        &&& #[trigger] plan.functions@[i].function_id@ == plan.namespace@ + "::"@ + s
    } by {
        slug_is_well_formed(fs[i]);
        assert(is_function_plan(plan.functions@[i], slug_of(input.name@), fs[i]));
    }
}

/// A worker's name holds no underscore and ends in `-worker`.
pub proof fn worker_name_is_dashed(namespace: Seq<char>)
    ensures
        forall|i: int| 0 <= i < worker_name_of(namespace).len() ==> #[trigger] worker_name_of(namespace)[i] != '_',
        worker_name_of(namespace).skip(namespace.len() as int) == "-worker"@,
{
    reveal_strlit("-worker");
    let r = replace_char(namespace, '_', '-');
    assert forall|i: int| 0 <= i < worker_name_of(namespace).len() implies #[trigger] worker_name_of(namespace)[i] != '_' by {
        if i < r.len() {
            assert(worker_name_of(namespace)[i] == r[i]);
        } else {
            assert(worker_name_of(namespace)[i] == "-worker"@[i - r.len()]);
        }
    }
    assert(worker_name_of(namespace).skip(namespace.len() as int) == "-worker"@);
}

/// The lowercased name or haystack names Hacker News.
pub open spec fn names_hackernews(name_lower: Seq<char>, haystack_lower: Seq<char>) -> bool {
    has_substring(name_lower, "hackernews"@) || name_lower == "hn"@ || has_substring(haystack_lower, "top stories"@)
}

/// How keywords choose a worker's functions when none are given: Hacker News
/// first, then issue trackers (`issue`, `linear`, `jira`), then search (`search`,
/// `docs`), then code hosting (`github`, `repo`, `pull request`), else a generic set.
pub proof fn keywords_choose_functions(functions: Seq<Seq<char>>, name_lower: Seq<char>, haystack_lower: Seq<char>)
    requires
        functions.len() == 0,
    ensures
        names_hackernews(name_lower, haystack_lower) ==> inferred_from(functions, name_lower, haystack_lower)
            == seq!["top_stories"@, "get_item"@, "search_cached_stories"@],
        !names_hackernews(name_lower, haystack_lower) && has_substring(haystack_lower, "issue"@)
            ==> inferred_from(functions, name_lower, haystack_lower) == seq!["list_items"@, "blocked_items"@, "risk_summary"@],
        !names_hackernews(name_lower, haystack_lower) && has_substring(haystack_lower, "linear"@)
            ==> inferred_from(functions, name_lower, haystack_lower) == seq!["list_items"@, "blocked_items"@, "risk_summary"@],
        !names_hackernews(name_lower, haystack_lower) && has_substring(haystack_lower, "jira"@)
            ==> inferred_from(functions, name_lower, haystack_lower) == seq!["list_items"@, "blocked_items"@, "risk_summary"@],
        !names_hackernews(name_lower, haystack_lower) && !has_substring(haystack_lower, "issue"@)
            && !has_substring(haystack_lower, "linear"@) && !has_substring(haystack_lower, "jira"@)
            && (has_substring(haystack_lower, "search"@) || has_substring(haystack_lower, "docs"@))
            ==> inferred_from(functions, name_lower, haystack_lower) == seq!["search"@, "get_document"@, "answer_with_sources"@],
        !names_hackernews(name_lower, haystack_lower) && !has_substring(haystack_lower, "issue"@)
            && !has_substring(haystack_lower, "linear"@) && !has_substring(haystack_lower, "jira"@)
            && !has_substring(haystack_lower, "search"@) && !has_substring(haystack_lower, "docs"@)
            && (has_substring(haystack_lower, "github"@) || has_substring(haystack_lower, "repo"@)
            || has_substring(haystack_lower, "pull request"@))
            ==> inferred_from(functions, name_lower, haystack_lower) == seq!["repo_summary"@, "stale_prs"@, "open_issues"@],
        !names_hackernews(name_lower, haystack_lower) && !has_substring(haystack_lower, "issue"@)
            && !has_substring(haystack_lower, "linear"@) && !has_substring(haystack_lower, "jira"@)
            && !has_substring(haystack_lower, "search"@) && !has_substring(haystack_lower, "docs"@)
            && !has_substring(haystack_lower, "github"@) && !has_substring(haystack_lower, "repo"@)
            && !has_substring(haystack_lower, "pull request"@)
            ==> inferred_from(functions, name_lower, haystack_lower) == seq!["inspect"@, "list"@, "get"@],
{
}

/// Functions given explicitly are the worker's functions, as given and in order.
pub proof fn explicit_functions_are_used_as_given(functions: Seq<Seq<char>>, name_lower: Seq<char>, haystack_lower: Seq<char>)
    requires
        functions.len() > 0,
    ensures
        inferred_from(functions, name_lower, haystack_lower) == functions,
{
}

/// A function whose slug mentions `sync` or `refresh` anywhere is planned as a
/// `Sync` function taking a `force` flag; any other function is an external call
/// taking a `query`. Every function's output has the `ok`, `data` and `sources` fields.
pub proof fn sync_functions_are_declared(p: WorkerFunctionPlan, namespace: Seq<char>, function: Seq<char>)
    requires
        is_function_plan(p, namespace, function),
    ensures
        (has_substring(slug_of(function), "sync"@) || has_substring(slug_of(function), "refresh"@)) ==> {
            &&& p.side_effects == SideEffects::Sync
            &&& schema_view(p.inputs@) == seq![("force"@, "boolean optional; bypass cache when true"@)]
        },
        !(has_substring(slug_of(function), "sync"@) || has_substring(slug_of(function), "refresh"@)) ==> {
            &&& p.side_effects == SideEffects::ExternalCall
            &&& schema_view(p.inputs@) == seq![("query"@, "string/object; focused request payload for this function"@)]
        },
        schema_view(p.output@) == seq![
            ("ok"@, "boolean success flag"@),
            ("data"@, "function-specific result payload"@),
            ("sources"@, "optional source/provenance list"@),
        ],
        p.function_id@ == namespace + "::"@ + slug_of(function),
{
}

} // verus!

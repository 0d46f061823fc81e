//! Checking a generated worker's source against its plan.

use vstd::prelude::*;
use crate::model::{VerificationReport, WorkerFunctionPlan, WorkerPlan};
use crate::render::{
    handler_name_of, registration_text, registrations_text, worker_source_head, worker_source_tail,
    worker_source_text,
};
use crate::text::{contains_str, has_substring, lemma_substring_in_concat, lemma_substring_middle};

verus! {

/// The identifiers of the planned functions that `source` never mentions, in plan order.
pub open spec fn missing_ids(fs: Seq<WorkerFunctionPlan>, source: Seq<char>) -> Seq<Seq<char>>
    decreases fs.len(),
{
    if fs.len() == 0 {
        seq![]
    } else {
        let m = missing_ids(fs.drop_last(), source);
        if has_substring(source, fs.last().function_id@) {
            m
        } else {
            m.push(fs.last().function_id@)
        }
    }
}

/// `r` reports on the worker source `source` at `worker_path` generated for `plan`.
pub open spec fn is_report_of(plan: WorkerPlan, worker_path: String, source: Seq<char>, r: VerificationReport) -> bool {
    &&& r.missing_registrations.deep_view() == missing_ids(plan.functions@, source)
    &&& r.ok == (missing_ids(plan.functions@, source).len() == 0)
    &&& r.function_count == plan.functions@.len()
    &&& r.worker_path == worker_path
}

/// Checks that the worker source names every planned function identifier:
/// the report lists those it does not, and is `ok` exactly when there are none.
pub fn check_worker_source(plan: &WorkerPlan, worker_path: String, worker_source: &str) -> (r: VerificationReport)
    ensures
        is_report_of(*plan, worker_path, worker_source@, r),
{
    let mut missing: Vec<String> = Vec::new();
    let mut i: usize = 0;
    while i < plan.functions.len()
        invariant
            i <= plan.functions@.len(),
            missing.deep_view() == missing_ids(plan.functions@.take(i as int), worker_source@),
        decreases plan.functions@.len() - i,
    {
        let id = &plan.functions[i].function_id;
        assert(plan.functions@.take(i + 1).drop_last() == plan.functions@.take(i as int));
        if !contains_str(worker_source, id.as_str()) {
            let ghost before = missing.deep_view();
            missing.push(id.clone());
            assert(missing.deep_view() == before.push(id@));
        }
        i = i + 1;
    }
    assert(plan.functions@.take(plan.functions@.len() as int) == plan.functions@);
    VerificationReport {
        ok: missing.len() == 0,
        worker_path,
        function_count: plan.functions.len(),
        missing_registrations: missing,
    }
}

proof fn lemma_registrations_name_every_function(fs: Seq<WorkerFunctionPlan>)
    ensures
        forall|i: int| 0 <= i < fs.len() ==> has_substring(registrations_text(fs), #[trigger] fs[i].function_id@),
    decreases fs.len(),
{
    if fs.len() > 0 {
        let p = fs.drop_last();
        lemma_registrations_name_every_function(p);
        let f = fs.last();
        assert forall|i: int| 0 <= i < fs.len() implies has_substring(registrations_text(fs), #[trigger] fs[i].function_id@) by {
            let id = fs[i].function_id@;
            if i < fs.len() - 1 {
                assert(p[i] == fs[i]);
                lemma_substring_in_concat(registrations_text(p), registration_text(f), id);
            } else {
                let a = "    iii.register_function(RegisterFunction::new(\""@;
                let b = "\", "@ + handler_name_of(id) + "));\n"@;
                lemma_substring_middle(a, id, b);
                assert(registration_text(f) == a + id + b);
                lemma_substring_in_concat(registrations_text(p), registration_text(f), id);
            }
        }
    }
}

proof fn lemma_none_missing(fs: Seq<WorkerFunctionPlan>, source: Seq<char>)
    requires
        forall|i: int| 0 <= i < fs.len() ==> has_substring(source, #[trigger] fs[i].function_id@),
    ensures
        missing_ids(fs, source).len() == 0,
    decreases fs.len(),
{
    if fs.len() > 0 {
        let p = fs.drop_last();
        assert forall|i: int| 0 <= i < p.len() implies has_substring(source, #[trigger] p[i].function_id@) by {
            assert(p[i] == fs[i]);
        }
        lemma_none_missing(p, source);
        assert(has_substring(source, fs[fs.len() - 1].function_id@));
    }
}

/// A worker source rendered from a plan registers every planned function:
/// checking it against the same plan finds nothing missing, so identifiers
/// that drift between plan and source are what a failed check reports.
pub proof fn rendered_worker_passes_check(plan: WorkerPlan)
    ensures
        missing_ids(plan.functions@, worker_source_text(plan)).len() == 0,
{
    let fs = plan.functions@;
    let regs = registrations_text(fs);
    let head = worker_source_head(plan);
    let tail = worker_source_tail(plan);
    assert(worker_source_text(plan) == head + regs + tail);
    lemma_registrations_name_every_function(fs);
    assert forall|i: int| 0 <= i < fs.len() implies has_substring(worker_source_text(plan), #[trigger] fs[i].function_id@) by {
        let id = fs[i].function_id@;
        lemma_substring_in_concat(head, regs, id);
        lemma_substring_in_concat(head + regs, tail, id);
    }
    lemma_none_missing(fs, worker_source_text(plan));
}

/// A check reports exactly the planned identifiers that the source lacks: every
/// planned identifier absent from the source is listed, and every listed
/// identifier is a planned one absent from the source.
pub proof fn report_lists_exactly_the_missing_ids(fs: Seq<WorkerFunctionPlan>, source: Seq<char>)
    ensures
        forall|i: int| 0 <= i < fs.len() && !has_substring(source, #[trigger] fs[i].function_id@)
            ==> missing_ids(fs, source).contains(fs[i].function_id@),
        forall|k: int| 0 <= k < missing_ids(fs, source).len() ==> {
            &&& !has_substring(source, #[trigger] missing_ids(fs, source)[k])
            &&& exists|i: int| 0 <= i < fs.len() && fs[i].function_id@ == missing_ids(fs, source)[k]
        },
    decreases fs.len(),
{
    if fs.len() > 0 {
        let p = fs.drop_last();
        report_lists_exactly_the_missing_ids(p, source);
        let m = missing_ids(p, source);
        let last = fs.last().function_id@;
        let mm = missing_ids(fs, source);
        assert forall|i: int| 0 <= i < fs.len() && !has_substring(source, #[trigger] fs[i].function_id@)
            implies mm.contains(fs[i].function_id@) by {
            if i < fs.len() - 1 {
                assert(p[i] == fs[i]);
                let j = choose|j: int| 0 <= j < m.len() && m[j] == fs[i].function_id@;
                assert(mm[j] == m[j]);
            } else {
                assert(mm[mm.len() - 1] == last);
            }
        }
        assert forall|k: int| 0 <= k < mm.len() implies {
            &&& !has_substring(source, #[trigger] mm[k])
            &&& exists|i: int| 0 <= i < fs.len() && fs[i].function_id@ == mm[k]
        } by {
            if k < m.len() {
                assert(mm[k] == m[k]);
                let i = choose|i: int| 0 <= i < p.len() && p[i].function_id@ == m[k];
                assert(fs[i] == p[i]);
            } else {
                assert(mm[k] == last);
                assert(fs[fs.len() - 1].function_id@ == last);
            }
        }
    }
}

} // verus!

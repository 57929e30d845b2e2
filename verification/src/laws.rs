use vstd::prelude::*;
use crate::models::BuildDataView;
use crate::models::ProjectView;
use crate::models::TaskView;
use crate::scan::colon_count;
use crate::parser::lex_lt;
use crate::parser::lex_lt_at;
use crate::parser::spec_add_task;
use crate::parser::spec_keep;
use crate::parser::spec_row_task;
use crate::parser::row_path;
use crate::parser::spec_tasks_fold;
use crate::parser::spec_extract_tasks;
use crate::parser::spec_parse_profile;
use crate::parser::RowMatch;
use crate::analyzer::spec_analyze;
use crate::analyzer::spec_sort_desc;
use crate::analyzer::spec_insert_desc;
use crate::analyzer::spec_flatten;
use crate::analyzer::sum_clamped;

verus! {

/// Every task of every project names at least two hierarchy separators.
pub open spec fn all_tasks_hierarchical(gs: Seq<ProjectView>) -> bool {
    forall|i: int, j: int|
        0 <= i < gs.len() && 0 <= j < gs[i].tasks.len() ==> colon_count(
            (#[trigger] gs[i].tasks[j]).path,
        ) >= 2
}

/// The project list is strictly ascending by identifier.
pub open spec fn projects_sorted(gs: Seq<ProjectView>) -> bool {
    forall|i: int|
        0 <= i < gs.len() - 1 ==> lex_lt((#[trigger] gs[i]).path, gs[i + 1].path)
}

/// The task list is non-increasing by duration.
pub open spec fn tasks_desc(s: Seq<TaskView>) -> bool {
    forall|i: int|
        0 <= i < s.len() - 1 ==> (#[trigger] s[i]).duration >= s[i + 1].duration
}

/// The lexicographic order is total: two sequences with a common prefix up to
/// `i` are ordered one way or the other past it, or equal.
proof fn lemma_lex_total_at(a: Seq<char>, b: Seq<char>, i: int)
    requires
        0 <= i <= a.len(),
        i <= b.len(),
        forall|j: int| 0 <= j < i ==> a[j] == b[j],
    ensures
        lex_lt_at(a, b, i) || lex_lt_at(b, a, i) || a == b,
    decreases a.len() - i,
{
    if i == a.len() && i == b.len() {
        assert(a =~= b);
    } else if i == a.len() {
        assert(lex_lt_at(a, b, i));
    } else if i == b.len() {
        assert(lex_lt_at(b, a, i));
    } else {
        if (a[i] as u32) < (b[i] as u32) {
            assert(lex_lt_at(a, b, i));
        } else if a[i] != b[i] {
            vstd::utf8::char_u32_cast(a[i], a[i] as u32);
            vstd::utf8::char_u32_cast(b[i], b[i] as u32);
            assert((a[i] as u32) != (b[i] as u32));
            assert(lex_lt_at(b, a, i));
        } else {
            lemma_lex_total_at(a, b, i + 1);
        }
    }
}

/// Adding a task keeps the project list strictly sorted, and the new head is
/// either the new key or the old head.
proof fn lemma_add_task_sorted(gs: Seq<ProjectView>, key: Seq<char>, t: TaskView)
    requires
        projects_sorted(gs),
    ensures
        projects_sorted(spec_add_task(gs, key, t)),
        spec_add_task(gs, key, t).len() >= 1,
        spec_add_task(gs, key, t)[0].path == key || (gs.len() >= 1 && spec_add_task(
            gs,
            key,
            t,
        )[0].path == gs[0].path),
    decreases gs.len(),
{
    let r = spec_add_task(gs, key, t);
    if gs.len() == 0 {
    } else if gs[0].path == key {
        assert(forall|i: int| 0 <= i < r.len() ==> (#[trigger] r[i]).path == gs[i].path);
    } else if lex_lt(key, gs[0].path) {
        assert(forall|i: int| 1 <= i < r.len() ==> (#[trigger] r[i]) == gs[i - 1]);
    } else {
        lemma_lex_total_at(key, gs[0].path, 0);
        assert(lex_lt(gs[0].path, key));
        let rest = gs.drop_first();
        assert(forall|i: int| 0 <= i < rest.len() ==> (#[trigger] rest[i]) == gs[i + 1]);
        lemma_add_task_sorted(rest, key, t);
        let rr = spec_add_task(rest, key, t);
        assert(r =~= seq![gs[0]] + rr);
        assert(forall|i: int| 1 <= i < r.len() ==> (#[trigger] r[i]) == rr[i - 1]);
        if rest.len() >= 1 {
            assert(lex_lt(gs[0].path, gs[1].path));
        }
        assert(lex_lt(r[0].path, r[1].path));
    }
}

/// Adding a task with a hierarchical path keeps every path hierarchical.
proof fn lemma_add_task_hierarchical(gs: Seq<ProjectView>, key: Seq<char>, t: TaskView)
    requires
        all_tasks_hierarchical(gs),
        colon_count(t.path) >= 2,
    ensures
        all_tasks_hierarchical(spec_add_task(gs, key, t)),
    decreases gs.len(),
{
    let r = spec_add_task(gs, key, t);
    if gs.len() == 0 {
        assert(r[0].tasks =~= seq![t]);
    } else if gs[0].path == key {
        assert(r[0].tasks =~= gs[0].tasks.push(t));
        assert(forall|i: int| 1 <= i < r.len() ==> (#[trigger] r[i]) == gs[i]);
    } else if lex_lt(key, gs[0].path) {
        assert(r[0].tasks =~= seq![t]);
        assert(forall|i: int| 1 <= i < r.len() ==> (#[trigger] r[i]) == gs[i - 1]);
    } else {
        let rest = gs.drop_first();
        assert(forall|i: int| 0 <= i < rest.len() ==> (#[trigger] rest[i]) == gs[i + 1]);
        lemma_add_task_hierarchical(rest, key, t);
        let rr = spec_add_task(rest, key, t);
        assert(forall|i: int| 1 <= i < r.len() ==> (#[trigger] r[i]) == rr[i - 1]);
    }
}

/// The fold over the surviving rows yields a strictly sorted project list
/// whose every task path is hierarchical.
proof fn lemma_fold_invariants(s: Seq<char>, rows: Seq<RowMatch>)
    ensures
        projects_sorted(spec_tasks_fold(s, rows)),
        all_tasks_hierarchical(spec_tasks_fold(s, rows)),
    decreases rows.len(),
{
    if rows.len() > 0 {
        lemma_fold_invariants(s, rows.drop_last());
        let m = rows.last();
        if spec_keep(s, m) {
            assert(colon_count(spec_row_task(s, m).path) >= 2);
            lemma_add_task_sorted(
                spec_tasks_fold(s, rows.drop_last()),
                crate::parser::spec_project_key(row_path(s, m)),
                spec_row_task(s, m),
            );
            lemma_add_task_hierarchical(
                spec_tasks_fold(s, rows.drop_last()),
                crate::parser::spec_project_key(row_path(s, m)),
                spec_row_task(s, m),
            );
        }
    }
}

/// Every extracted task keeps at least two hierarchy separators in its path:
/// rows with fewer are project subtotals and never reach the output. The
/// project list always comes out strictly ascending by identifier.
pub proof fn lemma_extraction_invariants(s: Seq<char>)
    ensures
        spec_extract_tasks(s) matches Result::Ok(gs) ==> all_tasks_hierarchical(gs)
            && projects_sorted(gs),
{
    if spec_extract_tasks(s) is Ok {
        let h = crate::scan::spec_find(s, 0, "<h2>Task Execution</h2>"@)->0;
        lemma_fold_invariants(s, crate::parser::spec_rows(s, h));
    }
}

/// Stable descending insertion keeps the ranking non-increasing, and the new
/// head is the old head or the inserted task.
proof fn lemma_insert_desc_sorted(s: Seq<TaskView>, t: TaskView)
    requires
        tasks_desc(s),
    ensures
        tasks_desc(spec_insert_desc(s, t)),
        spec_insert_desc(s, t).len() == s.len() + 1,
        spec_insert_desc(s, t)[0] == t || (s.len() >= 1 && spec_insert_desc(s, t)[0] == s[0]),
    decreases s.len(),
{
    let r = spec_insert_desc(s, t);
    if s.len() == 0 {
    } else if s[0].duration >= t.duration {
        let rest = s.drop_first();
        assert(forall|i: int| 0 <= i < rest.len() ==> (#[trigger] rest[i]) == s[i + 1]);
        lemma_insert_desc_sorted(rest, t);
        let rr = spec_insert_desc(rest, t);
        assert(forall|i: int| 1 <= i < r.len() ==> (#[trigger] r[i]) == rr[i - 1]);
        assert(r[0].duration >= r[1].duration);
    } else {
        assert(forall|i: int| 1 <= i < r.len() ==> (#[trigger] r[i]) == s[i - 1]);
    }
}

/// A stable sort by non-increasing duration is non-increasing.
proof fn lemma_sort_desc_sorted(s: Seq<TaskView>)
    ensures
        tasks_desc(spec_sort_desc(s)),
    decreases s.len(),
{
    if s.len() > 0 {
        lemma_sort_desc_sorted(s.drop_last());
        lemma_insert_desc_sorted(spec_sort_desc(s.drop_last()), s.last());
    }
}

/// The ranking of an analysis holds at most ten tasks and is sorted
/// non-increasing by duration.
pub proof fn lemma_ranking_bounded_and_sorted(bd: BuildDataView)
    ensures
        spec_analyze(bd).slowest_tasks.len() <= 10,
        forall|i: int|
            0 <= i < spec_analyze(bd).slowest_tasks.len() - 1 ==> (#[trigger] spec_analyze(
                bd,
            ).slowest_tasks[i]).duration >= spec_analyze(bd).slowest_tasks[i + 1].duration,
{
    lemma_sort_desc_sorted(spec_flatten(bd.projects));
}

/// The per-project aggregates mirror the extracted projects one for one: the
/// same identifiers in the same order, each with its own task count and the
/// clamped sum of its own durations; when the projects are sorted (as the
/// extractor leaves them) the aggregate list is sorted the same way.
pub proof fn lemma_summaries_mirror_projects(bd: BuildDataView)
    ensures
        spec_analyze(bd).project_summary.len() == bd.projects.len(),
        forall|i: int|
            0 <= i < bd.projects.len() ==> (#[trigger] spec_analyze(bd).project_summary[i]).name
                == bd.projects[i].path && spec_analyze(bd).project_summary[i].task_count
                == bd.projects[i].tasks.len() && spec_analyze(bd).project_summary[i].total_duration
                == sum_clamped(bd.projects[i].tasks),
        projects_sorted(bd.projects) ==> forall|i: int|
            0 <= i < bd.projects.len() - 1 ==> lex_lt(
                (#[trigger] spec_analyze(bd).project_summary[i]).name,
                spec_analyze(bd).project_summary[i + 1].name,
            ),
{
}

/// For a run that extraction itself produced, the aggregate list of the
/// analysis is strictly ascending by project identifier.
pub proof fn lemma_extracted_summaries_sorted(s: Seq<char>)
    ensures
        spec_parse_profile(s) matches Result::Ok(bd) ==> forall|i: int|
            0 <= i < spec_analyze(bd).project_summary.len() - 1 ==> lex_lt(
                (#[trigger] spec_analyze(bd).project_summary[i]).name,
                spec_analyze(bd).project_summary[i + 1].name,
            ),
{
    if spec_parse_profile(s) is Ok {
        let bd = spec_parse_profile(s)->Ok_0;
        lemma_extraction_invariants(s);
        lemma_summaries_mirror_projects(bd);
    }
}

/// Extraction and analysis are pure functions of the input text: running the
/// pipeline twice on byte-identical input yields structurally identical
/// results.
pub proof fn lemma_pipeline_deterministic(a: Seq<char>, b: Seq<char>)
    requires
        a == b,
    ensures
        spec_parse_profile(a) == spec_parse_profile(b),
        spec_parse_profile(a) matches Result::Ok(bd) ==> spec_analyze(bd) == spec_analyze(
            spec_parse_profile(b)->Ok_0,
        ),
{
}

} // verus!

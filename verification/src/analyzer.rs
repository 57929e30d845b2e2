use vstd::prelude::*;
use crate::models::BuildAnalysis;
use crate::models::BuildAnalysisView;
use crate::models::BuildDataView;
use crate::models::BuildProfile;
use crate::models::Project;
use crate::models::ProjectSummary;
use crate::models::ProjectSummaryView;
use crate::models::ProjectView;
use crate::models::Task;
use crate::models::TaskSummary;
use crate::models::TaskSummaryView;
use crate::models::TaskView;
use crate::scan::contains_seq;
use crate::scan::spec_find;
use crate::scan::contains_str;
use crate::scan::find_from;
use crate::report::spec_dec_str;
use crate::report::u128_string;

verus! {

/// All tasks of all projects, in project order then discovery order.
pub open spec fn spec_flatten(ps: Seq<ProjectView>) -> Seq<TaskView>
    decreases ps.len(),
{
    if ps.len() == 0 {
        Seq::empty()
    } else {
        spec_flatten(ps.drop_last()) + ps.last().tasks
    }
}

/// Stable insertion of a task into a non-increasing ranking: the task goes
/// after every task that lasted at least as long.
pub open spec fn spec_insert_desc(s: Seq<TaskView>, t: TaskView) -> Seq<TaskView>
    decreases s.len(),
{
    if s.len() == 0 {
        seq![t]
    } else if s[0].duration >= t.duration {
        seq![s[0]] + spec_insert_desc(s.drop_first(), t)
    } else {
        seq![t] + s
    }
}

/// Stable sort by non-increasing duration.
pub open spec fn spec_sort_desc(s: Seq<TaskView>) -> Seq<TaskView>
    decreases s.len(),
{
    if s.len() == 0 {
        Seq::empty()
    } else {
        spec_insert_desc(spec_sort_desc(s.drop_last()), s.last())
    }
}

/// Sum of all task durations.
pub open spec fn spec_sum(s: Seq<TaskView>) -> int
    decreases s.len(),
{
    if s.len() == 0 {
        0
    } else {
        spec_sum(s.drop_last()) + s.last().duration
    }
}

/// Sum of all task durations, saturating at the machine-word bound.
pub open spec fn sum_clamped(s: Seq<TaskView>) -> int {
    if spec_sum(s) > u64::MAX as int {
        u64::MAX as int
    } else {
        spec_sum(s)
    }
}

/// Sum of the durations of the tasks whose path mentions the
/// annotation-processing marker.
pub open spec fn spec_kapt_ms(s: Seq<TaskView>) -> int
    decreases s.len(),
{
    if s.len() == 0 {
        0
    } else {
        spec_kapt_ms(s.drop_last()) + if contains_seq(s.last().path, "kapt"@) {
            s.last().duration
        } else {
            0
        }
    }
}

/// The longest task whose path mentions the compilation-step marker; on equal
/// durations the later one wins, as a running maximum does.
pub open spec fn spec_slow_compile(s: Seq<TaskView>) -> Option<TaskView>
    decreases s.len(),
{
    if s.len() == 0 {
        Option::None
    } else {
        let p = spec_slow_compile(s.drop_last());
        if contains_seq(s.last().path, "compileKotlin"@) {
            match p {
                Option::None => Option::Some(s.last()),
                Option::Some(b) => if s.last().duration >= b.duration {
                    Option::Some(s.last())
                } else {
                    Option::Some(b)
                },
            }
        } else {
            p
        }
    }
}

/// The second hierarchy segment of a path, or the fallback literal when the
/// path has no separator.
pub open spec fn spec_second_segment(p: Seq<char>) -> Seq<char> {
    match spec_find(p, 0, ":"@) {
        Option::None => "unknown"@,
        Option::Some(c1) => {
            let e = match spec_find(p, c1 + 1, ":"@) {
                Option::Some(c2) => c2,
                Option::None => p.len() as int,
            };
            p.subrange(c1 + 1, e)
        },
    }
}

/// Tenths of a percent that `part` is of `total`, rounded half up.
pub open spec fn spec_percent_tenths(part: int, total: int) -> int {
    (2000 * part + total) / (2 * total)
}

/// The annotation-processing tip, shown when that category takes more than a
/// fifth of the build.
pub open spec fn spec_kapt_tip(tenths: int) -> Seq<char> {
    "Kapt takes "@ + spec_dec_str(tenths / 10) + "."@ + spec_dec_str(tenths % 10)
        + "% of build time. Consider migrating to KSP for ~40% improvement"@
}

/// The slow-compilation tip, naming the owning module.
pub open spec fn spec_compile_tip(seg: Seq<char>) -> Seq<char> {
    "Module '"@ + seg + "' has slow Kotlin compilation. Consider splitting into smaller modules"@
}

/// The ordered diagnostic tips for a ranked task list: the two conditional
/// rules in fixed order, then the two unconditional configuration tips.
/// A zero total is treated as a zero share, so it raises no category tip.
pub open spec fn spec_tips(s: Seq<TaskView>, total: int) -> Seq<Seq<char>> {
    let kapt = if spec_kapt_ms(s) > u64::MAX as int {
        u64::MAX as int
    } else {
        spec_kapt_ms(s)
    };
    let first = if total > 0 && 100 * kapt > 20 * total {
        seq![spec_kapt_tip(spec_percent_tenths(kapt, total))]
    } else {
        Seq::empty()
    };
    let second = match spec_slow_compile(s) {
        Option::Some(t) => if t.duration > 30000 {
            seq![spec_compile_tip(spec_second_segment(t.path))]
        } else {
            Seq::empty()
        },
        Option::None => Seq::empty(),
    };
    first + second + seq![
        "Enable Gradle parallel execution: org.gradle.parallel=true"@,
        "Enable configuration cache: org.gradle.configuration-cache=true"@,
    ]
}

/// The task ranking: the flattened task list sorted by non-increasing
/// duration, cut to the ten longest.
pub open spec fn spec_slowest(ps: Seq<ProjectView>) -> Seq<TaskSummaryView> {
    let sorted = spec_sort_desc(spec_flatten(ps));
    let cut = if sorted.len() > 10 {
        sorted.subrange(0, 10)
    } else {
        sorted
    };
    cut.map_values(|t: TaskView| TaskSummaryView { name: t.path, duration: t.duration })
}

/// Per-project aggregates, in the given project order.
pub open spec fn spec_summaries(ps: Seq<ProjectView>) -> Seq<ProjectSummaryView> {
    ps.map_values(
        |p: ProjectView| ProjectSummaryView {
            name: p.path,
            total_duration: sum_clamped(p.tasks),
            task_count: p.tasks.len() as int,
        },
    )
}

/// The whole analysis of an extracted run.
pub open spec fn spec_analyze(bd: BuildDataView) -> BuildAnalysisView {
    BuildAnalysisView {
        total_time: bd.elapsed_total,
        slowest_tasks: spec_slowest(bd.projects),
        project_summary: spec_summaries(bd.projects),
        optimization_tips: spec_tips(spec_sort_desc(spec_flatten(bd.projects)), bd.elapsed_total),
    }
}

/// A field-for-field copy of a task.
fn copy_task(t: &Task) -> (r: Task)
    ensures
        r@ == t@,
{
    Task {
        path: t.path.clone(),
        duration: t.duration,
        result: t.result.clone(),
        task_type: match &t.task_type {
            Option::Some(s) => Option::Some(s.clone()),
            Option::None => Option::None,
        },
    }
}

/// Inserting at the position found by a linear scan realises
/// `spec_insert_desc`.
proof fn lemma_insert_desc_at(s: Seq<TaskView>, t: TaskView, idx: int)
    requires
        0 <= idx <= s.len(),
        forall|j: int| 0 <= j < idx ==> (#[trigger] s[j]).duration >= t.duration,
        idx < s.len() ==> s[idx].duration < t.duration,
    ensures
        spec_insert_desc(s, t) == s.subrange(0, idx) + seq![t] + s.subrange(idx, s.len() as int),
    decreases s.len(),
{
    if s.len() == 0 {
        assert(s.subrange(0, 0) + seq![t] + s.subrange(0, 0) =~= seq![t]);
    } else if idx == 0 {
        assert(s.subrange(0, 0) + seq![t] + s.subrange(0, s.len() as int) =~= seq![t] + s);
    } else {
        let rest = s.drop_first();
        assert(forall|j: int| 0 <= j < idx - 1 ==> (#[trigger] rest[j]) == s[j + 1]);
        lemma_insert_desc_at(rest, t, idx - 1);
        assert(seq![s[0]] + (rest.subrange(0, idx - 1) + seq![t] + rest.subrange(
            idx - 1,
            rest.len() as int,
        )) =~= s.subrange(0, idx) + seq![t] + s.subrange(idx, s.len() as int));
    }
}

/// Position at which a task of duration `d` belongs in a ranking already
/// sorted non-increasing: after every task at least as long.
fn insert_pos(sorted: &Vec<Task>, d: u64) -> (r: usize)
    ensures
        r <= sorted@.len(),
        forall|j: int| 0 <= j < r ==> (#[trigger] sorted@[j]).duration >= d,
        r < sorted@.len() ==> sorted@[r as int].duration < d,
{
    let n: usize = sorted.len();
    let mut idx: usize = 0;
    loop
        invariant
            idx <= n,
            n == sorted@.len(),
            forall|j: int| 0 <= j < idx ==> (#[trigger] sorted@[j]).duration >= d,
        decreases n - idx,
    {
        if idx == n {
            return idx;
        }
        if sorted[idx].duration < d {
            return idx;
        }
        idx += 1;
    }
}

/// The flattened task list sorted by non-increasing duration, stably.
fn sort_tasks_desc(projects: &Vec<Project>) -> (r: Vec<Task>)
    ensures
        r@.map_values(|t: Task| t@) == spec_sort_desc(
            spec_flatten(projects@.map_values(|p: Project| p@)),
        ),
{
    let ghost pv = projects@.map_values(|p: Project| p@);
    let mut flat: Vec<Task> = Vec::new();
    let np: usize = projects.len();
    let mut i: usize = 0;
    proof {
        assert(flat@.map_values(|t: Task| t@) =~= spec_flatten(pv.subrange(0, 0)));
    }
    while i < np
        invariant
            i <= np,
            np == projects@.len(),
            pv == projects@.map_values(|p: Project| p@),
            flat@.map_values(|t: Task| t@) == spec_flatten(pv.subrange(0, i as int)),
        decreases np - i,
    {
        let nt: usize = projects[i].tasks.len();
        let mut j: usize = 0;
        while j < nt
            invariant
                i < np,
                j <= nt,
                np == projects@.len(),
                nt == projects@[i as int].tasks@.len(),
                pv == projects@.map_values(|p: Project| p@),
                flat@.map_values(|t: Task| t@) == spec_flatten(pv.subrange(0, i as int))
                    + pv[i as int].tasks.subrange(0, j as int),
            decreases nt - j,
        {
            let t = copy_task(&projects[i].tasks[j]);
            let ghost fprev = flat@;
            let ghost tx = t;
            flat.push(t);
            proof {
                fprev.lemma_push_map_commute(|t: Task| t@, tx);
                assert(flat@.map_values(|t: Task| t@) == fprev.map_values(|t: Task| t@).push(tx@));
                assert(tx@ == pv[i as int].tasks[j as int]);
                assert((spec_flatten(pv.subrange(0, i as int)) + pv[i as int].tasks.subrange(
                    0,
                    j as int,
                )).push(tx@) =~= spec_flatten(pv.subrange(0, i as int)) + pv[i as int].tasks.subrange(
                    0,
                    j + 1,
                ));
            }
            j += 1;
        }
        proof {
            assert(pv.subrange(0, i + 1).drop_last() =~= pv.subrange(0, i as int));
            assert(pv[i as int].tasks.subrange(0, nt as int) =~= pv[i as int].tasks);
            assert(flat@.map_values(|t: Task| t@) =~= spec_flatten(pv.subrange(0, i + 1)));
        }
        i += 1;
    }
    proof {
        assert(pv.subrange(0, np as int) =~= pv);
    }
    let nf: usize = flat.len();
    let mut sorted: Vec<Task> = Vec::new();
    let ghost fv = flat@.map_values(|t: Task| t@);
    let mut k: usize = 0;
    proof {
        assert(sorted@.map_values(|t: Task| t@) =~= spec_sort_desc(fv.subrange(0, 0)));
    }
    while k < nf
        invariant
            k <= nf,
            nf == flat@.len(),
            fv == flat@.map_values(|t: Task| t@),
            sorted@.map_values(|t: Task| t@) == spec_sort_desc(fv.subrange(0, k as int)),
        decreases nf - k,
    {
        let t = copy_task(&flat[k]);
        let ghost sv = sorted@.map_values(|q: Task| q@);
        let idx = insert_pos(&sorted, t.duration);
        proof {
            assert(forall|j: int| 0 <= j < sv.len() ==> (#[trigger] sv[j]) == sorted@[j]@);
            lemma_insert_desc_at(sv, t@, idx as int);
        }
        sorted.insert(idx, t);
        proof {
            assert(fv.subrange(0, k + 1).drop_last() =~= fv.subrange(0, k as int));
            assert(sorted@.map_values(|q: Task| q@) =~= sv.subrange(0, idx as int) + seq![fv[k as int]]
                + sv.subrange(idx as int, sv.len() as int));
        }
        k += 1;
    }
    proof {
        assert(fv.subrange(0, nf as int) =~= fv);
    }
    sorted
}

/// Sum of the durations of a project's tasks, saturating at the machine-word
/// bound.
fn sum_tasks(tasks: &Vec<Task>) -> (r: u64)
    ensures
        r as int == sum_clamped(tasks@.map_values(|t: Task| t@)),
{
    let ghost tv = tasks@.map_values(|t: Task| t@);
    let n: usize = tasks.len();
    let mut acc: u64 = 0;
    let mut j: usize = 0;
    while j < n
        invariant
            j <= n,
            n == tasks@.len(),
            tv == tasks@.map_values(|t: Task| t@),
            spec_sum(tv.subrange(0, j as int)) <= u64::MAX as int ==> acc as int == spec_sum(
                tv.subrange(0, j as int),
            ),
            spec_sum(tv.subrange(0, j as int)) > u64::MAX as int ==> acc == u64::MAX,
        decreases n - j,
    {
        let d = tasks[j].duration;
        proof {
            assert(tv.subrange(0, j + 1).drop_last() =~= tv.subrange(0, j as int));
            assert(tv.subrange(0, j + 1).last() == tv[j as int]);
        }
        if acc > u64::MAX - d {
            acc = u64::MAX;
        } else {
            acc = acc + d;
        }
        j += 1;
    }
    proof {
        assert(tv.subrange(0, n as int) =~= tv);
    }
    acc
}

/// Consumes the extracted hierarchy and computes rankings, aggregates and
/// heuristic diagnostics; it never touches raw text.
pub struct BuildAnalyzer;

impl BuildAnalyzer {
    /// The ordered diagnostic tips for a ranked task list and a total elapsed
    /// time. Each conditional rule contributes at most one tip; the two
    /// configuration tips always close the list.
    pub fn generate_tips(tasks: &Vec<Task>, total_time: u64) -> (r: Vec<String>)
        ensures
            r@.map_values(|s: String| s@) == spec_tips(
                tasks@.map_values(|t: Task| t@),
                total_time as int,
            ),
    {
        let ghost tv = tasks@.map_values(|t: Task| t@);
        let n: usize = tasks.len();
        let mut tips: Vec<String> = Vec::new();

        // the annotation-processing share of the build
        let mut kapt: u64 = 0;
        let mut j: usize = 0;
        while j < n
            invariant
                j <= n,
                n == tasks@.len(),
                tv == tasks@.map_values(|t: Task| t@),
                spec_kapt_ms(tv.subrange(0, j as int)) <= u64::MAX as int ==> kapt as int
                    == spec_kapt_ms(tv.subrange(0, j as int)),
                spec_kapt_ms(tv.subrange(0, j as int)) > u64::MAX as int ==> kapt == u64::MAX,
            decreases n - j,
        {
            proof {
                assert(tv.subrange(0, j + 1).drop_last() =~= tv.subrange(0, j as int));
                assert(tv.subrange(0, j + 1).last() == tv[j as int]);
            }
            if contains_str(tasks[j].path.as_str(), "kapt") {
                let d = tasks[j].duration;
                if kapt > u64::MAX - d {
                    kapt = u64::MAX;
                } else {
                    kapt = kapt + d;
                }
            }
            j += 1;
        }
        proof {
            assert(tv.subrange(0, n as int) =~= tv);
        }
        if total_time > 0 && (kapt as u128) * 100 > (total_time as u128) * 20 {
            let tenths: u128 = (2000u128 * (kapt as u128) + (total_time as u128)) / (2u128
                * (total_time as u128));
            let mut tip = u128_string(tenths / 10);
            let mut head = String::from_str("Kapt takes ");
            head.append(tip.as_str());
            head.append(".");
            head.append(u128_string(tenths % 10).as_str());
            head.append("% of build time. Consider migrating to KSP for ~40% improvement");
            proof {
                assert(head@ =~= spec_kapt_tip(tenths as int));
            }
            tips.push(head);
        }

        // the longest compilation-step task
        let mut slow: Option<usize> = Option::None;
        let mut k: usize = 0;
        while k < n
            invariant
                k <= n,
                n == tasks@.len(),
                tv == tasks@.map_values(|t: Task| t@),
                match slow {
                    Option::Some(b) => b < k && spec_slow_compile(tv.subrange(0, k as int))
                        == Option::Some(tv[b as int]),
                    Option::None => spec_slow_compile(tv.subrange(0, k as int)) is None,
                },
            decreases n - k,
        {
            proof {
                assert(tv.subrange(0, k + 1).drop_last() =~= tv.subrange(0, k as int));
                assert(tv.subrange(0, k + 1).last() == tv[k as int]);
            }
            if contains_str(tasks[k].path.as_str(), "compileKotlin") {
                match slow {
                    Option::None => {
                        slow = Option::Some(k);
                    },
                    Option::Some(b) => {
                        if tasks[k].duration >= tasks[b].duration {
                            slow = Option::Some(k);
                        }
                    },
                }
            }
            k += 1;
        }
        proof {
            assert(tv.subrange(0, n as int) =~= tv);
        }
        match slow {
            Option::Some(b) => {
                if tasks[b].duration > 30000 {
                    let seg = second_segment(tasks[b].path.as_str());
                    let mut tip = String::from_str("Module '");
                    tip.append(seg.as_str());
                    tip.append(
                        "' has slow Kotlin compilation. Consider splitting into smaller modules",
                    );
                    proof {
                        assert(tip@ =~= spec_compile_tip(spec_second_segment(tv[b as int].path)));
                    }
                    tips.push(tip);
                }
            },
            Option::None => {},
        }

        tips.push(String::from_str("Enable Gradle parallel execution: org.gradle.parallel=true"));
        tips.push(
            String::from_str("Enable configuration cache: org.gradle.configuration-cache=true"),
        );
        proof {
            assert(tips@.map_values(|s: String| s@) =~= spec_tips(tv, total_time as int));
        }
        tips
    }

    /// The full analysis of an extracted run: the ten longest tasks in
    /// non-increasing order, per-project aggregates in the run's project
    /// order, and the diagnostic tips.
    pub fn analyze(profile: &BuildProfile) -> (r: BuildAnalysis)
        ensures
            r@ == spec_analyze(profile@),
    {
        let data = &profile.build_profile;
        let total_time = data.elapsed_total;
        let all_tasks = sort_tasks_desc(&data.projects);
        let ghost sortedv = all_tasks@.map_values(|t: Task| t@);

        let cut: usize = if all_tasks.len() > 10 {
            10
        } else {
            all_tasks.len()
        };
        let mut slowest_tasks: Vec<TaskSummary> = Vec::new();
        let mut i: usize = 0;
        while i < cut
            invariant
                i <= cut,
                cut <= all_tasks@.len(),
                cut == if sortedv.len() > 10 { 10int } else { sortedv.len() as int },
                sortedv == all_tasks@.map_values(|t: Task| t@),
                slowest_tasks@.map_values(|t: TaskSummary| t@) == sortedv.subrange(
                    0,
                    i as int,
                ).map_values(|t: TaskView| TaskSummaryView { name: t.path, duration: t.duration }),
            decreases cut - i,
        {
            let t = &all_tasks[i];
            let ts = TaskSummary { name: t.path.clone(), duration: t.duration };
            let ghost sprev = slowest_tasks@;
            let ghost tsx = ts;
            slowest_tasks.push(ts);
            proof {
                sprev.lemma_push_map_commute(|t: TaskSummary| t@, tsx);
                assert(slowest_tasks@.map_values(|t: TaskSummary| t@) == sprev.map_values(
                    |t: TaskSummary| t@,
                ).push(tsx@));
                assert(sortedv.subrange(0, i + 1) =~= sortedv.subrange(0, i as int).push(
                    sortedv[i as int],
                ));
                sortedv.subrange(0, i as int).lemma_push_map_commute(
                    |t: TaskView| TaskSummaryView { name: t.path, duration: t.duration },
                    sortedv[i as int],
                );
                assert(tsx@ == (TaskSummaryView {
                    name: sortedv[i as int].path,
                    duration: sortedv[i as int].duration,
                }));
                assert(slowest_tasks@.map_values(|t: TaskSummary| t@) == sortedv.subrange(
                    0,
                    i + 1,
                ).map_values(|t: TaskView| TaskSummaryView { name: t.path, duration: t.duration }));
            }
            i += 1;
        }
        proof {
            if sortedv.len() > 10 {
                assert(sortedv.subrange(0, cut as int) =~= sortedv.subrange(0, 10));
            } else {
                assert(sortedv.subrange(0, cut as int) =~= sortedv);
            }
        }

        let ghost pv = data.projects@.map_values(|p: Project| p@);
        let mut project_summary: Vec<ProjectSummary> = Vec::new();
        let np: usize = data.projects.len();
        let mut q: usize = 0;
        proof {
            assert(project_summary@.map_values(|p: ProjectSummary| p@) =~= spec_summaries(
                pv.subrange(0, 0),
            ));
        }
        while q < np
            invariant
                q <= np,
                np == data.projects@.len(),
                pv == data.projects@.map_values(|p: Project| p@),
                project_summary@.map_values(|p: ProjectSummary| p@) == spec_summaries(
                    pv.subrange(0, q as int),
                ),
            decreases np - q,
        {
            let p = &data.projects[q];
            let total_duration = sum_tasks(&p.tasks);
            let task_count = p.tasks.len();
            let ps = ProjectSummary { name: p.path.clone(), total_duration, task_count };
            let ghost qprev = project_summary@;
            let ghost psx = ps;
            project_summary.push(ps);
            proof {
                qprev.lemma_push_map_commute(|p: ProjectSummary| p@, psx);
                assert(project_summary@.map_values(|p: ProjectSummary| p@) == qprev.map_values(
                    |p: ProjectSummary| p@,
                ).push(psx@));
                assert(pv.subrange(0, q + 1) =~= pv.subrange(0, q as int).push(pv[q as int]));
                pv.subrange(0, q as int).lemma_push_map_commute(
                    |p: ProjectView| ProjectSummaryView {
                        name: p.path,
                        total_duration: sum_clamped(p.tasks),
                        task_count: p.tasks.len() as int,
                    },
                    pv[q as int],
                );
                assert(psx@ == (ProjectSummaryView {
                    name: pv[q as int].path,
                    total_duration: sum_clamped(pv[q as int].tasks),
                    task_count: pv[q as int].tasks.len() as int,
                }));
                assert(project_summary@.map_values(|p: ProjectSummary| p@) == spec_summaries(
                    pv.subrange(0, q + 1),
                ));
            }
            q += 1;
        }
        proof {
            assert(pv.subrange(0, np as int) =~= pv);
        }

        let optimization_tips = Self::generate_tips(&all_tasks, total_time);
        BuildAnalysis { total_time, slowest_tasks, project_summary, optimization_tips }
    }
}

/// The second hierarchy segment of a path, or the fallback literal.
fn second_segment(path: &str) -> (r: String)
    ensures
        r@ == spec_second_segment(path@),
{
    proof {
        reveal_strlit(":");
    }
    match find_from(path, 0, ":") {
        Option::None => String::from_str("unknown"),
        Option::Some(c1) => {
            let e: usize = match find_from(path, c1 + 1, ":") {
                Option::Some(c2) => c2,
                Option::None => path.unicode_len(),
            };
            path.substring_char(c1 + 1, e).to_owned()
        },
    }
}

} // verus!

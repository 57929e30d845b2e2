use vstd::prelude::*;
use crate::models::ProfileError;
use crate::models::Project;
use crate::models::ProjectView;
use crate::models::Task;
use crate::models::TaskView;
use crate::models::BuildData;
use crate::models::BuildDataView;
use crate::models::BuildProfile;
use crate::scan::matches_at;
use crate::scan::spec_find;
use crate::scan::spec_skip_ws;
use crate::scan::spec_until_lt;
use crate::scan::spec_trim;
use crate::scan::contains_seq;
use crate::scan::colon_count;
use crate::scan::find_from;
use crate::scan::skip_ws;
use crate::scan::until_lt;
use crate::scan::starts_with_at;
use crate::scan::trim_substring;
use crate::scan::str_eq;
use crate::scan::contains_str;
use crate::scan::count_colons;
use crate::duration::spec_parse_duration;
use crate::duration::parse_duration;

verus! {

/// Lexicographic order on character sequences, decided from position `i` on.
pub open spec fn lex_lt_at(a: Seq<char>, b: Seq<char>, i: int) -> bool
    decreases b.len() - i,
{
    if i < 0 || i >= b.len() {
        false
    } else if i >= a.len() {
        true
    } else if (a[i] as u32) < (b[i] as u32) {
        true
    } else if a[i] != b[i] {
        false
    } else {
        lex_lt_at(a, b, i + 1)
    }
}

/// Strict lexicographic order on character sequences.
pub open spec fn lex_lt(a: Seq<char>, b: Seq<char>) -> bool {
    lex_lt_at(a, b, 0)
}

/// Decides `lex_lt` on the contents of two strings.
pub fn str_lt(a: &str, b: &str) -> (r: bool)
    ensures
        r == lex_lt(a@, b@),
{
    str_lt_from(a, b, 0)
}

fn str_lt_from(a: &str, b: &str, i: usize) -> (r: bool)
    requires
        i <= a@.len(),
        i <= b@.len(),
    ensures
        r == lex_lt_at(a@, b@, i as int),
    decreases b@.len() - i,
{
    let bl: usize = b.unicode_len();
    let al: usize = a.unicode_len();
    if i >= bl {
        false
    } else if i >= al {
        true
    } else {
        let ca = a.get_char(i);
        let cb = b.get_char(i);
        if (ca as u32) < (cb as u32) {
            true
        } else if ca != cb {
            false
        } else {
            str_lt_from(a, b, i + 1)
        }
    }
}

/// Positions of the three captured cells of one task row, and the position
/// just past the row.
pub ghost struct RowMatch {
    pub p0: int,
    pub p1: int,
    pub d0: int,
    pub d1: int,
    pub r0: int,
    pub r1: int,
    pub end: int,
}

/// The same positions as machine words.
pub struct RowSpans {
    pub p0: usize,
    pub p1: usize,
    pub d0: usize,
    pub d1: usize,
    pub r0: usize,
    pub r1: usize,
    pub end: usize,
}

impl View for RowSpans {
    type V = RowMatch;

    open spec fn view(&self) -> RowMatch {
        RowMatch {
            p0: self.p0 as int,
            p1: self.p1 as int,
            d0: self.d0 as int,
            d1: self.d1 as int,
            r0: self.r0 as int,
            r1: self.r1 as int,
            end: self.end as int,
        }
    }
}

/// Position just past a row-opening cell tag at `i`: the literal `<td`,
/// optionally followed by whitespace and the indented-path class attribute,
/// closed by `>`.
pub open spec fn spec_open_end(s: Seq<char>, i: int) -> Option<int> {
    if !matches_at(s, i, "<td"@) {
        Option::None
    } else {
        let j = i + "<td"@.len();
        if j < s.len() && s[j] == '>' {
            Option::Some(j + 1)
        } else {
            let w = spec_skip_ws(s, j);
            if w > j && matches_at(s, w, "class=\"indentPath\""@) {
                let q = w + "class=\"indentPath\""@.len();
                if q < s.len() && s[q] == '>' {
                    Option::Some(q + 1)
                } else {
                    Option::None
                }
            } else {
                Option::None
            }
        }
    }
}

/// A cell opened by `open_pat` after optional whitespace at `from`, capturing
/// the characters up to the closing tag. The captured run must be non-empty
/// unless `allow_empty`. Yields (capture start, capture end, position past
/// the closing tag).
pub open spec fn spec_cell(s: Seq<char>, from: int, open_pat: Seq<char>, allow_empty: bool) -> Option<
    (int, int, int),
> {
    let w = spec_skip_ws(s, from);
    if !matches_at(s, w, open_pat) {
        Option::None
    } else {
        let c0 = w + open_pat.len();
        let c1 = spec_until_lt(s, c0);
        if !allow_empty && c1 <= c0 {
            Option::None
        } else if !matches_at(s, c1, "</td>"@) {
            Option::None
        } else {
            Option::Some((c0, c1, c1 + "</td>"@.len()))
        }
    }
}

/// The three-field row pattern of the task-execution table, matched exactly
/// at position `i`: a path cell, a numeric cell, and a (possibly empty)
/// result cell.
pub open spec fn spec_match_row(s: Seq<char>, i: int) -> Option<RowMatch> {
    match spec_open_end(s, i) {
        Option::None => Option::None,
        Option::Some(p0) => {
            let p1 = spec_until_lt(s, p0);
            if p1 <= p0 || !matches_at(s, p1, "</td>"@) {
                Option::None
            } else {
                match spec_cell(s, p1 + "</td>"@.len(), "<td class=\"numeric\">"@, false) {
                    Option::None => Option::None,
                    Option::Some((d0, d1, de)) => {
                        match spec_cell(s, de, "<td>"@, true) {
                            Option::None => Option::None,
                            Option::Some((r0, r1, re)) => Option::Some(
                                (RowMatch { p0, p1, d0, d1, r0, r1, end: re }),
                            ),
                        }
                    },
                }
            }
        },
    }
}

/// All rows matched at or after `i`, scanning left to right and resuming
/// each search just past the previous match.
pub open spec fn spec_rows(s: Seq<char>, i: int) -> Seq<RowMatch>
    decreases s.len() - i,
{
    if i < 0 || i >= s.len() {
        Seq::empty()
    } else {
        match spec_match_row(s, i) {
            Option::Some(m) => {
                // a match always ends past its start and inside the text;
                // the fallback only keeps the recursion well founded
                let nxt = if i < m.end && m.end <= s.len() {
                    m.end
                } else {
                    i + 1
                };
                seq![m] + spec_rows(s, nxt)
            },
            Option::None => spec_rows(s, i + 1),
        }
    }
}

/// The trimmed path field of a row.
pub open spec fn row_path(s: Seq<char>, m: RowMatch) -> Seq<char> {
    spec_trim(s.subrange(m.p0, m.p1))
}

/// The trimmed duration field of a row.
pub open spec fn row_dur(s: Seq<char>, m: RowMatch) -> Seq<char> {
    spec_trim(s.subrange(m.d0, m.d1))
}

/// The trimmed result field of a row.
pub open spec fn row_res(s: Seq<char>, m: RowMatch) -> Seq<char> {
    spec_trim(s.subrange(m.r0, m.r1))
}

/// A row survives filtering when its path has at least two hierarchy
/// separators (fewer marks a project subtotal row) and its duration is
/// neither the zero literal nor an aggregate marker.
pub open spec fn spec_keep(s: Seq<char>, m: RowMatch) -> bool {
    colon_count(row_path(s, m)) >= 2 && row_dur(s, m) != "0s"@ && !contains_seq(
        row_dur(s, m),
        "(total)"@,
    )
}

/// The task record decoded from a surviving row; an empty result field
/// defaults to the success literal.
pub open spec fn spec_row_task(s: Seq<char>, m: RowMatch) -> TaskView {
    TaskView {
        path: row_path(s, m),
        duration: spec_parse_duration(row_dur(s, m)),
        result: if row_res(s, m).len() == 0 {
            "SUCCESS"@
        } else {
            row_res(s, m)
        },
        task_type: Option::None,
    }
}

/// The owning project identifier of a task path: the second hierarchy
/// segment prefixed with the separator, or the default identifier when the
/// path has too few segments.
pub open spec fn spec_project_key(p: Seq<char>) -> Seq<char> {
    match spec_find(p, 0, ":"@) {
        Option::None => ":app"@,
        Option::Some(c1) => {
            let e = match spec_find(p, c1 + 1, ":"@) {
                Option::Some(c2) => c2,
                Option::None => p.len() as int,
            };
            ":"@ + p.subrange(c1 + 1, e)
        },
    }
}

/// Insert a task into the project list, keeping the list strictly sorted by
/// project identifier and each project's tasks in discovery order.
pub open spec fn spec_add_task(gs: Seq<ProjectView>, key: Seq<char>, t: TaskView) -> Seq<
    ProjectView,
>
    decreases gs.len(),
{
    if gs.len() == 0 {
        seq![ProjectView { path: key, tasks: seq![t] }]
    } else if gs[0].path == key {
        seq![ProjectView { path: gs[0].path, tasks: gs[0].tasks.push(t) }] + gs.drop_first()
    } else if lex_lt(key, gs[0].path) {
        seq![ProjectView { path: key, tasks: seq![t] }] + gs
    } else {
        seq![gs[0]] + spec_add_task(gs.drop_first(), key, t)
    }
}

/// The project list grouped from the surviving rows, in row order.
pub open spec fn spec_tasks_fold(s: Seq<char>, rows: Seq<RowMatch>) -> Seq<ProjectView>
    decreases rows.len(),
{
    if rows.len() == 0 {
        Seq::empty()
    } else {
        let prev = spec_tasks_fold(s, rows.drop_last());
        let m = rows.last();
        if spec_keep(s, m) {
            spec_add_task(prev, spec_project_key(row_path(s, m)), spec_row_task(s, m))
        } else {
            prev
        }
    }
}

/// Total elapsed milliseconds decoded from the cell adjacent to the
/// total-build-time label, or the error naming what was missing.
pub open spec fn spec_extract_total_time(s: Seq<char>) -> Result<int, ProfileError> {
    match spec_find(s, 0, "Total Build Time</td>"@) {
        Option::None => Result::Err(ProfileError::NotFound),
        Option::Some(p) => {
            match spec_cell(s, p + "Total Build Time</td>"@.len(), "<td class=\"numeric\">"@, false) {
                Option::None => Result::Err(ProfileError::ParseFailure),
                Option::Some((c0, c1, _e)) => Result::Ok(
                    spec_parse_duration(s.subrange(c0, c1)),
                ),
            }
        },
    }
}

/// The project list extracted from the task-execution section, or the error
/// naming what went wrong: an absent section marker, or zero surviving rows.
pub open spec fn spec_extract_tasks(s: Seq<char>) -> Result<Seq<ProjectView>, ProfileError> {
    match spec_find(s, 0, "<h2>Task Execution</h2>"@) {
        Option::None => Result::Err(ProfileError::NotFound),
        Option::Some(h) => {
            let gs = spec_tasks_fold(s, spec_rows(s, h));
            if gs.len() == 0 {
                Result::Err(ProfileError::NoMatches)
            } else {
                Result::Ok(gs)
            }
        },
    }
}

/// The whole extraction: the total time and the grouped projects, with the
/// total-time failure reported first.
pub open spec fn spec_parse_profile(s: Seq<char>) -> Result<BuildDataView, ProfileError> {
    match spec_extract_total_time(s) {
        Result::Err(e) => Result::Err(e),
        Result::Ok(total) => match spec_extract_tasks(s) {
            Result::Err(e) => Result::Err(e),
            Result::Ok(ps) => Result::Ok((BuildDataView { elapsed_total: total, projects: ps })),
        },
    }
}

/// Match the three-field row pattern exactly at `i`.
fn match_row(s: &str, i: usize) -> (r: Option<RowSpans>)
    requires
        i <= s@.len(),
    ensures
        match r {
            Option::Some(rs) => {
                &&& spec_match_row(s@, i as int) == Option::Some(rs@)
                &&& i < rs.end <= s@.len()
                &&& rs.p0 <= rs.p1 <= s@.len()
                &&& rs.d0 <= rs.d1 <= s@.len()
                &&& rs.r0 <= rs.r1 <= s@.len()
            },
            Option::None => spec_match_row(s@, i as int) is None,
        },
{
    let sl: usize = s.unicode_len();
    let td = "<td";
    let close = "</td>";
    let numcell = "<td class=\"numeric\">";
    let plain = "<td>";
    let ind = "class=\"indentPath\"";
    if !starts_with_at(s, i, td) {
        return Option::None;
    }
    let j = i + td.unicode_len();
    let p0: usize;
    if j < sl && s.get_char(j) == '>' {
        p0 = j + 1;
    } else {
        let w = skip_ws(s, j);
        if w > j && starts_with_at(s, w, ind) {
            let q = w + ind.unicode_len();
            if q < sl && s.get_char(q) == '>' {
                p0 = q + 1;
            } else {
                return Option::None;
            }
        } else {
            return Option::None;
        }
    }
    let p1 = until_lt(s, p0);
    if p1 <= p0 || !starts_with_at(s, p1, close) {
        return Option::None;
    }
    // the numeric cell
    let w1 = skip_ws(s, p1 + close.unicode_len());
    if !starts_with_at(s, w1, numcell) {
        return Option::None;
    }
    let d0 = w1 + numcell.unicode_len();
    let d1 = until_lt(s, d0);
    if d1 <= d0 || !starts_with_at(s, d1, close) {
        return Option::None;
    }
    // the result cell, possibly empty
    let w2 = skip_ws(s, d1 + close.unicode_len());
    if !starts_with_at(s, w2, plain) {
        return Option::None;
    }
    let r0 = w2 + plain.unicode_len();
    let r1 = until_lt(s, r0);
    if !starts_with_at(s, r1, close) {
        return Option::None;
    }
    let end = r1 + close.unicode_len();
    Option::Some(RowSpans { p0, p1, d0, d1, r0, r1, end })
}

/// Inserting at the position found by a linear scan realises `spec_add_task`.
proof fn lemma_add_task_at(gs: Seq<ProjectView>, key: Seq<char>, t: TaskView, idx: int)
    requires
        0 <= idx <= gs.len(),
        forall|j: int| 0 <= j < idx ==> (#[trigger] gs[j]).path != key && !lex_lt(key, gs[j].path),
        idx < gs.len() ==> (gs[idx].path == key || lex_lt(key, gs[idx].path)),
    ensures
        idx < gs.len() && gs[idx].path == key ==> spec_add_task(gs, key, t) == gs.update(
            idx,
            (ProjectView { path: gs[idx].path, tasks: gs[idx].tasks.push(t) }),
        ),
        !(idx < gs.len() && gs[idx].path == key) ==> spec_add_task(gs, key, t) == gs.subrange(
            0,
            idx,
        ) + seq![ProjectView { path: key, tasks: seq![t] }] + gs.subrange(idx, gs.len() as int),
    decreases gs.len(),
{
    if gs.len() == 0 {
        assert(gs.subrange(0, 0) + seq![ProjectView { path: key, tasks: seq![t] }] + gs.subrange(
            0,
            0,
        ) =~= seq![ProjectView { path: key, tasks: seq![t] }]);
    } else if idx == 0 {
        if gs[0].path == key {
            assert(seq![ProjectView { path: gs[0].path, tasks: gs[0].tasks.push(t) }]
                + gs.drop_first() =~= gs.update(
                0,
                (ProjectView { path: gs[0].path, tasks: gs[0].tasks.push(t) }),
            ));
        } else {
            assert(lex_lt(key, gs[0].path));
            assert(gs.subrange(0, 0) + seq![ProjectView { path: key, tasks: seq![t] }]
                + gs.subrange(0, gs.len() as int) =~= seq![
                ProjectView { path: key, tasks: seq![t] },
            ] + gs);
        }
    } else {
        assert(gs[0].path != key && !lex_lt(key, gs[0].path));
        let rest = gs.drop_first();
        assert(forall|j: int| 0 <= j < idx - 1 ==> (#[trigger] rest[j]) == gs[j + 1]);
        lemma_add_task_at(rest, key, t, idx - 1);
        if idx < gs.len() && gs[idx].path == key {
            assert(rest[idx - 1] == gs[idx]);
            assert(seq![gs[0]] + rest.update(
                idx - 1,
                (ProjectView { path: gs[idx].path, tasks: gs[idx].tasks.push(t) }),
            ) =~= gs.update(idx, (ProjectView { path: gs[idx].path, tasks: gs[idx].tasks.push(t) })));
        } else {
            assert(seq![gs[0]] + (rest.subrange(0, idx - 1) + seq![
                ProjectView { path: key, tasks: seq![t] },
            ] + rest.subrange(idx - 1, rest.len() as int)) =~= gs.subrange(0, idx) + seq![
                ProjectView { path: key, tasks: seq![t] },
            ] + gs.subrange(idx, gs.len() as int));
        }
    }
}

/// Position at which `key` stands or belongs in the sorted project list, and
/// whether it is already present there.
fn find_pos(gs: &Vec<Project>, key: &str) -> (r: (usize, bool))
    ensures
        r.0 <= gs@.len(),
        forall|j: int| 0 <= j < r.0 ==> (#[trigger] gs@[j])@.path != key@ && !lex_lt(
            key@,
            gs@[j]@.path,
        ),
        r.1 ==> r.0 < gs@.len() && gs@[r.0 as int]@.path == key@,
        !r.1 && r.0 < gs@.len() ==> gs@[r.0 as int]@.path != key@ && lex_lt(
            key@,
            gs@[r.0 as int]@.path,
        ),
{
    let n: usize = gs.len();
    let mut idx: usize = 0;
    loop
        invariant
            idx <= n,
            n == gs@.len(),
            forall|j: int| 0 <= j < idx ==> (#[trigger] gs@[j])@.path != key@ && !lex_lt(
                key@,
                gs@[j]@.path,
            ),
        decreases n - idx,
    {
        if idx == n {
            return (idx, false);
        }
        if str_eq(key, gs[idx].path.as_str()) {
            return (idx, true);
        }
        if str_lt(key, gs[idx].path.as_str()) {
            return (idx, false);
        }
        idx += 1;
    }
}

/// Add one task under its project identifier, creating the project at its
/// sorted position when it is new.
fn add_task(gs: &mut Vec<Project>, key: String, t: Task)
    ensures
        final(gs)@.map_values(|p: Project| p@) == spec_add_task(
            old(gs)@.map_values(|p: Project| p@),
            key@,
            t@,
        ),
{
    let ghost g0 = gs@.map_values(|p: Project| p@);
    let (idx, found) = find_pos(gs, key.as_str());
    proof {
        assert(forall|j: int| 0 <= j < g0.len() ==> (#[trigger] g0[j]) == gs@[j]@);
        lemma_add_task_at(g0, key@, t@, idx as int);
    }
    if found {
        let mut p = gs.remove(idx);
        let ghost pv = p@;
        p.tasks.push(t);
        proof {
            assert(p@.tasks =~= pv.tasks.push(t@));
        }
        gs.insert(idx, p);
        proof {
            assert(gs@.map_values(|q: Project| q@) =~= g0.update(
                idx as int,
                (ProjectView { path: g0[idx as int].path, tasks: g0[idx as int].tasks.push(t@) }),
            ));
        }
    } else {
        let mut tasks: Vec<Task> = Vec::new();
        tasks.push(t);
        let np = Project { path: key, tasks };
        proof {
            assert(np@.tasks =~= seq![t@]);
        }
        gs.insert(idx, np);
        proof {
            assert(gs@.map_values(|q: Project| q@) =~= g0.subrange(0, idx as int) + seq![
                ProjectView { path: key@, tasks: seq![t@] },
            ] + g0.subrange(idx as int, g0.len() as int));
        }
    }
}

/// The owning project identifier inferred from a task path.
fn project_key(path: &str) -> (r: String)
    ensures
        r@ == spec_project_key(path@),
{
    proof {
        reveal_strlit(":");
    }
    match find_from(path, 0, ":") {
        Option::None => String::from_str(":app"),
        Option::Some(c1) => {
            let e: usize = match find_from(path, c1 + 1, ":") {
                Option::Some(c2) => c2,
                Option::None => path.unicode_len(),
            };
            let mut k = String::from_str(":");
            k.append(path.substring_char(c1 + 1, e));
            k
        },
    }
}

/// Locates and decodes timing data embedded in loosely-structured markup
/// text. The raw text itself is read by the caller; every function here is a
/// pure function of its argument.
pub struct ProfileParser;

impl ProfileParser {
    /// Millisecond count denoted by a human-readable elapsed-time token.
    pub fn parse_duration(duration_str: &str) -> (r: u64)
        ensures
            r as int == spec_parse_duration(duration_str@),
    {
        parse_duration(duration_str)
    }

    /// The total elapsed time of the run, read from the cell adjacent to the
    /// total-build-time label. `NotFound` exactly when the label is absent;
    /// `ParseFailure` exactly when the adjacent cell is malformed.
    pub fn extract_total_time(html: &str) -> (r: Result<u64, ProfileError>)
        ensures
            match r {
                Result::Ok(v) => spec_extract_total_time(html@) == Result::<int, ProfileError>::Ok(v as int),
                Result::Err(e) => spec_extract_total_time(html@) == Result::Err::<
                    int,
                    ProfileError,
                >(e),
            },
    {
        let lbl = "Total Build Time</td>";
        let numcell = "<td class=\"numeric\">";
        let close = "</td>";
        match find_from(html, 0, lbl) {
            Option::None => Result::Err(ProfileError::NotFound),
            Option::Some(p) => {
                let w = skip_ws(html, p + lbl.unicode_len());
                if !starts_with_at(html, w, numcell) {
                    return Result::Err(ProfileError::ParseFailure);
                }
                let c0 = w + numcell.unicode_len();
                let c1 = until_lt(html, c0);
                if c1 <= c0 || !starts_with_at(html, c1, close) {
                    return Result::Err(ProfileError::ParseFailure);
                }
                let tok = crate::scan::substring_string(html, c0, c1);
                Result::Ok(parse_duration(tok.as_str()))
            },
        }
    }

    /// The project list grouped from the task rows of the task-execution
    /// section, sorted ascending by project identifier. `NotFound` exactly
    /// when the section marker is absent; `NoMatches` exactly when no row
    /// survives filtering.
    pub fn extract_tasks(html: &str) -> (r: Result<Vec<Project>, ProfileError>)
        ensures
            match r {
                Result::Ok(ps) => spec_extract_tasks(html@) == Result::<Seq<ProjectView>, ProfileError>::Ok(
                    ps@.map_values(|p: Project| p@),
                ),
                Result::Err(e) => spec_extract_tasks(html@) == Result::Err::<
                    Seq<ProjectView>,
                    ProfileError,
                >(e),
            },
    {
        let h: usize = match find_from(html, 0, "<h2>Task Execution</h2>") {
            Option::None => {
                return Result::Err(ProfileError::NotFound);
            },
            Option::Some(h) => h,
        };
        let sl: usize = html.unicode_len();
        let mut gs: Vec<Project> = Vec::new();
        let mut i: usize = h;
        let ghost mut rows_done: Seq<RowMatch> = Seq::empty();
        proof {
            assert(rows_done + spec_rows(html@, h as int) =~= spec_rows(html@, h as int));
            assert(gs@.map_values(|p: Project| p@) =~= Seq::<ProjectView>::empty());
        }
        while i < sl
            invariant
                h <= i <= sl,
                sl == html@.len(),
                spec_rows(html@, h as int) == rows_done + spec_rows(html@, i as int),
                gs@.map_values(|p: Project| p@) == spec_tasks_fold(html@, rows_done),
            decreases sl - i,
        {
            match match_row(html, i) {
                Option::Some(rs) => {
                    let ghost m = rs@;
                    proof {
                        assert(spec_rows(html@, i as int) == seq![m] + spec_rows(
                            html@,
                            m.end,
                        ));
                    }
                    let path_s = trim_substring(html, rs.p0, rs.p1);
                    let dur_s = trim_substring(html, rs.d0, rs.d1);
                    let keep = count_colons(path_s.as_str()) >= 2 && !str_eq(dur_s.as_str(), "0s")
                        && !contains_str(dur_s.as_str(), "(total)");
                    assert(keep == spec_keep(html@, m));
                    if keep {
                        let res_s = trim_substring(html, rs.r0, rs.r1);
                        let dur = parse_duration(dur_s.as_str());
                        let result: String = if res_s.unicode_len() == 0 {
                            String::from_str("SUCCESS")
                        } else {
                            res_s
                        };
                        let key = project_key(path_s.as_str());
                        let t = Task {
                            path: path_s,
                            duration: dur,
                            result,
                            task_type: Option::None,
                        };
                        assert(t@ == spec_row_task(html@, m));
                        add_task(&mut gs, key, t);
                    }
                    proof {
                        let prev = rows_done;
                        rows_done = rows_done.push(m);
                        assert(rows_done.drop_last() =~= prev);
                        assert(rows_done + spec_rows(html@, m.end) =~= prev + (seq![m]
                            + spec_rows(html@, m.end)));
                    }
                    i = rs.end;
                },
                Option::None => {
                    proof {
                        assert(spec_rows(html@, i as int) == spec_rows(html@, i + 1));
                    }
                    i += 1;
                },
            }
        }
        proof {
            assert(rows_done + spec_rows(html@, sl as int) =~= rows_done);
        }
        if gs.len() == 0 {
            proof {
                assert(gs@.map_values(|p: Project| p@) =~= Seq::<ProjectView>::empty());
            }
            Result::Err(ProfileError::NoMatches)
        } else {
            Result::Ok(gs)
        }
    }

    /// The whole extraction from raw markup text: the total elapsed time and
    /// the grouped project list.
    pub fn parse_html(content: &str) -> (r: Result<BuildProfile, ProfileError>)
        ensures
            match r {
                Result::Ok(p) => spec_parse_profile(content@) == Result::<BuildDataView, ProfileError>::Ok(p@),
                Result::Err(e) => spec_parse_profile(content@) == Result::Err::<
                    BuildDataView,
                    ProfileError,
                >(e),
            },
    {
        let total = match Self::extract_total_time(content) {
            Result::Ok(t) => t,
            Result::Err(e) => {
                return Result::Err(e);
            },
        };
        let projects = match Self::extract_tasks(content) {
            Result::Ok(p) => p,
            Result::Err(e) => {
                return Result::Err(e);
            },
        };
        Result::Ok(BuildProfile { build_profile: BuildData { elapsed_total: total, projects } })
    }
}

} // verus!

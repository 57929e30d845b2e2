use vstd::prelude::*;

verus! {

/// The smallest unit of tracked work: a colon-delimited hierarchical path,
/// a duration in milliseconds, a completion status and an optional category tag.
#[derive(Debug, Clone, PartialEq, Eq)]
pub struct Task {
    pub path: String,
    pub duration: u64,
    pub result: String,
    pub task_type: Option<String>,
}

/// Mathematical image of a `Task`.
pub ghost struct TaskView {
    pub path: Seq<char>,
    pub duration: int,
    pub result: Seq<char>,
    pub task_type: Option<Seq<char>>,
}

impl View for Task {
    type V = TaskView;

    open spec fn view(&self) -> TaskView {
        TaskView {
            path: self.path@,
            duration: self.duration as int,
            result: self.result@,
            task_type: match self.task_type {
                Option::Some(t) => Option::Some(t@),
                Option::None => Option::None,
            },
        }
    }
}

/// A grouping of tasks sharing a common path prefix, in discovery order.
#[derive(Debug, Clone, PartialEq, Eq)]
pub struct Project {
    pub path: String,
    pub tasks: Vec<Task>,
}

/// Mathematical image of a `Project`.
pub ghost struct ProjectView {
    pub path: Seq<char>,
    pub tasks: Seq<TaskView>,
}

impl View for Project {
    type V = ProjectView;

    open spec fn view(&self) -> ProjectView {
        ProjectView { path: self.path@, tasks: self.tasks@.map_values(|t: Task| t@) }
    }
}

/// The extracted run: total elapsed milliseconds plus the project list.
/// The total is independent of the sum of task durations.
#[derive(Debug, Clone, PartialEq, Eq)]
pub struct BuildData {
    pub elapsed_total: u64,
    pub projects: Vec<Project>,
}

/// Mathematical image of a `BuildData`.
pub ghost struct BuildDataView {
    pub elapsed_total: int,
    pub projects: Seq<ProjectView>,
}

impl View for BuildData {
    type V = BuildDataView;

    open spec fn view(&self) -> BuildDataView {
        BuildDataView {
            elapsed_total: self.elapsed_total as int,
            projects: self.projects@.map_values(|p: Project| p@),
        }
    }
}

/// Root extracted structure handed to analysis.
#[derive(Debug, Clone, PartialEq, Eq)]
pub struct BuildProfile {
    pub build_profile: BuildData,
}

impl View for BuildProfile {
    type V = BuildDataView;

    open spec fn view(&self) -> BuildDataView {
        self.build_profile@
    }
}

/// One ranked task inside an analysis result. The share of the total time is
/// the exact rational `duration / total`, recoverable from this record and the
/// result's total; it is not stored.
#[derive(Debug, Clone, PartialEq, Eq)]
pub struct TaskSummary {
    pub name: String,
    pub duration: u64,
}

/// Mathematical image of a `TaskSummary`.
pub ghost struct TaskSummaryView {
    pub name: Seq<char>,
    pub duration: int,
}

impl View for TaskSummary {
    type V = TaskSummaryView;

    open spec fn view(&self) -> TaskSummaryView {
        TaskSummaryView { name: self.name@, duration: self.duration as int }
    }
}

/// Per-project aggregate: summed task duration (saturating at `u64::MAX`)
/// and task count.
#[derive(Debug, Clone, PartialEq, Eq)]
pub struct ProjectSummary {
    pub name: String,
    pub total_duration: u64,
    pub task_count: usize,
}

/// Mathematical image of a `ProjectSummary`.
pub ghost struct ProjectSummaryView {
    pub name: Seq<char>,
    pub total_duration: int,
    pub task_count: int,
}

impl View for ProjectSummary {
    type V = ProjectSummaryView;

    open spec fn view(&self) -> ProjectSummaryView {
        ProjectSummaryView {
            name: self.name@,
            total_duration: self.total_duration as int,
            task_count: self.task_count as int,
        }
    }
}

/// Aggregate analysis result: total time, the highest-duration tasks in
/// non-increasing order, per-project aggregates in ascending path order, and
/// the ordered diagnostic tips.
#[derive(Debug, Clone, PartialEq, Eq)]
pub struct BuildAnalysis {
    pub total_time: u64,
    pub slowest_tasks: Vec<TaskSummary>,
    pub project_summary: Vec<ProjectSummary>,
    pub optimization_tips: Vec<String>,
}

/// Mathematical image of a `BuildAnalysis`.
pub ghost struct BuildAnalysisView {
    pub total_time: int,
    pub slowest_tasks: Seq<TaskSummaryView>,
    pub project_summary: Seq<ProjectSummaryView>,
    pub optimization_tips: Seq<Seq<char>>,
}

impl View for BuildAnalysis {
    type V = BuildAnalysisView;

    open spec fn view(&self) -> BuildAnalysisView {
        BuildAnalysisView {
            total_time: self.total_time as int,
            slowest_tasks: self.slowest_tasks@.map_values(|t: TaskSummary| t@),
            project_summary: self.project_summary@.map_values(|p: ProjectSummary| p@),
            optimization_tips: self.optimization_tips@.map_values(|s: String| s@),
        }
    }
}

/// The three terminal failure kinds of extraction. Structural absence is
/// fatal; numeric malformation inside a duration token is not (it degrades to
/// zero in the duration parser instead).
#[derive(Debug, Clone, Copy, PartialEq, Eq, Structural)]
pub enum ProfileError {
    /// A required section or label is absent from the input text.
    NotFound,
    /// The task-execution section yields zero task rows after filtering.
    NoMatches,
    /// A field expected to be present is structurally missing.
    ParseFailure,
}

impl ProfileError {
    /// A human-readable description of what was expected and where.
    pub fn message(&self) -> (r: &'static str)
        ensures
            *self is NotFound ==> r@ == "a required section or label is absent from the profile text"@,
            *self is NoMatches ==> r@ == "no task rows could be extracted from the task-execution section"@,
            *self is ParseFailure ==> r@ == "an expected cell is structurally missing from the profile text"@,
    {
        match self {
            ProfileError::NotFound => "a required section or label is absent from the profile text",
            ProfileError::NoMatches => "no task rows could be extracted from the task-execution section",
            ProfileError::ParseFailure => "an expected cell is structurally missing from the profile text",
        }
    }
}

} // verus!

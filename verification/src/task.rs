//! The persistent entities (tasks, work-log entries), their mathematical
//! views, and the small projections derived from them (list summaries, the
//! detail pane).

use vstd::prelude::*;

verus! {

/// A task as the store holds it. `id` and `created` are set at creation and
/// never change afterwards; `current` is flipped only by the set-current
/// operation; the remaining fields are freely editable text.
pub struct Task {
    pub id: i64,
    pub title: String,
    /// Creation instant, in milliseconds since the Unix epoch.
    pub created: i64,
    pub tracker: String,
    pub branch: String,
    pub review: String,
    pub commit_template: String,
    pub notes: String,
    pub current: bool,
}

/// The mathematical value of a [`Task`].
pub struct TaskView {
    pub id: int,
    pub title: Seq<char>,
    pub created: int,
    pub tracker: Seq<char>,
    pub branch: Seq<char>,
    pub review: Seq<char>,
    pub commit_template: Seq<char>,
    pub notes: Seq<char>,
    pub current: bool,
}

impl View for Task {
    type V = TaskView;

    open spec fn view(&self) -> TaskView {
        TaskView {
            id: self.id as int,
            title: self.title@,
            created: self.created as int,
            tracker: self.tracker@,
            branch: self.branch@,
            review: self.review@,
            commit_template: self.commit_template@,
            notes: self.notes@,
            current: self.current,
        }
    }
}

impl Clone for Task {
    fn clone(&self) -> (r: Task)
        ensures
            r@ == self@,
    {
        Task {
            id: self.id,
            title: self.title.clone(),
            created: self.created,
            tracker: self.tracker.clone(),
            branch: self.branch.clone(),
            review: self.review.clone(),
            commit_template: self.commit_template.clone(),
            notes: self.notes.clone(),
            current: self.current,
        }
    }
}

/// One append-only work-log record: a task reference and the instant at
/// which it became current.
pub struct WorkLogEntry {
    pub task_id: i64,
    /// Milliseconds since the Unix epoch.
    pub start_time: i64,
}

/// The mathematical value of a [`WorkLogEntry`].
pub struct WorkLogEntryView {
    pub task_id: int,
    pub start_time: int,
}

impl View for WorkLogEntry {
    type V = WorkLogEntryView;

    open spec fn view(&self) -> WorkLogEntryView {
        WorkLogEntryView { task_id: self.task_id as int, start_time: self.start_time as int }
    }
}

/// The list's display-ready projection of a task.
pub struct TaskSummary {
    pub id: i64,
    pub title: String,
    pub current: bool,
}

/// The mathematical value of a [`TaskSummary`].
pub struct TaskSummaryView {
    pub id: int,
    pub title: Seq<char>,
    pub current: bool,
}

impl View for TaskSummary {
    type V = TaskSummaryView;

    open spec fn view(&self) -> TaskSummaryView {
        TaskSummaryView { id: self.id as int, title: self.title@, current: self.current }
    }
}

impl Clone for TaskSummary {
    fn clone(&self) -> (r: TaskSummary)
        ensures
            r@ == self@,
    {
        TaskSummary { id: self.id, title: self.title.clone(), current: self.current }
    }
}

/// The mathematical values of a sequence of tasks.
pub open spec fn task_views(s: Seq<Task>) -> Seq<TaskView> {
    s.map_values(|t: Task| t@)
}

/// The projection a task shows in the list.
pub open spec fn summary_of(t: TaskView) -> TaskSummaryView {
    TaskSummaryView { id: t.id, title: t.title, current: t.current }
}

/// The editable fields written by a save of the detail form.
pub struct DetailFields {
    pub title: String,
    pub tracker: String,
    pub branch: String,
    pub review: String,
    pub commit_template: String,
    pub notes: String,
}

/// The mathematical value of a [`DetailFields`].
pub struct DetailFieldsView {
    pub title: Seq<char>,
    pub tracker: Seq<char>,
    pub branch: Seq<char>,
    pub review: Seq<char>,
    pub commit_template: Seq<char>,
    pub notes: Seq<char>,
}

impl View for DetailFields {
    type V = DetailFieldsView;

    open spec fn view(&self) -> DetailFieldsView {
        DetailFieldsView {
            title: self.title@,
            tracker: self.tracker@,
            branch: self.branch@,
            review: self.review@,
            commit_template: self.commit_template@,
            notes: self.notes@,
        }
    }
}

/// A task with the editable fields overwritten and everything else kept.
pub open spec fn with_fields(t: TaskView, f: DetailFieldsView) -> TaskView {
    TaskView {
        id: t.id,
        title: f.title,
        created: t.created,
        tracker: f.tracker,
        branch: f.branch,
        review: f.review,
        commit_template: f.commit_template,
        notes: f.notes,
        current: t.current,
    }
}

} // verus!

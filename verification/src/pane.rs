//! The detail pane: the display-ready copy of one task's fields, and the two
//! operations that fill and clear it.

use vstd::prelude::*;

use crate::task::Task;
use crate::task::TaskView;
use crate::time::format_timestamp;

verus! {

/// What the detail pane shows. `created_text` is the locally formatted
/// rendering of `created`; it depends on the machine's time zone and is not
/// part of the pane's mathematical value.
pub struct DetailPane {
    pub title: String,
    pub created: i64,
    pub created_text: String,
    pub tracker: String,
    pub branch: String,
    pub review: String,
    pub commit_template: String,
    pub notes: String,
}

/// The mathematical value of a [`DetailPane`].
pub struct DetailPaneView {
    pub title: Seq<char>,
    pub created: int,
    pub tracker: Seq<char>,
    pub branch: Seq<char>,
    pub review: Seq<char>,
    pub commit_template: Seq<char>,
    pub notes: Seq<char>,
}

impl View for DetailPane {
    type V = DetailPaneView;

    open spec fn view(&self) -> DetailPaneView {
        DetailPaneView {
            title: self.title@,
            created: self.created as int,
            tracker: self.tracker@,
            branch: self.branch@,
            review: self.review@,
            commit_template: self.commit_template@,
            notes: self.notes@,
        }
    }
}

/// The pane contents that show a task.
pub open spec fn pane_of(t: TaskView) -> DetailPaneView {
    DetailPaneView {
        title: t.title,
        created: t.created,
        tracker: t.tracker,
        branch: t.branch,
        review: t.review,
        commit_template: t.commit_template,
        notes: t.notes,
    }
}

/// The cleared pane.
pub open spec fn empty_pane() -> DetailPaneView {
    DetailPaneView {
        title: Seq::empty(),
        created: 0,
        tracker: Seq::empty(),
        branch: Seq::empty(),
        review: Seq::empty(),
        commit_template: Seq::empty(),
        notes: Seq::empty(),
    }
}

/// Fills the pane with a task's fields.
pub fn apply_task_to_ui(pane: &mut DetailPane, task: &Task)
    ensures
        final(pane)@ == pane_of(task@),
{
    pane.title = task.title.clone();
    pane.created = task.created;
    pane.created_text = format_timestamp(task.created);
    pane.tracker = task.tracker.clone();
    pane.branch = task.branch.clone();
    pane.review = task.review.clone();
    pane.commit_template = task.commit_template.clone();
    pane.notes = task.notes.clone();
}

/// Empties every pane field.
pub fn clear_task_detail(pane: &mut DetailPane)
    ensures
        final(pane)@ == empty_pane(),
{
    pane.title = String::new();
    pane.created = 0;
    pane.created_text = String::new();
    pane.tracker = String::new();
    pane.branch = String::new();
    pane.review = String::new();
    pane.commit_template = String::new();
    pane.notes = String::new();
}

} // verus!

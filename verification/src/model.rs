//! The in-memory ordered mirror of the visible task summaries, as the UI
//! binds it: full replace, single-row patch, current-flag sweep, and the
//! id-to-index resolution that keeps selection attached to a task rather
//! than a position.

use vstd::prelude::*;

use crate::task::Task;
use crate::task::TaskView;
use crate::task::TaskSummary;
use crate::task::TaskSummaryView;
use crate::task::task_views;
use crate::task::summary_of;

verus! {

/// The mathematical values of a sequence of summaries.
pub open spec fn summary_views(s: Seq<TaskSummary>) -> Seq<TaskSummaryView> {
    s.map_values(|x: TaskSummary| x@)
}

/// The list projection of a sequence of tasks.
pub fn summaries(tasks: &Vec<Task>) -> (r: Vec<TaskSummary>)
    ensures
        summary_views(r@) == task_views(tasks@).map_values(|t: TaskView| summary_of(t)),
{
    let n = tasks.len();
    let mut out: Vec<TaskSummary> = Vec::new();
    let mut i: usize = 0;
    while i < n
        invariant
            i <= n,
            n == tasks@.len(),
            out@.len() == i,
            forall|k: int| 0 <= k < i ==> summary_views(out@)[k] == summary_of(
                task_views(tasks@)[k],
            ),
        decreases n - i,
    {
        let t = &tasks[i];
        let s = TaskSummary { id: t.id, title: t.title.clone(), current: t.current };
        let ghost before = out@;
        out.push(s);
        proof {
            assert forall|k: int| 0 <= k < i + 1 implies summary_views(out@)[k] == summary_of(
                task_views(tasks@)[k],
            ) by {
                assert(summary_views(out@)[k] == out@[k]@);
                if k < i {
                    assert(out@[k] == before[k]);
                    assert(summary_views(before)[k] == before[k]@);
                } else {
                    assert(out@[k] == s);
                    assert(task_views(tasks@)[k] == tasks@[k]@);
                }
            }
        }
        i = i + 1;
    }
    proof {
        assert(summary_views(out@) =~= task_views(tasks@).map_values(
            |t: TaskView| summary_of(t),
        ));
    }
    out
}

/// The UI-visible ordered sequence of task summaries.
pub struct TaskListModel {
    pub rows: Vec<TaskSummary>,
}

impl TaskListModel {
    /// The mathematical row sequence.
    pub open spec fn view_rows(&self) -> Seq<TaskSummaryView> {
        summary_views(self.rows@)
    }

    /// An empty list.
    pub fn new() -> (r: TaskListModel)
        ensures
            r.view_rows() == Seq::<TaskSummaryView>::empty(),
    {
        let r = TaskListModel { rows: Vec::new() };
        proof {
            assert(r.view_rows() =~= Seq::<TaskSummaryView>::empty());
        }
        r
    }

    /// Atomic full swap of the visible rows.
    pub fn replace(&mut self, rows: Vec<TaskSummary>)
        ensures
            final(self).view_rows() == summary_views(rows@),
    {
        self.rows = rows;
    }

    /// In-place replacement of one row; every other row is untouched.
    pub fn patch_row(&mut self, i: usize, s: TaskSummary)
        requires
            i < old(self).rows@.len(),
        ensures
            final(self).view_rows() == old(self).view_rows().update(i as int, s@),
    {
        let ghost prev = self.rows@;
        self.rows.remove(i);
        self.rows.insert(i, s);
        proof {
            assert(self.rows@ =~= prev.update(i as int, s));
            assert(self.view_rows() =~= summary_views(prev).update(i as int, s@));
        }
    }

    /// The index of the first row with an id, or `None` when no row has it.
    pub fn find_index_by_id(&self, id: i64) -> (r: Option<usize>)
        ensures
            match r {
                Option::Some(i) => i < self.view_rows().len() && self.view_rows()[i as int].id
                    == id as int && forall|k: int| 0 <= k < i ==> self.view_rows()[k].id
                    != id as int,
                Option::None => forall|k: int| 0 <= k < self.view_rows().len()
                    ==> self.view_rows()[k].id != id as int,
            },
    {
        let n = self.rows.len();
        let mut i: usize = 0;
        while i < n
            invariant
                i <= n,
                n == self.rows@.len(),
                forall|k: int| 0 <= k < i ==> self.view_rows()[k].id != id as int,
            decreases n - i,
        {
            if self.rows[i].id == id {
                return Option::Some(i);
            }
            i = i + 1;
        }
        Option::None
    }

    /// Sets the current flag on exactly the rows carrying an id (one row,
    /// when row ids are unique).
    pub fn mark_current(&mut self, id: i64)
        ensures
            final(self).view_rows() == old(self).view_rows().map_values(
                |s: TaskSummaryView| TaskSummaryView {
                    id: s.id,
                    title: s.title,
                    current: s.id == id as int,
                },
            ),
    {
        let ghost prev = self.rows@;
        let n = self.rows.len();
        let mut out: Vec<TaskSummary> = Vec::new();
        let mut k: usize = 0;
        while k < n
            invariant
                k <= n,
                n == self.rows@.len(),
                self.rows@ == prev,
                out@.len() == k,
                forall|j: int| 0 <= j < k ==> summary_views(out@)[j] == (TaskSummaryView {
                    id: prev[j]@.id,
                    title: prev[j]@.title,
                    current: prev[j]@.id == id as int,
                }),
            decreases n - k,
        {
            let row = &self.rows[k];
            let s = TaskSummary { id: row.id, title: row.title.clone(), current: row.id == id };
            let ghost before = out@;
            out.push(s);
            proof {
                assert forall|j: int| 0 <= j < k + 1 implies summary_views(out@)[j]
                    == (TaskSummaryView {
                    id: prev[j]@.id,
                    title: prev[j]@.title,
                    current: prev[j]@.id == id as int,
                }) by {
                    assert(summary_views(out@)[j] == out@[j]@);
                    if j < k {
                        assert(out@[j] == before[j]);
                        assert(summary_views(before)[j] == before[j]@);
                    } else {
                        assert(out@[j] == s);
                    }
                }
            }
            k = k + 1;
        }
        self.rows = out;
        proof {
            assert(self.view_rows() =~= summary_views(prev).map_values(
                |s: TaskSummaryView| TaskSummaryView {
                    id: s.id,
                    title: s.title,
                    current: s.id == id as int,
                },
            ));
        }
    }
}

} // verus!

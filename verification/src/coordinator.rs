//! The mutation coordinator: one owned object holding the store, the list
//! model and the selection controller, so that every user intent leaves
//! store and model consistent and selection attached to a task rather than
//! a position.

use vstd::prelude::*;

use crate::StoreError;
use crate::model::TaskListModel;
use crate::model::summaries;
use crate::order::OrderMode;
use crate::selection::SelEvent;
use crate::selection::SelPhaseView;
use crate::selection::SelectionController;
use crate::selection::names_live_load;
use crate::selection::outcome_of;
use crate::selection::sel_step;
use crate::pane::pane_of;
use crate::store::TaskStore;
use crate::store::find_task;
use crate::store::has_id;
use crate::store::lemma_find_task_spec;
use crate::store::lemma_perm_has_ids;
use crate::store::lemma_save_then_get;
use crate::store::lemma_unique_id_element;
use crate::store::mark_current_seq;
use crate::store::new_task_view;
use crate::store::update_fields_seq;
use crate::task::DetailFields;
use crate::task::Task;
use crate::task::TaskSummary;
use crate::task::TaskSummaryView;
use crate::task::TaskView;
use crate::task::summary_of;
use crate::task::task_views;
use crate::task::with_fields;
use crate::text::spec_trim;
use crate::time::now_millis;

verus! {

/// What a selection dispatches: the surrounding event loop starts a 100ms
/// debounce timer and a background detail fetch, both tagged with `token`,
/// and later hands their reports back under that token.
pub struct FetchRequest {
    pub token: u64,
    pub task_id: i64,
}

/// The list projection of a task sequence.
pub open spec fn summaries_of(ts: Seq<TaskView>) -> Seq<TaskSummaryView> {
    ts.map_values(|t: TaskView| summary_of(t))
}

/// The visible rows are exactly the summaries of the stored tasks, laid out
/// in some order the mode allows.
pub open spec fn list_shows(rows: Seq<TaskSummaryView>, ts: Seq<TaskView>, m: OrderMode) -> bool {
    exists|p: Seq<TaskView>|
        #![trigger summaries_of(p)]
        p.to_multiset() == ts.to_multiset() && crate::order::sorted_by(p, m) && rows
            == summaries_of(p)
}

/// The single owner of list, store and selection state.
pub struct Coordinator {
    pub store: TaskStore,
    pub list: TaskListModel,
    pub sel: SelectionController,
    /// The index of the selected row, if any.
    pub selected: Option<usize>,
    /// The "new task" input field, reset after every add.
    pub new_task_input: String,
}

impl Coordinator {
    /// The coordinator's invariant: the store is well formed, the selected
    /// index lies in the list, and every visible row names a stored task.
    pub open spec fn wf(&self) -> bool {
        &&& self.store.wf()
        &&& match self.selected {
            Option::Some(i) => i < self.list.view_rows().len(),
            Option::None => true,
        }
        &&& forall|k: int| 0 <= k < self.list.view_rows().len() ==> has_id(
            self.store.tasks_view(),
            #[trigger] self.list.view_rows()[k].id,
        )
    }

    /// Builds the coordinator over a store: the list shows the store's
    /// tasks under its persisted order, nothing selected.
    pub fn new(store: TaskStore) -> (r: Coordinator)
        requires
            store.wf(),
        ensures
            r.wf(),
            r.store.tasks_view() == store.tasks_view(),
            r.store.sort == store.sort,
            r.selected is None,
            r.list.view_rows().len() == store.tasks_view().len(),
            list_shows(r.list.view_rows(), store.tasks_view(), store.sort),
            r.sel@.phase == SelPhaseView::Idle,
    {
        let m = store.get_sort_order();
        let ts = store.list_tasks(m);
        let sums = summaries(&ts);
        let mut list = TaskListModel::new();
        list.replace(sums);
        proof {
            lemma_perm_has_ids(task_views(ts@), store.tasks_view());
            assert(list.view_rows() == summaries_of(task_views(ts@)));
            assert(list_shows(list.view_rows(), store.tasks_view(), m));
        }
        Coordinator {
            store,
            list,
            sel: SelectionController::new(),
            selected: Option::None,
            new_task_input: String::new(),
        }
    }

    /// Persists a new sort order and reloads the list under it; the
    /// previously selected task (if any) stays selected by identity, at its
    /// new index, with its detail re-shown. On a write failure nothing
    /// changes.
    pub fn change_sort_order(&mut self, m: OrderMode) -> (r: Result<(), StoreError>)
        requires
            old(self).wf(),
        ensures
            final(self).wf(),
            final(self).store.tasks_view() == old(self).store.tasks_view(),
            final(self).store.log_view() == old(self).store.log_view(),
            match r {
                Result::Ok(_) => final(self).store.sort == m && final(self).list.view_rows().len()
                    == final(self).store.tasks_view().len() && list_shows(
                    final(self).list.view_rows(),
                    final(self).store.tasks_view(),
                    m,
                ) && (match old(self).selected {
                    Option::Some(i0) => final(self).selected matches Option::Some(i1) && final(self).list.view_rows()[i1 as int].id == old(self).list.view_rows()[i0 as int].id
                        && (final(self).sel@.phase matches SelPhaseView::Loaded {
                        index,
                        task,
                    } && index == i1 as int && task.id == old(self).list.view_rows()[i0 as int].id && final(self).sel@.pane == pane_of(task)),
                    Option::None => final(self).selected is None,
                }),
                Result::Err(e) => e == StoreError::Io && final(self).store.sort == old(self).store.sort && final(self).list.view_rows() == old(self).list.view_rows()
                    && final(self).selected == old(self).selected && final(self).sel@ == old(self).sel@,
            },
    {
        match self.store.save_sort_order(m) {
            Result::Err(_) => {
                return Result::Err(StoreError::Io);
            },
            Result::Ok(_) => {},
        }
        let prev: Option<i64> = match self.selected {
            Option::Some(i) => {
                proof {
                    assert(self.list.view_rows()[i as int] == self.list.rows@[i as int]@);
                    assert(has_id(self.store.tasks_view(), self.list.view_rows()[i as int].id));
                }
                Option::Some(self.list.rows[i].id)
            },
            Option::None => Option::None,
        };
        let ts = self.store.list_tasks(m);
        let sums = summaries(&ts);
        self.list.replace(sums);
        proof {
            lemma_perm_has_ids(task_views(ts@), self.store.tasks_view());
            lemma_perm_has_ids(self.store.tasks_view(), task_views(ts@));
            assert(self.list.view_rows() == summaries_of(task_views(ts@)));
            assert(list_shows(self.list.view_rows(), self.store.tasks_view(), m));
        }
        match prev {
            Option::Some(id) => {
                match self.list.find_index_by_id(id) {
                    Option::Some(i) => {
                        self.selected = Option::Some(i);
                        self.sel.show_loaded(i, &ts[i]);
                        proof {
                            assert(self.list.view_rows()[i as int] == summary_of(
                                task_views(ts@)[i as int],
                            ));
                            assert(ts@[i as int]@ == task_views(ts@)[i as int]);
                        }
                    },
                    Option::None => {
                        proof {
                            let sv = self.store.tasks_view();
                            assert(has_id(sv, id as int));
                            let k = choose|k: int| 0 <= k < sv.len() && sv[k].id == id as int;
                            assert(has_id(task_views(ts@), sv[k].id));
                            let j = choose|j: int|
                                0 <= j < task_views(ts@).len() && task_views(ts@)[j].id
                                    == id as int;
                            assert(self.list.view_rows()[j].id == id as int);
                            assert(false);
                        }
                        self.selected = Option::None;
                        self.sel.deselect();
                    },
                }
            },
            Option::None => {
                self.selected = Option::None;
                self.sel.deselect();
            },
        }
        Result::Ok(())
    }

    /// Saves the detail form for the selected row: the store row, the
    /// in-memory task, the visible list row and the pane all take the new
    /// fields in one step. A call with nothing selected does nothing. On a
    /// write failure nothing changes.
    pub fn save_detail(&mut self, f: DetailFields) -> (r: Result<(), StoreError>)
        requires
            old(self).wf(),
        ensures
            final(self).wf(),
            final(self).store.sort == old(self).store.sort,
            final(self).store.log_view() == old(self).store.log_view(),
            final(self).selected == old(self).selected,
            old(self).selected is None ==> r is Ok && final(self).store.tasks_view() == old(self).store.tasks_view() && final(self).list.view_rows() == old(self).list.view_rows()
                && final(self).sel@ == old(self).sel@,
            match r {
                Result::Ok(_) => match old(self).selected {
                    Option::Some(i) => ({
                        let id = old(self).list.view_rows()[i as int].id;
                        let told = find_task(old(self).store.tasks_view(), id);
                        told matches Option::Some(t) && final(self).store.tasks_view()
                            == update_fields_seq(old(self).store.tasks_view(), id, f@) && final(self).list.view_rows() == old(self).list.view_rows().update(
                            i as int,
                            summary_of(with_fields(t, f@)),
                        ) && final(self).sel@.phase == (SelPhaseView::Loaded {
                            index: i as int,
                            task: with_fields(t, f@),
                        }) && final(self).sel@.pane == pane_of(with_fields(t, f@))
                    }),
                    Option::None => true,
                },
                Result::Err(e) => e == StoreError::Io && final(self).store.tasks_view() == old(self).store.tasks_view() && final(self).list.view_rows() == old(self).list.view_rows()
                    && final(self).sel@ == old(self).sel@,
            },
    {
        let i = match self.selected {
            Option::Some(i) => i,
            Option::None => {
                return Result::Ok(());
            },
        };
        let id = self.list.rows[i].id;
        proof {
            lemma_find_task_spec(self.store.tasks_view(), id as int);
        }
        match self.store.update_task_detail(id, f) {
            Result::Err(_) => {
                return Result::Err(StoreError::Io);
            },
            Result::Ok(_) => {},
        }
        proof {
            lemma_save_then_get(old(self).store.tasks_view(), id as int, f@);
        }
        let t = match self.store.get_task_detail(id) {
            Result::Ok(t) => t,
            Result::Err(_) => {
                proof {
                    assert(false);
                }
                return Result::Err(StoreError::Io);
            },
        };
        self.list.patch_row(i, TaskSummary { id, title: t.title.clone(), current: t.current });
        self.sel.show_loaded(i, &t);
        proof {
            let ov = old(self).store.tasks_view();
            let nv = self.store.tasks_view();
            assert forall|k: int| 0 <= k < nv.len() implies nv[k].id == ov[k].id by {}
            assert forall|k: int| 0 <= k < self.list.view_rows().len() implies has_id(
                nv,
                #[trigger] self.list.view_rows()[k].id,
            ) by {
                if k != i {
                    assert(self.list.view_rows()[k] == old(self).list.view_rows()[k]);
                }
                let idk = self.list.view_rows()[k].id;
                assert(has_id(ov, idk));
                let p = choose|p: int| 0 <= p < ov.len() && ov[p].id == idk;
                assert(nv[p].id == idk);
            }
        }
        Result::Ok(())
    }

    /// Makes the selected row's task the single current task: one
    /// transactional store write (flag sweep plus one work-log append), then
    /// the same sweep on the visible rows. A call with nothing selected does
    /// nothing. On a write failure nothing changes.
    pub fn set_current(&mut self) -> (r: Result<(), StoreError>)
        requires
            old(self).wf(),
        ensures
            final(self).wf(),
            final(self).store.sort == old(self).store.sort,
            final(self).selected == old(self).selected,
            final(self).sel@ == old(self).sel@,
            old(self).selected is None ==> r is Ok && final(self).store.tasks_view() == old(self).store.tasks_view() && final(self).store.log_view() == old(self).store.log_view()
                && final(self).list.view_rows() == old(self).list.view_rows(),
            match r {
                Result::Ok(_) => match old(self).selected {
                    Option::Some(i) => ({
                        let id = old(self).list.view_rows()[i as int].id;
                        final(self).store.tasks_view() == mark_current_seq(
                            old(self).store.tasks_view(),
                            id,
                        ) && crate::store::num_current(final(self).store.tasks_view()) == 1
                            && final(self).store.log_view().len() == old(self).store.log_view().len() + 1 && final(self).store.log_view().last().task_id
                            == id && final(self).store.log_view().drop_last() == old(self).store.log_view() && final(self).list.view_rows() == old(self).list.view_rows().map_values(
                            |s: TaskSummaryView| TaskSummaryView {
                                id: s.id,
                                title: s.title,
                                current: s.id == id,
                            },
                        )
                    }),
                    Option::None => true,
                },
                Result::Err(e) => e == StoreError::Io && final(self).store.tasks_view() == old(self).store.tasks_view() && final(self).store.log_view() == old(self).store.log_view()
                    && final(self).list.view_rows() == old(self).list.view_rows(),
            },
    {
        let i = match self.selected {
            Option::Some(i) => i,
            Option::None => {
                return Result::Ok(());
            },
        };
        let id = self.list.rows[i].id;
        let now = now_millis();
        match self.store.set_current_task(id, now) {
            Result::Err(_) => {
                return Result::Err(StoreError::Io);
            },
            Result::Ok(_) => {},
        }
        self.list.mark_current(id);
        proof {
            let ov = old(self).store.tasks_view();
            let nv = self.store.tasks_view();
            assert(self.store.log_view().drop_last() =~= old(self).store.log_view());
            assert forall|k: int| 0 <= k < nv.len() implies nv[k].id == ov[k].id by {}
            assert forall|k: int| 0 <= k < self.list.view_rows().len() implies has_id(
                nv,
                #[trigger] self.list.view_rows()[k].id,
            ) by {
                let idk = self.list.view_rows()[k].id;
                assert(self.list.view_rows()[k].id == old(self).list.view_rows()[k].id);
                assert(has_id(ov, idk));
                let p = choose|p: int| 0 <= p < ov.len() && ov[p].id == idk;
                assert(nv[p].id == idk);
            }
        }
        Result::Ok(())
    }

    /// Adds a task with the trimmed title: the list reloads under the
    /// active order, the new task is selected and its detail shown, and the
    /// input field is reset. Blank input only resets the input field. On a
    /// write failure nothing else changes.
    pub fn add_task(&mut self, title: &str) -> (r: Result<(), StoreError>)
        requires
            old(self).wf(),
        ensures
            final(self).wf(),
            final(self).store.sort == old(self).store.sort,
            final(self).store.log_view() == old(self).store.log_view(),
            final(self).new_task_input@ == Seq::<char>::empty(),
            spec_trim(title@).len() == 0 ==> r is Ok && final(self).store.tasks_view() == old(self).store.tasks_view() && final(self).list.view_rows() == old(self).list.view_rows()
                && final(self).selected == old(self).selected && final(self).sel@ == old(self).sel@,
            match r {
                Result::Ok(_) => spec_trim(title@).len() == 0 || ({
                    let nv = final(self).store.tasks_view();
                    let t = nv.last();
                    nv.len() == old(self).store.tasks_view().len() + 1 && nv == old(self).store.tasks_view().push(t) && t == new_task_view(
                        t.id,
                        spec_trim(title@),
                        t.created,
                    ) && !has_id(old(self).store.tasks_view(), t.id) && final(self).list.view_rows().len() == nv.len() && list_shows(
                        final(self).list.view_rows(),
                        nv,
                        old(self).store.sort,
                    ) && (final(self).selected matches Option::Some(i) && final(self).list.view_rows()[i as int].id
                        == t.id && final(self).sel@.phase == (SelPhaseView::Loaded {
                        index: i as int,
                        task: t,
                    }) && final(self).sel@.pane == pane_of(t))
                }),
                Result::Err(e) => (e == StoreError::Io || e == StoreError::Constraint) && final(self).store.tasks_view() == old(self).store.tasks_view() && final(self).list.view_rows()
                    == old(self).list.view_rows() && final(self).selected == old(self).selected
                    && final(self).sel@ == old(self).sel@,
            },
    {
        let now = now_millis();
        match self.store.add_task(title, now) {
            Result::Ok(Option::None) => {
                self.new_task_input = String::new();
                Result::Ok(())
            },
            Result::Ok(Option::Some(id)) => {
                let m = self.store.get_sort_order();
                let ts = self.store.list_tasks(m);
                let sums = summaries(&ts);
                self.list.replace(sums);
                proof {
                    lemma_perm_has_ids(task_views(ts@), self.store.tasks_view());
                    lemma_perm_has_ids(self.store.tasks_view(), task_views(ts@));
                    assert(self.list.view_rows() == summaries_of(task_views(ts@)));
                    assert(list_shows(self.list.view_rows(), self.store.tasks_view(), m));
                }
                match self.list.find_index_by_id(id) {
                    Option::Some(i) => {
                        self.selected = Option::Some(i);
                        self.sel.show_loaded(i, &ts[i]);
                        proof {
                            let nv = self.store.tasks_view();
                            let tv = task_views(ts@)[i as int];
                            assert(self.list.view_rows()[i as int] == summary_of(tv));
                            assert(tv.id == id as int);
                            broadcast use vstd::seq_lib::group_to_multiset_ensures;

                            assert(task_views(ts@).contains(tv));
                            assert(task_views(ts@).to_multiset().count(tv) > 0);
                            assert(nv.to_multiset().count(tv) > 0);
                            assert(nv.contains(tv));
                            assert(nv.last().id == id as int);
                            assert(nv.contains(nv.last()));
                            lemma_unique_id_element(nv, tv, nv.last());
                        }
                    },
                    Option::None => {
                        proof {
                            let nv = self.store.tasks_view();
                            assert(has_id(nv, id as int));
                            let k = choose|k: int| 0 <= k < nv.len() && nv[k].id == id as int;
                            assert(has_id(task_views(ts@), nv[k].id));
                            let j = choose|j: int|
                                0 <= j < task_views(ts@).len() && task_views(ts@)[j].id
                                    == id as int;
                            assert(self.list.view_rows()[j].id == id as int);
                            assert(false);
                        }
                        self.selected = Option::None;
                        self.sel.deselect();
                    },
                }
                self.new_task_input = String::new();
                Result::Ok(())
            },
            Result::Err(e) => {
                self.new_task_input = String::new();
                Result::Err(e)
            },
        }
    }

    /// A row was picked (or the selection cleared with a negative index):
    /// clears everything on deselect; on a valid index records the loading
    /// phase under a fresh token and hands back the fetch to dispatch; an
    /// out-of-range index does nothing.
    pub fn select_task(&mut self, idx: i32) -> (r: Option<FetchRequest>)
        requires
            old(self).wf(),
            old(self).sel.generation < u64::MAX,
        ensures
            final(self).wf(),
            final(self).store.tasks_view() == old(self).store.tasks_view(),
            final(self).store.sort == old(self).store.sort,
            final(self).store.log_view() == old(self).store.log_view(),
            final(self).list.view_rows() == old(self).list.view_rows(),
            idx < 0 ==> r is None && final(self).selected is None && final(self).sel@ == sel_step(
                old(self).sel@,
                SelEvent::Deselect,
            ),
            idx >= 0 && (idx as int) < old(self).list.view_rows().len() ==> final(self).selected
                == Option::Some(idx as usize) && final(self).sel@ == sel_step(
                old(self).sel@,
                SelEvent::BeginLoad { index: idx as int },
            ) && (r matches Option::Some(req) && req.token as nat == old(self).sel@.generation + 1
                && req.task_id as int == old(self).list.view_rows()[idx as int].id),
            idx >= 0 && (idx as int) >= old(self).list.view_rows().len() ==> r is None && final(self).selected == old(self).selected && final(self).sel@ == old(self).sel@,
    {
        if idx < 0 {
            self.selected = Option::None;
            self.sel.deselect();
            return Option::None;
        }
        let i = idx as usize;
        if i >= self.list.rows.len() {
            return Option::None;
        }
        self.selected = Option::Some(i);
        let task_id = self.list.rows[i].id;
        let token = self.sel.begin_load(i);
        Option::Some(FetchRequest { token, task_id })
    }

    /// The debounce timer fired for a load; shows the indicator only when
    /// that load is still in flight.
    pub fn debounce_fired(&mut self, token: u64)
        requires
            old(self).wf(),
        ensures
            final(self).wf(),
            final(self).sel@ == sel_step(old(self).sel@, SelEvent::Debounce { token: token as nat }),
            final(self).store.tasks_view() == old(self).store.tasks_view(),
            final(self).list.view_rows() == old(self).list.view_rows(),
            final(self).selected == old(self).selected,
    {
        self.sel.debounce_fired(token);
    }

    /// A background fetch came back. Stale reports are discarded whole; a
    /// failed current fetch reverts the selection to idle and clears the
    /// pane.
    pub fn fetch_completed(&mut self, token: u64, result: Result<Task, StoreError>)
        requires
            old(self).wf(),
        ensures
            final(self).wf(),
            final(self).sel@ == sel_step(
                old(self).sel@,
                SelEvent::Complete { token: token as nat, outcome: outcome_of(result) },
            ),
            final(self).store.tasks_view() == old(self).store.tasks_view(),
            final(self).list.view_rows() == old(self).list.view_rows(),
            final(self).selected == if names_live_load(old(self).sel@, token as nat) && result is Err {
                Option::<usize>::None
            } else {
                old(self).selected
            },
    {
        let matched = match self.sel.phase {
            crate::selection::SelPhase::Loading { token: live, .. } => live == token,
            _ => false,
        };
        let failed = matched && match &result {
            Result::Ok(_) => false,
            Result::Err(_) => true,
        };
        self.sel.fetch_completed(token, result);
        if failed {
            self.selected = Option::None;
        }
    }
}

} // verus!

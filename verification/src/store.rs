//! The task store: the authoritative in-memory task set, sort setting and
//! session work log, written through to the embedded SQLite database. Every
//! rule (unique ids, at most one current task, trimmed titles, seeding) is
//! verified on the in-memory state; the disk writes go through the trusted
//! wrappers in [`crate::db`].

use vstd::prelude::*;
use vstd::string::StrSliceExecFns;
use vstd::string::StringExecFns;

use crate::StoreError;
use crate::db::TaskRow;
use crate::db::fetch_task_rows;
use crate::db::insert_task_row;
use crate::db::open_connection;
use crate::db::read_sort_setting;
use crate::db::set_current_row;
use crate::db::update_task_row;
use crate::db::write_sort_setting;
use crate::order::OrderMode;
use crate::order::parse_sort_code;
use crate::order::sort_code;
use crate::order::sort_tasks;
use crate::order::sorted_by;
use crate::task::DetailFields;
use crate::task::Task;
use crate::task::TaskView;
use crate::task::WorkLogEntry;
use crate::task::WorkLogEntryView;
use crate::task::task_views;
use crate::task::with_fields;
use crate::text::spec_trim;
use crate::text::trim;
use crate::time::now_millis;

verus! {

/// No two tasks share an id.
pub open spec fn unique_ids(s: Seq<TaskView>) -> bool {
    forall|i: int, j: int| 0 <= i < j < s.len() ==> s[i].id != s[j].id
}

/// How many tasks carry the current flag.
pub open spec fn num_current(s: Seq<TaskView>) -> int
    decreases s.len(),
{
    if s.len() == 0 {
        0
    } else {
        num_current(s.drop_last()) + if s.last().current {
            1int
        } else {
            0int
        }
    }
}

/// How many tasks carry a given id.
pub open spec fn count_id(s: Seq<TaskView>, id: int) -> int
    decreases s.len(),
{
    if s.len() == 0 {
        0
    } else {
        count_id(s.drop_last(), id) + if s.last().id == id {
            1int
        } else {
            0int
        }
    }
}

/// Some task carries the given id.
pub open spec fn has_id(s: Seq<TaskView>, id: int) -> bool {
    exists|i: int| 0 <= i < s.len() && s[i].id == id
}

/// The first task carrying an id, if any.
pub open spec fn find_task(s: Seq<TaskView>, id: int) -> Option<TaskView>
    decreases s.len(),
{
    if s.len() == 0 {
        Option::None
    } else if s[0].id == id {
        Option::Some(s[0])
    } else {
        find_task(s.drop_first(), id)
    }
}

/// Every task after an edit that keeps ids and flags: the edited sequence.
pub open spec fn update_fields_seq(s: Seq<TaskView>, id: int, f: crate::task::DetailFieldsView) -> Seq<
    TaskView,
> {
    s.map_values(|t: TaskView| if t.id == id { with_fields(t, f) } else { t })
}

/// Every task with the current flag set exactly on the given id.
pub open spec fn mark_current_seq(s: Seq<TaskView>, id: int) -> Seq<TaskView> {
    s.map_values(
        |t: TaskView| TaskView {
            id: t.id,
            title: t.title,
            created: t.created,
            tracker: t.tracker,
            branch: t.branch,
            review: t.review,
            commit_template: t.commit_template,
            notes: t.notes,
            current: t.id == id,
        },
    )
}

/// Sequences that agree on the current flag positionwise have the same
/// number of current tasks.
pub proof fn lemma_num_current_pointwise(a: Seq<TaskView>, b: Seq<TaskView>)
    requires
        a.len() == b.len(),
        forall|i: int| 0 <= i < a.len() ==> a[i].current == b[i].current,
    ensures
        num_current(a) == num_current(b),
    decreases a.len(),
{
    if a.len() > 0 {
        lemma_num_current_pointwise(a.drop_last(), b.drop_last());
    }
}

/// Marking a task current sets as many flags as there are tasks with its id.
pub proof fn lemma_num_current_mark(s: Seq<TaskView>, id: int)
    ensures
        num_current(mark_current_seq(s, id)) == count_id(s, id),
    decreases s.len(),
{
    if s.len() > 0 {
        assert(mark_current_seq(s, id).drop_last() =~= mark_current_seq(s.drop_last(), id));
        lemma_num_current_mark(s.drop_last(), id);
    }
}

/// Under unique ids, an id that occurs occurs exactly once.
pub proof fn lemma_count_id_unique(s: Seq<TaskView>, id: int)
    requires
        unique_ids(s),
    ensures
        count_id(s, id) == if has_id(s, id) {
            1int
        } else {
            0int
        },
    decreases s.len(),
{
    if s.len() > 0 {
        assert(unique_ids(s.drop_last()));
        lemma_count_id_unique(s.drop_last(), id);
        if s.last().id == id {
            assert(!has_id(s.drop_last(), id)) by {
                if has_id(s.drop_last(), id) {
                    let i = choose|i: int| 0 <= i < s.len() - 1 && s.drop_last()[i].id == id;
                    assert(s[i].id == s[s.len() - 1].id);
                }
            }
            assert(s[s.len() - 1].id == id);
        } else {
            if has_id(s, id) {
                let i = choose|i: int| 0 <= i < s.len() && s[i].id == id;
                assert(i < s.len() - 1);
                assert(s.drop_last()[i].id == id);
            }
        }
    }
}

/// A found task is in the sequence under its id; a miss means no task has
/// the id.
pub proof fn lemma_find_task_spec(s: Seq<TaskView>, id: int)
    ensures
        match find_task(s, id) {
            Option::Some(t) => t.id == id && has_id(s, id) && s.contains(t),
            Option::None => !has_id(s, id),
        },
    decreases s.len(),
{
    if s.len() > 0 && s[0].id != id {
        lemma_find_task_spec(s.drop_first(), id);
        match find_task(s.drop_first(), id) {
            Option::Some(t) => {
                let i = choose|i: int| 0 <= i < s.drop_first().len() && s.drop_first()[i] == t;
                assert(s[i + 1] == t);
            },
            Option::None => {
                if has_id(s, id) {
                    let i = choose|i: int| 0 <= i < s.len() && s[i].id == id;
                    assert(s.drop_first()[i - 1].id == id);
                }
            },
        }
    }
}

/// Making a stored task current yields exactly one current task — the one
/// with that id — whatever the flags were before.
pub proof fn lemma_set_current_exactly_one(s: Seq<TaskView>, id: int)
    requires
        unique_ids(s),
        has_id(s, id),
    ensures
        num_current(mark_current_seq(s, id)) == 1,
        forall|k: int| 0 <= k < s.len() ==> (#[trigger] mark_current_seq(s, id)[k].current
            <==> mark_current_seq(s, id)[k].id == id),
{
    lemma_num_current_mark(s, id);
    lemma_count_id_unique(s, id);
}

/// Round trip: after an edit of the fields under an id, looking that id up
/// finds exactly the task with the saved fields — `id`, `created` and the
/// current flag untouched; every other id finds what it found before.
pub proof fn lemma_save_then_get(s: Seq<TaskView>, id: int, f: crate::task::DetailFieldsView)
    ensures
        find_task(update_fields_seq(s, id, f), id) == match find_task(s, id) {
            Option::Some(t) => Option::Some(with_fields(t, f)),
            Option::None => Option::<TaskView>::None,
        },
    decreases s.len(),
{
    if s.len() > 0 {
        assert(update_fields_seq(s, id, f).drop_first() =~= update_fields_seq(
            s.drop_first(),
            id,
            f,
        ));
        if s[0].id != id {
            lemma_save_then_get(s.drop_first(), id, f);
        }
    }
}

/// Two sequences with the same multiset hold the same ids (and as many
/// tasks).
pub proof fn lemma_perm_has_ids(a: Seq<TaskView>, b: Seq<TaskView>)
    requires
        a.to_multiset() == b.to_multiset(),
    ensures
        a.len() == b.len(),
        forall|k: int| 0 <= k < a.len() ==> has_id(b, #[trigger] a[k].id),
    decreases 0int,
{
    broadcast use vstd::seq_lib::group_to_multiset_ensures;

    assert(a.len() == a.to_multiset().len());
    assert(b.len() == b.to_multiset().len());
    assert forall|k: int| 0 <= k < a.len() implies has_id(b, #[trigger] a[k].id) by {
        assert(a.contains(a[k]));
        assert(a.to_multiset().count(a[k]) > 0);
        assert(b.contains(a[k]));
        let i = choose|i: int| 0 <= i < b.len() && b[i] == a[k];
        assert(b[i].id == a[k].id);
    }
}

/// The task seeded into an empty store.
pub open spec fn seed_view(now: int) -> TaskView {
    TaskView {
        id: 1,
        title: "Sample Task"@,
        created: now,
        tracker: Seq::empty(),
        branch: Seq::empty(),
        review: Seq::empty(),
        commit_template: Seq::empty(),
        notes: Seq::empty(),
        current: false,
    }
}

/// A freshly added task: trimmed title, blank optional fields, not current.
pub open spec fn new_task_view(id: int, title: Seq<char>, created: int) -> TaskView {
    TaskView {
        id: id,
        title: title,
        created: created,
        tracker: Seq::empty(),
        branch: Seq::empty(),
        review: Seq::empty(),
        commit_template: Seq::empty(),
        notes: Seq::empty(),
        current: false,
    }
}

/// The task a raw store row stands for: any non-zero stored flag counts as
/// current.
pub open spec fn task_of_row(r: TaskRow) -> TaskView {
    TaskView {
        id: r.id as int,
        title: r.title@,
        created: r.created as int,
        tracker: r.tracker@,
        branch: r.branch@,
        review: r.review@,
        commit_template: r.commit_template@,
        notes: r.notes@,
        current: r.current != 0,
    }
}

/// The tasks a sequence of raw rows stands for.
pub open spec fn row_views(rs: Seq<TaskRow>) -> Seq<TaskView> {
    rs.map_values(|r: TaskRow| task_of_row(r))
}

/// Loaded rows are acceptable when they respect the store's invariants.
pub open spec fn rows_valid(rs: Seq<TaskRow>) -> bool {
    unique_ids(row_views(rs)) && num_current(row_views(rs)) <= 1
}

/// Under unique ids two contained tasks with one id are the same task.
pub proof fn lemma_unique_id_element(s: Seq<TaskView>, t1: TaskView, t2: TaskView)
    requires
        unique_ids(s),
        s.contains(t1),
        s.contains(t2),
        t1.id == t2.id,
    ensures
        t1 == t2,
{
    let i = choose|i: int| 0 <= i < s.len() && s[i] == t1;
    let j = choose|j: int| 0 <= j < s.len() && s[j] == t2;
    if i != j {
        assert(s[i].id != s[j].id);
    }
}

fn task_from_row(r: &TaskRow) -> (t: Task)
    ensures
        t@ == task_of_row(*r),
{
    Task {
        id: r.id,
        title: r.title.clone(),
        created: r.created,
        tracker: r.tracker.clone(),
        branch: r.branch.clone(),
        review: r.review.clone(),
        commit_template: r.commit_template.clone(),
        notes: r.notes.clone(),
        current: r.current != 0,
    }
}

fn check_unique_ids(tasks: &Vec<Task>) -> (r: bool)
    ensures
        r == unique_ids(task_views(tasks@)),
{
    let n = tasks.len();
    let mut i: usize = 0;
    while i < n
        invariant
            i <= n,
            n == tasks@.len(),
            forall|p: int, q: int| 0 <= p < q < n && p < i ==> task_views(tasks@)[p].id
                != task_views(tasks@)[q].id,
        decreases n - i,
    {
        let mut j: usize = i + 1;
        while j < n
            invariant
                i < j <= n,
                n == tasks@.len(),
                forall|q: int| i < q < j ==> task_views(tasks@)[i as int].id != task_views(
                    tasks@,
                )[q].id,
            decreases n - j,
        {
            if tasks[i].id == tasks[j].id {
                proof {
                    assert(task_views(tasks@)[i as int].id == task_views(tasks@)[j as int].id);
                }
                return false;
            }
            j = j + 1;
        }
        i = i + 1;
    }
    true
}

fn count_current(tasks: &Vec<Task>) -> (r: usize)
    ensures
        r as int == num_current(task_views(tasks@)),
{
    let n = tasks.len();
    let mut c: usize = 0;
    let mut i: usize = 0;
    while i < n
        invariant
            i <= n,
            c <= i,
            n == tasks@.len(),
            c as int == num_current(task_views(tasks@).take(i as int)),
        decreases n - i,
    {
        proof {
            let v = task_views(tasks@);
            assert(v.take(i + 1).drop_last() =~= v.take(i as int));
            assert(v.take(i + 1).last() == v[i as int]);
        }
        if tasks[i].current {
            c = c + 1;
        }
        i = i + 1;
    }
    proof {
        assert(task_views(tasks@).take(n as int) =~= task_views(tasks@));
    }
    c
}

fn find_index(tasks: &Vec<Task>, id: i64) -> (r: Option<usize>)
    ensures
        match r {
            Option::Some(i) => i < tasks@.len() && task_views(tasks@)[i as int].id == id as int
                && forall|k: int| 0 <= k < i ==> task_views(tasks@)[k].id != id as int,
            Option::None => !has_id(task_views(tasks@), id as int),
        },
{
    let n = tasks.len();
    let mut i: usize = 0;
    while i < n
        invariant
            i <= n,
            n == tasks@.len(),
            forall|k: int| 0 <= k < i ==> task_views(tasks@)[k].id != id as int,
        decreases n - i,
    {
        if tasks[i].id == id {
            return Option::Some(i);
        }
        i = i + 1;
    }
    Option::None
}

/// The store: the authoritative in-memory task set and session work log,
/// with its write-through database connection.
pub struct TaskStore {
    pub conn: rusqlite::Connection,
    pub tasks: Vec<Task>,
    pub sort: OrderMode,
    pub log: Vec<WorkLogEntry>,
}

impl TaskStore {
    /// The mathematical task set.
    pub open spec fn tasks_view(&self) -> Seq<TaskView> {
        task_views(self.tasks@)
    }

    /// The work-log entries appended in this session.
    pub open spec fn log_view(&self) -> Seq<WorkLogEntryView> {
        self.log@.map_values(|e: WorkLogEntry| e@)
    }

    /// The store's invariant: ids are unique and at most one task is
    /// current.
    pub open spec fn wf(&self) -> bool {
        unique_ids(self.tasks_view()) && num_current(self.tasks_view()) <= 1
    }

    /// Builds the store from what the database returned at startup: rejects
    /// row sets that break the invariants, and seeds one sample task into an
    /// empty store.
    pub fn from_parts(conn: rusqlite::Connection, rows: Vec<TaskRow>, sort: OrderMode, now: i64) -> (r:
        Result<TaskStore, StoreError>)
        ensures
            match r {
                Result::Ok(s) => s.wf() && s.sort == sort && s.log_view() == Seq::<
                    WorkLogEntryView,
                >::empty() && if rows@.len() == 0 {
                    s.tasks_view() == seq![seed_view(now as int)]
                } else {
                    s.tasks_view() == row_views(rows@)
                },
                Result::Err(e) => (e == StoreError::Io && rows@.len() == 0) || (e
                    == StoreError::Constraint && rows@.len() > 0 && !rows_valid(rows@)),
            },
            rows@.len() > 0 && rows_valid(rows@) ==> r is Ok,
    {
        if rows.len() == 0 {
            let title = String::from_str("Sample Task");
            match insert_task_row(&conn, 1, title.as_str(), now) {
                Result::Err(_) => {
                    return Result::Err(StoreError::Io);
                },
                Result::Ok(_) => {},
            }
            let seed = Task {
                id: 1,
                title,
                created: now,
                tracker: String::new(),
                branch: String::new(),
                review: String::new(),
                commit_template: String::new(),
                notes: String::new(),
                current: false,
            };
            let mut tasks: Vec<Task> = Vec::new();
            tasks.push(seed);
            let log: Vec<WorkLogEntry> = Vec::new();
            let s = TaskStore { conn, tasks, sort, log };
            proof {
                assert(s.tasks_view() =~= seq![seed_view(now as int)]);
                assert(s.log_view() =~= Seq::<WorkLogEntryView>::empty());
                assert(num_current(s.tasks_view()) == num_current(
                    s.tasks_view().drop_last(),
                ) + 0);
                assert(s.tasks_view().drop_last() =~= Seq::<TaskView>::empty());
            }
            Result::Ok(s)
        } else {
            let n = rows.len();
            let mut tasks: Vec<Task> = Vec::new();
            let mut k: usize = 0;
            proof {
                assert(task_views(tasks@) =~= row_views(rows@.take(0)));
            }
            while k < n
                invariant
                    k <= n,
                    n == rows@.len(),
                    task_views(tasks@) == row_views(rows@.take(k as int)),
                decreases n - k,
            {
                let t = task_from_row(&rows[k]);
                let ghost prev = tasks@;
                tasks.push(t);
                proof {
                    assert(rows@.take(k + 1) =~= rows@.take(k as int).push(rows@[k as int]));
                    assert(row_views(rows@.take(k as int).push(rows@[k as int])) =~= row_views(
                        rows@.take(k as int),
                    ).push(task_of_row(rows@[k as int])));
                    assert(task_views(prev.push(t)) =~= task_views(prev).push(t@));
                    assert(task_views(tasks@) =~= row_views(rows@.take(k + 1)));
                }
                k = k + 1;
            }
            proof {
                assert(rows@.take(n as int) =~= rows@);
            }
            if !check_unique_ids(&tasks) {
                return Result::Err(StoreError::Constraint);
            }
            if count_current(&tasks) > 1 {
                return Result::Err(StoreError::Constraint);
            }
            let log: Vec<WorkLogEntry> = Vec::new();
            let s = TaskStore { conn, tasks, sort, log };
            proof {
                assert(s.log_view() =~= Seq::<WorkLogEntryView>::empty());
            }
            Result::Ok(s)
        }
    }

    /// Opens (or creates) the store at `path`, loads the task set and the
    /// sort setting, and seeds a sample task when the store is empty.
    pub fn initialize(path: &str) -> (r: Result<TaskStore, StoreError>)
        ensures
            r matches Result::Ok(s) ==> s.wf() && s.log_view() == Seq::<
                WorkLogEntryView,
            >::empty(),
    {
        let conn = match open_connection(path) {
            Result::Ok(c) => c,
            Result::Err(e) => {
                return Result::Err(e);
            },
        };
        let rows = match fetch_task_rows(&conn) {
            Result::Ok(w) => w,
            Result::Err(e) => {
                return Result::Err(e);
            },
        };
        let setting = read_sort_setting(&conn);
        let sort = parse_sort_code(&setting);
        let now = now_millis();
        TaskStore::from_parts(conn, rows, sort, now)
    }

    /// The active sort order.
    pub fn get_sort_order(&self) -> (m: OrderMode)
        ensures
            m == self.sort,
    {
        self.sort
    }

    /// Persists and adopts a sort order; on a write failure nothing changes.
    pub fn save_sort_order(&mut self, m: OrderMode) -> (r: Result<(), StoreError>)
        ensures
            final(self).tasks_view() == old(self).tasks_view(),
            final(self).log_view() == old(self).log_view(),
            match r {
                Result::Ok(_) => final(self).sort == m,
                Result::Err(e) => e == StoreError::Io && final(self).sort == old(self).sort,
            },
    {
        match write_sort_setting(&self.conn, sort_code(m)) {
            Result::Ok(_) => {
                self.sort = m;
                Result::Ok(())
            },
            Result::Err(_) => Result::Err(StoreError::Io),
        }
    }

    /// The task set under an ordering: sorted, and exactly the stored tasks.
    pub fn list_tasks(&self, m: OrderMode) -> (r: Vec<Task>)
        ensures
            sorted_by(task_views(r@), m),
            task_views(r@).to_multiset() == self.tasks_view().to_multiset(),
    {
        sort_tasks(&self.tasks, m)
    }

    /// The task with an id, or `NotFound` when no task has it.
    pub fn get_task_detail(&self, id: i64) -> (r: Result<Task, StoreError>)
        ensures
            match r {
                Result::Ok(t) => find_task(self.tasks_view(), id as int) == Option::Some(t@),
                Result::Err(e) => e == StoreError::NotFound && find_task(
                    self.tasks_view(),
                    id as int,
                ) is None,
            },
    {
        match find_index(&self.tasks, id) {
            Option::Some(i) => {
                let t = self.tasks[i].clone();
                proof {
                    lemma_find_task_at(self.tasks_view(), id as int, i as int);
                }
                Result::Ok(t)
            },
            Option::None => {
                proof {
                    lemma_find_task_spec(self.tasks_view(), id as int);
                }
                Result::Err(StoreError::NotFound)
            },
        }
    }

    /// Overwrites exactly the editable fields of the task with an id;
    /// `id`, `created` and the current flag are untouched, as is every other
    /// task. On a write failure nothing changes.
    pub fn update_task_detail(&mut self, id: i64, f: DetailFields) -> (r: Result<(), StoreError>)
        requires
            old(self).wf(),
        ensures
            final(self).sort == old(self).sort,
            final(self).log_view() == old(self).log_view(),
            match r {
                Result::Ok(_) => has_id(old(self).tasks_view(), id as int) && final(self).tasks_view() == update_fields_seq(old(self).tasks_view(), id as int, f@) && final(self).wf(),
                Result::Err(e) => final(self).tasks_view() == old(self).tasks_view() && ((e
                    == StoreError::NotFound && !has_id(old(self).tasks_view(), id as int)) || e
                    == StoreError::Io),
            },
            !has_id(old(self).tasks_view(), id as int) ==> r == Result::<(), StoreError>::Err(
                StoreError::NotFound,
            ),
    {
        let idx = match find_index(&self.tasks, id) {
            Option::Some(i) => i,
            Option::None => {
                return Result::Err(StoreError::NotFound);
            },
        };
        match update_task_row(&self.conn, id, &f) {
            Result::Err(_) => {
                return Result::Err(StoreError::Io);
            },
            Result::Ok(_) => {},
        }
        let ghost prev = self.tasks@;
        let old_t = self.tasks.remove(idx);
        let new_t = Task {
            id: old_t.id,
            title: f.title,
            created: old_t.created,
            tracker: f.tracker,
            branch: f.branch,
            review: f.review,
            commit_template: f.commit_template,
            notes: f.notes,
            current: old_t.current,
        };
        self.tasks.insert(idx, new_t);
        proof {
            let ov = task_views(prev);
            let nv = task_views(self.tasks@);
            assert(self.tasks@ =~= prev.update(idx as int, new_t));
            assert forall|k: int| 0 <= k < ov.len() && k != idx implies ov[k].id != id as int by {}
            assert(nv =~= update_fields_seq(ov, id as int, f@));
            assert(nv.len() == ov.len());
            assert forall|k: int| 0 <= k < nv.len() implies nv[k].id == ov[k].id && nv[k].current
                == ov[k].current by {}
            lemma_num_current_pointwise(nv, ov);
        }
        Result::Ok(())
    }

    /// Atomically makes the task with an id the single current task and
    /// appends one work-log entry. On a write failure nothing changes.
    pub fn set_current_task(&mut self, id: i64, now: i64) -> (r: Result<(), StoreError>)
        requires
            old(self).wf(),
        ensures
            final(self).sort == old(self).sort,
            match r {
                Result::Ok(_) => has_id(old(self).tasks_view(), id as int) && final(self).tasks_view() == mark_current_seq(old(self).tasks_view(), id as int)
                    && num_current(final(self).tasks_view()) == 1 && final(self).wf() && final(self).log_view() == old(self).log_view().push(
                    WorkLogEntryView { task_id: id as int, start_time: now as int },
                ),
                Result::Err(e) => final(self).tasks_view() == old(self).tasks_view() && final(self).log_view() == old(self).log_view() && ((e == StoreError::NotFound && !has_id(
                    old(self).tasks_view(),
                    id as int,
                )) || e == StoreError::Io),
            },
            !has_id(old(self).tasks_view(), id as int) ==> r == Result::<(), StoreError>::Err(
                StoreError::NotFound,
            ),
    {
        match find_index(&self.tasks, id) {
            Option::Some(_) => {},
            Option::None => {
                return Result::Err(StoreError::NotFound);
            },
        }
        match set_current_row(&mut self.conn, id, now) {
            Result::Err(_) => {
                return Result::Err(StoreError::Io);
            },
            Result::Ok(_) => {},
        }
        let ghost prev = self.tasks@;
        let n = self.tasks.len();
        let mut out: Vec<Task> = Vec::new();
        let mut k: usize = 0;
        while k < n
            invariant
                k <= n,
                n == self.tasks@.len(),
                self.tasks@ == prev,
                out@.len() == k,
                forall|j: int| 0 <= j < k ==> task_views(out@)[j] == mark_current_seq(
                    task_views(prev),
                    id as int,
                )[j],
            decreases n - k,
        {
            let t = &self.tasks[k];
            let mut c = t.clone();
            c.current = t.id == id;
            let ghost before = out@;
            out.push(c);
            proof {
                assert forall|j: int| 0 <= j < k + 1 implies task_views(out@)[j]
                    == mark_current_seq(task_views(prev), id as int)[j] by {
                    assert(task_views(out@)[j] == out@[j]@);
                    if j < k {
                        assert(out@[j] == before[j]);
                        assert(task_views(before)[j] == before[j]@);
                    } else {
                        assert(out@[j] == c);
                        assert(task_views(prev)[j] == prev[j]@);
                        assert(c@ == TaskView {
                            id: prev[j]@.id,
                            title: prev[j]@.title,
                            created: prev[j]@.created,
                            tracker: prev[j]@.tracker,
                            branch: prev[j]@.branch,
                            review: prev[j]@.review,
                            commit_template: prev[j]@.commit_template,
                            notes: prev[j]@.notes,
                            current: prev[j]@.id == id as int,
                        });
                    }
                }
            }
            k = k + 1;
        }
        self.tasks = out;
        proof {
            let ov = task_views(prev);
            assert(task_views(self.tasks@) =~= mark_current_seq(ov, id as int));
            lemma_num_current_mark(ov, id as int);
            lemma_count_id_unique(ov, id as int);
        }
        let ghost prev_log = self.log@;
        self.log.push(WorkLogEntry { task_id: id, start_time: now });
        proof {
            assert(self.log_view() =~= prev_log.map_values(|e: WorkLogEntry| e@).push(
                WorkLogEntryView { task_id: id as int, start_time: now as int },
            ));
        }
        Result::Ok(())
    }

    /// Adds a task with a trimmed title and a fresh id; blank input is a
    /// no-op. On a write failure nothing changes.
    pub fn add_task(&mut self, title: &str, now: i64) -> (r: Result<Option<i64>, StoreError>)
        requires
            old(self).wf(),
        ensures
            final(self).sort == old(self).sort,
            final(self).log_view() == old(self).log_view(),
            match r {
                Result::Ok(opt) => match opt {
                    Option::None => spec_trim(title@).len() == 0 && final(self).tasks_view() == old(
                        self,
                    ).tasks_view(),
                    Option::Some(id) => spec_trim(title@).len() > 0 && !has_id(
                        old(self).tasks_view(),
                        id as int,
                    ) && final(self).tasks_view() == old(self).tasks_view().push(
                        new_task_view(id as int, spec_trim(title@), now as int),
                    ) && final(self).wf(),
                },
                Result::Err(e) => final(self).tasks_view() == old(self).tasks_view() && spec_trim(
                    title@,
                ).len() > 0 && (e == StoreError::Io || (e == StoreError::Constraint && has_id(
                    old(self).tasks_view(),
                    i64::MAX as int,
                ))),
            },
            spec_trim(title@).len() == 0 ==> r == Result::<Option<i64>, StoreError>::Ok(
                Option::None,
            ),
    {
        let trimmed = trim(title);
        if trimmed.as_str().is_empty() {
            return Result::Ok(Option::None);
        }
        let n = self.tasks.len();
        let mut max: i64 = 0;
        let mut any = false;
        let mut k: usize = 0;
        while k < n
            invariant
                k <= n,
                n == self.tasks@.len(),
                any == (k > 0),
                any ==> has_id(self.tasks_view(), max as int),
                forall|j: int| 0 <= j < k ==> self.tasks_view()[j].id <= max as int,
            decreases n - k,
        {
            let t_id = self.tasks[k].id;
            if !any || t_id > max {
                max = t_id;
                any = true;
                proof {
                    assert(self.tasks_view()[k as int].id == max as int);
                }
            }
            k = k + 1;
        }
        if any && max == i64::MAX {
            return Result::Err(StoreError::Constraint);
        }
        let new_id: i64 = if any {
            max + 1
        } else {
            1
        };
        match insert_task_row(&self.conn, new_id, trimmed.as_str(), now) {
            Result::Err(_) => {
                return Result::Err(StoreError::Io);
            },
            Result::Ok(_) => {},
        }
        let ghost prev = self.tasks@;
        let t = Task {
            id: new_id,
            title: trimmed,
            created: now,
            tracker: String::new(),
            branch: String::new(),
            review: String::new(),
            commit_template: String::new(),
            notes: String::new(),
            current: false,
        };
        proof {
            assert(t@ == new_task_view(new_id as int, spec_trim(title@), now as int));
        }
        self.tasks.push(t);
        proof {
            let ov = task_views(prev);
            let nv = task_views(self.tasks@);
            assert(nv =~= ov.push(t@));
            assert(!has_id(ov, new_id as int));
            assert(nv.drop_last() =~= ov);
            assert(num_current(nv) == num_current(ov));
        }
        Result::Ok(Option::Some(new_id))
    }
}

/// The search yields exactly the first index holding the id.
pub proof fn lemma_find_task_at(s: Seq<TaskView>, id: int, i: int)
    requires
        0 <= i < s.len(),
        s[i].id == id,
        forall|k: int| 0 <= k < i ==> s[k].id != id,
    ensures
        find_task(s, id) == Option::Some(s[i]),
    decreases s.len(),
{
    if s[0].id != id {
        lemma_find_task_at(s.drop_first(), id, i - 1);
    }
}

} // verus!

//! The two persisted list orderings, the parsing of the stored sort code,
//! and the verified sort that the list view is built from.

use vstd::prelude::*;
use vstd::string::StringExecFns;

use crate::task::Task;
use crate::task::TaskView;
use crate::task::task_views;
use crate::text::lemma_title_le_total;
use crate::text::lemma_title_le_trans;
use crate::text::title_le;
use crate::text::title_le_exec;

verus! {

/// The active list ordering: by title (case-insensitively) or by creation
/// time, newest first.
#[derive(Clone, Copy, Debug, PartialEq, Eq, Structural)]
pub enum OrderMode {
    ByTitle,
    ByCreatedDesc,
}

/// What a stored sort-setting value means: `"0"` is by-title, `"1"` is
/// by-created-descending, and anything else (including an absent setting)
/// falls back to by-title.
pub open spec fn spec_parse_sort_code(v: Option<Seq<char>>) -> OrderMode {
    match v {
        Some(s) => if s == "1"@ {
            OrderMode::ByCreatedDesc
        } else {
            OrderMode::ByTitle
        },
        None => OrderMode::ByTitle,
    }
}

/// The value under which a mode is persisted.
pub open spec fn spec_sort_code(m: OrderMode) -> Seq<char> {
    match m {
        OrderMode::ByTitle => "0"@,
        OrderMode::ByCreatedDesc => "1"@,
    }
}

/// A persisted sort code parses back to the mode it was written for.
pub proof fn lemma_sort_code_round_trip(m: OrderMode)
    ensures
        spec_parse_sort_code(Some(spec_sort_code(m))) == m,
{
    reveal_strlit("0");
    reveal_strlit("1");
    assert("0"@[0] != "1"@[0]);
}

/// Parses a stored sort-setting value, falling back to by-title when the
/// setting is absent or unparseable.
pub fn parse_sort_code(v: &Option<String>) -> (r: OrderMode)
    ensures
        r == spec_parse_sort_code(match v {
            Some(s) => Some(s@),
            None => None,
        }),
{
    match v {
        Some(s) => {
            let one: String = String::from_str("1");
            if s.eq(&one) {
                OrderMode::ByCreatedDesc
            } else {
                OrderMode::ByTitle
            }
        },
        None => OrderMode::ByTitle,
    }
}

/// Renders a mode as the value stored in the settings relation.
pub fn sort_code(m: OrderMode) -> (r: &'static str)
    ensures
        r@ == spec_sort_code(m),
{
    match m {
        OrderMode::ByTitle => "0",
        OrderMode::ByCreatedDesc => "1",
    }
}

/// The ordering a mode imposes on tasks: case-insensitively by title, or by
/// creation instant with the newest first.
pub open spec fn task_le(a: TaskView, b: TaskView, m: OrderMode) -> bool {
    match m {
        OrderMode::ByTitle => title_le(a.title, b.title),
        OrderMode::ByCreatedDesc => a.created >= b.created,
    }
}

/// Whether a sequence of tasks is sorted under a mode.
pub open spec fn sorted_by(s: Seq<TaskView>, m: OrderMode) -> bool {
    forall|i: int, j: int| 0 <= i < j < s.len() ==> #[trigger] task_le(s[i], s[j], m)
}

/// The task ordering is total for either mode.
pub proof fn lemma_task_le_total(a: TaskView, b: TaskView, m: OrderMode)
    ensures
        task_le(a, b, m) || task_le(b, a, m),
{
    if m is ByTitle {
        lemma_title_le_total(a.title, b.title);
    }
}

/// The task ordering is transitive for either mode.
pub proof fn lemma_task_le_trans(a: TaskView, b: TaskView, c: TaskView, m: OrderMode)
    requires
        task_le(a, b, m),
        task_le(b, c, m),
    ensures
        task_le(a, c, m),
{
    if m is ByTitle {
        lemma_title_le_trans(a.title, b.title, c.title);
    }
}

fn task_le_exec(a: &Task, b: &Task, m: OrderMode) -> (r: bool)
    ensures
        r == task_le(a@, b@, m),
{
    match m {
        OrderMode::ByTitle => title_le_exec(a.title.as_str(), b.title.as_str()),
        OrderMode::ByCreatedDesc => a.created >= b.created,
    }
}

proof fn lemma_insert_to_multiset<A>(s: Seq<A>, j: int, x: A)
    requires
        0 <= j <= s.len(),
    ensures
        s.insert(j, x).to_multiset() =~= s.to_multiset().insert(x),
{
    broadcast use vstd::seq_lib::group_to_multiset_ensures;
    broadcast use vstd::multiset::group_multiset_axioms;

    let si = s.insert(j, x);
    s.insert_ensures(j, x);
    assert(si.remove(j) =~= s);
    assert(si[j] == x);
    assert(s.to_multiset() =~= si.to_multiset().remove(x));
    assert(si.contains(x));
    assert(si.to_multiset().count(x) > 0);
    assert forall|y: A| si.to_multiset().count(y) == s.to_multiset().insert(x).count(y) by {
        if y == x {
            assert(s.to_multiset().count(x) == si.to_multiset().count(x) - 1);
        } else {
            assert(s.to_multiset().count(y) == si.to_multiset().count(y));
        }
    }
}

proof fn lemma_task_views_insert(s: Seq<Task>, j: int, t: Task)
    requires
        0 <= j <= s.len(),
    ensures
        task_views(s.insert(j, t)) =~= task_views(s).insert(j, t@),
{
    s.insert_ensures(j, t);
}

/// Sorts tasks under a mode: the result is ordered and holds exactly the
/// given tasks.
pub fn sort_tasks(v: &Vec<Task>, m: OrderMode) -> (r: Vec<Task>)
    ensures
        sorted_by(task_views(r@), m),
        task_views(r@).to_multiset() == task_views(v@).to_multiset(),
{
    broadcast use vstd::seq_lib::group_to_multiset_ensures;

    let mut r: Vec<Task> = Vec::new();
    let mut idx: usize = 0;
    proof {
        assert(v@.take(0) =~= Seq::<Task>::empty());
        assert(task_views(v@.take(0)) =~= Seq::<TaskView>::empty());
        assert(task_views(r@) =~= Seq::<TaskView>::empty());
        assert(task_views(r@).to_multiset() =~= task_views(v@.take(0)).to_multiset());
    }
    while idx < v.len()
        invariant
            idx <= v.len(),
            sorted_by(task_views(r@), m),
            task_views(r@).to_multiset() == task_views(v@.take(idx as int)).to_multiset(),
        decreases v.len() - idx,
    {
        let t = v[idx].clone();
        let mut j: usize = 0;
        while j < r.len() && task_le_exec(&r[j], &t, m)
            invariant
                j <= r.len(),
                forall|k: int| 0 <= k < j ==> #[trigger] task_le(task_views(r@)[k], t@, m),
            decreases r.len() - j,
        {
            j = j + 1;
        }
        let ghost old_r = r@;
        proof {
            if j < r.len() {
                lemma_task_le_total(task_views(old_r)[j as int], t@, m);
            }
        }
        r.insert(j, t);
        proof {
            lemma_task_views_insert(old_r, j as int, t);
            lemma_insert_to_multiset(task_views(old_r), j as int, t@);
            let nv = task_views(r@);
            let ov = task_views(old_r);
            assert(nv =~= ov.insert(j as int, t@));
            ov.insert_ensures(j as int, t@);
            assert forall|p: int, q: int| 0 <= p < q < nv.len() implies #[trigger] task_le(
                nv[p],
                nv[q],
                m,
            ) by {
                if p < j && q == j {
                    assert(task_le(ov[p], t@, m));
                } else if p == j && q > j {
                    assert(task_le(t@, ov[j as int], m));
                    assert(task_le(ov[j as int], ov[q - 1], m) || q - 1 == j);
                    if q - 1 > j {
                        lemma_task_le_trans(t@, ov[j as int], ov[q - 1], m);
                    }
                } else if p < j && q > j {
                    assert(task_le(ov[p], ov[q - 1], m));
                } else if p > j && q > j {
                    assert(task_le(ov[p - 1], ov[q - 1], m));
                }
            }
            assert(v@.take(idx + 1).drop_last() =~= v@.take(idx as int));
            assert(v@.take(idx + 1) =~= v@.take(idx as int).push(v@[idx as int]));
            assert(task_views(v@.take(idx + 1)) =~= task_views(v@.take(idx as int)).push(
                v@[idx as int]@,
            ));
            assert(t@ == v@[idx as int]@);
            vstd::seq_lib::to_multiset_build(task_views(v@.take(idx as int)), t@);
            assert(task_views(r@).to_multiset() =~= task_views(v@.take(idx + 1)).to_multiset());
        }
        idx = idx + 1;
    }
    proof {
        assert(v@.take(v@.len() as int) =~= v@);
    }
    r
}

} // verus!

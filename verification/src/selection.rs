//! The selection / detail-loading state machine. Every selection mints a
//! fresh, strictly increasing token; the debounce timer and the background
//! fetch report back carrying their token, and a report whose token no
//! longer names the in-flight load is discarded without any effect. That
//! discipline is what keeps the detail pane on the most recent selection
//! whatever order fetches complete in, and keeps the loading indicator
//! hidden for fetches that resolve before the debounce fires.

use vstd::prelude::*;

use crate::StoreError;
use crate::pane::DetailPane;
use crate::pane::DetailPaneView;
use crate::pane::apply_task_to_ui;
use crate::pane::clear_task_detail;
use crate::pane::empty_pane;
use crate::pane::pane_of;
use crate::task::Task;
use crate::task::TaskView;

verus! {

/// Where the selection machinery stands.
pub enum SelPhase {
    /// Nothing selected; the pane is clear.
    Idle,
    /// A detail fetch for the row at `index` is in flight under `token`.
    Loading { index: usize, token: u64 },
    /// The pane shows the task loaded for the row at `index`.
    Loaded { index: usize, task: Task },
}

/// The mathematical value of a [`SelPhase`].
pub enum SelPhaseView {
    Idle,
    Loading { index: int, token: nat },
    Loaded { index: int, task: TaskView },
}

/// The mathematical value of a [`SelectionController`].
pub struct SelView {
    pub phase: SelPhaseView,
    pub generation: nat,
    pub indicator: bool,
    pub pane: DetailPaneView,
}

/// An event the machine reacts to.
pub enum SelEvent {
    /// The selection was cleared.
    Deselect,
    /// A row was selected and a fetch dispatched for it.
    BeginLoad { index: int },
    /// The debounce timer fired for the load started under `token`.
    Debounce { token: nat },
    /// The fetch started under `token` came back; `None` is a failed fetch.
    Complete { token: nat, outcome: Option<TaskView> },
}

/// The machine's transition function. A `Debounce` or `Complete` whose token
/// does not name the load currently in flight changes nothing.
pub open spec fn sel_step(s: SelView, e: SelEvent) -> SelView {
    match e {
        SelEvent::Deselect => SelView {
            phase: SelPhaseView::Idle,
            generation: s.generation,
            indicator: false,
            pane: empty_pane(),
        },
        SelEvent::BeginLoad { index } => SelView {
            phase: SelPhaseView::Loading { index, token: s.generation + 1 },
            generation: s.generation + 1,
            indicator: s.indicator,
            pane: s.pane,
        },
        SelEvent::Debounce { token } => match s.phase {
            SelPhaseView::Loading { index, token: live } => if live == token {
                SelView { phase: s.phase, generation: s.generation, indicator: true, pane: s.pane }
            } else {
                s
            },
            _ => s,
        },
        SelEvent::Complete { token, outcome } => match s.phase {
            SelPhaseView::Loading { index, token: live } => if live == token {
                match outcome {
                    Option::Some(t) => SelView {
                        phase: SelPhaseView::Loaded { index, task: t },
                        generation: s.generation,
                        indicator: false,
                        pane: pane_of(t),
                    },
                    Option::None => SelView {
                        phase: SelPhaseView::Idle,
                        generation: s.generation,
                        indicator: false,
                        pane: empty_pane(),
                    },
                }
            } else {
                s
            },
            _ => s,
        },
    }
}

/// The outcome a fetch result stands for.
pub open spec fn outcome_of(r: Result<Task, StoreError>) -> Option<TaskView> {
    match r {
        Result::Ok(t) => Option::Some(t@),
        Result::Err(_) => Option::None,
    }
}

/// Owns the selection state, the loading indicator and the detail pane.
pub struct SelectionController {
    pub phase: SelPhase,
    pub generation: u64,
    pub indicator: bool,
    pub pane: DetailPane,
}

impl View for SelectionController {
    type V = SelView;

    open spec fn view(&self) -> SelView {
        SelView {
            phase: match self.phase {
                SelPhase::Idle => SelPhaseView::Idle,
                SelPhase::Loading { index, token } => SelPhaseView::Loading {
                    index: index as int,
                    token: token as nat,
                },
                SelPhase::Loaded { index, task } => SelPhaseView::Loaded {
                    index: index as int,
                    task: task@,
                },
            },
            generation: self.generation as nat,
            indicator: self.indicator,
            pane: self.pane@,
        }
    }
}

impl SelectionController {
    /// Idle, indicator hidden, pane clear, no token spent.
    pub fn new() -> (r: SelectionController)
        ensures
            r@.phase == SelPhaseView::Idle,
            r@.generation == 0,
            r@.indicator == false,
            r@.pane == empty_pane(),
    {
        let mut pane = DetailPane {
            title: String::new(),
            created: 0,
            created_text: String::new(),
            tracker: String::new(),
            branch: String::new(),
            review: String::new(),
            commit_template: String::new(),
            notes: String::new(),
        };
        clear_task_detail(&mut pane);
        SelectionController { phase: SelPhase::Idle, generation: 0, indicator: false, pane }
    }

    /// Clears the selection and the pane; any in-flight load is orphaned and
    /// its reports will be discarded.
    pub fn deselect(&mut self)
        ensures
            final(self)@ == sel_step(old(self)@, SelEvent::Deselect),
    {
        self.phase = SelPhase::Idle;
        self.indicator = false;
        clear_task_detail(&mut self.pane);
    }

    /// Mints the next token and records the load dispatched under it.
    pub fn begin_load(&mut self, index: usize) -> (token: u64)
        requires
            old(self).generation < u64::MAX,
        ensures
            final(self)@ == sel_step(old(self)@, SelEvent::BeginLoad { index: index as int }),
            token as nat == final(self)@.generation,
    {
        self.generation = self.generation + 1;
        self.phase = SelPhase::Loading { index, token: self.generation };
        self.generation
    }

    /// The debounce timer fired: shows the indicator only when the load it
    /// was started for is still in flight.
    pub fn debounce_fired(&mut self, token: u64)
        ensures
            final(self)@ == sel_step(old(self)@, SelEvent::Debounce { token: token as nat }),
    {
        let live = match self.phase {
            SelPhase::Loading { token: live, .. } => live == token,
            _ => false,
        };
        if live {
            self.indicator = true;
        }
    }

    /// A fetch came back: applied only when its token still names the load
    /// in flight; a stale report changes nothing; a failed current fetch
    /// clears everything.
    pub fn fetch_completed(&mut self, token: u64, result: Result<Task, StoreError>)
        ensures
            final(self)@ == sel_step(
                old(self)@,
                SelEvent::Complete { token: token as nat, outcome: outcome_of(result) },
            ),
    {
        let live_index = match self.phase {
            SelPhase::Loading { token: live, index } => if live == token {
                Option::Some(index)
            } else {
                Option::None
            },
            _ => Option::None,
        };
        match live_index {
            Option::Some(index) => match result {
                Result::Ok(t) => {
                    apply_task_to_ui(&mut self.pane, &t);
                    self.indicator = false;
                    self.phase = SelPhase::Loaded { index, task: t };
                },
                Result::Err(_) => {
                    self.indicator = false;
                    self.phase = SelPhase::Idle;
                    clear_task_detail(&mut self.pane);
                },
            },
            Option::None => {},
        }
    }

    /// Shows an already-loaded task at a row, without a fetch: the
    /// synchronous path used after a save, a reorder or an add.
    pub fn show_loaded(&mut self, index: usize, task: &Task)
        ensures
            final(self)@ == (SelView {
                phase: SelPhaseView::Loaded { index: index as int, task: task@ },
                generation: old(self)@.generation,
                indicator: false,
                pane: pane_of(task@),
            }),
    {
        apply_task_to_ui(&mut self.pane, task);
        self.indicator = false;
        self.phase = SelPhase::Loaded { index, task: task.clone() };
    }
}

/// Runs the machine over a sequence of events.
pub open spec fn sel_run(s: SelView, evs: Seq<SelEvent>) -> SelView
    decreases evs.len(),
{
    if evs.len() == 0 {
        s
    } else {
        sel_run(sel_step(s, evs[0]), evs.drop_first())
    }
}

/// An asynchronous report (a timer firing or a fetch completing) under a
/// token.
pub open spec fn is_report(e: SelEvent) -> bool {
    e is Debounce || e is Complete
}

/// The token an asynchronous report carries.
pub open spec fn report_token(e: SelEvent) -> nat {
    match e {
        SelEvent::Debounce { token } => token,
        SelEvent::Complete { token, .. } => token,
        _ => 0,
    }
}

/// Whether a report's token names the load currently in flight.
pub open spec fn names_live_load(s: SelView, tok: nat) -> bool {
    match s.phase {
        SelPhaseView::Loading { token, .. } => token == tok,
        _ => false,
    }
}

/// A report that does not name the live load changes nothing at all.
pub proof fn lemma_stale_report_ignored(s: SelView, e: SelEvent)
    requires
        is_report(e),
        !names_live_load(s, report_token(e)),
    ensures
        sel_step(s, e) == s,
{
}

/// A run of such reports changes nothing either.
pub proof fn lemma_stale_run_ignored(s: SelView, evs: Seq<SelEvent>)
    requires
        forall|k: int| 0 <= k < evs.len() ==> is_report(#[trigger] evs[k]) && !names_live_load(
            s,
            report_token(evs[k]),
        ),
    ensures
        sel_run(s, evs) == s,
    decreases evs.len(),
{
    if evs.len() > 0 {
        lemma_stale_report_ignored(s, evs[0]);
        assert(forall|k: int| 0 <= k < evs.drop_first().len() ==> evs.drop_first()[k]
            == evs[k + 1]);
        lemma_stale_run_ignored(s, evs.drop_first());
    }
}

/// Race safety: start a load (the last selection, token `g`); let reports
/// for any other loads arrive before its fetch completes, and any reports at
/// all after it, in any order. The machine ends `Loaded` with exactly that
/// fetch's task and the pane shows it — earlier selections can never win.
pub proof fn lemma_last_selection_wins(
    s0: SelView,
    index: int,
    pre: Seq<SelEvent>,
    t: TaskView,
    post: Seq<SelEvent>,
)
    requires
        forall|k: int| 0 <= k < pre.len() ==> is_report(#[trigger] pre[k]) && report_token(pre[k])
            != s0.generation + 1,
        forall|k: int| 0 <= k < post.len() ==> is_report(#[trigger] post[k]),
    ensures
        ({
            let g = s0.generation + 1;
            let s1 = sel_step(s0, SelEvent::BeginLoad { index });
            let trace = pre + seq![SelEvent::Complete { token: g, outcome: Option::Some(t) }]
                + post;
            let fin = sel_run(s1, trace);
            fin.phase == SelPhaseView::Loaded { index, task: t } && fin.pane == pane_of(t)
        }),
{
    let g = s0.generation + 1;
    let s1 = sel_step(s0, SelEvent::BeginLoad { index });
    let done = SelEvent::Complete { token: g, outcome: Option::Some(t) };
    let trace = pre + seq![done] + post;
    assert forall|k: int| 0 <= k < pre.len() implies is_report(#[trigger] pre[k])
        && !names_live_load(s1, report_token(pre[k])) by {}
    lemma_stale_run_ignored(s1, pre);
    lemma_run_append(s1, pre, seq![done] + post);
    assert(trace =~= pre + (seq![done] + post));
    let s2 = sel_step(s1, done);
    assert(s2.phase == SelPhaseView::Loaded { index, task: t });
    assert(s2.pane == pane_of(t));
    assert((seq![done] + post).drop_first() =~= post);
    assert(sel_run(s1, seq![done] + post) == sel_run(s2, post));
    assert forall|k: int| 0 <= k < post.len() implies is_report(#[trigger] post[k])
        && !names_live_load(s2, report_token(post[k])) by {}
    lemma_stale_run_ignored(s2, post);
}

/// Running a concatenation is running the parts in turn.
pub proof fn lemma_run_append(s: SelView, a: Seq<SelEvent>, b: Seq<SelEvent>)
    ensures
        sel_run(s, a + b) == sel_run(sel_run(s, a), b),
    decreases a.len(),
{
    if a.len() == 0 {
        assert(a + b =~= b);
    } else {
        assert((a + b).drop_first() =~= a.drop_first() + b);
        lemma_run_append(sel_step(s, a[0]), a.drop_first(), b);
    }
}

/// Debounce: when a load's fetch completes before its debounce timer fires,
/// the loading indicator is never shown — not while the fetch is in flight,
/// not at completion, and not when the late timer fires.
pub proof fn lemma_fast_fetch_never_shows_indicator(
    s0: SelView,
    index: int,
    outcome: Option<TaskView>,
)
    requires
        !s0.indicator,
    ensures
        ({
            let g = s0.generation + 1;
            let s1 = sel_step(s0, SelEvent::BeginLoad { index });
            let s2 = sel_step(s1, SelEvent::Complete { token: g, outcome });
            let s3 = sel_step(s2, SelEvent::Debounce { token: g });
            !s1.indicator && !s2.indicator && !s3.indicator
        }),
{
}

} // verus!

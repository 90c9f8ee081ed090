use task_tracker::StoreError;
use task_tracker::coordinator::Coordinator;
use task_tracker::coordinator::FetchRequest;
use task_tracker::order::OrderMode;
use task_tracker::selection::SelPhase;
use task_tracker::store::TaskStore;
use task_tracker::task::DetailFields;
use task_tracker::task::Task;

fn fresh() -> Coordinator {
    let store = TaskStore::initialize(":memory:").unwrap();
    Coordinator::new(store)
}

fn fields(title: &str, notes: &str) -> DetailFields {
    DetailFields {
        title: title.to_string(),
        tracker: "https://tracker/1".to_string(),
        branch: "work".to_string(),
        review: "https://review/2".to_string(),
        commit_template: "fix: {}".to_string(),
        notes: notes.to_string(),
    }
}

fn resolve(c: &mut Coordinator, req: &FetchRequest) {
    let result = c.store.get_task_detail(req.task_id);
    c.fetch_completed(req.token, result);
}

#[test]
fn seeded_task_detail_loads_after_fetch() {
    let mut c = fresh();
    let req = c.select_task(0).unwrap();
    let result = c.store.get_task_detail(req.task_id);
    assert!(matches!(c.sel.phase, SelPhase::Loading { .. }));
    c.fetch_completed(req.token, result);
    assert_eq!(c.sel.pane.title, "Sample Task");
    assert_eq!(c.sel.pane.tracker, "");
    assert_eq!(c.sel.pane.branch, "");
    assert_eq!(c.sel.pane.review, "");
    assert_eq!(c.sel.pane.commit_template, "");
    assert_eq!(c.sel.pane.notes, "");
    assert!(matches!(c.sel.phase, SelPhase::Loaded { .. }));
}

#[test]
fn add_task_on_two_item_store_selects_new_entry() {
    let mut c = fresh();
    c.add_task("Alpha").unwrap();
    assert_eq!(c.list.rows.len(), 2);
    c.add_task("Fix bug").unwrap();
    assert_eq!(c.list.rows.len(), 3);
    let i = c.selected.unwrap();
    assert_eq!(c.list.rows[i].title, "Fix bug");
    assert_eq!(c.sel.pane.title, "Fix bug");
    assert_eq!(c.sel.pane.tracker, "");
    assert_eq!(c.sel.pane.notes, "");
    assert_eq!(c.new_task_input, "");
}

#[test]
fn stale_fetch_results_are_discarded() {
    let mut c = fresh();
    c.add_task("Alpha").unwrap();
    c.add_task("Beta").unwrap();
    c.add_task("Gamma").unwrap();
    let req_a = c.select_task(0).unwrap();
    let req_b = c.select_task(1).unwrap();
    let req_c = c.select_task(2).unwrap();
    let res_a = c.store.get_task_detail(req_a.task_id);
    let res_b = c.store.get_task_detail(req_b.task_id);
    let res_c = c.store.get_task_detail(req_c.task_id);
    let title_c = c.list.rows[2].title.clone();
    // completions come back out of order: b, then c, then the very late a
    c.fetch_completed(req_b.token, res_b);
    c.fetch_completed(req_c.token, res_c);
    c.fetch_completed(req_a.token, res_a);
    assert_eq!(c.sel.pane.title, title_c);
    match c.sel.phase {
        SelPhase::Loaded { index, ref task } => {
            assert_eq!(index, 2);
            assert_eq!(task.title, title_c);
        },
        _ => panic!("expected Loaded"),
    }
}

#[test]
fn fast_fetch_never_shows_indicator() {
    let mut c = fresh();
    let req = c.select_task(0).unwrap();
    assert!(!c.sel.indicator);
    resolve(&mut c, &req);
    assert!(!c.sel.indicator);
    // the 100ms timer fires only after the fetch already resolved
    c.debounce_fired(req.token);
    assert!(!c.sel.indicator);
}

#[test]
fn slow_fetch_shows_indicator_until_it_resolves() {
    let mut c = fresh();
    let req = c.select_task(0).unwrap();
    c.debounce_fired(req.token);
    assert!(c.sel.indicator);
    resolve(&mut c, &req);
    assert!(!c.sel.indicator);
}

#[test]
fn superseded_debounce_is_suppressed() {
    let mut c = fresh();
    c.add_task("Alpha").unwrap();
    let req_a = c.select_task(0).unwrap();
    let req_b = c.select_task(1).unwrap();
    // the first selection's timer fires after it was superseded
    c.debounce_fired(req_a.token);
    assert!(!c.sel.indicator);
    c.debounce_fired(req_b.token);
    assert!(c.sel.indicator);
    resolve(&mut c, &req_b);
    assert!(!c.sel.indicator);
}

#[test]
fn deselect_clears_pane_and_orphans_fetch() {
    let mut c = fresh();
    let req = c.select_task(0).unwrap();
    let res = c.store.get_task_detail(req.task_id);
    assert!(c.select_task(-1).is_none());
    assert!(c.selected.is_none());
    c.fetch_completed(req.token, res);
    assert!(matches!(c.sel.phase, SelPhase::Idle));
    assert_eq!(c.sel.pane.title, "");
}

#[test]
fn out_of_range_selection_is_ignored() {
    let mut c = fresh();
    assert!(c.select_task(5).is_none());
    assert!(c.selected.is_none());
}

#[test]
fn failed_current_fetch_reverts_to_idle() {
    let mut c = fresh();
    let req = c.select_task(0).unwrap();
    c.fetch_completed(req.token, Err(StoreError::NotFound));
    assert!(matches!(c.sel.phase, SelPhase::Idle));
    assert!(c.selected.is_none());
    assert_eq!(c.sel.pane.title, "");
}

#[test]
fn save_then_get_returns_saved_fields() {
    let mut c = fresh();
    c.select_task(0).unwrap();
    let id = c.list.rows[0].id;
    let before = c.store.get_task_detail(id).unwrap();
    c.save_detail(fields("Renamed", "some notes")).unwrap();
    let t = c.store.get_task_detail(id).unwrap();
    assert_eq!(t.title, "Renamed");
    assert_eq!(t.tracker, "https://tracker/1");
    assert_eq!(t.branch, "work");
    assert_eq!(t.review, "https://review/2");
    assert_eq!(t.commit_template, "fix: {}");
    assert_eq!(t.notes, "some notes");
    assert_eq!(t.id, before.id);
    assert_eq!(t.created, before.created);
    assert_eq!(t.current, before.current);
    // the visible row and the pane already match the store
    assert_eq!(c.list.rows[0].title, "Renamed");
    assert_eq!(c.sel.pane.title, "Renamed");
    assert_eq!(c.sel.pane.notes, "some notes");
}

#[test]
fn save_with_nothing_selected_is_a_no_op() {
    let mut c = fresh();
    c.save_detail(fields("X", "Y")).unwrap();
    let t = c.store.get_task_detail(c.list.rows[0].id).unwrap();
    assert_eq!(t.title, "Sample Task");
}

fn count_current_rows(c: &Coordinator) -> usize {
    c.list.rows.iter().filter(|r| r.current).count()
}

fn count_current_tasks(tasks: &[Task]) -> usize {
    tasks.iter().filter(|t| t.current).count()
}

#[test]
fn set_current_keeps_exactly_one_current() {
    let mut c = fresh();
    c.add_task("Alpha").unwrap();
    c.add_task("Beta").unwrap();
    assert_eq!(count_current_tasks(&c.store.tasks), 0);
    c.select_task(0).unwrap();
    let first_id = c.list.rows[0].id;
    c.set_current().unwrap();
    assert_eq!(count_current_tasks(&c.store.tasks), 1);
    assert_eq!(count_current_rows(&c), 1);
    assert!(c.list.rows[0].current);
    assert_eq!(c.store.log.len(), 1);
    assert_eq!(c.store.log[0].task_id, first_id);
    c.select_task(2).unwrap();
    let third_id = c.list.rows[2].id;
    c.set_current().unwrap();
    assert_eq!(count_current_tasks(&c.store.tasks), 1);
    assert_eq!(count_current_rows(&c), 1);
    assert!(c.list.rows[2].current);
    assert!(!c.list.rows[0].current);
    assert_eq!(c.store.log.len(), 2);
    assert_eq!(c.store.log[1].task_id, third_id);
}

#[test]
fn set_current_with_nothing_selected_is_a_no_op() {
    let mut c = fresh();
    c.set_current().unwrap();
    assert_eq!(count_current_tasks(&c.store.tasks), 0);
    assert_eq!(c.store.log.len(), 0);
}

#[test]
fn selection_follows_task_across_reorder() {
    let mut c = fresh();
    c.add_task("zebra").unwrap();
    c.add_task("aardvark").unwrap();
    // under ByTitle "zebra" sits last; select it
    let ts = c.store.list_tasks(OrderMode::ByTitle);
    let zebra_index = ts.iter().position(|t| t.title == "zebra").unwrap();
    let req = c.select_task(zebra_index as i32).unwrap();
    resolve(&mut c, &req);
    let zebra_id = c.list.rows[zebra_index].id;
    c.change_sort_order(OrderMode::ByCreatedDesc).unwrap();
    let i = c.selected.unwrap();
    assert_eq!(c.list.rows[i].id, zebra_id);
    assert_eq!(c.sel.pane.title, "zebra");
    c.change_sort_order(OrderMode::ByTitle).unwrap();
    let j = c.selected.unwrap();
    assert_eq!(c.list.rows[j].id, zebra_id);
}

#[test]
fn reorder_without_selection_clears_pane() {
    let mut c = fresh();
    c.change_sort_order(OrderMode::ByCreatedDesc).unwrap();
    assert!(c.selected.is_none());
    assert_eq!(c.sel.pane.title, "");
    assert_eq!(c.store.get_sort_order(), OrderMode::ByCreatedDesc);
}

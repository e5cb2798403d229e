use project_merger::merge::merge_projects;
use project_merger::task::{Date, Predecessor, Task, TaskStatus};
use project_merger::workset::{merge_sources, move_selected_down, move_selected_up, remove_source};

fn day(year: i32, month: u32, d: u32) -> Date {
    Date { year, month, day: d }
}

fn task(name: &str, wbs: &str) -> Task {
    let mut t = Task::with_date(name.to_string(), day(2024, 1, 1));
    t.wbs = wbs.to_string();
    t
}

#[test]
fn test_merge_update_existing() {
    let mut base_task = Task::new("Base Task".to_string());
    base_task.wbs = "1.1".to_string();
    base_task.percent_complete = 0;

    let mut overlay_task = Task::new("Overlay Task".to_string());
    overlay_task.wbs = "1.1".to_string();
    overlay_task.percent_complete = 50;
    overlay_task.status = TaskStatus::InProgress;

    let mut base = vec![base_task];
    let overlay = vec![overlay_task];

    merge_projects(&mut base, &overlay);

    assert_eq!(base.len(), 1);
    assert_eq!(base[0].percent_complete, 50);
    assert_eq!(base[0].status, TaskStatus::InProgress);
}

#[test]
fn test_merge_append_new() {
    let mut base_task = Task::new("Base Task".to_string());
    base_task.wbs = "1.1".to_string();

    let mut overlay_task = Task::new("New Task".to_string());
    overlay_task.wbs = "1.2".to_string();

    let mut base = vec![base_task];
    let overlay = vec![overlay_task];

    merge_projects(&mut base, &overlay);

    assert_eq!(base.len(), 2);
    assert_eq!(base[1].wbs, "1.2");
    assert_eq!(base[1].name, "New Task");
}

#[test]
fn merge_keeps_assignee_when_overlay_blank() {
    let mut b = task("Design", "1.1");
    b.assignee = "Alice".to_string();
    let mut o = task("Design", "1.1");
    o.percent_complete = 50;
    o.status = TaskStatus::InProgress;
    let mut base = vec![b];
    merge_projects(&mut base, &[o]);
    assert_eq!(base.len(), 1);
    assert_eq!(base[0].percent_complete, 50);
    assert_eq!(base[0].status, TaskStatus::InProgress);
    assert_eq!(base[0].assignee, "Alice");
}

#[test]
fn merge_overwrites_dates_and_sparse_fields() {
    let mut b = task("Build", "2");
    b.description = "old".to_string();
    b.priority = 7;
    b.predecessors.push(Predecessor { predecessor_uid: 1, link_type: 1, link_lag: 0 });
    let mut o = task("Renamed", "2");
    o.description = "new".to_string();
    o.assignee = "Bob".to_string();
    o.start_date = day(2024, 2, 1);
    o.end_date = day(2024, 2, 9);
    o.duration_days = 7;
    o.priority = 1;
    let mut base = vec![b];
    merge_projects(&mut base, &[o]);
    assert_eq!(base[0].name, "Build");
    assert_eq!(base[0].description, "new");
    assert_eq!(base[0].assignee, "Bob");
    assert_eq!(base[0].start_date, day(2024, 2, 1));
    assert_eq!(base[0].end_date, day(2024, 2, 9));
    assert_eq!(base[0].duration_days, 7);
    assert_eq!(base[0].priority, 7);
    assert_eq!(base[0].predecessors.len(), 1);
}

#[test]
fn merge_appends_task_without_wbs_even_with_same_name() {
    let mut base = vec![task("Review", "")];
    merge_projects(&mut base, &[task("Review", "")]);
    assert_eq!(base.len(), 2);
    assert_eq!(base[1].name, "Review");
    assert_eq!(base[1].wbs, "");
}

#[test]
fn merge_matches_last_duplicate_wbs() {
    let mut base = vec![task("first", "3"), task("second", "3")];
    let mut o = task("x", "3");
    o.percent_complete = 80;
    merge_projects(&mut base, &[o]);
    assert_eq!(base.len(), 2);
    assert_eq!(base[0].percent_complete, 0);
    assert_eq!(base[1].percent_complete, 80);
}

#[test]
fn merge_does_not_match_wbs_appended_in_same_call() {
    let mut base = vec![task("a", "1")];
    let mut o1 = task("n1", "9");
    o1.percent_complete = 10;
    let mut o2 = task("n2", "9");
    o2.percent_complete = 20;
    merge_projects(&mut base, &[o1, o2]);
    assert_eq!(base.len(), 3);
    assert_eq!(base[1].name, "n1");
    assert_eq!(base[1].percent_complete, 10);
    assert_eq!(base[2].name, "n2");
}

#[test]
fn merge_keeps_base_order_and_appends_in_overlay_order() {
    let mut base = vec![task("a", "1"), task("b", "2"), task("c", "3")];
    let overlay = vec![task("x", "5"), task("b2", "2"), task("y", ""), task("z", "6")];
    merge_projects(&mut base, &overlay);
    let names: Vec<&str> = base.iter().map(|t| t.name.as_str()).collect();
    assert_eq!(names, vec!["a", "b", "c", "x", "y", "z"]);
}

#[test]
fn fold_of_three_sources_takes_last_progress() {
    let mut tasks = Vec::new();
    for (src, pct) in [(0usize, 10u32), (1, 20), (2, 30)] {
        let mut t = task("t", "1.1");
        t.source_file = src;
        t.percent_complete = pct;
        tasks.push(t);
    }
    let mut only_a = task("only a", "4");
    only_a.source_file = 0;
    tasks.push(only_a);
    let merged = merge_sources(&tasks, 3);
    assert_eq!(merged.len(), 2);
    assert_eq!(merged[0].percent_complete, 30);
    assert_eq!(merged[1].name, "only a");
}

#[test]
fn merge_sources_without_files_keeps_tasks() {
    let tasks = vec![task("a", "1"), task("b", "2")];
    let r = merge_sources(&tasks, 0);
    assert_eq!(r.len(), 2);
    assert_eq!(r[1].name, "b");
}

#[test]
fn remove_source_renumbers_later_files() {
    let mut tasks = Vec::new();
    for src in [0usize, 1, 2, 1] {
        let mut t = task("t", "");
        t.source_file = src;
        tasks.push(t);
    }
    remove_source(&mut tasks, 1);
    let srcs: Vec<usize> = tasks.iter().map(|t| t.source_file).collect();
    assert_eq!(srcs, vec![0, 1]);
}

#[test]
fn move_up_and_down_follow_selection() {
    let mut tasks = vec![task("a", ""), task("b", ""), task("c", ""), task("d", "")];
    let mut sel = vec![false, true, true, false];
    move_selected_up(&mut tasks, &mut sel);
    let names: Vec<&str> = tasks.iter().map(|t| t.name.as_str()).collect();
    assert_eq!(names, vec!["b", "a", "c", "d"]);
    assert_eq!(sel, vec![true, false, true, false]);
    move_selected_down(&mut tasks, &mut sel);
    let names: Vec<&str> = tasks.iter().map(|t| t.name.as_str()).collect();
    assert_eq!(names, vec!["a", "b", "d", "c"]);
    assert_eq!(sel, vec![false, true, false, true]);
}

#[test]
fn status_rank_follows_sorting_order() {
    assert!(TaskStatus::NotStarted < TaskStatus::InProgress);
    assert!(TaskStatus::InProgress < TaskStatus::OnHold);
    assert!(TaskStatus::OnHold < TaskStatus::Completed);
    assert!(TaskStatus::Completed < TaskStatus::Cancelled);
    assert_eq!(TaskStatus::OnHold.rank(), 2);
    assert_eq!(TaskStatus::Cancelled.name(), "Cancelled");
}

#[test]
fn new_task_starts_and_ends_today() {
    let t = Task::new("x".to_string());
    assert_eq!(t.start_date, t.end_date);
    assert!(t.start_date.month >= 1 && t.start_date.month <= 12);
    assert_eq!(t.status, TaskStatus::NotStarted);
}

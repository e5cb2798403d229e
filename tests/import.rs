use project_merger::export::{iso_date, mspdi_duration, project_of_tasks};
use project_merger::import::{
    duration_from_lowercase, looks_like_xml, parse_date, parse_duration, parse_mspdi_date,
    parse_mspdi_duration, parse_status, status_from_lowercase, tasks_from_project,
};
use project_merger::mspdi::{MspdiPredecessorLink, MspdiTask, Project, Tasks};
use project_merger::sheet::{detect_columns, tasks_from_sheet, task_from_row, SheetCell};
use project_merger::task::{Date, Predecessor, Task, TaskStatus};

fn day(year: i32, month: u32, d: u32) -> Date {
    Date { year, month, day: d }
}

fn mspdi_task(uid: i32, name: &str) -> MspdiTask {
    MspdiTask {
        uid,
        id: uid,
        name: name.to_string(),
        start: String::new(),
        finish: String::new(),
        duration: String::new(),
        percent_complete: 0,
        active: 0,
        manual: 0,
        outline_number: String::new(),
        outline_level: 0,
        priority: 0,
        notes: String::new(),
        wbs: String::new(),
        predecessor_link: Vec::new(),
    }
}

fn project(tasks: Vec<MspdiTask>) -> Project {
    Project { title: String::new(), tasks: Tasks { task: tasks } }
}

#[test]
fn test_import_mpp_xml() {
    let mut t = mspdi_task(1, "Task 1");
    t.start = "2023-01-01T08:00:00".to_string();
    t.finish = "2023-01-05T17:00:00".to_string();
    t.duration = "PT32H0M0S".to_string();
    t.percent_complete = 50;
    t.active = 1;
    t.manual = 0;
    t.outline_number = "1".to_string();
    t.outline_level = 1;
    t.priority = 500;
    t.notes = "Test Note".to_string();
    let tasks = tasks_from_project(&project(vec![t]), day(2020, 6, 1));

    assert_eq!(tasks.len(), 1);
    let task = &tasks[0];
    assert_eq!(task.name, "Task 1");
    assert_eq!(task.start_date, day(2023, 1, 1));
    assert_eq!(task.end_date, day(2023, 1, 5));
    assert_eq!(task.duration_days, 4);
    assert_eq!(task.percent_complete, 50);
    assert_eq!(task.status, TaskStatus::InProgress);
    assert_eq!(task.description, "Test Note");
}

#[test]
fn test_import_mpp_xml_with_predecessors() {
    let mut t1 = mspdi_task(1, "Task 1");
    t1.wbs = "1".to_string();
    let mut t2 = mspdi_task(2, "Task 2");
    t2.wbs = "2".to_string();
    t2.predecessor_link.push(MspdiPredecessorLink {
        predecessor_uid: 1,
        link_type: 1,
        cross_project: 0,
        link_lag: 0,
        lag_format: 7,
    });
    let tasks = tasks_from_project(&project(vec![t1, t2]), day(2020, 6, 1));
    assert_eq!(tasks.len(), 2);
    assert_eq!(tasks[1].predecessors.len(), 1);
    assert_eq!(tasks[1].predecessors[0].predecessor_uid, 1);
    assert_eq!(tasks[1].predecessors[0].link_type, 1);
}

#[test]
fn import_skips_nameless_and_defaults_dates() {
    let mut t = mspdi_task(3, "Done");
    t.percent_complete = 100;
    t.start = "2023-03-04".to_string();
    let tasks = tasks_from_project(&project(vec![mspdi_task(1, ""), t]), day(2020, 6, 1));
    assert_eq!(tasks.len(), 1);
    assert_eq!(tasks[0].status, TaskStatus::Completed);
    assert_eq!(tasks[0].start_date, day(2023, 3, 4));
    assert_eq!(tasks[0].end_date, day(2020, 6, 1));
    assert_eq!(tasks[0].duration_days, 0);
}

#[test]
fn duration_of_whole_days() {
    assert_eq!(parse_mspdi_duration("PT32H0M0S"), 4);
}

#[test]
fn duration_rounds_up() {
    assert_eq!(parse_mspdi_duration("PT10H0M0S"), 2);
    assert_eq!(parse_mspdi_duration("PT8H0M0S"), 1);
    assert_eq!(parse_mspdi_duration("PT0H30M0S"), 0);
    assert_eq!(parse_mspdi_duration("PTPT16H"), 2);
    assert_eq!(parse_mspdi_duration("P2D"), 0);
    assert_eq!(parse_mspdi_duration(""), 0);
    assert_eq!(parse_mspdi_duration("PT4294967295H"), 536870912);
}

#[test]
fn status_texts() {
    assert_eq!(parse_status("Not Started"), Some(TaskStatus::NotStarted));
    assert_eq!(parse_status("IN PROGRESS"), Some(TaskStatus::InProgress));
    assert_eq!(parse_status("Completed"), Some(TaskStatus::Completed));
    assert_eq!(parse_status("On Hold"), Some(TaskStatus::OnHold));
    assert_eq!(parse_status("Cancelled"), Some(TaskStatus::Cancelled));
    assert_eq!(parse_status("unknown"), None);
    assert_eq!(status_from_lowercase("IN PROGRESS"), None);
    assert_eq!(status_from_lowercase("in progress"), Some(TaskStatus::InProgress));
}

#[test]
fn duration_texts() {
    assert_eq!(parse_duration("5"), Some(5));
    assert_eq!(parse_duration("  12 Days "), Some(12));
    assert_eq!(parse_duration("5d"), None);
    assert_eq!(parse_duration("days"), None);
    assert_eq!(duration_from_lowercase("7 days"), Some(7));
    assert_eq!(duration_from_lowercase(""), None);
}

#[test]
fn interchange_dates() {
    assert_eq!(parse_mspdi_date("2023-01-05T17:00:00"), Some(day(2023, 1, 5)));
    assert_eq!(parse_mspdi_date("2024-02-29"), Some(day(2024, 2, 29)));
    assert_eq!(parse_mspdi_date("2023-02-30"), None);
    assert_eq!(parse_mspdi_date("soon"), None);
}

#[test]
fn sheet_dates() {
    assert_eq!(parse_date(" 2023-04-05 ", None), Some(day(2023, 4, 5)));
    assert_eq!(parse_date("04/05/2023", None), Some(day(2023, 4, 5)));
    assert_eq!(parse_date("25/12/2023", None), Some(day(2023, 12, 25)));
    assert_eq!(parse_date("2023/12/25", None), Some(day(2023, 12, 25)));
    assert_eq!(parse_date("25-12-2023", None), Some(day(2023, 12, 25)));
    assert_eq!(parse_date("45000", Some(45000)), Some(day(2023, 3, 15)));
    assert_eq!(parse_date("x", None), None);
    assert_eq!(parse_date("1e300", Some(i64::MAX)), None);
}

#[test]
fn xml_detection() {
    assert!(looks_like_xml(b"<?xml version=\"1.0\"?>"));
    assert!(looks_like_xml(b"<Project/>"));
    assert!(!looks_like_xml(b"\xd0\xcf\x11\xe0"));
    assert!(!looks_like_xml(b""));
}

fn cell(text: &str) -> SheetCell {
    SheetCell { text: text.to_string(), serial_days: text.parse::<f64>().ok().map(|f| f as i64) }
}

#[test]
fn sheet_columns_and_rows() {
    let headers: Vec<String> = ["WBS", "Task Name", "Start Date", "Finish", "Status", "Priority", "Resource", "Duration", "% Complete", "Description"]
        .iter()
        .map(|s| s.to_string())
        .collect();
    let cols = detect_columns(&headers);
    assert_eq!(cols.wbs, Some(0));
    assert_eq!(cols.name, Some(1));
    assert_eq!(cols.start, Some(2));
    assert_eq!(cols.end, Some(3));
    assert_eq!(cols.status, Some(4));
    assert_eq!(cols.priority, Some(5));
    assert_eq!(cols.assignee, Some(6));
    assert_eq!(cols.duration, Some(7));
    assert_eq!(cols.percent, Some(8));
    assert_eq!(cols.description, Some(9));

    let row: Vec<SheetCell> = ["1.2", "Build", "2023-01-02", "bad", "In Progress", "3", "Ann", "4 days", "40%", "walls"]
        .iter()
        .map(|s| cell(s))
        .collect();
    let t = task_from_row(&row, &cols, day(2020, 1, 1)).unwrap();
    assert_eq!(t.wbs, "1.2");
    assert_eq!(t.name, "Build");
    assert_eq!(t.start_date, day(2023, 1, 2));
    assert_eq!(t.end_date, day(2023, 1, 2));
    assert_eq!(t.status, TaskStatus::InProgress);
    assert_eq!(t.priority, 3);
    assert_eq!(t.assignee, "Ann");
    assert_eq!(t.duration_days, 4);
    assert_eq!(t.percent_complete, 40);
    assert_eq!(t.description, "walls");

    let empty: Vec<SheetCell> = (0..10).map(|_| cell("")).collect();
    assert!(task_from_row(&empty, &cols, day(2020, 1, 1)).is_none());
    let short = vec![cell("7")];
    let u = task_from_row(&short, &cols, day(2020, 1, 1)).unwrap();
    assert_eq!(u.name, "Unnamed Task");
    assert_eq!(u.wbs, "7");
    assert_eq!(u.start_date, day(2020, 1, 1));
    assert_eq!(u.status, TaskStatus::NotStarted);

    let all = tasks_from_sheet(&headers, &vec![row, empty, short], day(2020, 1, 1));
    assert_eq!(all.len(), 2);
}

#[test]
fn later_header_wins_and_plain_names() {
    let headers: Vec<String> = ["Name", "Status", "Task Status", "Start", "wbs code"].iter().map(|s| s.to_string()).collect();
    let cols = detect_columns(&headers);
    assert_eq!(cols.name, Some(0));
    assert_eq!(cols.status, Some(2));
    assert_eq!(cols.start, Some(3));
    assert_eq!(cols.wbs, None);
}

#[test]
fn export_records() {
    let mut t = Task::with_date("Pour".to_string(), day(2023, 1, 2));
    t.end_date = day(2023, 1, 6);
    t.duration_days = 5;
    t.percent_complete = 20;
    t.priority = 500;
    t.description = "concrete".to_string();
    t.wbs = "1.3".to_string();
    t.predecessors.push(Predecessor { predecessor_uid: 4, link_type: 1, link_lag: 2 });
    let p = project_of_tasks(&vec![t]);
    assert_eq!(p.title, "Merged Project");
    let m = &p.tasks.task[0];
    assert_eq!(m.uid, 1);
    assert_eq!(m.id, 1);
    assert_eq!(m.start, "2023-01-02T08:00:00");
    assert_eq!(m.finish, "2023-01-06T17:00:00");
    assert_eq!(m.duration, "PT40H0M0S");
    assert_eq!(m.outline_number, "1.3");
    assert_eq!(m.notes, "concrete");
    assert_eq!(m.predecessor_link[0].lag_format, 7);
    assert_eq!(m.predecessor_link[0].link_lag, 2);
    assert_eq!(iso_date(day(987, 3, 9)), "0987-03-09");
    assert_eq!(mspdi_duration(0), "PT0H0M0S");
}

#[test]
fn default_project_is_empty() {
    let p = Project::default();
    assert_eq!(p.title, "");
    assert!(p.tasks.task.is_empty());
}

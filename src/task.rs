use vstd::prelude::*;
use vstd::string::StringExecFns;
use crate::calendar::today;

verus! {

/// Smallest year that the calendar of chrono can represent.
pub const MIN_YEAR: i32 = -262143;

/// Largest year that the calendar of chrono can represent.
pub const MAX_YEAR: i32 = 262142;

pub open spec fn is_leap_year(y: int) -> bool {
    (y % 4 == 0 && y % 100 != 0) || y % 400 == 0
}

pub open spec fn days_in_month(y: int, m: int) -> int {
    if m == 2 {
        if is_leap_year(y) { 29 } else { 28 }
    } else if m == 4 || m == 6 || m == 9 || m == 11 {
        30
    } else {
        31
    }
}

/// A calendar date of the proleptic Gregorian calendar.
#[derive(Clone, Copy, Debug, PartialEq, Eq, Structural)]
pub struct Date {
    pub year: i32,
    pub month: u32,
    pub day: u32,
}

impl Date {
    pub open spec fn is_valid(self) -> bool {
        &&& MIN_YEAR <= self.year <= MAX_YEAR
        &&& 1 <= self.month <= 12
        &&& 1 <= self.day <= days_in_month(self.year as int, self.month as int)
    }

    /// Whether the date exists in the calendar and lies in chrono's range.
    pub fn valid(&self) -> (r: bool)
        ensures
            r == self.is_valid(),
    {
        if self.year < MIN_YEAR || self.year > MAX_YEAR || self.month < 1 || self.month > 12 || self.day < 1 {
            return false;
        }
        let leap = (self.year % 4 == 0 && self.year % 100 != 0) || self.year % 400 == 0;
        let last: u32 = if self.month == 2 {
            if leap { 29 } else { 28 }
        } else if self.month == 4 || self.month == 6 || self.month == 9 || self.month == 11 {
            30
        } else {
            31
        };
        self.day <= last
    }
}

/// How far a task has come. Declared in its sorting order.
#[derive(Clone, Copy, Debug, PartialEq, Eq, Structural, PartialOrd, Ord, Hash)]
pub enum TaskStatus {
    NotStarted,
    InProgress,
    OnHold,
    Completed,
    Cancelled,
}

pub open spec fn status_rank(s: TaskStatus) -> nat {
    match s {
        TaskStatus::NotStarted => 0,
        TaskStatus::InProgress => 1,
        TaskStatus::OnHold => 2,
        TaskStatus::Completed => 3,
        TaskStatus::Cancelled => 4,
    }
}

/// The status's name as written in a spreadsheet export.
pub open spec fn status_name(s: TaskStatus) -> Seq<char> {
    match s {
        TaskStatus::NotStarted => "NotStarted"@,
        TaskStatus::InProgress => "InProgress"@,
        TaskStatus::OnHold => "OnHold"@,
        TaskStatus::Completed => "Completed"@,
        TaskStatus::Cancelled => "Cancelled"@,
    }
}

impl TaskStatus {
    /// The status's name: `NotStarted`, `InProgress`, `OnHold`, `Completed`
    /// or `Cancelled`.
    pub fn name(&self) -> (r: String)
        ensures
            r@ == status_name(*self),
    {
        match self {
            TaskStatus::NotStarted => String::from_str("NotStarted"),
            TaskStatus::InProgress => String::from_str("InProgress"),
            TaskStatus::OnHold => String::from_str("OnHold"),
            TaskStatus::Completed => String::from_str("Completed"),
            TaskStatus::Cancelled => String::from_str("Cancelled"),
        }
    }

    /// Position of the status in the sorting order
    /// NotStarted < InProgress < OnHold < Completed < Cancelled.
    pub fn rank(&self) -> (r: u8)
        ensures
            r as nat == status_rank(*self),
    {
        match self {
            TaskStatus::NotStarted => 0,
            TaskStatus::InProgress => 1,
            TaskStatus::OnHold => 2,
            TaskStatus::Completed => 3,
            TaskStatus::Cancelled => 4,
        }
    }
}

/// A dependency on another task, named by its interchange UID.
#[derive(Clone, Copy, Debug, PartialEq, Eq, Structural)]
pub struct Predecessor {
    pub predecessor_uid: i32,
    pub link_type: i32,
    pub link_lag: i32,
}

/// One line of a schedule.
#[derive(Clone, Debug)]
pub struct Task {
    pub name: String,
    pub description: String,
    pub start_date: Date,
    pub end_date: Date,
    pub status: TaskStatus,
    pub priority: u32,
    pub assignee: String,
    pub duration_days: u32,
    pub percent_complete: u32,
    pub source_file: usize,
    pub wbs: String,
    pub predecessors: Vec<Predecessor>,
}

/// The mathematical value of a [`Task`]: texts as character sequences.
pub struct TaskModel {
    pub name: Seq<char>,
    pub description: Seq<char>,
    pub start_date: Date,
    pub end_date: Date,
    pub status: TaskStatus,
    pub priority: u32,
    pub assignee: Seq<char>,
    pub duration_days: u32,
    pub percent_complete: u32,
    pub source_file: usize,
    pub wbs: Seq<char>,
    pub predecessors: Seq<Predecessor>,
}

impl View for Task {
    type V = TaskModel;

    open spec fn view(&self) -> TaskModel {
        TaskModel {
            name: self.name@,
            description: self.description@,
            start_date: self.start_date,
            end_date: self.end_date,
            status: self.status,
            priority: self.priority,
            assignee: self.assignee@,
            duration_days: self.duration_days,
            percent_complete: self.percent_complete,
            source_file: self.source_file,
            wbs: self.wbs@,
            predecessors: self.predecessors@,
        }
    }
}

/// The models of a sequence of tasks.
pub open spec fn models(tasks: Seq<Task>) -> Seq<TaskModel> {
    tasks.map_values(|t: Task| t@)
}

impl Task {
    /// A task with the given name, dated `today`, and every other field at
    /// its default: empty texts, no WBS, no predecessors, zero numbers,
    /// status NotStarted.
    pub fn with_date(name: String, today: Date) -> (r: Task)
        ensures
            r@ == (TaskModel {
                name: name@,
                description: Seq::empty(),
                start_date: today,
                end_date: today,
                status: TaskStatus::NotStarted,
                priority: 0,
                assignee: Seq::empty(),
                duration_days: 0,
                percent_complete: 0,
                source_file: 0,
                wbs: Seq::empty(),
                predecessors: Seq::empty(),
            }),
    {
        Task {
            name,
            description: String::new(),
            start_date: today,
            end_date: today,
            status: TaskStatus::NotStarted,
            priority: 0,
            assignee: String::new(),
            duration_days: 0,
            percent_complete: 0,
            source_file: 0,
            wbs: String::new(),
            predecessors: Vec::new(),
        }
    }

    /// A task with the given name, starting and ending today, and every other
    /// field at its default: empty texts, no WBS, no predecessors, zero
    /// numbers, status NotStarted.
    pub fn new(name: String) -> (r: Task)
        ensures
            r.start_date.is_valid(),
            r@ == (TaskModel {
                name: name@,
                description: Seq::empty(),
                start_date: r.start_date,
                end_date: r.start_date,
                status: TaskStatus::NotStarted,
                priority: 0,
                assignee: Seq::empty(),
                duration_days: 0,
                percent_complete: 0,
                source_file: 0,
                wbs: Seq::empty(),
                predecessors: Seq::empty(),
            }),
    {
        Task::with_date(name, today())
    }

    /// A copy of the task, field for field.
    pub fn duplicate(&self) -> (r: Task)
        ensures
            r@ == self@,
    {
        let mut preds: Vec<Predecessor> = Vec::new();
        let mut i: usize = 0;
        while i < self.predecessors.len()
            invariant
                i <= self.predecessors@.len(),
                preds@ == self.predecessors@.subrange(0, i as int),
            decreases self.predecessors@.len() - i,
        {
            preds.push(self.predecessors[i]);
            i += 1;
        }
        assert(preds@ == self.predecessors@);
        Task {
            name: self.name.clone(),
            description: self.description.clone(),
            start_date: self.start_date,
            end_date: self.end_date,
            status: self.status,
            priority: self.priority,
            assignee: self.assignee.clone(),
            duration_days: self.duration_days,
            percent_complete: self.percent_complete,
            source_file: self.source_file,
            wbs: self.wbs.clone(),
            predecessors: preds,
        }
    }
}

} // verus!

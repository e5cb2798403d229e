//! Reading tasks out of spreadsheet rows: which column holds which field, and
//! how a row's cell texts become a task.

use vstd::prelude::*;
use crate::task::{Date, Task, TaskModel, TaskStatus, models};
use crate::calendar::today;
use crate::text::{has_infix, lower_of, trimmed, parsed_u32, contains_text, lowercase, trim, parse_u32, chars_of};
use vstd::string::StringExecFns;
use crate::import::{sheet_date_of, status_keyword, duration_words, parse_date, parse_status, parse_duration};

verus! {

/// The task fields that a spreadsheet column can hold.
#[derive(Clone, Copy, Debug, PartialEq, Eq, Structural)]
pub enum Column {
    Name,
    Description,
    Start,
    End,
    Status,
    Priority,
    Assignee,
    Duration,
    Percent,
    Wbs,
}

/// The field that a lower-case header text names, by the first rule that fits.
pub open spec fn column_of_header(h: Seq<char>) -> Option<Column> {
    if (has_infix(h, "task"@) && has_infix(h, "name"@)) || h == "name"@ {
        Some(Column::Name)
    } else if has_infix(h, "description"@) {
        Some(Column::Description)
    } else if (has_infix(h, "start"@) && has_infix(h, "date"@)) || h == "start"@ {
        Some(Column::Start)
    } else if (has_infix(h, "end"@) && has_infix(h, "date"@)) || has_infix(h, "finish"@) {
        Some(Column::End)
    } else if has_infix(h, "status"@) {
        Some(Column::Status)
    } else if has_infix(h, "priority"@) {
        Some(Column::Priority)
    } else if has_infix(h, "assignee"@) || has_infix(h, "resource"@) {
        Some(Column::Assignee)
    } else if has_infix(h, "duration"@) {
        Some(Column::Duration)
    } else if has_infix(h, "percent"@) || has_infix(h, "%"@) {
        Some(Column::Percent)
    } else if h == "wbs"@ {
        Some(Column::Wbs)
    } else {
        None
    }
}

/// The field that an already lower-cased header text names.
pub fn column_from_lowercase(h: &str) -> (r: Option<Column>)
    ensures
        r == column_of_header(h@),
{
    proof {
        reveal_strlit("name");
        reveal_strlit("start");
        reveal_strlit("wbs");
    }
    let is_name = h.unicode_len() == 4 && contains_text(h, "name");
    let is_start = h.unicode_len() == 5 && contains_text(h, "start");
    let is_wbs = h.unicode_len() == 3 && contains_text(h, "wbs");
    proof {
        lemma_same_length_infix(h@, "name"@);
        lemma_same_length_infix(h@, "start"@);
        lemma_same_length_infix(h@, "wbs"@);
    }
    if (contains_text(h, "task") && contains_text(h, "name")) || is_name {
        Some(Column::Name)
    } else if contains_text(h, "description") {
        Some(Column::Description)
    } else if (contains_text(h, "start") && contains_text(h, "date")) || is_start {
        Some(Column::Start)
    } else if (contains_text(h, "end") && contains_text(h, "date")) || contains_text(h, "finish") {
        Some(Column::End)
    } else if contains_text(h, "status") {
        Some(Column::Status)
    } else if contains_text(h, "priority") {
        Some(Column::Priority)
    } else if contains_text(h, "assignee") || contains_text(h, "resource") {
        Some(Column::Assignee)
    } else if contains_text(h, "duration") {
        Some(Column::Duration)
    } else if contains_text(h, "percent") || contains_text(h, "%") {
        Some(Column::Percent)
    } else if is_wbs {
        Some(Column::Wbs)
    } else {
        None
    }
}

proof fn lemma_same_length_infix(h: Seq<char>, n: Seq<char>)
    ensures
        h.len() == n.len() ==> (has_infix(h, n) == (h == n)),
{
    if h.len() == n.len() && has_infix(h, n) {
        let i = choose|i: int| 0 <= i && i + n.len() <= h.len() && #[trigger] h.subrange(i, i + n.len()) == n;
        assert(i == 0);
        assert(h.subrange(0, h.len() as int) =~= h);
    }
    if h == n {
        let z: int = 0;
        assert(h.subrange(z, z + n.len()) =~= n);
        assert(has_infix(h, n));
    }
}

/// For each field, the position of the column that holds it, if any.
#[derive(Clone, Copy, Debug, PartialEq, Eq, Structural)]
pub struct ColumnMap {
    pub name: Option<usize>,
    pub description: Option<usize>,
    pub start: Option<usize>,
    pub end: Option<usize>,
    pub status: Option<usize>,
    pub priority: Option<usize>,
    pub assignee: Option<usize>,
    pub duration: Option<usize>,
    pub percent: Option<usize>,
    pub wbs: Option<usize>,
}

impl ColumnMap {
    pub open spec fn col(self, c: Column) -> Option<usize> {
        match c {
            Column::Name => self.name,
            Column::Description => self.description,
            Column::Start => self.start,
            Column::End => self.end,
            Column::Status => self.status,
            Column::Priority => self.priority,
            Column::Assignee => self.assignee,
            Column::Duration => self.duration,
            Column::Percent => self.percent,
            Column::Wbs => self.wbs,
        }
    }

    /// The map with column `c` at position `i`.
    pub fn set(&mut self, c: Column, i: usize)
        ensures
            forall|k: Column| #[trigger] final(self).col(k) == if k == c { Some(i) } else { old(self).col(k) },
    {
        match c {
            Column::Name => self.name = Some(i),
            Column::Description => self.description = Some(i),
            Column::Start => self.start = Some(i),
            Column::End => self.end = Some(i),
            Column::Status => self.status = Some(i),
            Column::Priority => self.priority = Some(i),
            Column::Assignee => self.assignee = Some(i),
            Column::Duration => self.duration = Some(i),
            Column::Percent => self.percent = Some(i),
            Column::Wbs => self.wbs = Some(i),
        }
    }
}

/// The last position among lower-case headers `hs` whose text names field `c`.
pub open spec fn last_column(hs: Seq<Seq<char>>, c: Column) -> Option<usize>
    decreases hs.len(),
{
    if hs.len() == 0 {
        None
    } else if column_of_header(hs.last()) == Some(c) {
        Some((hs.len() - 1) as usize)
    } else {
        last_column(hs.drop_last(), c)
    }
}

pub open spec fn texts(v: Seq<String>) -> Seq<Seq<char>> {
    v.map_values(|s: String| s@)
}

pub open spec fn lowered(v: Seq<String>) -> Seq<Seq<char>> {
    v.map_values(|s: String| lower_of(s@))
}

/// Assigns fields to already lower-cased header texts; where two headers name
/// one field, the later one holds it.
pub fn columns_from_lowercase(headers: &Vec<String>) -> (r: ColumnMap)
    ensures
        forall|c: Column| #[trigger] r.col(c) == last_column(texts(headers@), c),
{
    let mut m = ColumnMap {
        name: None,
        description: None,
        start: None,
        end: None,
        status: None,
        priority: None,
        assignee: None,
        duration: None,
        percent: None,
        wbs: None,
    };
    let ghost hs = texts(headers@);
    let mut i: usize = 0;
    while i < headers.len()
        invariant
            hs == texts(headers@),
            i <= headers@.len(),
            forall|c: Column| #[trigger] m.col(c) == last_column(hs.take(i as int), c),
        decreases headers@.len() - i,
    {
        let k = column_from_lowercase(headers[i].as_str());
        proof {
            assert(hs.take(i + 1).drop_last() =~= hs.take(i as int));
            assert(hs.take(i + 1).last() == headers@[i as int]@);
        }
        match k {
            Some(c) => m.set(c, i),
            None => {},
        }
        i += 1;
    }
    assert(hs.take(i as int) =~= hs);
    m
}

/// Assigns fields to header texts by their lower-case form; where two headers
/// name one field, the later one holds it.
pub fn detect_columns(headers: &Vec<String>) -> (r: ColumnMap)
    ensures
        forall|c: Column| #[trigger] r.col(c) == last_column(lowered(headers@), c),
{
    let mut low: Vec<String> = Vec::new();
    let mut i: usize = 0;
    while i < headers.len()
        invariant
            i <= headers@.len(),
            texts(low@) == lowered(headers@).take(i as int),
        decreases headers@.len() - i,
    {
        let l = lowercase(headers[i].as_str());
        let ghost before = low@;
        low.push(l);
        proof {
            assert(texts(low@) =~= texts(before).push(l@));
            assert(lowered(headers@).take(i + 1) =~= lowered(headers@).take(i as int).push(lower_of(headers@[i as int]@)));
        }
        i += 1;
    }
    assert(lowered(headers@).take(i as int) =~= lowered(headers@));
    columns_from_lowercase(&low)
}

/// One spreadsheet cell: its text, and where that text reads as a number, the
/// number truncated to whole days (a serial date).
#[derive(Clone, Debug)]
pub struct SheetCell {
    pub text: String,
    pub serial_days: Option<i64>,
}

/// The text of the cell at `col` of `row`, where the column is known and the
/// row reaches it.
pub open spec fn cell_text(row: Seq<SheetCell>, col: Option<usize>) -> Option<Seq<char>> {
    match col {
        Some(c) => if c < row.len() { Some(row[c as int].text@) } else { None },
        None => None,
    }
}

/// The date of the cell at `col` of `row`, if it reads as one.
pub open spec fn cell_date(row: Seq<SheetCell>, col: Option<usize>) -> Option<Date> {
    match col {
        Some(c) => if c < row.len() { sheet_date_of(row[c as int].text@, row[c as int].serial_days) } else { None },
        None => None,
    }
}

/// `s` without its `%` signs.
pub open spec fn without_percent(s: Seq<char>) -> Seq<char>
    decreases s.len(),
{
    if s.len() == 0 {
        s
    } else if s.last() == '%' {
        without_percent(s.drop_last())
    } else {
        without_percent(s.drop_last()).push(s.last())
    }
}

pub open spec fn unnamed_task() -> Seq<char> {
    "Unnamed Task"@
}

pub open spec fn text_or_empty(t: Option<Seq<char>>) -> Seq<char> {
    match t {
        Some(x) => x,
        None => Seq::empty(),
    }
}

/// The task that a data row gives, dated `today` where the start date does
/// not read, and ending at its start where the end date does not read; `None`
/// for a row whose cells are all empty and that has no name.
pub open spec fn row_task(row: Seq<SheetCell>, cols: ColumnMap, today: Date) -> Option<TaskModel> {
    let name = match cell_text(row, cols.name) {
        Some(t) => if t.len() > 0 { t } else { unnamed_task() },
        None => unnamed_task(),
    };
    let start = match cell_date(row, cols.start) { Some(d) => d, None => today };
    if name == unnamed_task() && (forall|i: int| 0 <= i < row.len() ==> (#[trigger] row[i]).text@.len() == 0) {
        None
    } else {
        Some(TaskModel {
            name: name,
            description: text_or_empty(cell_text(row, cols.description)),
            start_date: start,
            end_date: match cell_date(row, cols.end) { Some(d) => d, None => start },
            status: match cell_text(row, cols.status) {
                Some(t) => match status_keyword(lower_of(t)) { Some(s) => s, None => TaskStatus::NotStarted },
                None => TaskStatus::NotStarted,
            },
            priority: match cell_text(row, cols.priority) {
                Some(t) => match parsed_u32(t) { Some(v) => v, None => 0 },
                None => 0,
            },
            assignee: text_or_empty(cell_text(row, cols.assignee)),
            duration_days: match cell_text(row, cols.duration) {
                Some(t) => match duration_words(lower_of(trimmed(t))) { Some(v) => v, None => 0 },
                None => 0,
            },
            percent_complete: match cell_text(row, cols.percent) {
                Some(t) => match parsed_u32(trimmed(without_percent(t))) { Some(v) => v, None => 0 },
                None => 0,
            },
            source_file: 0,
            wbs: text_or_empty(cell_text(row, cols.wbs)),
            predecessors: Seq::empty(),
        })
    }
}

/// The cell at `col` of `row`, if the column is known and the row reaches it.
fn cell_at(row: &Vec<SheetCell>, col: Option<usize>) -> (r: Option<&SheetCell>)
    ensures
        r matches Some(c) ==> cell_text(row@, col) == Some(c.text@) && cell_date(row@, col) == sheet_date_of(c.text@, c.serial_days),
        r is None ==> cell_text(row@, col) is None && cell_date(row@, col) is None,
{
    match col {
        Some(c) => if c < row.len() { Some(&row[c]) } else { None },
        None => None,
    }
}

/// The text of the cell at `col`, or the empty text.
fn text_at(row: &Vec<SheetCell>, col: Option<usize>) -> (r: String)
    ensures
        r@ == text_or_empty(cell_text(row@, col)),
{
    match cell_at(row, col) {
        Some(c) => c.text.clone(),
        None => String::new(),
    }
}

/// `s` without its `%` signs.
pub fn strip_percent(s: &str) -> (r: String)
    ensures
        r@ == without_percent(s@),
{
    let cs = chars_of(s);
    let mut out = String::new();
    let mut i: usize = 0;
    while i < cs.len()
        invariant
            cs@ == s@,
            i <= cs@.len(),
            out@ == without_percent(s@.take(i as int)),
        decreases cs@.len() - i,
    {
        proof {
            assert(s@.take(i + 1).drop_last() =~= s@.take(i as int));
        }
        if cs[i] != '%' {
            let piece = s.substring_char(i, i + 1);
            proof {
                assert(piece@ =~= seq![s@[i as int]]);
            }
            out.append(piece);
            proof {
                assert(out@ =~= without_percent(s@.take(i as int)).push(s@[i as int]));
            }
        }
        i += 1;
    }
    assert(s@.take(i as int) =~= s@);
    out
}

/// The task of one data row; `None` for an empty row that names nothing.
pub fn task_from_row(row: &Vec<SheetCell>, cols: &ColumnMap, today: Date) -> (r: Option<Task>)
    requires
        today.is_valid(),
    ensures
        match r {
            Some(t) => row_task(row@, *cols, today) == Some(t@)
                && t.start_date.is_valid() && t.end_date.is_valid(),
            None => row_task(row@, *cols, today) is None,
        },
{
    let name = match cell_at(row, cols.name) {
        Some(c) => if !c.text.as_str().is_empty() { c.text.clone() } else { String::from_str("Unnamed Task") },
        None => String::from_str("Unnamed Task"),
    };
    let unnamed = String::from_str("Unnamed Task");
    if name == unnamed {
        let mut all_empty = true;
        let mut i: usize = 0;
        while i < row.len()
            invariant
                i <= row@.len(),
                all_empty == (forall|k: int| 0 <= k < i ==> (#[trigger] row@[k]).text@.len() == 0),
            decreases row@.len() - i,
        {
            if !row[i].text.as_str().is_empty() {
                all_empty = false;
            }
            i += 1;
        }
        if all_empty {
            return None;
        }
    }
    let start_date = match cell_at(row, cols.start) {
        Some(c) => match parse_date(c.text.as_str(), c.serial_days) {
            Some(d) => d,
            None => today,
        },
        None => today,
    };
    let end_date = match cell_at(row, cols.end) {
        Some(c) => match parse_date(c.text.as_str(), c.serial_days) {
            Some(d) => d,
            None => start_date,
        },
        None => start_date,
    };
    let status = match cell_at(row, cols.status) {
        Some(c) => match parse_status(c.text.as_str()) {
            Some(s) => s,
            None => TaskStatus::NotStarted,
        },
        None => TaskStatus::NotStarted,
    };
    let priority = match cell_at(row, cols.priority) {
        Some(c) => match parse_u32(c.text.as_str()) {
            Some(v) => v,
            None => 0,
        },
        None => 0,
    };
    let duration_days = match cell_at(row, cols.duration) {
        Some(c) => match parse_duration(c.text.as_str()) {
            Some(v) => v,
            None => 0,
        },
        None => 0,
    };
    let percent_complete = match cell_at(row, cols.percent) {
        Some(c) => {
            let bare = strip_percent(c.text.as_str());
            match parse_u32(trim(bare.as_str())) {
                Some(v) => v,
                None => 0,
            }
        },
        None => 0,
    };
    Some(Task {
        name,
        description: text_at(row, cols.description),
        start_date,
        end_date,
        status,
        priority,
        assignee: text_at(row, cols.assignee),
        duration_days,
        percent_complete,
        source_file: 0,
        wbs: text_at(row, cols.wbs),
        predecessors: Vec::new(),
    })
}

/// The tasks of a sheet's data rows, in order, with rows that give none left out.
pub open spec fn sheet_tasks(rows: Seq<Vec<SheetCell>>, cols: ColumnMap, today: Date) -> Seq<TaskModel>
    decreases rows.len(),
{
    if rows.len() == 0 {
        Seq::empty()
    } else {
        let rest = sheet_tasks(rows.drop_last(), cols, today);
        match row_task(rows.last()@, cols, today) {
            Some(t) => rest.push(t),
            None => rest,
        }
    }
}

/// The tasks of a sheet given its header texts and data rows; dates that do
/// not read fall back to `today` (start) and to the start (end).
pub fn tasks_from_sheet(headers: &Vec<String>, rows: &Vec<Vec<SheetCell>>, today: Date) -> (r: Vec<Task>)
    requires
        today.is_valid(),
    ensures
        exists|cols: ColumnMap|
            (forall|c: Column| #[trigger] cols.col(c) == last_column(lowered(headers@), c))
            && models(r@) == sheet_tasks(rows@, cols, today),
        forall|i: int| 0 <= i < r@.len() ==> (#[trigger] r@[i]).start_date.is_valid() && r@[i].end_date.is_valid(),
{
    let cols = detect_columns(headers);
    let mut out: Vec<Task> = Vec::new();
    let mut i: usize = 0;
    while i < rows.len()
        invariant
            i <= rows@.len(),
            today.is_valid(),
            models(out@) == sheet_tasks(rows@.take(i as int), cols, today),
            forall|k: int| 0 <= k < out@.len() ==> (#[trigger] out@[k]).start_date.is_valid() && out@[k].end_date.is_valid(),
        decreases rows@.len() - i,
    {
        proof {
            assert(rows@.take(i + 1).drop_last() =~= rows@.take(i as int));
            assert(rows@.take(i + 1).last() == rows@[i as int]);
        }
        match task_from_row(&rows[i], &cols, today) {
            Some(t) => {
                let ghost before = out@;
                out.push(t);
                proof {
                    assert(models(out@) =~= models(before).push(t@));
                }
            },
            None => {},
        }
        i += 1;
    }
    assert(rows@.take(i as int) =~= rows@);
    out
}

/// The tasks of a sheet as the reader imports them: start dates that do not
/// read become today's date.
pub fn import_sheet(headers: &Vec<String>, rows: &Vec<Vec<SheetCell>>) -> (r: Vec<Task>)
    ensures
        exists|today: Date, cols: ColumnMap|
            today.is_valid()
            && (forall|c: Column| #[trigger] cols.col(c) == last_column(lowered(headers@), c))
            && models(r@) == sheet_tasks(rows@, cols, today),
{
    let d = today();
    tasks_from_sheet(headers, rows, d)
}

} // verus!

//! Turning source records into tasks: the interchange XML's tasks and the
//! text of spreadsheet cells.

use vstd::prelude::*;
use crate::task::{Date, Task, TaskModel, TaskStatus, Predecessor, models};
use crate::mspdi::{MspdiTask, MspdiTaskModel, MspdiPredecessorLink, Project, mspdi_models};
use crate::text::{
    trimmed, has_infix, parsed_u32, first_word, lower_of, trim_start, word_len, is_white,
    trim, contains_text, parse_u32, lowercase, chars_of, is_white_char,
};
use crate::calendar::{
    date_parsed, datetime_date_parsed, days_after, parse_naive_date, parse_naive_datetime_date,
    add_days, today,
};

verus! {

/// `s` without every leading repetition of `PT`.
pub open spec fn strip_pt(s: Seq<char>) -> Seq<char>
    decreases s.len(),
{
    if s.len() >= 2 && s[0] == 'P' && s[1] == 'T' {
        strip_pt(s.subrange(2, s.len() as int))
    } else {
        s
    }
}

/// Position of the first `c` in `s`, or -1.
pub open spec fn first_index_of(s: Seq<char>, c: char) -> int
    decreases s.len(),
{
    if s.len() == 0 {
        -1
    } else if s[0] == c {
        0
    } else {
        let r = first_index_of(s.drop_first(), c);
        if r < 0 { -1 } else { r + 1 }
    }
}

/// The hours of an interchange duration such as `PT32H0M0S`: the number
/// before the first `H`, once the leading `PT`s are gone; 0 if there is none.
pub open spec fn duration_hours(s: Seq<char>) -> nat {
    let t = strip_pt(s);
    let h = first_index_of(t, 'H');
    if h >= 0 {
        match parsed_u32(t.take(h)) {
            Some(v) => v as nat,
            None => 0,
        }
    } else {
        0
    }
}

/// Whole days of eight hours that an interchange duration covers, rounded up.
pub open spec fn duration_days_of(s: Seq<char>) -> nat {
    ((duration_hours(s) + 7) / 8) as nat
}

proof fn lemma_first_index_of(s: Seq<char>, c: char)
    ensures
        -1 <= first_index_of(s, c) < s.len(),
        first_index_of(s, c) >= 0 ==> s[first_index_of(s, c)] == c,
        forall|j: int| 0 <= j < s.len() && (first_index_of(s, c) < 0 || j < first_index_of(s, c))
            ==> #[trigger] s[j] != c,
    decreases s.len(),
{
    if s.len() > 0 && s[0] != c {
        lemma_first_index_of(s.drop_first(), c);
        assert forall|j: int| 0 <= j < s.len() && (first_index_of(s, c) < 0 || j < first_index_of(s, c))
            implies #[trigger] s[j] != c by {
            if j > 0 {
                assert(s[j] == s.drop_first()[j - 1]);
            }
        }
    }
}

/// Whole days in an interchange duration (`PT<hours>H<minutes>M<seconds>S`):
/// the hours divided by eight, rounded up.
pub fn parse_mspdi_duration(s: &str) -> (r: u32)
    ensures
        r as nat == duration_days_of(s@),
{
    let cs = chars_of(s);
    let n = cs.len();
    let mut i: usize = 0;
    assert(s@.subrange(0, n as int) =~= s@);
    while n - i >= 2 && cs[i] == 'P' && cs[i + 1] == 'T'
        invariant
            cs@ == s@,
            n == cs@.len(),
            i <= n,
            strip_pt(s@) == strip_pt(s@.subrange(i as int, n as int)),
        decreases n - i,
    {
        proof {
            let t = s@.subrange(i as int, n as int);
            assert(t[0] == 'P' && t[1] == 'T');
            assert(t.subrange(2, t.len() as int) =~= s@.subrange(i + 2, n as int));
        }
        i += 2;
    }
    let ghost t = s@.subrange(i as int, n as int);
    proof {
        assert(!(t.len() >= 2 && t[0] == 'P' && t[1] == 'T'));
        assert(strip_pt(t) == t);
        lemma_first_index_of(t, 'H');
    }
    let mut k: usize = i;
    while k < n && cs[k] != 'H'
        invariant
            cs@ == s@,
            n == cs@.len(),
            i <= k <= n,
            t == s@.subrange(i as int, n as int),
            forall|j: int| i <= j < k ==> s@[j] != 'H',
        decreases n - k,
    {
        k += 1;
    }
    let mut hours: u32 = 0;
    if k < n {
        proof {
            assert(t[k - i] == 'H');
            assert(first_index_of(t, 'H') == k - i) by {
                if first_index_of(t, 'H') < k - i {
                    assert(t[first_index_of(t, 'H')] == s@[i + first_index_of(t, 'H')]);
                }
            }
            assert(t.take(k - i) =~= s@.subrange(i as int, k as int));
        }
        match parse_u32(s.substring_char(i, k)) {
            Some(h) => {
                hours = h;
            },
            None => {},
        }
    } else {
        proof {
            assert(first_index_of(t, 'H') < 0) by {
                if first_index_of(t, 'H') >= 0 {
                    assert(t[first_index_of(t, 'H')] == s@[i + first_index_of(t, 'H')]);
                }
            }
        }
    }
    let whole = hours / 8;
    if hours % 8 != 0 {
        whole + 1
    } else {
        whole
    }
}

/// The status that a lower-case status text names: the first of "not" with
/// "start", "in" with "progress", "complete", "hold", "cancel" that it contains.
pub open spec fn status_keyword(l: Seq<char>) -> Option<TaskStatus> {
    if has_infix(l, "not"@) && has_infix(l, "start"@) {
        Some(TaskStatus::NotStarted)
    } else if has_infix(l, "in"@) && has_infix(l, "progress"@) {
        Some(TaskStatus::InProgress)
    } else if has_infix(l, "complete"@) {
        Some(TaskStatus::Completed)
    } else if has_infix(l, "hold"@) {
        Some(TaskStatus::OnHold)
    } else if has_infix(l, "cancel"@) {
        Some(TaskStatus::Cancelled)
    } else {
        None
    }
}

/// The status that an already lower-cased status text names.
pub fn status_from_lowercase(l: &str) -> (r: Option<TaskStatus>)
    ensures
        r == status_keyword(l@),
{
    if contains_text(l, "not") && contains_text(l, "start") {
        Some(TaskStatus::NotStarted)
    } else if contains_text(l, "in") && contains_text(l, "progress") {
        Some(TaskStatus::InProgress)
    } else if contains_text(l, "complete") {
        Some(TaskStatus::Completed)
    } else if contains_text(l, "hold") {
        Some(TaskStatus::OnHold)
    } else if contains_text(l, "cancel") {
        Some(TaskStatus::Cancelled)
    } else {
        None
    }
}

/// The status that a status text names, whatever its case.
pub fn parse_status(s: &str) -> (r: Option<TaskStatus>)
    ensures
        r == status_keyword(lower_of(s@)),
{
    let l = lowercase(s);
    status_from_lowercase(l.as_str())
}

/// A duration in days read from lower-case text: its first word if that is a
/// number, else the whole text if that is a number.
pub open spec fn duration_words(l: Seq<char>) -> Option<u32> {
    match first_word(l) {
        Some(w) if parsed_u32(w) is Some => parsed_u32(w),
        _ => parsed_u32(l),
    }
}

/// A duration in days from already trimmed, lower-cased text such as "5 days".
pub fn duration_from_lowercase(l: &str) -> (r: Option<u32>)
    ensures
        r == duration_words(l@),
{
    let cs = chars_of(l);
    let n = cs.len();
    let mut i: usize = 0;
    assert(l@.subrange(0, n as int) =~= l@);
    while i < n && is_white_char(cs[i])
        invariant
            cs@ == l@,
            n == cs@.len(),
            i <= n,
            trim_start(l@) == trim_start(l@.subrange(i as int, n as int)),
        decreases n - i,
    {
        proof {
            let t = l@.subrange(i as int, n as int);
            assert(t.drop_first() =~= l@.subrange(i + 1, n as int));
        }
        i += 1;
    }
    let ghost t = l@.subrange(i as int, n as int);
    proof {
        assert(t.len() > 0 ==> !is_white(t[0]));
    }
    if i < n {
        let mut k: usize = i;
        while k < n && !is_white_char(cs[k])
            invariant
                cs@ == l@,
                n == cs@.len(),
                i <= k <= n,
                t == l@.subrange(i as int, n as int),
                word_len(t) == (k - i) + word_len(l@.subrange(k as int, n as int)),
            decreases n - k,
        {
            proof {
                let u = l@.subrange(k as int, n as int);
                assert(u.drop_first() =~= l@.subrange(k + 1, n as int));
            }
            k += 1;
        }
        proof {
            assert(word_len(l@.subrange(k as int, n as int)) == 0);
            assert(t.take(k - i) =~= l@.subrange(i as int, k as int));
        }
        let first = parse_u32(l.substring_char(i, k));
        if first.is_some() {
            return first;
        }
    }
    parse_u32(l)
}

/// A duration in days from spreadsheet text such as "5d", "5 days" or "5".
pub fn parse_duration(s: &str) -> (r: Option<u32>)
    ensures
        r == duration_words(lower_of(trimmed(s@))),
{
    let l = lowercase(trim(s));
    duration_from_lowercase(l.as_str())
}

/// The date of an interchange date-time text (`YYYY-MM-DDTHH:MM:SS`), or of a
/// plain `YYYY-MM-DD` text.
pub open spec fn mspdi_date_of(s: Seq<char>) -> Option<Date> {
    match datetime_date_parsed(s, "%Y-%m-%dT%H:%M:%S"@) {
        Some(d) => Some(d),
        None => date_parsed(s, "%Y-%m-%d"@),
    }
}

/// Reads an interchange date or date-time.
pub fn parse_mspdi_date(s: &str) -> (r: Option<Date>)
    ensures
        r == mspdi_date_of(s@),
        r matches Some(d) ==> d.is_valid(),
{
    match parse_naive_datetime_date(s, "%Y-%m-%dT%H:%M:%S") {
        Some(d) => Some(d),
        None => parse_naive_date(s, "%Y-%m-%d"),
    }
}

/// The day before the first day of spreadsheet serial dates: 1899-12-30.
pub open spec fn serial_epoch() -> Date {
    Date { year: 1899, month: 12, day: 30 }
}

/// A spreadsheet date: the trimmed text under the first of the formats
/// `%Y-%m-%d`, `%m/%d/%Y`, `%d/%m/%Y`, `%Y/%m/%d`, `%d-%m-%Y` that reads it;
/// else, where the text reads as a number of days, that many days after
/// [`serial_epoch`].
pub open spec fn sheet_date_of(s: Seq<char>, serial_days: Option<i64>) -> Option<Date> {
    let t = trimmed(s);
    if date_parsed(t, "%Y-%m-%d"@) is Some {
        date_parsed(t, "%Y-%m-%d"@)
    } else if date_parsed(t, "%m/%d/%Y"@) is Some {
        date_parsed(t, "%m/%d/%Y"@)
    } else if date_parsed(t, "%d/%m/%Y"@) is Some {
        date_parsed(t, "%d/%m/%Y"@)
    } else if date_parsed(t, "%Y/%m/%d"@) is Some {
        date_parsed(t, "%Y/%m/%d"@)
    } else if date_parsed(t, "%d-%m-%Y"@) is Some {
        date_parsed(t, "%d-%m-%Y"@)
    } else {
        match serial_days {
            Some(n) => days_after(serial_epoch(), n),
            None => None,
        }
    }
}

/// Reads a spreadsheet date. `serial_days` is the cell's text read as a
/// number of days, truncated toward zero, where it reads as a number.
pub fn parse_date(s: &str, serial_days: Option<i64>) -> (r: Option<Date>)
    ensures
        r == sheet_date_of(s@, serial_days),
        r matches Some(d) ==> d.is_valid(),
{
    let t = trim(s);
    let d = parse_naive_date(t, "%Y-%m-%d");
    if d.is_some() {
        return d;
    }
    let d = parse_naive_date(t, "%m/%d/%Y");
    if d.is_some() {
        return d;
    }
    let d = parse_naive_date(t, "%d/%m/%Y");
    if d.is_some() {
        return d;
    }
    let d = parse_naive_date(t, "%Y/%m/%d");
    if d.is_some() {
        return d;
    }
    let d = parse_naive_date(t, "%d-%m-%Y");
    if d.is_some() {
        return d;
    }
    match serial_days {
        Some(n) => {
            let epoch = Date { year: 1899, month: 12, day: 30 };
            add_days(epoch, n)
        },
        None => None,
    }
}

/// The status an interchange task gets from its percent complete alone.
pub open spec fn status_of_percent(p: u32) -> TaskStatus {
    if p == 100 {
        TaskStatus::Completed
    } else if p > 0 {
        TaskStatus::InProgress
    } else {
        TaskStatus::NotStarted
    }
}

pub fn status_from_percent(p: u32) -> (r: TaskStatus)
    ensures
        r == status_of_percent(p),
{
    if p == 100 {
        TaskStatus::Completed
    } else if p > 0 {
        TaskStatus::InProgress
    } else {
        TaskStatus::NotStarted
    }
}

pub open spec fn link_of(l: MspdiPredecessorLink) -> Predecessor {
    Predecessor { predecessor_uid: l.predecessor_uid, link_type: l.link_type, link_lag: l.link_lag }
}

/// The task that an interchange task with a name becomes; dates that do not
/// read fall back to `today`.
pub open spec fn task_of_mspdi(m: MspdiTaskModel, today: Date) -> TaskModel {
    TaskModel {
        name: m.name,
        description: m.notes,
        start_date: match mspdi_date_of(m.start) { Some(d) => d, None => today },
        end_date: match mspdi_date_of(m.finish) { Some(d) => d, None => today },
        status: status_of_percent(m.percent_complete as u32),
        priority: m.priority as u32,
        assignee: Seq::empty(),
        duration_days: duration_days_of(m.duration) as u32,
        percent_complete: m.percent_complete as u32,
        source_file: 0,
        wbs: m.wbs,
        predecessors: m.predecessor_link.map_values(|l: MspdiPredecessorLink| link_of(l)),
    }
}

/// The tasks of a sequence of interchange tasks: those without a name are
/// skipped, the others converted in order.
pub open spec fn tasks_of_mspdi(ms: Seq<MspdiTaskModel>, today: Date) -> Seq<TaskModel>
    decreases ms.len(),
{
    if ms.len() == 0 {
        Seq::empty()
    } else {
        let rest = tasks_of_mspdi(ms.drop_last(), today);
        if ms.last().name.len() == 0 {
            rest
        } else {
            rest.push(task_of_mspdi(ms.last(), today))
        }
    }
}

/// Converts one interchange task, which has a name.
fn task_from_mspdi(m: &MspdiTask, today: Date) -> (r: Task)
    requires
        today.is_valid(),
    ensures
        r@ == task_of_mspdi(m@, today),
        r.start_date.is_valid(),
        r.end_date.is_valid(),
{
    let mut preds: Vec<Predecessor> = Vec::new();
    let mut j: usize = 0;
    while j < m.predecessor_link.len()
        invariant
            j <= m.predecessor_link@.len(),
            preds@ == m.predecessor_link@.take(j as int).map_values(
                |l: MspdiPredecessorLink| link_of(l),
            ),
        decreases m.predecessor_link@.len() - j,
    {
        let l = m.predecessor_link[j];
        preds.push(Predecessor {
            predecessor_uid: l.predecessor_uid,
            link_type: l.link_type,
            link_lag: l.link_lag,
        });
        proof {
            assert(m.predecessor_link@.take(j + 1).map_values(|l: MspdiPredecessorLink| link_of(l))
                =~= m.predecessor_link@.take(j as int).map_values(|l: MspdiPredecessorLink| link_of(l)).push(link_of(l)));
        }
        j += 1;
    }
    assert(m.predecessor_link@.take(j as int) =~= m.predecessor_link@);
    let mut task = Task::with_date(m.name.clone(), today);
    task.predecessors = preds;
    let start = parse_mspdi_date(m.start.as_str());
    match start {
        Some(d) => {
            task.start_date = d;
        },
        None => {},
    }
    match parse_mspdi_date(m.finish.as_str()) {
        Some(d) => {
            task.end_date = d;
        },
        None => {},
    }
    task.duration_days = parse_mspdi_duration(m.duration.as_str());
    task.percent_complete = #[verifier::truncate] (m.percent_complete as u32);
    task.priority = #[verifier::truncate] (m.priority as u32);
    task.description = m.notes.clone();
    task.wbs = m.wbs.clone();
    task.status = status_from_percent(task.percent_complete);
    task
}

/// The tasks of an interchange project, dated `today` where a date does not
/// read: tasks without a name are skipped, the others converted in order,
/// status following percent complete.
pub fn tasks_from_project(project: &Project, today: Date) -> (r: Vec<Task>)
    requires
        today.is_valid(),
    ensures
        models(r@) == tasks_of_mspdi(mspdi_models(project.tasks.task@), today),
        forall|i: int| 0 <= i < r@.len() ==> (#[trigger] r@[i]).start_date.is_valid() && r@[i].end_date.is_valid(),
{
    let ts = &project.tasks.task;
    let ghost ms = mspdi_models(ts@);
    let mut out: Vec<Task> = Vec::new();
    let mut i: usize = 0;
    while i < ts.len()
        invariant
            ms == mspdi_models(ts@),
            i <= ts@.len(),
            today.is_valid(),
            models(out@) == tasks_of_mspdi(ms.take(i as int), today),
            forall|k: int| 0 <= k < out@.len() ==> (#[trigger] out@[k]).start_date.is_valid() && out@[k].end_date.is_valid(),
        decreases ts@.len() - i,
    {
        let m = &ts[i];
        proof {
            assert(ms.take(i + 1).drop_last() =~= ms.take(i as int));
            assert(ms.take(i + 1).last() == m@);
        }
        if !m.name.as_str().is_empty() {
            let t = task_from_mspdi(m, today);
            let ghost before = out@;
            out.push(t);
            proof {
                assert(models(out@) =~= models(before).push(t@));
            }
        }
        i += 1;
    }
    assert(ms.take(i as int) =~= ms);
    out
}

/// The tasks of an interchange project, as the reader imports them: dates
/// that do not read become today's date.
pub fn import_project(project: &Project) -> (r: Vec<Task>)
    ensures
        exists|today: Date| today.is_valid()
            && models(r@) == tasks_of_mspdi(mspdi_models(project.tasks.task@), today),
{
    let d = today();
    tasks_from_project(project, d)
}

/// Whether file content is interchange XML rather than a binary project file:
/// it starts with `<`.
pub fn looks_like_xml(content: &[u8]) -> (r: bool)
    ensures
        r == (content@.len() > 0 && content@[0] == 60u8),
{
    content.len() > 0 && content[0] == 60u8
}

} // verus!

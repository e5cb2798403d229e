//! Turning tasks into the records that the sinks write.

use vstd::prelude::*;
use crate::task::{Date, Task, TaskModel, Predecessor};
use crate::mspdi::{MspdiTask, MspdiTaskModel, MspdiPredecessorLink, Project, Tasks, mspdi_models};
use crate::text::{decimal_text, decimal};
use crate::calendar::{iso_date_text, format_iso_date};
use vstd::string::StringExecFns;

verus! {

/// A task's dates are dates of the calendar.
pub open spec fn has_valid_dates(t: Task) -> bool {
    t.start_date.is_valid() && t.end_date.is_valid()
}

/// `d` as `YYYY-MM-DD`.
pub fn iso_date(d: Date) -> (r: String)
    requires
        d.is_valid(),
    ensures
        r@ == iso_date_text(d),
{
    format_iso_date(d)
}

/// The interchange duration of a number of eight-hour days: `PT<hours>H0M0S`.
pub open spec fn duration_text(days: u32) -> Seq<char> {
    "PT"@ + decimal_text(days as nat * 8) + "H0M0S"@
}

pub fn mspdi_duration(days: u32) -> (r: String)
    ensures
        r@ == duration_text(days),
{
    let hours: u64 = days as u64 * 8;
    let mut s = String::from_str("PT");
    let digits = decimal(hours);
    s.append(digits.as_str());
    s.append("H0M0S");
    s
}

pub open spec fn link_to_mspdi(p: Predecessor) -> MspdiPredecessorLink {
    MspdiPredecessorLink {
        predecessor_uid: p.predecessor_uid,
        link_type: p.link_type,
        cross_project: 0,
        link_lag: p.link_lag,
        lag_format: 7,
    }
}

/// The interchange task written for task `t` at position `i`: UID and ID
/// `i + 1`, the working day from 08:00 to 17:00, the WBS also as outline
/// number, the description as notes.
pub open spec fn mspdi_of(t: TaskModel, i: int) -> MspdiTaskModel {
    MspdiTaskModel {
        uid: (i + 1) as i32,
        id: (i + 1) as i32,
        name: t.name,
        start: iso_date_text(t.start_date) + "T08:00:00"@,
        finish: iso_date_text(t.end_date) + "T17:00:00"@,
        duration: duration_text(t.duration_days),
        percent_complete: t.percent_complete as i32,
        active: 1,
        manual: 0,
        outline_number: t.wbs,
        outline_level: 1,
        priority: t.priority as i32,
        notes: t.description,
        wbs: t.wbs,
        predecessor_link: t.predecessors.map_values(|p: Predecessor| link_to_mspdi(p)),
    }
}

/// The interchange task for task `t` at position `i` of the exported list.
pub fn mspdi_task_of(t: &Task, i: usize) -> (r: MspdiTask)
    requires
        has_valid_dates(*t),
        i < usize::MAX,
    ensures
        r@ == mspdi_of(t@, i as int),
{
    let mut links: Vec<MspdiPredecessorLink> = Vec::new();
    let mut j: usize = 0;
    while j < t.predecessors.len()
        invariant
            j <= t.predecessors@.len(),
            links@ == t.predecessors@.take(j as int).map_values(|p: Predecessor| link_to_mspdi(p)),
        decreases t.predecessors@.len() - j,
    {
        let p = t.predecessors[j];
        links.push(MspdiPredecessorLink {
            predecessor_uid: p.predecessor_uid,
            link_type: p.link_type,
            cross_project: 0,
            link_lag: p.link_lag,
            lag_format: 7,
        });
        proof {
            assert(t.predecessors@.take(j + 1).map_values(|p: Predecessor| link_to_mspdi(p))
                =~= t.predecessors@.take(j as int).map_values(|p: Predecessor| link_to_mspdi(p)).push(link_to_mspdi(p)));
        }
        j += 1;
    }
    assert(t.predecessors@.take(j as int) =~= t.predecessors@);
    let next: usize = i + 1;
    let n: i32 = #[verifier::truncate] (next as i32);
    let start = iso_date(t.start_date).concat("T08:00:00");
    let finish = iso_date(t.end_date).concat("T17:00:00");
    MspdiTask {
        uid: n,
        id: n,
        name: t.name.clone(),
        start,
        finish,
        duration: mspdi_duration(t.duration_days),
        percent_complete: #[verifier::truncate] (t.percent_complete as i32),
        active: 1,
        manual: 0,
        outline_number: t.wbs.clone(),
        outline_level: 1,
        priority: #[verifier::truncate] (t.priority as i32),
        notes: t.description.clone(),
        wbs: t.wbs.clone(),
        predecessor_link: links,
    }
}

pub open spec fn merged_project_title() -> Seq<char> {
    "Merged Project"@
}

/// The interchange project that the XML sink writes for `tasks`: titled
/// "Merged Project", one interchange task per task, in order.
pub fn project_of_tasks(tasks: &Vec<Task>) -> (r: Project)
    requires
        forall|i: int| 0 <= i < tasks@.len() ==> has_valid_dates(#[trigger] tasks@[i]),
    ensures
        r.title@ == merged_project_title(),
        mspdi_models(r.tasks.task@).len() == tasks@.len(),
        forall|i: int| 0 <= i < tasks@.len() ==> #[trigger] mspdi_models(r.tasks.task@)[i] == mspdi_of(tasks@[i]@, i),
{
    let mut out: Vec<MspdiTask> = Vec::new();
    let mut i: usize = 0;
    while i < tasks.len()
        invariant
            i <= tasks@.len(),
            forall|k: int| 0 <= k < tasks@.len() ==> has_valid_dates(#[trigger] tasks@[k]),
            out@.len() == i,
            forall|k: int| 0 <= k < i ==> #[trigger] out@[k]@ == mspdi_of(tasks@[k]@, k),
        decreases tasks@.len() - i,
    {
        let m = mspdi_task_of(&tasks[i], i);
        out.push(m);
        i += 1;
    }
    Project { title: String::from_str("Merged Project"), tasks: Tasks { task: out } }
}

} // verus!

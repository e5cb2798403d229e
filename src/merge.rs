use vstd::prelude::*;
use crate::task::{Task, TaskModel, models};

verus! {

/// Position of the last task of `s` whose WBS is `w`, or -1 if there is none.
pub open spec fn last_wbs_index(s: Seq<TaskModel>, w: Seq<char>) -> int
    decreases s.len(),
{
    if s.len() == 0 {
        -1
    } else if s.last().wbs == w {
        s.len() - 1
    } else {
        last_wbs_index(s.drop_last(), w)
    }
}

/// Whether overlay task `o` matches a task of `base` by WBS identity.
pub open spec fn is_match(base: Seq<TaskModel>, o: TaskModel) -> bool {
    o.wbs.len() > 0 && last_wbs_index(base, o.wbs) >= 0
}

/// The base task `b` after matched overlay task `o` has been applied to it:
/// progress, status, dates and duration are taken from `o`; assignee and
/// description only where `o`'s are non-empty; the rest stays.
pub open spec fn overwrite(b: TaskModel, o: TaskModel) -> TaskModel {
    TaskModel {
        percent_complete: o.percent_complete,
        status: o.status,
        start_date: o.start_date,
        end_date: o.end_date,
        duration_days: o.duration_days,
        assignee: if o.assignee.len() > 0 { o.assignee } else { b.assignee },
        description: if o.description.len() > 0 { o.description } else { b.description },
        ..b
    }
}

/// One overlay task applied to the running list `cur`, with matches looked up
/// in `base`, the list as it stood when the merge began.
pub open spec fn merge_step(cur: Seq<TaskModel>, base: Seq<TaskModel>, o: TaskModel) -> Seq<TaskModel> {
    if is_match(base, o) {
        let p = last_wbs_index(base, o.wbs);
        cur.update(p, overwrite(cur[p], o))
    } else {
        cur.push(o)
    }
}

/// `base` after the first `n` tasks of `overlay` have been applied in order.
pub open spec fn merge_prefix(base: Seq<TaskModel>, overlay: Seq<TaskModel>, n: nat) -> Seq<TaskModel>
    decreases n,
{
    if n == 0 {
        base
    } else {
        merge_step(merge_prefix(base, overlay, (n - 1) as nat), base, overlay[n - 1])
    }
}

/// The result of merging `overlay` into `base`.
pub open spec fn merged(base: Seq<TaskModel>, overlay: Seq<TaskModel>) -> Seq<TaskModel> {
    merge_prefix(base, overlay, overlay.len())
}

/// `r` is the position of the last task with WBS `w` among the first `limit` of `s`,
/// or -1 if there is none.
pub open spec fn is_last_wbs_position(s: Seq<TaskModel>, limit: int, w: Seq<char>, r: int) -> bool {
    &&& -1 <= r < limit
    &&& r >= 0 ==> s[r].wbs == w
    &&& forall|j: int| r < j < limit ==> s[j].wbs != w
}

pub proof fn lemma_last_wbs_index(s: Seq<TaskModel>, w: Seq<char>)
    ensures
        is_last_wbs_position(s, s.len() as int, w, last_wbs_index(s, w)),
    decreases s.len(),
{
    if s.len() > 0 && s.last().wbs != w {
        lemma_last_wbs_index(s.drop_last(), w);
        let r = last_wbs_index(s, w);
        assert forall|j: int| r < j < s.len() implies #[trigger] s[j].wbs != w by {
            if j < s.len() - 1 {
                assert(s[j] == s.drop_last()[j]);
            }
        }
    }
}

pub proof fn lemma_last_wbs_position_unique(s: Seq<TaskModel>, limit: int, w: Seq<char>, r1: int, r2: int)
    requires
        is_last_wbs_position(s, limit, w, r1),
        is_last_wbs_position(s, limit, w, r2),
    ensures
        r1 == r2,
{
}

/// Finds the last of the first `limit` tasks whose WBS equals `w`: the slot
/// that a WBS index built over those tasks, later entries overwriting earlier
/// ones, would hold for `w`.
fn find_last_wbs(tasks: &Vec<Task>, limit: usize, w: &String) -> (r: Option<usize>)
    requires
        limit <= tasks@.len(),
    ensures
        is_last_wbs_position(models(tasks@), limit as int, w@,
            match r { Some(i) => i as int, None => -1 }),
{
    let mut i: usize = limit;
    while i > 0
        invariant
            i <= limit <= tasks@.len(),
            forall|j: int| i <= j < limit ==> tasks@[j]@.wbs != w@,
        decreases i,
    {
        if tasks[i - 1].wbs == *w {
            return Some(i - 1);
        }
        i -= 1;
    }
    None
}

/// Merges `overlay` into `base`, in overlay order.
///
/// An overlay task with a non-empty WBS that some task of `base` carried when
/// the call began updates the last such task (see [`overwrite`]); every other
/// overlay task is appended, a copy of it. Tasks appended during the call are
/// never matched by later overlay tasks of the same call. Lookups search the
/// tasks that were there when the call began, from the last one back.
pub fn merge_projects(base: &mut Vec<Task>, overlay: &[Task])
    ensures
        models(final(base)@) == merged(models(old(base)@), models(overlay@)),
{
    let ghost base0 = models(base@);
    let ghost ov = models(overlay@);
    let n0: usize = base.len();
    let mut i: usize = 0;
    while i < overlay.len()
        invariant
            n0 == base0.len(),
            ov == models(overlay@),
            i <= overlay@.len(),
            models(base@) == merge_prefix(base0, ov, i as nat),
            base@.len() >= n0,
            forall|j: int| 0 <= j < n0 ==> #[trigger] base@[j]@.wbs == base0[j].wbs,
        decreases overlay@.len() - i,
    {
        let o = &overlay[i];
        let ghost cur = models(base@);
        proof {
            assert(ov[i as int] == o@);
            lemma_last_wbs_index(base0, o@.wbs);
        }
        let found = if !o.wbs.as_str().is_empty() {
            find_last_wbs(base, n0, &o.wbs)
        } else {
            None
        };
        proof {
            let r = match found { Some(p) => p as int, None => -1 };
            if o.wbs@.len() > 0 {
                assert(is_last_wbs_position(base0, n0 as int, o@.wbs, r)) by {
                    assert forall|j: int| r < j < n0 implies base0[j].wbs != o@.wbs by {
                        assert(models(base@)[j] == base@[j]@);
                        assert(base@[j]@.wbs == base0[j].wbs);
                    }
                    if r >= 0 {
                        assert(models(base@)[r] == base@[r]@);
                        assert(base@[r]@.wbs == base0[r].wbs);
                    }
                }
                lemma_last_wbs_position_unique(base0, n0 as int, o@.wbs, r, last_wbs_index(base0, o@.wbs));
            }
        }
        match found {
            Some(p) => {
                let t = &mut base[p];
                t.percent_complete = o.percent_complete;
                t.status = o.status;
                t.start_date = o.start_date;
                t.end_date = o.end_date;
                t.duration_days = o.duration_days;
                if !o.assignee.as_str().is_empty() {
                    t.assignee = o.assignee.clone();
                }
                if !o.description.as_str().is_empty() {
                    t.description = o.description.clone();
                }
            },
            None => {
                base.push(o.duplicate());
            },
        }
        proof {
            assert(models(base@) =~= merge_step(cur, base0, o@));
        }
        i += 1;
    }
    assert(ov.len() == overlay@.len());
}

} // verus!

//! The working set of tasks imported from several files, each task tagged
//! with the position of its file: folding the files into one list, and
//! dropping a file.

use vstd::prelude::*;
use crate::task::{Task, TaskModel, models};
use crate::merge::{merged, merge_projects};
use vstd::pervasive::VecAdditionalExecFns;

verus! {

/// The tasks of `ts` that came from file `k`, in order.
pub open spec fn tasks_of_source(ts: Seq<TaskModel>, k: usize) -> Seq<TaskModel>
    decreases ts.len(),
{
    if ts.len() == 0 {
        Seq::empty()
    } else {
        let rest = tasks_of_source(ts.drop_last(), k);
        if ts.last().source_file == k { rest.push(ts.last()) } else { rest }
    }
}

/// File 0's tasks with files 1 to `n - 1` merged into them, in file order.
pub open spec fn fold_sources(ts: Seq<TaskModel>, n: nat) -> Seq<TaskModel>
    decreases n,
{
    if n <= 1 {
        tasks_of_source(ts, 0)
    } else {
        merged(fold_sources(ts, (n - 1) as nat), tasks_of_source(ts, (n - 1) as usize))
    }
}

/// Copies of the tasks that came from file `k`, in order.
pub fn select_source(tasks: &Vec<Task>, k: usize) -> (r: Vec<Task>)
    ensures
        models(r@) == tasks_of_source(models(tasks@), k),
{
    let ghost ts = models(tasks@);
    let mut out: Vec<Task> = Vec::new();
    let mut i: usize = 0;
    while i < tasks.len()
        invariant
            ts == models(tasks@),
            i <= tasks@.len(),
            models(out@) == tasks_of_source(ts.take(i as int), k),
        decreases tasks@.len() - i,
    {
        proof {
            assert(ts.take(i + 1).drop_last() =~= ts.take(i as int));
            assert(ts.take(i + 1).last() == tasks@[i as int]@);
        }
        if tasks[i].source_file == k {
            let t = tasks[i].duplicate();
            let ghost before = out@;
            out.push(t);
            proof {
                assert(models(out@) =~= models(before).push(t@));
            }
        }
        i += 1;
    }
    assert(ts.take(i as int) =~= ts);
    out
}

/// The working set after merging: with no file loaded it stays as it is;
/// otherwise file 0's tasks with each later file merged in, in file order.
pub fn merge_sources(tasks: &Vec<Task>, n_files: usize) -> (r: Vec<Task>)
    ensures
        n_files == 0 ==> models(r@) == models(tasks@),
        n_files > 0 ==> models(r@) == fold_sources(models(tasks@), n_files as nat),
{
    if n_files == 0 {
        let mut same: Vec<Task> = Vec::new();
        let mut i: usize = 0;
        while i < tasks.len()
            invariant
                i <= tasks@.len(),
                models(same@) == models(tasks@).take(i as int),
            decreases tasks@.len() - i,
        {
            let t = tasks[i].duplicate();
            let ghost before = same@;
            same.push(t);
            proof {
                assert(models(same@) =~= models(before).push(t@));
                assert(models(tasks@).take(i + 1) =~= models(tasks@).take(i as int).push(t@));
            }
            i += 1;
        }
        assert(models(tasks@).take(i as int) =~= models(tasks@));
        return same;
    }
    let mut base = select_source(tasks, 0);
    let mut k: usize = 1;
    while k < n_files
        invariant
            1 <= k <= n_files,
            models(base@) == fold_sources(models(tasks@), k as nat),
        decreases n_files - k,
    {
        let overlay = select_source(tasks, k);
        merge_projects(&mut base, overlay.as_slice());
        k += 1;
    }
    base
}

/// `ts` without file `k`'s tasks, later files moving down one place.
pub open spec fn without_source(ts: Seq<TaskModel>, k: usize) -> Seq<TaskModel>
    decreases ts.len(),
{
    if ts.len() == 0 {
        Seq::empty()
    } else {
        let rest = without_source(ts.drop_last(), k);
        let t = ts.last();
        if t.source_file == k {
            rest
        } else if t.source_file > k {
            rest.push(TaskModel { source_file: (t.source_file - 1) as usize, ..t })
        } else {
            rest.push(t)
        }
    }
}

/// Drops file `k` from the working set: its tasks go, and the tasks of later
/// files have their file position lowered by one.
pub fn remove_source(tasks: &mut Vec<Task>, k: usize)
    ensures
        models(final(tasks)@) == without_source(models(old(tasks)@), k),
{
    let ghost ts = models(tasks@);
    let mut out: Vec<Task> = Vec::new();
    let mut i: usize = 0;
    while i < tasks.len()
        invariant
            ts == models(tasks@),
            i <= tasks@.len(),
            models(out@) == without_source(ts.take(i as int), k),
        decreases tasks@.len() - i,
    {
        proof {
            assert(ts.take(i + 1).drop_last() =~= ts.take(i as int));
            assert(ts.take(i + 1).last() == tasks@[i as int]@);
        }
        if tasks[i].source_file != k {
            let mut t = tasks[i].duplicate();
            if t.source_file > k {
                t.source_file = t.source_file - 1;
            }
            let ghost before = out@;
            out.push(t);
            proof {
                assert(models(out@) =~= models(before).push(t@));
            }
        }
        i += 1;
    }
    assert(ts.take(i as int) =~= ts);
    *tasks = out;
}

/// Exchanges the tasks at `a` and `b`.
fn swap_tasks(v: &mut Vec<Task>, a: usize, b: usize)
    requires
        a < old(v)@.len(),
        b < old(v)@.len(),
    ensures
        final(v)@.len() == old(v)@.len(),
        models(final(v)@) == models(old(v)@).update(a as int, old(v)@[b as int]@).update(b as int, old(v)@[a as int]@),
{
    let ghost before = models(v@);
    let mut x = v[b].duplicate();
    v.set_and_swap(a, &mut x);
    v.set(b, x);
    assert(models(v@) =~= before.update(a as int, before[b as int]).update(b as int, before[a as int]));
}

/// A copy of the flags.
fn copy_flags(v: &Vec<bool>) -> (r: Vec<bool>)
    ensures
        r@ == v@,
{
    let mut r: Vec<bool> = Vec::new();
    let mut i: usize = 0;
    while i < v.len()
        invariant
            i <= v@.len(),
            r@ == v@.take(i as int),
        decreases v@.len() - i,
    {
        r.push(v[i]);
        assert(v@.take(i + 1) =~= v@.take(i as int).push(v@[i as int]));
        i += 1;
    }
    assert(v@.take(i as int) =~= v@);
    r
}

/// Whether the selected task at `j + 1` moves up into position `j`.
pub open spec fn moves_up_into(sel: Seq<bool>, j: int) -> bool {
    j + 1 < sel.len() && sel[j + 1] && !sel[j]
}

/// Whether the selected task at `j` moves up to position `j - 1`.
pub open spec fn moves_up_from(sel: Seq<bool>, j: int) -> bool {
    0 < j < sel.len() && sel[j] && !sel[j - 1]
}

/// Position `j` once the moves of selected tasks at positions below `i` are
/// done.
pub open spec fn up_partial(ts: Seq<TaskModel>, sel: Seq<bool>, i: int, j: int) -> TaskModel {
    if j + 1 < i && moves_up_into(sel, j) {
        ts[j + 1]
    } else if j < i && moves_up_from(sel, j) {
        ts[j - 1]
    } else {
        ts[j]
    }
}

pub open spec fn up_sel_partial(sel: Seq<bool>, i: int, j: int) -> bool {
    if j + 1 < i && moves_up_into(sel, j) {
        true
    } else if j < i && moves_up_from(sel, j) {
        false
    } else {
        sel[j]
    }
}

/// Moves each selected task one place up, past an unselected neighbour, and
/// the selection with it. `selected` marks the selected positions; a selected
/// task whose upper neighbour is selected too, or that is first, stays.
pub fn move_selected_up(tasks: &mut Vec<Task>, selected: &mut Vec<bool>)
    requires
        old(selected)@.len() == old(tasks)@.len(),
    ensures
        final(tasks)@.len() == old(tasks)@.len(),
        final(selected)@.len() == old(selected)@.len(),
        forall|j: int| 0 <= j < old(tasks)@.len() ==> #[trigger] final(tasks)@[j]@ == (
            if moves_up_into(old(selected)@, j) {
                old(tasks)@[j + 1]@
            } else if moves_up_from(old(selected)@, j) {
                old(tasks)@[j - 1]@
            } else {
                old(tasks)@[j]@
            }),
        forall|j: int| 0 <= j < old(selected)@.len() ==> #[trigger] final(selected)@[j] == (
            if moves_up_into(old(selected)@, j) {
                true
            } else if moves_up_from(old(selected)@, j) {
                false
            } else {
                old(selected)@[j]
            }),
{
    let ghost ts = models(tasks@);
    let orig = copy_flags(selected);
    let ghost sel = selected@;
    let n = tasks.len();
    let mut i: usize = 0;
    while i < n
        invariant
            n == ts.len(),
            sel.len() == n,
            orig@ == sel,
            tasks@.len() == n,
            selected@.len() == n,
            i <= n,
            forall|j: int| 0 <= j < n ==> #[trigger] tasks@[j]@ == up_partial(ts, sel, i as int, j),
            forall|j: int| 0 <= j < n ==> #[trigger] selected@[j] == up_sel_partial(sel, i as int, j),
        decreases n - i,
    {
        let ghost before = models(tasks@);
        if i > 0 && orig[i] && !orig[i - 1] {
            swap_tasks(tasks, i, i - 1);
            selected.set(i, false);
            selected.set(i - 1, true);
            proof {
                assert forall|j: int| 0 <= j < n implies #[trigger] tasks@[j]@ == up_partial(ts, sel, i + 1, j) by {
                    assert(models(tasks@)[j] == tasks@[j]@);
                    assert(before[j] == up_partial(ts, sel, i as int, j));
                }
            }
        } else {
            proof {
                assert forall|j: int| 0 <= j < n implies #[trigger] tasks@[j]@ == up_partial(ts, sel, i + 1, j) by {
                    assert(tasks@[j]@ == up_partial(ts, sel, i as int, j));
                }
            }
        }
        i += 1;
    }
}

/// Whether the selected task at `j - 1` moves down into position `j`.
pub open spec fn moves_down_into(sel: Seq<bool>, j: int) -> bool {
    0 < j < sel.len() && sel[j - 1] && !sel[j]
}

/// Whether the selected task at `j` moves down to position `j + 1`.
pub open spec fn moves_down_from(sel: Seq<bool>, j: int) -> bool {
    0 <= j && j + 1 < sel.len() && sel[j] && !sel[j + 1]
}

/// Position `j` once the moves of selected tasks at positions `i` and above
/// are done.
pub open spec fn down_partial(ts: Seq<TaskModel>, sel: Seq<bool>, i: int, j: int) -> TaskModel {
    if j - 1 >= i && moves_down_into(sel, j) {
        ts[j - 1]
    } else if j >= i && moves_down_from(sel, j) {
        ts[j + 1]
    } else {
        ts[j]
    }
}

pub open spec fn down_sel_partial(sel: Seq<bool>, i: int, j: int) -> bool {
    if j - 1 >= i && moves_down_into(sel, j) {
        true
    } else if j >= i && moves_down_from(sel, j) {
        false
    } else {
        sel[j]
    }
}

/// Moves each selected task one place down, past an unselected neighbour, and
/// the selection with it. `selected` marks the selected positions; a selected
/// task whose lower neighbour is selected too, or that is last, stays.
pub fn move_selected_down(tasks: &mut Vec<Task>, selected: &mut Vec<bool>)
    requires
        old(selected)@.len() == old(tasks)@.len(),
    ensures
        final(tasks)@.len() == old(tasks)@.len(),
        final(selected)@.len() == old(selected)@.len(),
        forall|j: int| 0 <= j < old(tasks)@.len() ==> #[trigger] final(tasks)@[j]@ == (
            if moves_down_into(old(selected)@, j) {
                old(tasks)@[j - 1]@
            } else if moves_down_from(old(selected)@, j) {
                old(tasks)@[j + 1]@
            } else {
                old(tasks)@[j]@
            }),
        forall|j: int| 0 <= j < old(selected)@.len() ==> #[trigger] final(selected)@[j] == (
            if moves_down_into(old(selected)@, j) {
                true
            } else if moves_down_from(old(selected)@, j) {
                false
            } else {
                old(selected)@[j]
            }),
{
    let ghost ts = models(tasks@);
    let orig = copy_flags(selected);
    let ghost sel = selected@;
    let n = tasks.len();
    let mut i: usize = n;
    while i > 0
        invariant
            n == ts.len(),
            sel.len() == n,
            orig@ == sel,
            tasks@.len() == n,
            selected@.len() == n,
            i <= n,
            forall|j: int| 0 <= j < n ==> #[trigger] tasks@[j]@ == down_partial(ts, sel, i as int, j),
            forall|j: int| 0 <= j < n ==> #[trigger] selected@[j] == down_sel_partial(sel, i as int, j),
        decreases i,
    {
        let idx = i - 1;
        let ghost before = models(tasks@);
        if idx + 1 < n && orig[idx] && !orig[idx + 1] {
            swap_tasks(tasks, idx, idx + 1);
            selected.set(idx, false);
            selected.set(idx + 1, true);
            proof {
                assert forall|j: int| 0 <= j < n implies #[trigger] tasks@[j]@ == down_partial(ts, sel, idx as int, j) by {
                    assert(models(tasks@)[j] == tasks@[j]@);
                    assert(before[j] == down_partial(ts, sel, i as int, j));
                }
            }
        } else {
            proof {
                assert forall|j: int| 0 <= j < n implies #[trigger] tasks@[j]@ == down_partial(ts, sel, idx as int, j) by {
                    assert(tasks@[j]@ == down_partial(ts, sel, i as int, j));
                }
            }
        }
        i = idx;
    }
}

} // verus!

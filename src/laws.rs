//! Properties of the merge that relate inputs and results in general.

use vstd::prelude::*;
use crate::task::TaskModel;
use crate::merge::{
    last_wbs_index, is_match, overwrite, merge_step, merge_prefix, merged, is_last_wbs_position,
    lemma_last_wbs_index,
};

verus! {

/// The overlay tasks that match nothing in `base`, in overlay order.
pub open spec fn appended(base: Seq<TaskModel>, overlay: Seq<TaskModel>) -> Seq<TaskModel>
    decreases overlay.len(),
{
    if overlay.len() == 0 {
        Seq::empty()
    } else {
        let rest = appended(base, overlay.drop_last());
        if is_match(base, overlay.last()) {
            rest
        } else {
            rest.push(overlay.last())
        }
    }
}

/// Whether one of the first `n` overlay tasks matches the base task at `i`.
pub open spec fn touched_before(base: Seq<TaskModel>, overlay: Seq<TaskModel>, n: int, i: int) -> bool {
    exists|k: int| 0 <= k < n && #[trigger] is_match(base, overlay[k]) && last_wbs_index(base, overlay[k].wbs) == i
}

/// Whether `a` and `b` agree on the fields that a match always overwrites.
pub open spec fn same_progress(a: TaskModel, b: TaskModel) -> bool {
    &&& a.percent_complete == b.percent_complete
    &&& a.status == b.status
    &&& a.start_date == b.start_date
    &&& a.end_date == b.end_date
    &&& a.duration_days == b.duration_days
}

proof fn lemma_last_wbs_found(s: Seq<TaskModel>, w: Seq<char>, i: int)
    requires
        0 <= i < s.len(),
        s[i].wbs == w,
    ensures
        last_wbs_index(s, w) >= i,
{
    lemma_last_wbs_index(s, w);
}

proof fn lemma_last_wbs_update(s: Seq<TaskModel>, i: int, x: TaskModel, w: Seq<char>)
    requires
        0 <= i < s.len(),
        x.wbs == s[i].wbs,
    ensures
        last_wbs_index(s.update(i, x), w) == last_wbs_index(s, w),
{
    let t = s.update(i, x);
    lemma_last_wbs_index(s, w);
    lemma_last_wbs_index(t, w);
    let r = last_wbs_index(s, w);
    assert(is_last_wbs_position(t, t.len() as int, w, r)) by {
        assert forall|j: int| r < j < t.len() implies #[trigger] t[j].wbs != w by {
            assert(t[j].wbs == s[j].wbs);
        }
    }
}

proof fn lemma_last_wbs_push(s: Seq<TaskModel>, x: TaskModel, w: Seq<char>)
    ensures
        last_wbs_index(s.push(x), w) == if x.wbs == w { s.len() as int } else { last_wbs_index(s, w) },
{
    assert(s.push(x).drop_last() == s);
}

/// The appended tail and the untouched base positions, after `n` overlay tasks.
proof fn lemma_merge_prefix_shape(base: Seq<TaskModel>, overlay: Seq<TaskModel>, n: nat)
    requires
        n <= overlay.len(),
    ensures
        ({
            let m = merge_prefix(base, overlay, n);
            &&& m.len() == base.len() + appended(base, overlay.take(n as int)).len()
            &&& m.subrange(base.len() as int, m.len() as int) == appended(base, overlay.take(n as int))
            &&& forall|i: int| 0 <= i < base.len() ==> {
                &&& (#[trigger] m[i]).wbs == base[i].wbs
                &&& m[i].name == base[i].name
                &&& m[i].priority == base[i].priority
                &&& m[i].predecessors == base[i].predecessors
                &&& !touched_before(base, overlay, n as int, i) ==> m[i] == base[i]
            }
        }),
    decreases n,
{
    if n == 0 {
        assert(overlay.take(0) =~= Seq::<TaskModel>::empty());
        assert(merge_prefix(base, overlay, 0).subrange(base.len() as int, base.len() as int) =~= Seq::<TaskModel>::empty());
    } else {
        let k = (n - 1) as nat;
        lemma_merge_prefix_shape(base, overlay, k);
        let prev = merge_prefix(base, overlay, k);
        let m = merge_prefix(base, overlay, n);
        let o = overlay[k as int];
        assert(overlay.take(n as int).drop_last() =~= overlay.take(k as int));
        assert(overlay.take(n as int).last() == o);
        let app = appended(base, overlay.take(k as int));
        if is_match(base, o) {
            let p = last_wbs_index(base, o.wbs);
            lemma_last_wbs_index(base, o.wbs);
            assert(m == prev.update(p, overwrite(prev[p], o)));
            assert(m.subrange(base.len() as int, m.len() as int) =~= prev.subrange(base.len() as int, prev.len() as int));
            assert forall|i: int| 0 <= i < base.len() implies {
                &&& (#[trigger] m[i]).wbs == base[i].wbs
                &&& m[i].name == base[i].name
                &&& m[i].priority == base[i].priority
                &&& m[i].predecessors == base[i].predecessors
                &&& !touched_before(base, overlay, n as int, i) ==> m[i] == base[i]
            } by {
                if i == p {
                    assert(is_match(base, overlay[k as int]));
                } else if !touched_before(base, overlay, n as int, i) {
                    assert(!touched_before(base, overlay, k as int, i));
                }
            }
        } else {
            assert(m == prev.push(o));
            assert(m.subrange(base.len() as int, m.len() as int) =~= app.push(o));
            assert forall|i: int| 0 <= i < base.len() implies {
                &&& (#[trigger] m[i]).wbs == base[i].wbs
                &&& m[i].name == base[i].name
                &&& m[i].priority == base[i].priority
                &&& m[i].predecessors == base[i].predecessors
                &&& !touched_before(base, overlay, n as int, i) ==> m[i] == base[i]
            } by {
                assert(m[i] == prev[i]);
                if !touched_before(base, overlay, n as int, i) {
                    assert(!touched_before(base, overlay, k as int, i));
                }
            }
        }
    }
}

/// Order is kept: the result is the base, in its order, followed by the
/// overlay tasks that matched nothing, in overlay order. Each base position
/// keeps its name, WBS, priority and predecessors, and a base task that no
/// overlay task matched is unchanged.
pub proof fn lemma_order_preserved(base: Seq<TaskModel>, overlay: Seq<TaskModel>)
    ensures
        ({
            let m = merged(base, overlay);
            &&& m.len() == base.len() + appended(base, overlay).len()
            &&& m.subrange(base.len() as int, m.len() as int) == appended(base, overlay)
            &&& forall|i: int| 0 <= i < base.len() ==> {
                &&& (#[trigger] m[i]).wbs == base[i].wbs
                &&& m[i].name == base[i].name
                &&& m[i].priority == base[i].priority
                &&& m[i].predecessors == base[i].predecessors
                &&& !touched_before(base, overlay, overlay.len() as int, i) ==> m[i] == base[i]
            }
        }),
{
    lemma_merge_prefix_shape(base, overlay, overlay.len());
    assert(overlay.take(overlay.len() as int) =~= overlay);
}

proof fn lemma_single_overlay(base: Seq<TaskModel>, o: TaskModel)
    ensures
        merged(base, seq![o]) == merge_step(base, base, o),
{
    let s = seq![o];
    assert(s.len() == 1);
    assert(s[0] == o);
    assert(merge_prefix(base, s, 0) == base);
}

/// A matched overlay task sets progress and status: with one overlay task
/// whose WBS `w` some base task carries, the length is kept and the last base
/// task with WBS `w` takes the overlay's percent complete and status.
pub proof fn lemma_identity_match_overwrite(base: Seq<TaskModel>, o: TaskModel, i: int)
    requires
        0 <= i < base.len(),
        base[i].wbs == o.wbs,
        o.wbs.len() > 0,
    ensures
        ({
            let m = merged(base, seq![o]);
            let p = last_wbs_index(base, o.wbs);
            &&& 0 <= p < base.len()
            &&& m.len() == base.len()
            &&& m[p].percent_complete == o.percent_complete
            &&& m[p].status == o.status
        }),
{
    lemma_last_wbs_found(base, o.wbs, i);
    lemma_last_wbs_index(base, o.wbs);
    lemma_single_overlay(base, o);
}

/// Assignee and description are overwritten only by non-empty values: on a
/// match, an empty overlay assignee leaves the base's, and a non-empty
/// overlay description replaces the base's.
pub proof fn lemma_sparse_fields(base: Seq<TaskModel>, o: TaskModel, i: int)
    requires
        0 <= i < base.len(),
        base[i].wbs == o.wbs,
        o.wbs.len() > 0,
    ensures
        ({
            let m = merged(base, seq![o]);
            let p = last_wbs_index(base, o.wbs);
            &&& 0 <= p < base.len()
            &&& o.assignee.len() == 0 ==> m[p].assignee == base[p].assignee
            &&& o.assignee.len() > 0 ==> m[p].assignee == o.assignee
            &&& o.description.len() == 0 ==> m[p].description == base[p].description
            &&& o.description.len() > 0 ==> m[p].description == o.description
        }),
{
    lemma_last_wbs_found(base, o.wbs, i);
    lemma_last_wbs_index(base, o.wbs);
    lemma_single_overlay(base, o);
}

/// An overlay task whose non-empty WBS no base task carries is appended as it is.
pub proof fn lemma_new_wbs_appended(base: Seq<TaskModel>, o: TaskModel)
    requires
        o.wbs.len() > 0,
        forall|i: int| 0 <= i < base.len() ==> base[i].wbs != o.wbs,
    ensures
        merged(base, seq![o]) == base.push(o),
        merged(base, seq![o]).len() == base.len() + 1,
        merged(base, seq![o]).last() == o,
{
    lemma_last_wbs_index(base, o.wbs);
    lemma_single_overlay(base, o);
}

/// An overlay task without a WBS is always appended as it is, whatever its name.
pub proof fn lemma_no_wbs_appended(base: Seq<TaskModel>, o: TaskModel)
    requires
        o.wbs.len() == 0,
    ensures
        merged(base, seq![o]) == base.push(o),
{
    lemma_single_overlay(base, o);
}

/// Where WBS `w` ends up after `n` overlay tasks, given the last of them with
/// WBS `w` (position `q`, or -1).
proof fn lemma_last_wbs_after_prefix(base: Seq<TaskModel>, overlay: Seq<TaskModel>, n: nat, w: Seq<char>, q: int)
    requires
        n <= overlay.len(),
        w.len() > 0,
        is_last_wbs_position(overlay, n as int, w, q),
    ensures
        ({
            let m = merge_prefix(base, overlay, n);
            let l = last_wbs_index(m, w);
            &&& m.len() >= base.len()
            &&& forall|i: int| 0 <= i < base.len() ==> (#[trigger] m[i]).wbs == base[i].wbs
            &&& last_wbs_index(base, w) >= 0 ==> l == last_wbs_index(base, w)
            &&& q == -1 ==> l == last_wbs_index(base, w) && (l >= 0 ==> m[l] == base[l])
            &&& q >= 0 ==> l >= 0 && same_progress(m[l], overlay[q])
        }),
    decreases n,
{
    let m = merge_prefix(base, overlay, n);
    lemma_last_wbs_index(base, w);
    if n == 0 {
    } else {
        let k = (n - 1) as nat;
        let o = overlay[k as int];
        let q0: int = if q == k { last_wbs_index(overlay.take(k as int), w) } else { q };
        if q == k {
            lemma_last_wbs_index(overlay.take(k as int), w);
            assert forall|j: int| q0 < j < k implies #[trigger] overlay[j].wbs != w by {
                assert(overlay.take(k as int)[j] == overlay[j]);
            }
            if q0 >= 0 {
                assert(overlay.take(k as int)[q0] == overlay[q0]);
            }
        }
        assert(is_last_wbs_position(overlay, k as int, w, q0));
        lemma_last_wbs_after_prefix(base, overlay, k, w, q0);
        let prev = merge_prefix(base, overlay, k);
        let lp = last_wbs_index(prev, w);
        lemma_last_wbs_index(prev, w);
        if is_match(base, o) {
            let p = last_wbs_index(base, o.wbs);
            lemma_last_wbs_index(base, o.wbs);
            let x = overwrite(prev[p], o);
            assert(m == prev.update(p, x));
            lemma_last_wbs_update(prev, p, x, w);
            if o.wbs == w {
                assert(q == k);
            } else {
                assert(q == q0);
                assert(prev[p].wbs == base[p].wbs);
                if lp >= 0 {
                    assert(lp != p);
                }
            }
        } else {
            assert(m == prev.push(o));
            lemma_last_wbs_push(prev, o, w);
            if o.wbs == w {
                assert(q == k);
                assert(last_wbs_index(base, w) < 0);
            } else {
                assert(q == q0);
                if lp >= 0 {
                    assert(m[lp] == prev[lp]);
                }
            }
        }
        assert forall|i: int| 0 <= i < base.len() implies (#[trigger] m[i]).wbs == base[i].wbs by {
            assert(prev[i].wbs == base[i].wbs);
        }
    }
}

/// Where WBS `w` ends up after a whole merge: if the overlay carries `w`, the
/// last task with `w` shows the progress of the overlay's last task with `w`;
/// otherwise the last task with `w` is the base's, unchanged.
pub proof fn lemma_last_wbs_after_merge(base: Seq<TaskModel>, overlay: Seq<TaskModel>, w: Seq<char>)
    requires
        w.len() > 0,
    ensures
        ({
            let m = merged(base, overlay);
            let l = last_wbs_index(m, w);
            let q = last_wbs_index(overlay, w);
            &&& q == -1 ==> l == last_wbs_index(base, w) && (l >= 0 ==> m[l] == base[l])
            &&& q >= 0 ==> 0 <= l < m.len() && same_progress(m[l], overlay[q])
        }),
{
    lemma_last_wbs_index(overlay, w);
    lemma_last_wbs_after_prefix(base, overlay, overlay.len(), w, last_wbs_index(overlay, w));
    lemma_last_wbs_index(merged(base, overlay), w);
}

/// Folding sources `a`, `b` and `c` one after the other into an empty list:
/// for a WBS `w` that one of them carries, the last task with `w` in the
/// result shows the progress, status, dates and duration of the last task with
/// `w` in the last source that carries `w`.
pub proof fn lemma_sequential_fold(a: Seq<TaskModel>, b: Seq<TaskModel>, c: Seq<TaskModel>, w: Seq<char>)
    requires
        w.len() > 0,
        last_wbs_index(a, w) >= 0 || last_wbs_index(b, w) >= 0 || last_wbs_index(c, w) >= 0,
    ensures
        ({
            let r = merged(merged(merged(Seq::empty(), a), b), c);
            let l = last_wbs_index(r, w);
            let src = if last_wbs_index(c, w) >= 0 { c } else if last_wbs_index(b, w) >= 0 { b } else { a };
            &&& 0 <= l < r.len()
            &&& same_progress(r[l], src[last_wbs_index(src, w)])
        }),
{
    let r1 = merged(Seq::empty(), a);
    let r2 = merged(r1, b);
    lemma_last_wbs_after_merge(Seq::empty(), a, w);
    lemma_last_wbs_after_merge(r1, b, w);
    lemma_last_wbs_after_merge(r2, c, w);
    lemma_last_wbs_index(b, w);
    lemma_last_wbs_index(c, w);
    let l1 = last_wbs_index(r1, w);
    let l2 = last_wbs_index(r2, w);
    let r3 = merged(r2, c);
    let l3 = last_wbs_index(r3, w);
    lemma_last_wbs_index(r3, w);
    if last_wbs_index(c, w) < 0 {
        assert(l3 == l2);
        if last_wbs_index(b, w) < 0 {
            assert(r2[l2] == r1[l1]);
            assert(same_progress(r3[l3], a[last_wbs_index(a, w)]));
        } else {
            assert(same_progress(r3[l3], b[last_wbs_index(b, w)]));
        }
    } else {
        assert(same_progress(r3[l3], c[last_wbs_index(c, w)]));
    }
}

} // verus!

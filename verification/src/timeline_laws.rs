//! Laws of the timeline: what every edit keeps, what undo brings back, and
//! what becomes of the clips that are cut, pasted, moved and split.
use crate::editor::sort_by_key_members;
use crate::order_laws::{pick_goes_on, pick_of_nothing, picks};
use crate::timeline::{
    clicked, copied, cut_to, deleted, dropped_on, duplicated, edited, is_max, is_min, kept, lists,
    moved, pasted, picked, pushed, sort_by_key, split, strip_clicked, undone, Clip, EditorView,
    ProjectView, UNDO_LIMIT,
};
use vstd::prelude::*;

verus! {

// ---------------------------------------------------------------------------
// Undo
// ---------------------------------------------------------------------------

/// Undoing an edit brings back the project as it was before the edit; where the
/// history had room, the history is as it was too.
pub proof fn undo_restores<T>(e: EditorView<T>, clips: Seq<Clip<T>>)
    requires
        e.wf(),
        e.project is Some,
    ensures
        undone(edited(e, clips)).project == e.project,
        e.undo.len() < UNDO_LIMIT ==> undone(edited(e, clips)).undo == e.undo,
        undone(edited(e, clips)).clipboard == e.clipboard,
{
    assert(pushed(e.undo, e.project->0).last() == e.project->0);
    if e.undo.len() < UNDO_LIMIT {
        assert(pushed(e.undo, e.project->0).drop_last() =~= e.undo);
    }
}

/// Undo takes back each editing operation: a deletion, a cut, a paste, a
/// duplication, a click that cuts a strip, and a drop.
pub proof fn undo_takes_back_each_edit<T>(
    e: EditorView<T>,
    order: Seq<usize>,
    keys: Seq<i32>,
    last: usize,
    i: usize,
    ctrl: bool,
    cut: Option<T>,
)
    requires
        e.wf(),
        e.project is Some,
    ensures
        undone(deleted(e)).project == e.project,
        !e.selected.is_empty() ==> undone(cut_to(e, order, keys)).project == e.project,
        e.clipboard is Some ==> undone(pasted(e)).project == e.project,
        !e.selected.is_empty() ==> undone(duplicated(e, order, last)).project == e.project,
        undone(strip_clicked(e, i, ctrl, cut)).project == e.project,
        e.dragged is Some && e.dragged != Some(i) ==> undone(dropped_on(e, i)).project
            == e.project,
{
    let p = e.project->0;
    assert(pushed(e.undo, p).last() == p);
}

/// The editor after a run of edits, given by the clips that each leaves.
pub open spec fn edit_all<T>(e: EditorView<T>, edits: Seq<Seq<Clip<T>>>) -> EditorView<T>
    decreases edits.len(),
{
    if edits.len() == 0 {
        e
    } else {
        edited(edit_all(e, edits.drop_last()), edits.last())
    }
}

/// The editor after `n` undos.
pub open spec fn undo_all<T>(e: EditorView<T>, n: nat) -> EditorView<T>
    decreases n,
{
    if n == 0 {
        e
    } else {
        undo_all(undone(e), (n - 1) as nat)
    }
}

/// As many edits as the history holds can be undone one after the other: after
/// `n` edits, `n` undos lead back to the project as it was.
pub proof fn undo_reaches_back<T>(e: EditorView<T>, edits: Seq<Seq<Clip<T>>>)
    requires
        e.wf(),
        e.project is Some,
        edits.len() <= UNDO_LIMIT,
    ensures
        undo_all(edit_all(e, edits), edits.len()).project == e.project,
{
    let n = edits.len();
    history_of_edits(e, edits);
    let x = edit_all(e, edits);
    undo_all_project(x, n);
    if n > 0 {
        assert(edits.take(0) =~= Seq::empty());
        assert(x.undo[x.undo.len() - n] == edit_all(e, edits.take(0)).project->0);
    }
}

/// The newest entries of the history are the projects before each edit.
proof fn history_of_edits<T>(e: EditorView<T>, edits: Seq<Seq<Clip<T>>>)
    requires
        e.wf(),
        e.project is Some,
        edits.len() <= UNDO_LIMIT,
    ensures
        edit_all(e, edits).project is Some,
        edits.len() <= edit_all(e, edits).undo.len() <= UNDO_LIMIT,
        forall|i: int|
            #![trigger edits.take(i)]
            0 <= i < edits.len() ==> edit_all(e, edits).undo[edit_all(e, edits).undo.len()
                - edits.len() + i] == edit_all(e, edits.take(i)).project->0,
    decreases edits.len(),
{
    if edits.len() > 0 {
        let shorter = edits.drop_last();
        let n = edits.len() as int;
        history_of_edits(e, shorter);
        let before = edit_all(e, shorter);
        let after = edit_all(e, edits);
        assert forall|i: int|
            #![trigger edits.take(i)]
            0 <= i < n implies after.undo[after.undo.len() - n + i] == edit_all(
            e,
            edits.take(i),
        ).project->0 by {
            if i == n - 1 {
                assert(edits.take(i) =~= shorter);
            } else {
                assert(edits.take(i) =~= shorter.take(i));
                assert(before.undo[before.undo.len() - (n - 1) + i] == edit_all(
                    e,
                    shorter.take(i),
                ).project->0);
            }
        }
    }
}

/// What `n` undos bring back stands `n` places from the end of the history.
proof fn undo_all_project<T>(e: EditorView<T>, n: nat)
    requires
        e.project is Some,
        n <= e.undo.len(),
    ensures
        undo_all(e, n).project == if n == 0 {
            e.project
        } else {
            Some(e.undo[e.undo.len() - n])
        },
    decreases n,
{
    if n > 0 {
        undo_all_project(undone(e), (n - 1) as nat);
    }
}

// ---------------------------------------------------------------------------
// What edits keep
// ---------------------------------------------------------------------------

/// Two projects are edits of the same source.
pub open spec fn same_source<T>(a: Option<ProjectView<T>>, b: Option<ProjectView<T>>) -> bool {
    match (a, b) {
        (Some(p), Some(q)) => p.source_path == q.source_path && p.duration == q.duration,
        (None, None) => true,
        _ => false,
    }
}

/// Editing is non-destructive: no edit changes the source or its duration.
pub proof fn edits_keep_the_source<T>(
    e: EditorView<T>,
    order: Seq<usize>,
    keys: Seq<i32>,
    last: usize,
    i: usize,
    ctrl: bool,
    cut: Option<T>,
    clips: Seq<Clip<T>>,
)
    ensures
        same_source(edited(e, clips).project, e.project),
        same_source(deleted(e).project, e.project),
        same_source(cut_to(e, order, keys).project, e.project),
        same_source(pasted(e).project, e.project),
        same_source(duplicated(e, order, last).project, e.project),
        same_source(strip_clicked(e, i, ctrl, cut).project, e.project),
        same_source(dropped_on(e, i).project, e.project),
{
}

/// A control click is its own inverse.
pub proof fn control_click_twice(sel: Set<usize>, i: usize)
    ensures
        clicked(clicked(sel, i, true), i, true) == sel,
{
    assert(clicked(clicked(sel, i, true), i, true) =~= sel);
}

// ---------------------------------------------------------------------------
// Splitting and moving
// ---------------------------------------------------------------------------

/// A split puts two clips in the place of one: they meet at the cut, begin and
/// end where the clip did, and the other clips stay as they are.
pub proof fn split_covers<T>(clips: Seq<Clip<T>>, i: int, at: T)
    requires
        0 <= i < clips.len(),
    ensures
        ({
            let after = split(clips, i, at);
            &&& after.len() == clips.len() + 1
            &&& after[i].start == clips[i].start
            &&& after[i].end == at
            &&& after[i + 1].start == at
            &&& after[i + 1].end == clips[i].end
            &&& forall|j: int| 0 <= j < i ==> after[j] == clips[j]
            &&& forall|j: int| i < j < clips.len() ==> after[j + 1] == #[trigger] clips[j]
        }),
{
}

/// Moving a clip neither loses nor adds one, and moving it back restores the
/// timeline.
pub proof fn move_back<T>(clips: Seq<Clip<T>>, from: int, to: int)
    requires
        0 <= from < clips.len(),
        0 <= to < clips.len(),
    ensures
        moved(clips, from, to).len() == clips.len(),
        moved(clips, from, to)[to] == clips[from],
        moved(clips, from, to).to_multiset() == clips.to_multiset(),
        moved(moved(clips, from, to), to, from) == clips,
{
    broadcast use vstd::seq_lib::group_to_multiset_ensures;
    broadcast use vstd::multiset::group_multiset_axioms;

    assert(moved(moved(clips, from, to), to, from) =~= clips);
    let rest = clips.remove(from);
    assert(rest.insert(from, clips[from]) =~= clips);
    assert(moved(clips, from, to).to_multiset() =~= clips.to_multiset());
}

// ---------------------------------------------------------------------------
// Cut and paste
// ---------------------------------------------------------------------------

/// The members of `sel` below `n`, in ascending order.
pub open spec fn ascending(sel: Set<usize>, n: nat) -> Seq<usize>
    decreases n,
{
    if n == 0 {
        Seq::empty()
    } else {
        let rest = ascending(sel, (n - 1) as nat);
        if sel.contains((n - 1) as usize) {
            rest.push((n - 1) as usize)
        } else {
            rest
        }
    }
}

proof fn ascending_members(sel: Set<usize>, n: nat)
    requires
        n <= usize::MAX,
    ensures
        ascending(sel, n).no_duplicates(),
        forall|x: usize|
            #[trigger] ascending(sel, n).contains(x) <==> sel.contains(x) && x < n,
    decreases n,
{
    if n > 0 {
        let rest = ascending(sel, (n - 1) as nat);
        let all = ascending(sel, n);
        let top = (n - 1) as usize;
        ascending_members(sel, (n - 1) as nat);
        if sel.contains(top) {
            assert forall|x: usize| all.contains(x) <==> sel.contains(x) && x < n by {
                if all.contains(x) {
                    let k = choose|k: int| 0 <= k < all.len() && all[k] == x;
                    if k < rest.len() {
                        assert(rest[k] == x);
                        assert(rest.contains(x));
                    }
                }
                if sel.contains(x) && x < n {
                    if x == top {
                        assert(all[rest.len() as int] == x);
                    } else {
                        assert(rest.contains(x));
                        let k = choose|k: int| 0 <= k < rest.len() && rest[k] == x;
                        assert(all[k] == x);
                    }
                }
            }
            assert forall|a: int, b: int|
                0 <= a < all.len() && 0 <= b < all.len() && a != b implies all[a] != all[b] by {
                if a < rest.len() {
                    assert(rest.contains(rest[a]));
                }
                if b < rest.len() {
                    assert(rest.contains(rest[b]));
                }
            }
        } else {
            assert forall|x: usize| all.contains(x) <==> sel.contains(x) && x < n by {}
        }
    }
}

/// Two listings of one set hold the same entries.
proof fn listings_agree(a: Seq<usize>, b: Seq<usize>)
    requires
        a.no_duplicates(),
        b.no_duplicates(),
        forall|x: usize| a.contains(x) <==> b.contains(x),
    ensures
        a.to_multiset() == b.to_multiset(),
{
    broadcast use vstd::seq_lib::group_to_multiset_ensures;
    broadcast use vstd::multiset::group_multiset_axioms;

    a.lemma_multiset_has_no_duplicates();
    b.lemma_multiset_has_no_duplicates();
    assert forall|x: usize| a.to_multiset().count(x) == b.to_multiset().count(x) by {
        assert(a.contains(x) <==> b.contains(x));
        assert(a.to_multiset().count(x) > 0 ==> a.to_multiset().contains(x));
        assert(b.to_multiset().count(x) > 0 ==> b.to_multiset().contains(x));
    }
    assert(a.to_multiset() =~= b.to_multiset());
}

/// The picked clips, as a collection, do not depend on the order of picking.
proof fn picking_order_is_free<T>(clips: Seq<Clip<T>>, a: Seq<usize>, b: Seq<usize>)
    requires
        a.to_multiset() == b.to_multiset(),
    ensures
        picked(clips, a).to_multiset() == picked(clips, b).to_multiset(),
    decreases a.len(),
{
    broadcast use vstd::seq_lib::group_to_multiset_ensures;
    broadcast use vstd::multiset::group_multiset_axioms;

    assert(a.len() == a.to_multiset().len() == b.len());
    if a.len() == 0 {
        assert(picked(clips, a) =~= picked(clips, b));
    } else {
        let x = a.last();
        assert(a.contains(x));
        assert(b.to_multiset().count(x) > 0);
        let j = choose|j: int| 0 <= j < b.len() && b[j] == x;
        let less = b.remove(j);
        assert(a.remove(a.len() - 1) =~= a.drop_last());
        picking_order_is_free(clips, a.drop_last(), less);
        let c = clips[x as int];
        assert(picked(clips, a) =~= picked(clips, a.drop_last()).push(c));
        assert(picked(clips, b) =~= picked(clips, less).insert(j, c));
    }
}

/// The kept clips and the selected ones together are the timeline.
proof fn kept_and_selected<T>(clips: Seq<Clip<T>>, sel: Set<usize>)
    requires
        clips.len() <= usize::MAX,
    ensures
        (kept(clips, sel) + picked(clips, ascending(sel, clips.len()))).to_multiset()
            == clips.to_multiset(),
    decreases clips.len(),
{
    broadcast use vstd::seq_lib::group_to_multiset_ensures;
    broadcast use vstd::multiset::group_multiset_axioms;

    let n = clips.len();
    if n == 0 {
        assert(kept(clips, sel) + picked(clips, ascending(sel, n)) =~= clips);
    } else {
        let front = clips.drop_last();
        let c = clips.last();
        let asc = ascending(sel, (n - 1) as nat);
        kept_and_selected(front, sel);
        ascending_members(sel, (n - 1) as nat);
        assert forall|k: int| 0 <= k < asc.len() implies picked(clips, asc)[k] == picked(
            front,
            asc,
        )[k] by {
            assert(asc.contains(asc[k]));
            assert(front[asc[k] as int] == clips[asc[k] as int]);
        }
        assert(picked(clips, asc) =~= picked(front, asc));
        vstd::seq_lib::lemma_multiset_commutative(kept(front, sel), picked(front, asc));
        vstd::seq_lib::lemma_multiset_commutative(
            kept(clips, sel),
            picked(clips, ascending(sel, n)),
        );
        assert(front.push(c) =~= clips);
        if sel.contains((n - 1) as usize) {
            assert(picked(clips, ascending(sel, n)) =~= picked(front, asc).push(c));
        }
        assert((kept(clips, sel) + picked(clips, ascending(sel, n))).to_multiset()
            =~= clips.to_multiset());
    }
}

/// Deleting drops exactly the selected clips: with them, in whatever order they
/// are listed, the timeline is complete again.
pub proof fn deletion_drops_the_selected<T>(e: EditorView<T>, order: Seq<usize>)
    requires
        e.wf(),
        e.clip_count() <= usize::MAX,
        lists(order, e.selected),
        e.project is Some,
    ensures
        (deleted(e).project->0.clips + picked(e.project->0.clips, order)).to_multiset()
            == e.project->0.clips.to_multiset(),
        deleted(e).project->0.clips.len() + order.len() == e.project->0.clips.len(),
{
    broadcast use vstd::seq_lib::group_to_multiset_ensures;

    let clips = e.project->0.clips;
    let asc = ascending(e.selected, clips.len());
    kept_and_selected(clips, e.selected);
    ascending_members(e.selected, clips.len());
    assert forall|x: usize| order.contains(x) <==> asc.contains(x) by {
        assert(order.contains(x) <==> order.to_set().contains(x));
    }
    listings_agree(order, asc);
    picking_order_is_free(clips, order, asc);
    vstd::seq_lib::lemma_multiset_commutative(kept(clips, e.selected), picked(clips, order));
    vstd::seq_lib::lemma_multiset_commutative(kept(clips, e.selected), picked(clips, asc));
    assert((kept(clips, e.selected) + picked(clips, order)).len() == clips.len()) by {
        assert((kept(clips, e.selected) + picked(clips, order)).to_multiset().len()
            == clips.to_multiset().len());
    }
}

/// Cutting and pasting reorders the timeline and neither loses nor adds a clip:
/// the selected clips stand at its end, sorted by key.
pub proof fn cut_then_paste<T>(e: EditorView<T>, order: Seq<usize>, keys: Seq<i32>)
    requires
        e.wf(),
        e.clip_count() <= usize::MAX,
        lists(order, e.selected),
        e.project is Some,
        !e.selected.is_empty(),
    ensures
        ({
            let clips = e.project->0.clips;
            let after = pasted(cut_to(e, order, keys)).project->0.clips;
            &&& after == kept(clips, e.selected) + picked(clips, sort_by_key(order, keys))
            &&& after.to_multiset() == clips.to_multiset()
        }),
{
    let clips = e.project->0.clips;
    let sorted = sort_by_key(order, keys);
    deletion_drops_the_selected(e, order);
    sort_by_key_members(order, keys);
    picking_order_is_free(clips, sorted, order);
    vstd::seq_lib::lemma_multiset_commutative(kept(clips, e.selected), picked(clips, order));
    vstd::seq_lib::lemma_multiset_commutative(kept(clips, e.selected), picked(clips, sorted));
}

/// What is cut lies on the clipboard in ascending order of its keys.
pub proof fn cut_is_sorted(order: Seq<usize>, keys: Seq<i32>)
    ensures
        forall|i: int, j: int|
            0 <= i <= j < sort_by_key(order, keys).len() ==> keys[sort_by_key(
                order,
                keys,
            )[i] as int] <= keys[sort_by_key(order, keys)[j] as int],
    decreases order.len(),
{
    if order.len() > 0 {
        cut_is_sorted(order.drop_last(), keys);
        insertion_is_sorted(sort_by_key(order.drop_last(), keys), order.last(), keys);
    }
}

proof fn insertion_is_sorted(s: Seq<usize>, x: usize, keys: Seq<i32>)
    requires
        forall|i: int, j: int|
            0 <= i <= j < s.len() ==> keys[s[i] as int] <= keys[s[j] as int],
    ensures
        ({
            let r = crate::timeline::insert_by_key(s, x, keys);
            &&& r.len() == s.len() + 1
            &&& forall|i: int, j: int|
                0 <= i <= j < r.len() ==> keys[r[i] as int] <= keys[r[j] as int]
            &&& r.last() == x || (s.len() > 0 && r.last() == s.last() && keys[s.last() as int]
                > keys[x as int])
        }),
    decreases s.len(),
{
    let r = crate::timeline::insert_by_key(s, x, keys);
    if s.len() == 0 || keys[s.last() as int] <= keys[x as int] {
        assert forall|i: int, j: int| 0 <= i <= j < r.len() implies keys[r[i] as int]
            <= keys[r[j] as int] by {
            if j == s.len() && i < s.len() {
                assert(keys[s[i] as int] <= keys[s[s.len() - 1] as int]);
            }
        }
    } else {
        let front = s.drop_last();
        insertion_is_sorted(front, x, keys);
        let q = crate::timeline::insert_by_key(front, x, keys);
        assert forall|i: int, j: int| 0 <= i <= j < r.len() implies keys[r[i] as int]
            <= keys[r[j] as int] by {
            if j == r.len() - 1 && i < q.len() {
                assert(keys[q[i] as int] <= keys[q[q.len() - 1] as int]);
                if front.len() > 0 {
                    assert(keys[s[s.len() - 2] as int] <= keys[s[s.len() - 1] as int]);
                }
            }
        }
    }
}

/// Duplicating adds one clip for each selected one, right behind the last of
/// them, and moves no other clip past another.
pub proof fn duplication_adds_behind<T>(e: EditorView<T>, order: Seq<usize>, last: usize)
    requires
        e.wf(),
        lists(order, e.selected),
        is_max(e.selected, last),
        e.project is Some,
    ensures
        ({
            let clips = e.project->0.clips;
            let after = duplicated(e, order, last).project->0.clips;
            &&& after.len() == clips.len() + order.len()
            &&& after.take(last + 1) == clips.take(last + 1)
            &&& after.subrange(last + 1, last + 1 + order.len()) == picked(clips, order)
            &&& after.skip(last + 1 + order.len() as int) == clips.skip(last + 1)
        }),
{
    let clips = e.project->0.clips;
    let after = duplicated(e, order, last).project->0.clips;
    assert(e.selected.contains(last));
    assert(after.take(last + 1) =~= clips.take(last + 1));
    assert(after.subrange(last + 1, last + 1 + order.len()) =~= picked(clips, order));
    assert(after.skip(last + 1 + order.len() as int) =~= clips.skip(last + 1));
}

// ---------------------------------------------------------------------------
// Each operation, clip by clip
// ---------------------------------------------------------------------------

/// Twenty edits can be undone.
pub proof fn twenty_edits_can_be_undone()
    ensures
        UNDO_LIMIT == 20,
{
}

/// An edit gives the project its new clips and records the project as it was as
/// the newest entry of the history; of a full history the oldest entry goes. The
/// source, the duration, the selection, the clipboard and what is dragged stay.
pub proof fn edit_records_the_project<T>(e: EditorView<T>, clips: Seq<Clip<T>>)
    requires
        e.wf(),
        e.project is Some,
    ensures
        ({
            let after = edited(e, clips);
            let n = e.undo.len() as int;
            &&& after.project is Some
            &&& after.project->0.clips == clips
            &&& after.project->0.source_path == e.project->0.source_path
            &&& after.project->0.duration == e.project->0.duration
            &&& after.selected == e.selected
            &&& after.clipboard == e.clipboard
            &&& after.dragged == e.dragged
            &&& after.undo.len() == if n < 20 {
                n + 1
            } else {
                20
            }
            &&& after.undo.last() == e.project->0
            &&& n < 20 ==> forall|i: int| 0 <= i < n ==> after.undo[i] == e.undo[i]
            &&& n == 20 ==> forall|i: int| 0 <= i < 19 ==> after.undo[i] == e.undo[i + 1]
        }),
{
}

/// Without a project there is nothing to edit.
pub proof fn nothing_to_edit<T>(
    e: EditorView<T>,
    clips: Seq<Clip<T>>,
    order: Seq<usize>,
    keys: Seq<i32>,
    last: usize,
)
    requires
        e.project is None,
    ensures
        edited(e, clips) == e,
        deleted(e) == e,
        cut_to(e, order, keys) == e,
        copied(e, order) == e,
        pasted(e) == e,
        duplicated(e, order, last) == e,
        undone(e) == e,
{
}

/// A paste appends the clipboard, whatever is selected: the timeline is as it
/// was, with the clips of the clipboard behind it in order. The clipboard and the
/// selection stay. Without a clipboard or a project nothing happens.
pub proof fn paste_appends<T>(e: EditorView<T>)
    ensures
        e.project is None || e.clipboard is None ==> pasted(e) == e,
        e.project is Some && e.clipboard is Some ==> {
            let clips = e.project->0.clips;
            let more = e.clipboard->0;
            let after = pasted(e);
            &&& after.project is Some
            &&& after.project->0.clips.len() == clips.len() + more.len()
            &&& forall|i: int|
                0 <= i < clips.len() ==> #[trigger] after.project->0.clips[i] == clips[i]
            &&& forall|j: int|
                0 <= j < more.len() ==> after.project->0.clips[clips.len() + j]
                    == #[trigger] more[j]
            &&& after.selected == e.selected
            &&& after.clipboard == e.clipboard
            &&& after.dragged == e.dragged
            &&& after.undo.len() > 0 && after.undo.last() == e.project->0
        },
{
}

/// A copy puts the selected clips on the clipboard in the order of the walk, and
/// changes nothing else; without a selection nothing happens.
pub proof fn copy_takes_the_selected<T>(e: EditorView<T>, order: Seq<usize>)
    requires
        lists(order, e.selected),
    ensures
        e.project is None || e.selected.is_empty() ==> copied(e, order) == e,
        e.project is Some && !e.selected.is_empty() ==> {
            let after = copied(e, order);
            &&& after.clipboard is Some
            &&& after.clipboard->0.len() == order.len()
            &&& forall|k: int|
                0 <= k < order.len() ==> #[trigger] after.clipboard->0[k]
                    == e.project->0.clips[order[k] as int]
            &&& after.project == e.project
            &&& after.selected == e.selected
            &&& after.dragged == e.dragged
            &&& after.undo == e.undo
        },
{
}

/// A copy followed by a paste leaves the timeline with the selected clips behind
/// it, in the order of the walk.
pub proof fn copy_then_paste<T>(e: EditorView<T>, order: Seq<usize>)
    requires
        e.wf(),
        lists(order, e.selected),
        e.project is Some,
        !e.selected.is_empty(),
    ensures
        ({
            let clips = e.project->0.clips;
            let after = pasted(copied(e, order)).project->0.clips;
            &&& after.len() == clips.len() + order.len()
            &&& forall|i: int| 0 <= i < clips.len() ==> #[trigger] after[i] == clips[i]
            &&& forall|k: int|
                0 <= k < order.len() ==> after[clips.len() + k] == clips[#[trigger] order[k] as int]
        }),
{
    let clips = e.project->0.clips;
    let mid = copied(e, order);
    copy_takes_the_selected(e, order);
    paste_appends(mid);
    let after = pasted(mid).project->0.clips;
    assert forall|k: int| 0 <= k < order.len() implies after[clips.len() + k]
        == clips[#[trigger] order[k] as int] by {
        assert(after[clips.len() + k] == mid.clipboard->0[k]);
    }
}

proof fn kept_in_order<T>(clips: Seq<Clip<T>>, sel: Set<usize>)
    requires
        clips.len() <= usize::MAX,
    ensures
        picks(kept(clips, sel), clips, |i: int| !sel.contains(i as usize)),
    decreases clips.len(),
{
    let chosen = |i: int| !sel.contains(i as usize);
    if clips.len() == 0 {
        pick_of_nothing::<Clip<T>>(chosen);
        assert(clips =~= Seq::<Clip<T>>::empty());
    } else {
        let front = clips.drop_last();
        kept_in_order(front, sel);
        pick_goes_on(kept(front, sel), front, clips.last(), chosen);
        assert(front.push(clips.last()) =~= clips);
    }
}

/// Deleting leaves the clips that are not selected, each once and in their
/// order, and nothing is selected then. The clipboard stays.
pub proof fn deletion_keeps_the_others_in_order<T>(e: EditorView<T>)
    requires
        e.wf(),
        e.project is Some,
        e.clip_count() <= usize::MAX,
    ensures
        picks(
            deleted(e).project->0.clips,
            e.project->0.clips,
            |i: int| !e.selected.contains(i as usize),
        ),
        deleted(e).selected == Set::<usize>::empty(),
        deleted(e).clipboard == e.clipboard,
        deleted(e).dragged == e.dragged,
        deleted(e).undo.len() > 0 && deleted(e).undo.last() == e.project->0,
{
    kept_in_order(e.project->0.clips, e.selected);
}

/// A cut deletes the selected clips as a deletion does, and puts them on the
/// clipboard, each once and in ascending order of its key. Without a selection
/// nothing happens.
pub proof fn cut_deletes_and_keeps<T>(e: EditorView<T>, order: Seq<usize>, keys: Seq<i32>)
    requires
        e.wf(),
        lists(order, e.selected),
        keys.len() == e.clip_count(),
        e.clip_count() <= usize::MAX,
    ensures
        e.project is None || e.selected.is_empty() ==> cut_to(e, order, keys) == e,
        e.project is Some && !e.selected.is_empty() ==> {
            let clips = e.project->0.clips;
            let after = cut_to(e, order, keys);
            &&& after == (EditorView { clipboard: after.clipboard, ..deleted(e) })
            &&& after.clipboard is Some
            &&& after.clipboard->0.len() == order.len()
            &&& exists|sorted: Seq<usize>|
                {
                    &&& #[trigger] lists(sorted, e.selected)
                    &&& sorted.len() == order.len()
                    &&& forall|k: int|
                        0 <= k < sorted.len() ==> after.clipboard->0[k]
                            == clips[#[trigger] sorted[k] as int]
                    &&& forall|j: int, k: int|
                        0 <= j <= k < sorted.len() ==> keys[#[trigger] sorted[j] as int]
                            <= keys[#[trigger] sorted[k] as int]
                }
        },
{
    if e.project is Some && !e.selected.is_empty() {
        let sorted = sort_by_key(order, keys);
        sort_by_key_members(order, keys);
        cut_is_sorted(order, keys);
        same_entries(order, sorted, e.selected);
    }
}

/// A list with the entries of a listing of a set lists the set.
proof fn same_entries(a: Seq<usize>, b: Seq<usize>, sel: Set<usize>)
    requires
        lists(a, sel),
        a.to_multiset() == b.to_multiset(),
    ensures
        lists(b, sel),
{
    broadcast use vstd::seq_lib::group_to_multiset_ensures;
    broadcast use vstd::multiset::group_multiset_axioms;

    a.lemma_multiset_has_no_duplicates();
    assert forall|x: usize| b.to_set().contains(x) <==> sel.contains(x) by {
        assert(a.contains(x) <==> a.to_multiset().count(x) > 0);
        assert(b.contains(x) <==> b.to_multiset().count(x) > 0);
        assert(a.to_set().contains(x) <==> a.contains(x));
        assert(b.to_set().contains(x) <==> b.contains(x));
    }
    assert(b.to_set() =~= sel);
    assert forall|x: usize| b.to_multiset().contains(x) implies b.to_multiset().count(x) == 1 by {
        assert(a.to_multiset().contains(x));
    }
    b.lemma_multiset_has_no_duplicates_conv();
}

/// A click selects the clip alone; with the control key it turns the selection of
/// the clip round and leaves that of all others.
pub proof fn click_selects(sel: Set<usize>, i: usize, j: usize)
    ensures
        clicked(sel, i, false).contains(j) == (j == i),
        clicked(sel, i, true).contains(j) == if j == i {
            !sel.contains(i)
        } else {
            sel.contains(j)
        },
{
}

/// A click on the strip of a clip selects as any click does, and records the
/// project. Where a cut time is given, the clip is split there: the two halves
/// stand in its place, meet at the cut, and begin and end where the clip did.
/// Without one the clips stay.
pub proof fn strip_click_splits_at_the_cut<T>(
    e: EditorView<T>,
    i: usize,
    ctrl: bool,
    cut: Option<T>,
)
    requires
        e.wf(),
        e.project is Some,
        i < e.clip_count(),
    ensures
        ({
            let clips = e.project->0.clips;
            let after = strip_clicked(e, i, ctrl, cut);
            let now = after.project->0.clips;
            &&& after.selected == clicked(e.selected, i, ctrl)
            &&& after.clipboard == e.clipboard
            &&& after.dragged == e.dragged
            &&& after.undo.len() > 0 && after.undo.last() == e.project->0
            &&& cut is None ==> now == clips
            &&& cut matches Some(at) ==> {
                &&& now.len() == clips.len() + 1
                &&& forall|j: int| 0 <= j < i ==> now[j] == clips[j]
                &&& now[i as int] == (Clip { start: clips[i as int].start, end: at })
                &&& now[i + 1] == (Clip { start: at, end: clips[i as int].end })
                &&& forall|j: int| i < j < clips.len() ==> now[j + 1] == #[trigger] clips[j]
            }
        }),
{
    if let Some(at) = cut {
        split_covers(e.project->0.clips, i as int, at);
    }
}

/// Dropping a dragged clip on another one puts it at that place, and leaves all
/// others in their order; nothing is dragged then. Dropped on itself it stays
/// where it is, and no edit is recorded.
pub proof fn drop_moves_the_dragged<T>(e: EditorView<T>, i: usize)
    requires
        e.wf(),
        e.project is Some,
        i < e.clip_count(),
        e.dragged matches Some(d) ==> d < e.clip_count(),
    ensures
        e.dragged is None ==> dropped_on(e, i) == e,
        e.dragged matches Some(d) ==> {
            let clips = e.project->0.clips;
            let after = dropped_on(e, i);
            let now = after.project->0.clips;
            &&& after.dragged is None
            &&& after.selected == e.selected
            &&& after.clipboard == e.clipboard
            &&& d == i ==> after.project == e.project && after.undo == e.undo
            &&& d != i ==> {
                &&& after.undo.len() > 0 && after.undo.last() == e.project->0
                &&& now.len() == clips.len()
                &&& now[i as int] == clips[d as int]
                &&& now.remove(i as int) == clips.remove(d as int)
            }
        },
{
    if let Some(d) = e.dragged {
        let clips = e.project->0.clips;
        if d != i {
            assert(moved(clips, d as int, i as int).remove(i as int) =~= clips.remove(d as int));
        }
    }
}

/// Duplicating leaves the clips up to the last selected one, then the selected
/// ones in the order of the walk, then the others; the selection stays.
pub proof fn duplication_repeats_the_selected<T>(e: EditorView<T>, order: Seq<usize>, last: usize)
    requires
        e.wf(),
        lists(order, e.selected),
        is_max(e.selected, last),
        e.project is Some,
    ensures
        ({
            let clips = e.project->0.clips;
            let after = duplicated(e, order, last);
            let now = after.project->0.clips;
            let n = order.len() as int;
            &&& last < clips.len()
            &&& now.len() == clips.len() + n
            &&& forall|j: int| 0 <= j <= last ==> now[j] == #[trigger] clips[j]
            &&& forall|k: int|
                0 <= k < n ==> now[last + 1 + k] == clips[#[trigger] order[k] as int]
            &&& forall|j: int| last < j < clips.len() ==> now[j + n] == #[trigger] clips[j]
            &&& after.selected == e.selected
            &&& after.clipboard == e.clipboard
            &&& after.dragged == e.dragged
            &&& after.undo.len() > 0 && after.undo.last() == e.project->0
        }),
{
    assert(e.selected.contains(last));
}

/// The last selected clip is selected and none behind it is; the first selected
/// clip is selected and none before it is.
pub proof fn bounds_of_a_selection(sel: Set<usize>, lo: usize, hi: usize, i: usize)
    requires
        is_min(sel, lo),
        is_max(sel, hi),
        sel.contains(i),
    ensures
        sel.contains(lo) && sel.contains(hi) && lo <= i <= hi,
{
}

/// Undoing brings back the newest recorded project and takes it from the
/// history; nothing is selected then, and the clipboard stays. Without a recorded
/// project nothing happens.
pub proof fn undo_brings_back_the_newest<T>(e: EditorView<T>)
    ensures
        e.project is None || e.undo.len() == 0 ==> undone(e) == e,
        e.project is Some && e.undo.len() > 0 ==> {
            let after = undone(e);
            let n = e.undo.len() - 1;
            &&& after.project == Some(e.undo[n])
            &&& after.undo.len() == n
            &&& forall|i: int| 0 <= i < n ==> after.undo[i] == e.undo[i]
            &&& after.selected == Set::<usize>::empty()
            &&& after.clipboard == e.clipboard
            &&& after.dragged == e.dragged
        },
{
}

/// Where an entry of a list without repetitions stands.
pub open spec fn place_of(list: Seq<usize>, x: usize) -> int {
    list.index_of(x)
}

proof fn insertion_keeps_the_others(s: Seq<usize>, x: usize, keys: Seq<i32>) -> (at: int)
    requires
        forall|i: int, j: int|
            0 <= i <= j < s.len() ==> keys[s[i] as int] <= keys[s[j] as int],
    ensures
        0 <= at <= s.len(),
        crate::timeline::insert_by_key(s, x, keys) == s.insert(at, x),
        forall|i: int| 0 <= i < at ==> keys[#[trigger] s[i] as int] <= keys[x as int],
        forall|i: int| at <= i < s.len() ==> keys[#[trigger] s[i] as int] > keys[x as int],
    decreases s.len(),
{
    let r = crate::timeline::insert_by_key(s, x, keys);
    if s.len() == 0 || keys[s.last() as int] <= keys[x as int] {
        assert(r =~= s.insert(s.len() as int, x));
        assert forall|i: int| 0 <= i < s.len() implies keys[#[trigger] s[i] as int]
            <= keys[x as int] by {
            assert(keys[s[i] as int] <= keys[s[s.len() - 1] as int]);
        }
        s.len() as int
    } else {
        let front = s.drop_last();
        let at = insertion_keeps_the_others(front, x, keys);
        assert(r =~= s.insert(at, x));
        assert forall|i: int| 0 <= i < at implies keys[#[trigger] s[i] as int]
            <= keys[x as int] by {
            assert(front[i] == s[i]);
        }
        assert forall|i: int| at <= i < s.len() implies keys[#[trigger] s[i] as int]
            > keys[x as int] by {
            if i < front.len() {
                assert(front[i] == s[i]);
            }
        }
        at
    }
}

/// Clips of equal key lie on the clipboard in the order of the walk.
pub proof fn equal_keys_keep_the_order_of_the_walk(
    order: Seq<usize>,
    keys: Seq<i32>,
    x: usize,
    y: usize,
)
    requires
        order.no_duplicates(),
        order.contains(x),
        order.contains(y),
        keys[x as int] == keys[y as int],
        place_of(order, x) < place_of(order, y),
    ensures
        ({
            let sorted = sort_by_key(order, keys);
            exists|i: int, j: int|
                0 <= i < j < sorted.len() && #[trigger] sorted[i] == x && #[trigger] sorted[j] == y
        }),
    decreases order.len(),
{
    broadcast use vstd::seq_lib::group_to_multiset_ensures;

    let front = order.drop_last();
    let z = order.last();
    let before = sort_by_key(front, keys);
    let sorted = sort_by_key(order, keys);
    cut_is_sorted(front, keys);
    sort_by_key_members(front, keys);
    let at = insertion_keeps_the_others(before, z, keys);
    let px = place_of(order, x);
    let py = place_of(order, y);
    assert(order[px] == x && order[py] == y);
    assert(front[px] == x);
    assert(front.contains(x));
    assert(front.no_duplicates());
    if y == z {
        // The last entry of the walk goes behind all of its key.
        assert(before.contains(x)) by {
            assert(front.to_multiset().count(x) > 0);
        }
        let i = choose|i: int| 0 <= i < before.len() && before[i] == x;
        assert(i < at);
        assert(sorted[i] == x && sorted[at] == y);
    } else {
        assert(py < front.len()) by {
            if py == front.len() {
                assert(order[py] == z);
            }
        }
        assert(front[py] == y);
        assert(front.contains(y));
        assert(front.index_of(x) == px) by {
            assert(front[front.index_of(x)] == x);
            assert(order[front.index_of(x)] == x);
        }
        assert(front.index_of(y) == py) by {
            assert(front[front.index_of(y)] == y);
            assert(order[front.index_of(y)] == y);
        }
        equal_keys_keep_the_order_of_the_walk(front, keys, x, y);
        let (i, j) = choose|i: int, j: int|
            0 <= i < j < before.len() && #[trigger] before[i] == x && #[trigger] before[j] == y;
        let a = if i < at {
            i
        } else {
            i + 1
        };
        let b = if j < at {
            j
        } else {
            j + 1
        };
        assert(sorted[a] == x && sorted[b] == y);
    }
}

/// The walk of a selection names each selected clip once and nothing else.
pub proof fn walk_names_each_once(order: Seq<usize>, sel: Set<usize>, i: usize)
    requires
        lists(order, sel),
    ensures
        order.contains(i) == sel.contains(i),
        forall|j: int, k: int|
            0 <= j < k < order.len() ==> #[trigger] order[j] != #[trigger] order[k],
{
    assert(order.to_set().contains(i) == order.contains(i));
}

} // verus!

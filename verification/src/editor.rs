//! The timeline editor: selection, clipboard, reordering, splitting and undo
//! on a loaded project.
use crate::timeline::{
    clicked, copied, copy_clips, cut_to, deleted, dropped_on, duplicated, edited, insert_by_key,
    is_max, is_min, kept, lists, pasted, picked, sort_by_key, strip_clicked, undone, Clip,
    EditorView, ProjectView, VideoProject, UNDO_LIMIT,
};
use std::collections::HashSet;
use vstd::prelude::*;

verus! {

broadcast use vstd::std_specs::hash::group_hash_axioms;

/// A project being edited, with its selection, clipboard and history.
pub struct Editor<T> {
    project: Option<VideoProject<T>>,
    selected: HashSet<usize>,
    clipboard: Option<Vec<Clip<T>>>,
    dragged: Option<usize>,
    undo_stack: Vec<VideoProject<T>>,
}

/// The views of a list of projects.
pub open spec fn project_views<T>(v: Seq<VideoProject<T>>) -> Seq<ProjectView<T>> {
    v.map_values(|p: VideoProject<T>| p@)
}

impl<T> View for Editor<T> {
    type V = EditorView<T>;

    closed spec fn view(&self) -> EditorView<T> {
        EditorView {
            project: match self.project {
                Some(p) => Some(p@),
                None => None,
            },
            selected: self.selected@,
            clipboard: match self.clipboard {
                Some(c) => Some(c@),
                None => None,
            },
            dragged: self.dragged,
            undo: project_views(self.undo_stack@),
        }
    }
}

/// The order in which a set of positions is walked.
fn walk(sel: &HashSet<usize>) -> (r: Vec<usize>)
    ensures
        lists(r@, sel@),
        r@.len() == sel@.len(),
{
    let mut r: Vec<usize> = Vec::new();
    let ghost all: Seq<&usize> = vstd::std_specs::iter::IteratorSpec::remaining(
        &vstd::std_specs::hash::spec_hash_keys_iter(sel),
    );
    for k in it: sel.iter()
        invariant
            it.seq() == all,
            all.unref().to_set() == sel@,
            all.no_duplicates(),
            all.len() == sel@.len(),
            r@ == all.take(it.index() as int).unref(),
    {
        r.push(*k);
    }
    assert(r@ =~= all.unref());
    assert forall|i: int, j: int| 0 <= i < r@.len() && 0 <= j < r@.len() && i != j implies r@[i]
        != r@[j] by {
        assert(all[i] != all[j]);
    }
    r
}

/// The clips whose positions are not in `sel`, in order.
fn keep<T: Copy>(clips: &Vec<Clip<T>>, sel: &HashSet<usize>) -> (r: Vec<Clip<T>>)
    ensures
        r@ == kept(clips@, sel@),
{
    let mut r: Vec<Clip<T>> = Vec::new();
    for i in 0..clips.len()
        invariant
            r@ == kept(clips@.take(i as int), sel@),
    {
        assert(clips@.take(i + 1).drop_last() == clips@.take(i as int));
        if !sel.contains(&i) {
            r.push(clips[i].clone());
        }
    }
    assert(clips@.take(clips@.len() as int) == clips@);
    r
}

/// The clips at the positions `order`, in that order.
fn pick<T: Copy>(clips: &Vec<Clip<T>>, order: &Vec<usize>) -> (r: Vec<Clip<T>>)
    requires
        forall|k: int| 0 <= k < order@.len() ==> (#[trigger] order@[k]) < clips@.len(),
    ensures
        r@ == picked(clips@, order@),
{
    let mut r: Vec<Clip<T>> = Vec::new();
    for k in 0..order.len()
        invariant
            forall|j: int| 0 <= j < order@.len() ==> (#[trigger] order@[j]) < clips@.len(),
            r@ == picked(clips@, order@.take(k as int)),
    {
        r.push(clips[order[k]].clone());
        assert(order@.take(k + 1) == order@.take(k as int).push(order@[k as int]));
    }
    assert(order@.take(order@.len() as int) == order@);
    r
}

/// Where an entry goes that all before position `j` may precede and all from
/// `j` on exceed.
proof fn insert_by_key_at(s: Seq<usize>, x: usize, keys: Seq<i32>, j: int)
    requires
        0 <= j <= s.len(),
        forall|k: int| j <= k < s.len() ==> keys[(#[trigger] s[k]) as int] > keys[x as int],
        j > 0 ==> keys[s[j - 1] as int] <= keys[x as int],
    ensures
        insert_by_key(s, x, keys) == s.insert(j, x),
    decreases s.len(),
{
    if j < s.len() {
        assert(s[s.len() - 1] == s.last());
        insert_by_key_at(s.drop_last(), x, keys, j);
        assert(s.drop_last().insert(j, x).push(s.last()) =~= s.insert(j, x));
    } else {
        assert(s.push(x) =~= s.insert(j, x));
        if s.len() > 0 {
            assert(s[j - 1] == s.last());
        }
    }
}

/// Sorting by key keeps the entries.
pub proof fn sort_by_key_members(order: Seq<usize>, keys: Seq<i32>)
    ensures
        sort_by_key(order, keys).to_multiset() == order.to_multiset(),
        sort_by_key(order, keys).len() == order.len(),
    decreases order.len(),
{
    broadcast use vstd::seq_lib::group_to_multiset_ensures;

    if order.len() > 0 {
        sort_by_key_members(order.drop_last(), keys);
        insert_by_key_members(sort_by_key(order.drop_last(), keys), order.last(), keys);
        assert(order.drop_last().push(order.last()) =~= order);
    }
}

proof fn insert_by_key_members(s: Seq<usize>, x: usize, keys: Seq<i32>)
    ensures
        insert_by_key(s, x, keys).to_multiset() == s.to_multiset().insert(x),
        insert_by_key(s, x, keys).len() == s.len() + 1,
    decreases s.len(),
{
    broadcast use vstd::seq_lib::group_to_multiset_ensures;

    if s.len() > 0 && keys[s.last() as int] > keys[x as int] {
        insert_by_key_members(s.drop_last(), x, keys);
        assert(s.drop_last().push(s.last()) =~= s);
        assert(s.to_multiset() =~= s.drop_last().to_multiset().insert(s.last()));
        assert(insert_by_key(s, x, keys).to_multiset() =~= s.to_multiset().insert(x));
    }
}

/// Sorts positions by key; those of equal key keep their order.
fn sort_positions(order: &Vec<usize>, keys: &Vec<i32>) -> (r: Vec<usize>)
    requires
        forall|k: int| 0 <= k < order@.len() ==> (#[trigger] order@[k]) < keys@.len(),
    ensures
        r@ == sort_by_key(order@, keys@),
        forall|k: int| 0 <= k < r@.len() ==> (#[trigger] r@[k]) < keys@.len(),
{
    let mut r: Vec<usize> = Vec::new();
    for i in 0..order.len()
        invariant
            forall|k: int| 0 <= k < order@.len() ==> (#[trigger] order@[k]) < keys@.len(),
            forall|k: int| 0 <= k < r@.len() ==> (#[trigger] r@[k]) < keys@.len(),
            r@ == sort_by_key(order@.take(i as int), keys@),
    {
        let x = order[i];
        let mut j: usize = r.len();
        while j > 0 && keys[r[j - 1]] > keys[x]
            invariant
                j <= r@.len(),
                x < keys@.len(),
                forall|k: int| 0 <= k < r@.len() ==> (#[trigger] r@[k]) < keys@.len(),
                forall|k: int|
                    j <= k < r@.len() ==> keys@[(#[trigger] r@[k]) as int] > keys@[x as int],
            decreases j,
        {
            j = j - 1;
        }
        proof {
            insert_by_key_at(r@, x, keys@, j as int);
            assert(order@.take(i + 1).drop_last() == order@.take(i as int));
        }
        r.insert(j, x);
    }
    assert(order@.take(order@.len() as int) == order@);
    r
}

impl<T: Copy> Editor<T> {
    /// An editor without a project.
    pub fn new() -> (e: Self)
        ensures
            e@ == (EditorView::<T> {
                project: None,
                selected: Set::empty(),
                clipboard: None,
                dragged: None,
                undo: Seq::empty(),
            }),
            e@.wf(),
    {
        Editor {
            project: None,
            selected: HashSet::new(),
            clipboard: None,
            dragged: None,
            undo_stack: Vec::new(),
        }
    }

    /// Opens a project: nothing is selected and the clipboard is empty.
    pub fn load(&mut self, project: VideoProject<T>)
        requires
            old(self)@.wf(),
        ensures
            final(self)@ == (EditorView {
                project: Some(project@),
                selected: Set::empty(),
                clipboard: None,
                ..old(self)@
            }),
            final(self)@.wf(),
    {
        self.project = Some(project);
        self.selected.clear();
        self.clipboard = None;
    }

    /// Records the project in the history and gives it the clips `clips`.
    fn replace_clips(&mut self, clips: Vec<Clip<T>>)
        requires
            old(self)@.undo.len() <= UNDO_LIMIT,
        ensures
            final(self)@ == edited(old(self)@, clips@),
            final(self)@.undo.len() <= UNDO_LIMIT,
    {
        if let Some(mut p) = self.project.take() {
            let ghost before = project_views(self.undo_stack@);
            self.undo_stack.push(p.clone());
            assert(project_views(self.undo_stack@) =~= before.push(p@));
            if self.undo_stack.len() > UNDO_LIMIT {
                let ghost full = self.undo_stack@;
                self.undo_stack.remove(0);
                assert(project_views(self.undo_stack@) =~= project_views(full).drop_first());
            }
            p.clips = clips;
            self.project = Some(p);
        }
    }

    /// Selects clip `i` alone, or flips it where the control key is down.
    pub fn click_select(&mut self, i: usize, ctrl: bool)
        requires
            old(self)@.wf(),
            i < old(self)@.clip_count(),
        ensures
            final(self)@ == (EditorView {
                selected: clicked(old(self)@.selected, i, ctrl),
                ..old(self)@
            }),
            final(self)@.wf(),
    {
        if ctrl {
            if self.selected.contains(&i) {
                self.selected.remove(&i);
            } else {
                self.selected.insert(i);
            }
        } else {
            self.selected.clear();
            self.selected.insert(i);
        }
    }

    /// A click on the strip of clip `i`. Where `cut` gives a time, the clip is
    /// cut there; the result says whether it was.
    pub fn click_strip(&mut self, i: usize, ctrl: bool, cut: Option<T>) -> (refresh: bool)
        requires
            old(self)@.wf(),
            i < old(self)@.clip_count(),
        ensures
            final(self)@ == strip_clicked(old(self)@, i, ctrl, cut),
            refresh == (cut is Some),
            final(self)@.wf(),
    {
        self.click_select(i, ctrl);
        let mut clips: Vec<Clip<T>> = match &self.project {
            Some(p) => copy_clips(&p.clips),
            None => Vec::new(),
        };
        let count: usize = clips.len();
        if let Some(at) = cut {
            assert(i < count);
            let left = Clip { start: clips[i].start, end: at };
            let right = Clip { start: at, end: clips[i].end };
            clips.set(i, left);
            clips.insert(i + 1, right);
        }
        self.replace_clips(clips);
        cut.is_some()
    }

    /// Remembers that clip `i` is being dragged.
    pub fn drag(&mut self, i: usize)
        requires
            old(self)@.wf(),
        ensures
            final(self)@ == (EditorView { dragged: Some(i), ..old(self)@ }),
            final(self)@.wf(),
    {
        self.dragged = Some(i);
    }

    /// Drops the dragged clip on clip `i`; the result says whether a clip moved.
    pub fn drop_on(&mut self, i: usize) -> (refresh: bool)
        requires
            old(self)@.wf(),
            i < old(self)@.clip_count(),
            old(self)@.dragged matches Some(d) ==> d == i || d < old(self)@.clip_count(),
        ensures
            final(self)@ == dropped_on(old(self)@, i),
            refresh == (old(self)@.dragged matches Some(d) && d != i),
            final(self)@.wf(),
    {
        match self.dragged.take() {
            Some(d) => {
                if d != i {
                    let mut clips: Vec<Clip<T>> = match &self.project {
                        Some(p) => copy_clips(&p.clips),
                        None => Vec::new(),
                    };
                    let moving = clips.remove(d);
                    clips.insert(i, moving);
                    self.replace_clips(clips);
                    true
                } else {
                    false
                }
            },
            None => false,
        }
    }

    /// Deletes the selected clips; the result says whether there is a project
    /// to delete from.
    pub fn delete_selected(&mut self) -> (refresh: bool)
        requires
            old(self)@.wf(),
        ensures
            final(self)@ == deleted(old(self)@),
            refresh == (old(self)@.project is Some),
            final(self)@.wf(),
    {
        let clips = match &self.project {
            Some(p) => keep(&p.clips, &self.selected),
            None => {
                return false;
            },
        };
        self.replace_clips(clips);
        self.selected.clear();
        true
    }

    /// Every entry of a walk of the selection is a position on the timeline.
    proof fn walk_in_range(e: EditorView<T>, order: Seq<usize>)
        requires
            e.wf(),
            lists(order, e.selected),
        ensures
            forall|k: int| 0 <= k < order.len() ==> (#[trigger] order[k]) < e.clip_count(),
    {
        assert forall|k: int| 0 <= k < order.len() implies (#[trigger] order[k])
            < e.clip_count() by {
            assert(order.to_set().contains(order[k]));
        }
    }

    /// Cuts the selected clips to the clipboard, sorted by their keys, walking
    /// the selection in the order `order`; `keys[i]` is the key of clip `i`.
    pub fn cut_in_order(&mut self, order: &Vec<usize>, keys: &Vec<i32>) -> (refresh: bool)
        requires
            old(self)@.wf(),
            lists(order@, old(self)@.selected),
            keys@.len() == old(self)@.clip_count(),
        ensures
            final(self)@ == cut_to(old(self)@, order@, keys@),
            refresh == (old(self)@.project is Some && !old(self)@.selected.is_empty()),
            final(self)@.wf(),
    {
        proof {
            Self::walk_in_range(self@, order@);
        }
        if self.selected.is_empty() {
            return false;
        }
        let taken = match &self.project {
            Some(p) => pick(&p.clips, &sort_positions(order, keys)),
            None => {
                return false;
            },
        };
        self.delete_selected();
        self.clipboard = Some(taken);
        true
    }

    /// Cuts the selected clips to the clipboard, sorted by their keys; `keys[i]`
    /// is the key of clip `i`. Clips of equal key come in no particular order.
    pub fn cut(&mut self, keys: &Vec<i32>) -> (refresh: bool)
        requires
            old(self)@.wf(),
            keys@.len() == old(self)@.clip_count(),
        ensures
            exists|order: Seq<usize>|
                #[trigger] lists(order, old(self)@.selected) && final(self)@ == cut_to(
                    old(self)@,
                    order,
                    keys@,
                ),
            refresh == (old(self)@.project is Some && !old(self)@.selected.is_empty()),
            final(self)@.wf(),
    {
        let order = walk(&self.selected);
        self.cut_in_order(&order, keys)
    }

    /// Copies the selected clips to the clipboard in the order `order`.
    pub fn copy_in_order(&mut self, order: &Vec<usize>)
        requires
            old(self)@.wf(),
            lists(order@, old(self)@.selected),
        ensures
            final(self)@ == copied(old(self)@, order@),
            final(self)@.wf(),
    {
        proof {
            Self::walk_in_range(self@, order@);
        }
        if self.selected.is_empty() {
            return;
        }
        if let Some(p) = &self.project {
            self.clipboard = Some(pick(&p.clips, order));
        }
    }

    /// Copies the selected clips to the clipboard, in no particular order.
    pub fn copy(&mut self)
        requires
            old(self)@.wf(),
        ensures
            exists|order: Seq<usize>|
                #[trigger] lists(order, old(self)@.selected) && final(self)@ == copied(
                    old(self)@,
                    order,
                ),
            final(self)@.wf(),
    {
        let order = walk(&self.selected);
        self.copy_in_order(&order);
    }

    /// Appends the clipboard to the timeline; the result says whether there was
    /// a clipboard.
    pub fn paste(&mut self) -> (refresh: bool)
        requires
            old(self)@.wf(),
        ensures
            final(self)@ == pasted(old(self)@),
            old(self)@.project is Some && old(self)@.clipboard is Some ==> final(self)@.project is Some
                && final(self)@.project->0.clips == old(self)@.project->0.clips + old(
                self,
            )@.clipboard->0,
            refresh == (old(self)@.project is Some && old(self)@.clipboard is Some),
            final(self)@.wf(),
    {
        let clips = match (&self.project, &self.clipboard) {
            (Some(p), Some(c)) => {
                let mut all = copy_clips(&p.clips);
                let mut more = copy_clips(c);
                all.append(&mut more);
                all
            },
            _ => {
                return false;
            },
        };
        self.replace_clips(clips);
        true
    }

    /// The greatest and the smallest selected position.
    fn selected_bounds(&self) -> (r: Option<(usize, usize)>)
        requires
            self@.wf(),
        ensures
            match r {
                Some((lo, hi)) => is_min(self@.selected, lo) && is_max(self@.selected, hi),
                None => self@.selected.is_empty(),
            },
    {
        let order = walk(&self.selected);
        let ghost sel = self.selected@;
        if order.len() == 0 {
            assert(order@.to_set() =~= Set::empty());
            return None;
        }
        let mut lo: usize = order[0];
        let mut hi: usize = order[0];
        assert(order@.to_set().contains(order@[0]));
        for k in 1..order.len()
            invariant
                lists(order@, sel),
                order@.len() > 0,
                sel.contains(lo),
                sel.contains(hi),
                forall|j: int| 0 <= j < k ==> lo <= (#[trigger] order@[j]) <= hi,
        {
            assert(order@.to_set().contains(order@[k as int]));
            if order[k] < lo {
                lo = order[k];
            }
            if order[k] > hi {
                hi = order[k];
            }
        }
        assert forall|i: usize| #[trigger] sel.contains(i) implies lo <= i <= hi by {
            assert(order@.to_set().contains(i));
            let j = choose|j: int| 0 <= j < order@.len() && order@[j] == i;
            assert(order@[j] == i);
        }
        Some((lo, hi))
    }

    /// Puts copies of the selected clips, in the order `order`, behind the last
    /// selected clip.
    pub fn duplicate_in_order(&mut self, order: &Vec<usize>) -> (refresh: bool)
        requires
            old(self)@.wf(),
            lists(order@, old(self)@.selected),
        ensures
            old(self)@.selected.is_empty() ==> final(self)@ == old(self)@,
            forall|last: usize|
                #[trigger] is_max(old(self)@.selected, last) ==> final(self)@ == duplicated(
                    old(self)@,
                    order@,
                    last,
                ),
            refresh == (old(self)@.project is Some && !old(self)@.selected.is_empty()),
            final(self)@.wf(),
    {
        proof {
            Self::walk_in_range(self@, order@);
        }
        let last: usize = match self.selected_bounds() {
            Some((_, hi)) => hi,
            None => {
                return false;
            },
        };
        let clips = match &self.project {
            Some(p) => {
                let mut head = copy_clips(&p.clips);
                let ghost all = head@;
                let count: usize = head.len();
                assert(last < count);
                let mut tail = head.split_off(last + 1);
                let mut more = pick(&p.clips, order);
                head.append(&mut more);
                head.append(&mut tail);
                assert(head@ =~= all.take(last + 1) + picked(all, order@) + all.skip(last + 1));
                head
            },
            None => {
                return false;
            },
        };
        self.replace_clips(clips);
        assert(forall|m: usize| #[trigger] is_max(old(self)@.selected, m) ==> m == last);
        true
    }

    /// Puts copies of the selected clips, in no particular order, behind the
    /// last selected clip.
    pub fn duplicate(&mut self) -> (refresh: bool)
        requires
            old(self)@.wf(),
        ensures
            old(self)@.selected.is_empty() ==> final(self)@ == old(self)@,
            !old(self)@.selected.is_empty() ==> exists|order: Seq<usize>, last: usize|
                #![trigger lists(order, old(self)@.selected), is_max(old(self)@.selected, last)]
                lists(order, old(self)@.selected) && is_max(old(self)@.selected, last)
                    && final(self)@ == duplicated(old(self)@, order, last),
            refresh == (old(self)@.project is Some && !old(self)@.selected.is_empty()),
            final(self)@.wf(),
    {
        let order = walk(&self.selected);
        let bounds = self.selected_bounds();
        let refresh = self.duplicate_in_order(&order);
        proof {
            if let Some((lo, hi)) = bounds {
                assert(is_max(old(self)@.selected, hi));
            }
        }
        refresh
    }

    /// Undoes the newest recorded edit; the result says whether there was one.
    pub fn undo(&mut self) -> (refresh: bool)
        requires
            old(self)@.wf(),
        ensures
            final(self)@ == undone(old(self)@),
            refresh == (old(self)@.project is Some && old(self)@.undo.len() > 0),
            final(self)@.wf(),
    {
        if self.project.is_none() {
            return false;
        }
        let ghost before = self.undo_stack@;
        match self.undo_stack.pop() {
            Some(p) => {
                self.project = Some(p);
                self.selected.clear();
                assert(project_views(self.undo_stack@) =~= project_views(before).drop_last());
                true
            },
            None => false,
        }
    }

    /// Selects the clip behind the last selected one, if there is one.
    pub fn select_next(&mut self)
        requires
            old(self)@.wf(),
        ensures
            old(self)@.selected.is_empty() ==> final(self)@ == old(self)@,
            forall|m: usize|
                #[trigger] is_max(old(self)@.selected, m) ==> final(self)@ == (EditorView {
                    selected: Set::empty().insert(
                        if m + 1 < old(self)@.clip_count() {
                            (m + 1) as usize
                        } else {
                            m
                        },
                    ),
                    ..old(self)@
                }),
            final(self)@.wf(),
    {
        if let Some((_, hi)) = self.selected_bounds() {
            let count: usize = match &self.project {
                Some(p) => p.clips.len(),
                None => 0,
            };
            let next: usize = if hi + 1 < count { hi + 1 } else { hi };
            self.selected.clear();
            self.selected.insert(next);
            assert(forall|m: usize| #[trigger] is_max(old(self)@.selected, m) ==> m == hi);
        }
    }

    /// Selects the clip before the first selected one, if there is one.
    pub fn select_previous(&mut self)
        requires
            old(self)@.wf(),
        ensures
            old(self)@.selected.is_empty() ==> final(self)@ == old(self)@,
            forall|m: usize|
                #[trigger] is_min(old(self)@.selected, m) ==> final(self)@ == (EditorView {
                    selected: Set::empty().insert(
                        if m > 0 {
                            (m - 1) as usize
                        } else {
                            m
                        },
                    ),
                    ..old(self)@
                }),
            final(self)@.wf(),
    {
        if let Some((lo, _)) = self.selected_bounds() {
            let previous: usize = if lo > 0 { lo - 1 } else { lo };
            self.selected.clear();
            self.selected.insert(previous);
            assert(forall|m: usize| #[trigger] is_min(old(self)@.selected, m) ==> m == lo);
        }
    }

    /// Gives the clips new times, one entry for each clip of the timeline.
    pub fn retime(&mut self, clips: Vec<Clip<T>>)
        requires
            old(self)@.wf(),
            clips@.len() == old(self)@.clip_count(),
        ensures
            final(self)@ == edited(old(self)@, clips@),
            final(self)@.wf(),
    {
        self.replace_clips(clips);
    }

    /// The project being edited.
    pub fn project(&self) -> (r: Option<&VideoProject<T>>)
        ensures
            match r {
                Some(p) => self@.project == Some(p@),
                None => self@.project is None,
            },
    {
        match &self.project {
            Some(p) => Some(p),
            None => None,
        }
    }

    /// Whether clip `i` is selected.
    pub fn is_selected(&self, i: usize) -> (r: bool)
        ensures
            r == self@.selected.contains(i),
    {
        self.selected.contains(&i)
    }

    /// The clip that is being dragged.
    pub fn dragged(&self) -> (r: Option<usize>)
        ensures
            r == self@.dragged,
    {
        self.dragged
    }

    /// How many clips are selected.
    pub fn selected_count(&self) -> (r: usize)
        ensures
            r == self@.selected.len(),
    {
        self.selected.len()
    }

    /// The clips on the clipboard.
    pub fn clipboard(&self) -> (r: Option<&Vec<Clip<T>>>)
        ensures
            match r {
                Some(c) => self@.clipboard == Some(c@),
                None => self@.clipboard is None,
            },
    {
        match &self.clipboard {
            Some(c) => Some(c),
            None => None,
        }
    }

    /// How many edits can be undone.
    pub fn undo_depth(&self) -> (r: usize)
        ensures
            r == self@.undo.len(),
    {
        self.undo_stack.len()
    }
}

} // verus!

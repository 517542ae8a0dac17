//! The cut timeline: an ordered list of time ranges of one source, the
//! selection on it, the clipboard and the undo history.
//!
//! Times are of a caller-chosen type `T`: nothing here computes with them, they
//! are placed, moved and copied only.
use crate::text::owned;
use vstd::prelude::*;

verus! {

/// How many edits can be undone.
pub const UNDO_LIMIT: usize = 20;

/// One non-destructive time range on the source.
#[derive(Debug, PartialEq)]
pub struct Clip<T> {
    pub start: T,
    pub end: T,
}

/// Loaded source and ordered clip list (the edit).
#[derive(Debug)]
pub struct VideoProject<T> {
    pub source_path: String,
    pub duration: T,
    pub clips: Vec<Clip<T>>,
}

/// The mathematical content of a project.
#[verifier::ext_equal]
pub struct ProjectView<T> {
    pub source_path: Seq<char>,
    pub duration: T,
    pub clips: Seq<Clip<T>>,
}

impl<T> View for VideoProject<T> {
    type V = ProjectView<T>;

    open spec fn view(&self) -> ProjectView<T> {
        ProjectView {
            source_path: self.source_path@,
            duration: self.duration,
            clips: self.clips@,
        }
    }
}

impl<T: Copy> Clone for Clip<T> {
    fn clone(&self) -> (r: Self)
        ensures
            r == *self,
    {
        Clip { start: self.start, end: self.end }
    }
}

/// A copy of a clip list.
pub fn copy_clips<T: Copy>(v: &Vec<Clip<T>>) -> (r: Vec<Clip<T>>)
    ensures
        r@ == v@,
{
    let mut r: Vec<Clip<T>> = Vec::new();
    for i in 0..v.len()
        invariant
            r@ == v@.take(i as int),
    {
        r.push(v[i].clone());
    }
    assert(v@.take(v@.len() as int) == v@);
    r
}

impl<T: Copy> Clone for VideoProject<T> {
    fn clone(&self) -> (r: Self)
        ensures
            r@ == self@,
    {
        VideoProject {
            source_path: owned(self.source_path.as_str()),
            duration: self.duration,
            clips: copy_clips(&self.clips),
        }
    }
}

// ---------------------------------------------------------------------------
// Model
// ---------------------------------------------------------------------------

/// The mathematical content of an editor.
#[verifier::ext_equal]
pub struct EditorView<T> {
    pub project: Option<ProjectView<T>>,
    pub selected: Set<usize>,
    pub clipboard: Option<Seq<Clip<T>>>,
    pub dragged: Option<usize>,
    pub undo: Seq<ProjectView<T>>,
}

impl<T> EditorView<T> {
    /// How many clips the timeline holds.
    pub open spec fn clip_count(self) -> nat {
        match self.project {
            Some(p) => p.clips.len(),
            None => 0,
        }
    }

    /// The selection names clips of the timeline only, and the history is
    /// bounded.
    pub open spec fn wf(self) -> bool {
        &&& forall|i: usize| #[trigger] self.selected.contains(i) ==> i < self.clip_count()
        &&& self.selected.finite()
        &&& self.undo.len() <= UNDO_LIMIT
    }
}

/// The history with one more entry; the oldest one gives way at the limit.
pub open spec fn pushed<T>(undo: Seq<ProjectView<T>>, p: ProjectView<T>) -> Seq<ProjectView<T>> {
    if undo.len() >= UNDO_LIMIT {
        undo.push(p).drop_first()
    } else {
        undo.push(p)
    }
}

/// The editor after an edit that leaves the clips `clips`: the project as it
/// was goes to the history, its source and duration stay.
pub open spec fn edited<T>(e: EditorView<T>, clips: Seq<Clip<T>>) -> EditorView<T> {
    match e.project {
        Some(p) => EditorView {
            project: Some(ProjectView { clips, ..p }),
            undo: pushed(e.undo, p),
            ..e
        },
        None => e,
    }
}

/// The clips whose positions are not in `sel`, in order.
pub open spec fn kept<T>(clips: Seq<Clip<T>>, sel: Set<usize>) -> Seq<Clip<T>>
    decreases clips.len(),
{
    if clips.len() == 0 {
        clips
    } else {
        let rest = kept(clips.drop_last(), sel);
        if sel.contains((clips.len() - 1) as usize) {
            rest
        } else {
            rest.push(clips.last())
        }
    }
}

/// The clips at the positions `order`, in that order.
pub open spec fn picked<T>(clips: Seq<Clip<T>>, order: Seq<usize>) -> Seq<Clip<T>> {
    order.map_values(|i: usize| clips[i as int])
}

/// `order` lists each member of `sel` once.
pub open spec fn lists(order: Seq<usize>, sel: Set<usize>) -> bool {
    order.no_duplicates() && order.to_set() == sel
}

/// The timeline with clip `i` cut in two at time `at`.
pub open spec fn split<T>(clips: Seq<Clip<T>>, i: int, at: T) -> Seq<Clip<T>> {
    clips.update(i, Clip { start: clips[i].start, end: at }).insert(
        i + 1,
        Clip { start: at, end: clips[i].end },
    )
}

/// The timeline with clip `from` taken out and put back at position `to`.
pub open spec fn moved<T>(clips: Seq<Clip<T>>, from: int, to: int) -> Seq<Clip<T>> {
    clips.remove(from).insert(to, clips[from])
}

/// `x` goes behind every entry of `s` whose key is not greater.
pub open spec fn insert_by_key(s: Seq<usize>, x: usize, keys: Seq<i32>) -> Seq<usize>
    decreases s.len(),
{
    if s.len() == 0 || keys[s.last() as int] <= keys[x as int] {
        s.push(x)
    } else {
        insert_by_key(s.drop_last(), x, keys).push(s.last())
    }
}

/// The positions `order` sorted by key; those of equal key keep their order.
pub open spec fn sort_by_key(order: Seq<usize>, keys: Seq<i32>) -> Seq<usize>
    decreases order.len(),
{
    if order.len() == 0 {
        order
    } else {
        insert_by_key(sort_by_key(order.drop_last(), keys), order.last(), keys)
    }
}

/// The largest member of a finite set of positions.
pub open spec fn is_max(sel: Set<usize>, m: usize) -> bool {
    sel.contains(m) && forall|i: usize| #[trigger] sel.contains(i) ==> i <= m
}

/// The smallest member of a set of positions.
pub open spec fn is_min(sel: Set<usize>, m: usize) -> bool {
    sel.contains(m) && forall|i: usize| #[trigger] sel.contains(i) ==> m <= i
}

/// A click selects position `i` alone; with the control key it flips `i`.
pub open spec fn clicked(sel: Set<usize>, i: usize, ctrl: bool) -> Set<usize> {
    if !ctrl {
        Set::empty().insert(i)
    } else if sel.contains(i) {
        sel.remove(i)
    } else {
        sel.insert(i)
    }
}

/// Deleting drops the selected clips and the selection.
pub open spec fn deleted<T>(e: EditorView<T>) -> EditorView<T> {
    match e.project {
        Some(p) => EditorView {
            selected: Set::empty(),
            ..edited(e, kept(p.clips, e.selected))
        },
        None => e,
    }
}

/// Cutting deletes the selected clips and keeps them, sorted by key, on the
/// clipboard; `order` is the order in which the selection is walked.
pub open spec fn cut_to<T>(e: EditorView<T>, order: Seq<usize>, keys: Seq<i32>) -> EditorView<T> {
    match e.project {
        Some(p) => if e.selected.is_empty() {
            e
        } else {
            EditorView { clipboard: Some(picked(p.clips, sort_by_key(order, keys))), ..deleted(e) }
        },
        None => e,
    }
}

/// Copying puts the selected clips on the clipboard; `order` is the order in
/// which the selection is walked.
pub open spec fn copied<T>(e: EditorView<T>, order: Seq<usize>) -> EditorView<T> {
    match e.project {
        Some(p) => if e.selected.is_empty() {
            e
        } else {
            EditorView { clipboard: Some(picked(p.clips, order)), ..e }
        },
        None => e,
    }
}

/// Pasting appends the clipboard to the timeline.
pub open spec fn pasted<T>(e: EditorView<T>) -> EditorView<T> {
    match (e.project, e.clipboard) {
        (Some(p), Some(c)) => edited(e, p.clips + c),
        _ => e,
    }
}

/// Duplicating puts copies of the selected clips behind the last selected one;
/// `order` is the order in which the selection is walked and `last` its
/// greatest member.
pub open spec fn duplicated<T>(e: EditorView<T>, order: Seq<usize>, last: usize) -> EditorView<T> {
    match e.project {
        Some(p) => if e.selected.is_empty() {
            e
        } else {
            edited(
                e,
                p.clips.take(last + 1) + picked(p.clips, order) + p.clips.skip(last + 1),
            )
        },
        None => e,
    }
}

/// Undoing brings back the newest project of the history and drops the
/// selection.
pub open spec fn undone<T>(e: EditorView<T>) -> EditorView<T> {
    if e.project is Some && e.undo.len() > 0 {
        EditorView {
            project: Some(e.undo.last()),
            selected: Set::empty(),
            undo: e.undo.drop_last(),
            ..e
        }
    } else {
        e
    }
}

/// A click on the strip of clip `i`: it selects as any click does, records the
/// project in the history, and cuts the clip where a cut time is given.
pub open spec fn strip_clicked<T>(
    e: EditorView<T>,
    i: usize,
    ctrl: bool,
    cut: Option<T>,
) -> EditorView<T> {
    match e.project {
        Some(p) => EditorView {
            selected: clicked(e.selected, i, ctrl),
            ..edited(
                e,
                match cut {
                    Some(at) => split(p.clips, i as int, at),
                    None => p.clips,
                },
            )
        },
        None => e,
    }
}

/// Dropping what is dragged on clip `i` moves the dragged clip there.
pub open spec fn dropped_on<T>(e: EditorView<T>, i: usize) -> EditorView<T> {
    let released = EditorView { dragged: None, ..e };
    match (e.project, e.dragged) {
        (Some(p), Some(d)) => if d != i {
            edited(released, moved(p.clips, d as int, i as int))
        } else {
            released
        },
        _ => e,
    }
}

} // verus!

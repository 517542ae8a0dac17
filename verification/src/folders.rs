//! What a folder holds: its videos and audio tracks in order of name, its newest
//! mp4, and the video that is opened when the program starts.
use crate::paths::{
    extension, extension_of, is_audio_name, is_video_name, named_in, AUDIO_EXTENSIONS,
    VIDEO_EXTENSIONS,
};
use crate::text::{lower, lower_text, not_after, owned, same_text, text_le, texts};
use vstd::prelude::*;
use vstd::string::*;

verus! {

/// One entry of a folder: its name, whether it is a file, and when it was last
/// modified, in nanoseconds from the epoch, where that is known.
#[derive(Debug)]
pub struct DirEntry {
    pub name: String,
    pub is_file: bool,
    pub modified: Option<i128>,
}

/// The names of the files among `entries` that have an extension of a list, in
/// the order of the entries.
pub open spec fn files_named_in(entries: Seq<DirEntry>, list: Seq<&str>) -> Seq<Seq<char>>
    decreases entries.len(),
{
    if entries.len() == 0 {
        Seq::empty()
    } else {
        let rest = files_named_in(entries.drop_last(), list);
        let e = entries.last();
        if e.is_file && named_in(e.name@, list) {
            rest.push(e.name@)
        } else {
            rest
        }
    }
}

/// Names in dictionary order.
pub open spec fn in_order(names: Seq<Seq<char>>) -> bool {
    forall|i: int, j: int| 0 <= i <= j < names.len() ==> text_le(names[i], names[j])
}

/// Dictionary order is a total order: it compares any two texts, carries over,
/// and holds both ways for equal texts only.
pub proof fn text_order(a: Seq<char>, b: Seq<char>, c: Seq<char>)
    ensures
        text_le(a, a),
        text_le(a, b) || text_le(b, a),
        text_le(a, b) && text_le(b, a) ==> a == b,
        text_le(a, b) && text_le(b, c) ==> text_le(a, c),
    decreases a.len(),
{
    if a.len() > 0 {
        let a1 = a.drop_first();
        let b1 = b.drop_first();
        let c1 = c.drop_first();
        text_order(a1, b1, c1);
        if b.len() > 0 && a[0] == b[0] && a1 == b1 {
            assert(a =~= seq![a[0]] + a1);
            assert(b =~= seq![b[0]] + b1);
        }
    } else if b.len() == 0 {
        assert(a =~= b);
    }
}

/// Puts `name` where it belongs among names in order.
fn insert_name(sorted: &mut Vec<String>, name: String)
    requires
        in_order(texts(old(sorted)@)),
    ensures
        in_order(texts(final(sorted)@)),
        texts(final(sorted)@).to_multiset() == texts(old(sorted)@).to_multiset().insert(name@),
{
    broadcast use vstd::seq_lib::group_to_multiset_ensures;

    let ghost before = texts(sorted@);
    let ghost x = name@;
    let mut j: usize = sorted.len();
    while j > 0 && !not_after(sorted[j - 1].as_str(), name.as_str())
        invariant
            x == name@,
            before == texts(sorted@),
            in_order(before),
            j <= sorted@.len(),
            forall|k: int| j <= k < before.len() ==> text_le(x, #[trigger] before[k]),
        decreases j,
    {
        j = j - 1;
        proof {
            assert(before[j as int] == sorted@[j as int]@);
            text_order(x, before[j as int], x);
        }
    }
    sorted.insert(j, name);
    let ghost after = texts(sorted@);
    proof {
        assert(after =~= before.insert(j as int, x));
        if j > 0 {
            assert(before[j - 1] == after[j - 1]);
            assert(text_le(before[j - 1], x));
        }
        assert forall|a: int, b: int| 0 <= a <= b < after.len() implies text_le(
            after[a],
            after[b],
        ) by {
            if a < j && b == j {
                assert(text_le(before[a], before[j - 1]));
                text_order(before[a], before[j - 1], x);
            } else if a == j && b > j {
                assert(text_le(x, before[b - 1]));
            } else if a == j && b == j {
                text_order(x, x, x);
            } else if a < j && b < j {
                assert(text_le(before[a], before[b]));
            } else if a < j && b > j {
                assert(text_le(before[a], before[b - 1]));
            } else {
                assert(text_le(before[a - 1], before[b - 1]));
            }
        }
    }
}

/// The videos of a folder: the files among its entries with a video extension,
/// in order of name.
pub fn list_videos_in_dir(entries: &Vec<DirEntry>) -> (r: Vec<String>)
    ensures
        in_order(texts(r@)),
        texts(r@).to_multiset() == files_named_in(entries@, VIDEO_EXTENSIONS@).to_multiset(),
{
    broadcast use vstd::seq_lib::group_to_multiset_ensures;

    let mut r: Vec<String> = Vec::new();
    assert(texts(r@) =~= files_named_in(entries@.take(0), VIDEO_EXTENSIONS@));
    for i in 0..entries.len()
        invariant
            in_order(texts(r@)),
            texts(r@).to_multiset() == files_named_in(
                entries@.take(i as int),
                VIDEO_EXTENSIONS@,
            ).to_multiset(),
    {
        broadcast use vstd::seq_lib::group_to_multiset_ensures;

        assert(entries@.take(i + 1).drop_last() == entries@.take(i as int));
        let e = &entries[i];
        if e.is_file && is_video_name(e.name.as_str()) {
            insert_name(&mut r, owned(e.name.as_str()));
        }
    }
    assert(entries@.take(entries@.len() as int) == entries@);
    r
}

/// The audio tracks of a folder: the files among its entries with an audio
/// extension, in order of name.
pub fn list_audio_in_dir(entries: &Vec<DirEntry>) -> (r: Vec<String>)
    ensures
        in_order(texts(r@)),
        texts(r@).to_multiset() == files_named_in(entries@, AUDIO_EXTENSIONS@).to_multiset(),
{
    broadcast use vstd::seq_lib::group_to_multiset_ensures;

    let mut r: Vec<String> = Vec::new();
    assert(texts(r@) =~= files_named_in(entries@.take(0), AUDIO_EXTENSIONS@));
    for i in 0..entries.len()
        invariant
            in_order(texts(r@)),
            texts(r@).to_multiset() == files_named_in(
                entries@.take(i as int),
                AUDIO_EXTENSIONS@,
            ).to_multiset(),
    {
        broadcast use vstd::seq_lib::group_to_multiset_ensures;

        assert(entries@.take(i + 1).drop_last() == entries@.take(i as int));
        let e = &entries[i];
        if e.is_file && is_audio_name(e.name.as_str()) {
            insert_name(&mut r, owned(e.name.as_str()));
        }
    }
    assert(entries@.take(entries@.len() as int) == entries@);
    r
}

/// Whether an entry is a file that is named as a video.
pub open spec fn is_video_entry(e: DirEntry) -> bool {
    e.is_file && named_in(e.name@, VIDEO_EXTENSIONS@)
}

/// The positions of the videos among the entries of a folder, in order.
pub open spec fn video_positions(entries: Seq<DirEntry>) -> Seq<int>
    decreases entries.len(),
{
    if entries.len() == 0 {
        Seq::empty()
    } else {
        let rest = video_positions(entries.drop_last());
        if is_video_entry(entries.last()) {
            rest.push(entries.len() - 1)
        } else {
            rest
        }
    }
}

/// The positions of the videos among the entries of a folder, in the order in
/// which they are tried when the program starts.
pub fn auto_load_order(entries: &Vec<DirEntry>) -> (r: Vec<usize>)
    ensures
        r@.map_values(|i: usize| i as int) == video_positions(entries@),
{
    let mut r: Vec<usize> = Vec::new();
    assert(r@.map_values(|i: usize| i as int) =~= video_positions(entries@.take(0)));
    for i in 0..entries.len()
        invariant
            r@.map_values(|i: usize| i as int) == video_positions(entries@.take(i as int)),
    {
        let ghost before = r@;
        assert(entries@.take(i + 1).drop_last() == entries@.take(i as int));
        let e = &entries[i];
        if e.is_file && is_video_name(e.name.as_str()) {
            r.push(i);
            assert(r@.map_values(|i: usize| i as int) =~= before.map_values(
                |i: usize| i as int,
            ).push(i as int));
        }
    }
    assert(entries@.take(entries@.len() as int) == entries@);
    r
}

/// The automatic loading of a video when the program starts: the videos of a
/// folder are tried one by one until one loads.
pub struct AutoLoad {
    order: Vec<usize>,
    at: usize,
}

/// The content of an automatic loading: the positions of the videos, and how
/// many of them have been handed out.
#[verifier::ext_equal]
pub struct AutoLoadView {
    pub order: Seq<int>,
    pub at: nat,
}

impl View for AutoLoad {
    type V = AutoLoadView;

    closed spec fn view(&self) -> AutoLoadView {
        AutoLoadView { order: self.order@.map_values(|i: usize| i as int), at: self.at as nat }
    }
}

impl AutoLoadView {
    /// The loading before its first video.
    pub open spec fn of(entries: Seq<DirEntry>) -> AutoLoadView {
        AutoLoadView { order: video_positions(entries), at: 0 }
    }

    /// The position to try next, where the video handed out last has `loaded`
    /// or not.
    pub open spec fn reply(self, loaded: bool) -> Option<int> {
        if loaded || self.at >= self.order.len() {
            None
        } else {
            Some(self.order[self.at as int])
        }
    }

    /// The loading after that reply; a video that has loaded ends it.
    pub open spec fn next(self, loaded: bool) -> AutoLoadView {
        if loaded {
            AutoLoadView { at: self.order.len(), ..self }
        } else if self.at < self.order.len() {
            AutoLoadView { at: self.at + 1, ..self }
        } else {
            self
        }
    }

    /// The positions that are tried from here on, where `loads` says which
    /// videos load.
    pub open spec fn tried(self, loaded: bool, loads: spec_fn(int) -> bool) -> Seq<int>
        decreases self.order.len() - self.at,
    {
        match self.reply(loaded) {
            Some(i) => seq![i] + self.next(loaded).tried(loads(i), loads),
            None => Seq::empty(),
        }
    }
}

impl AutoLoad {
    #[verifier::type_invariant]
    spec fn wf(&self) -> bool {
        self.at <= self.order@.len()
    }

    /// An automatic loading from a folder with these entries.
    pub fn new(entries: &Vec<DirEntry>) -> (r: AutoLoad)
        ensures
            r@ == AutoLoadView::of(entries@),
    {
        AutoLoad { order: auto_load_order(entries), at: 0 }
    }

    /// The position of the video to try next: `loaded` says whether the one
    /// handed out last has loaded, and is `false` at first.
    pub fn next(&mut self, loaded: bool) -> (r: Option<usize>)
        ensures
            match r {
                Some(i) => old(self)@.reply(loaded) == Some(i as int),
                None => old(self)@.reply(loaded) is None,
            },
            final(self)@ == old(self)@.next(loaded),
    {
        proof {
            use_type_invariant(&*self);
        }
        if loaded {
            self.at = self.order.len();
            None
        } else if self.at < self.order.len() {
            let i: usize = self.order[self.at];
            self.at = self.at + 1;
            Some(i)
        } else {
            None
        }
    }
}

/// The position that is opened, of those that were tried: the last one, if it
/// loads.
pub open spec fn opened(tried: Seq<int>, loads: spec_fn(int) -> bool) -> Option<int> {
    if tried.len() > 0 && loads(tried.last()) {
        Some(tried.last())
    } else {
        None
    }
}

/// The positions of the videos are those of the videos, each once and in order.
pub proof fn positions_are_videos(entries: Seq<DirEntry>)
    ensures
        forall|k: int|
            0 <= k < video_positions(entries).len() ==> 0 <= #[trigger] video_positions(entries)[k]
                < entries.len() && is_video_entry(entries[video_positions(entries)[k]]),
        forall|j: int, k: int|
            0 <= j < k < video_positions(entries).len() ==> #[trigger] video_positions(entries)[j]
                < #[trigger] video_positions(entries)[k],
        forall|i: int|
            0 <= i < entries.len() && is_video_entry(#[trigger] entries[i]) ==> video_positions(
                entries,
            ).contains(i),
    decreases entries.len(),
{
    if entries.len() > 0 {
        let front = entries.drop_last();
        let rest = video_positions(front);
        let all = video_positions(entries);
        positions_are_videos(front);
        assert forall|k: int| 0 <= k < all.len() implies 0 <= #[trigger] all[k] < entries.len()
            && is_video_entry(entries[all[k]]) by {
            if k < rest.len() {
                assert(all[k] == rest[k]);
                assert(front[rest[k]] == entries[rest[k]]);
            }
        }
        assert forall|i: int|
            0 <= i < entries.len() && is_video_entry(#[trigger] entries[i]) implies all.contains(
            i,
        ) by {
            if i < front.len() {
                assert(front[i] == entries[i]);
                let k = choose|k: int| 0 <= k < rest.len() && rest[k] == i;
                assert(all[k] == i);
            } else {
                assert(all.last() == i);
            }
        }
    }
}

/// The tried positions are those from here up to the first that loads.
proof fn tried_in_order(search: AutoLoadView, loads: spec_fn(int) -> bool)
    requires
        search.at <= search.order.len(),
    ensures
        ({
            let t = search.tried(false, loads);
            let rest = search.order.skip(search.at as int);
            &&& t.len() <= rest.len()
            &&& t == rest.take(t.len() as int)
            &&& forall|k: int| 0 <= k < t.len() - 1 ==> !loads(#[trigger] t[k])
            &&& t.len() < rest.len() ==> t.len() > 0 && loads(t.last())
        }),
    decreases search.order.len() - search.at,
{
    let t = search.tried(false, loads);
    let rest = search.order.skip(search.at as int);
    if search.at < search.order.len() {
        let i = search.order[search.at as int];
        let after = search.next(false);
        let u = after.tried(loads(i), loads);
        assert(t == seq![i] + u);
        if loads(i) {
            assert(u.len() == 0);
            assert(t =~= rest.take(1));
        } else {
            tried_in_order(after, loads);
            assert(after.order.skip(after.at as int) =~= rest.skip(1));
            assert(t =~= rest.take(t.len() as int));
            assert forall|k: int| 0 <= k < t.len() - 1 implies !loads(#[trigger] t[k]) by {
                if k > 0 {
                    assert(t[k] == u[k - 1]);
                }
            }
            if t.len() < rest.len() {
                assert(t.last() == u.last());
            }
        }
    } else {
        assert(t =~= rest.take(0));
    }
}

/// Of the videos of a folder the first that loads is opened, and none behind it
/// is tried; where none loads, each is tried and none is opened.
pub proof fn first_video_that_loads_is_opened(
    entries: Seq<DirEntry>,
    loads: spec_fn(int) -> bool,
)
    ensures
        ({
            let t = AutoLoadView::of(entries).tried(false, loads);
            match opened(t, loads) {
                Some(i) => {
                    &&& 0 <= i < entries.len() && is_video_entry(entries[i]) && loads(i)
                    &&& forall|j: int|
                        0 <= j < i && is_video_entry(#[trigger] entries[j]) ==> !loads(j)
                            && t.contains(j)
                    &&& forall|j: int| #[trigger] t.contains(j) ==> j <= i
                },
                None => forall|j: int|
                    0 <= j < entries.len() && is_video_entry(#[trigger] entries[j]) ==> !loads(j)
                        && t.contains(j),
            }
        }),
{
    let search = AutoLoadView::of(entries);
    let all = search.order;
    let t = search.tried(false, loads);
    positions_are_videos(entries);
    tried_in_order(search, loads);
    assert(all.skip(0) =~= all);
    assert(t == all.take(t.len() as int));
    assert forall|k: int| 0 <= k < t.len() implies #[trigger] t[k] == all[k] by {}
    match opened(t, loads) {
        Some(i) => {
            let last = t.len() - 1;
            assert(t[last] == all[last]);
            assert forall|j: int|
                0 <= j < i && is_video_entry(#[trigger] entries[j]) implies !loads(j)
                && t.contains(j) by {
                let k = choose|k: int| 0 <= k < all.len() && all[k] == j;
                assert(k < last);
                assert(t[k] == j);
            }
            assert forall|j: int| #[trigger] t.contains(j) implies j <= i by {
                let k = choose|k: int| 0 <= k < t.len() && t[k] == j;
                assert(all[k] == j);
            }
        },
        None => {
            assert forall|j: int|
                0 <= j < entries.len() && is_video_entry(#[trigger] entries[j]) implies !loads(j)
                && t.contains(j) by {
                let k = choose|k: int| 0 <= k < all.len() && all[k] == j;
                assert(t.len() == all.len());
                assert(t[k] == j);
            }
        },
    }
}

/// Whether an entry is named as an mp4 and its time of modification is known.
pub open spec fn dated_mp4(e: DirEntry) -> bool {
    extension_of(e.name@) is Some && lower(extension_of(e.name@)->0) == "mp4"@ && e.modified is Some
}

/// The position of the newest mp4 among the entries of a folder; the first of
/// those that share the newest time.
pub fn latest_mp4_in(entries: &Vec<DirEntry>) -> (r: Option<usize>)
    ensures
        match r {
            Some(i) => {
                &&& i < entries@.len()
                &&& dated_mp4(entries@[i as int])
                &&& forall|j: int|
                    0 <= j < entries@.len() && dated_mp4(#[trigger] entries@[j]) ==> {
                        &&& entries@[j].modified->0 <= entries@[i as int].modified->0
                        &&& j < i ==> entries@[j].modified->0 < entries@[i as int].modified->0
                    }
            },
            None => forall|j: int|
                0 <= j < entries@.len() ==> !dated_mp4(#[trigger] entries@[j]),
        },
{
    let mut best: Option<(i128, usize)> = None;
    for i in 0..entries.len()
        invariant
            match best {
                Some((t, b)) => {
                    &&& b < i
                    &&& dated_mp4(entries@[b as int])
                    &&& entries@[b as int].modified == Some(t)
                    &&& forall|j: int|
                        0 <= j < i && dated_mp4(#[trigger] entries@[j]) ==> {
                            &&& entries@[j].modified->0 <= t
                            &&& j < b ==> entries@[j].modified->0 < t
                        }
                },
                None => forall|j: int| 0 <= j < i ==> !dated_mp4(#[trigger] entries@[j]),
            },
    {
        let e = &entries[i];
        let is_mp4 = match extension(e.name.as_str()) {
            Some(x) => same_text(lower_text(x.as_str()).as_str(), "mp4"),
            None => false,
        };
        if is_mp4 {
            if let Some(t) = e.modified {
                let newer = match best {
                    Some((u, _)) => t > u,
                    None => true,
                };
                if newer {
                    best = Some((t, i));
                }
            }
        }
    }
    match best {
        Some((_, b)) => Some(b),
        None => None,
    }
}

/// A folder listing holds each accepted file once for each entry of its name,
/// and nothing else.
pub proof fn listing_holds_the_files(names: Seq<Seq<char>>, entries: Seq<DirEntry>, list: Seq<&str>)
    requires
        names.to_multiset() == files_named_in(entries, list).to_multiset(),
    ensures
        forall|n: Seq<char>| #[trigger]
            names.contains(n) <==> exists|i: int|
                0 <= i < entries.len() && (#[trigger] entries[i]).is_file && entries[i].name@ == n
                    && named_in(n, list),
{
    broadcast use vstd::seq_lib::group_to_multiset_ensures;

    assert forall|n: Seq<char>| #[trigger] names.contains(n) <==> exists|i: int|
        0 <= i < entries.len() && (#[trigger] entries[i]).is_file && entries[i].name@ == n
            && named_in(n, list) by {
        assert(names.contains(n) <==> names.to_multiset().count(n) > 0);
        assert(files_named_in(entries, list).contains(n) <==> files_named_in(
            entries,
            list,
        ).to_multiset().count(n) > 0);
        files_named_in_members(entries, list, n);
    }
}

proof fn files_named_in_members(entries: Seq<DirEntry>, list: Seq<&str>, n: Seq<char>)
    ensures
        files_named_in(entries, list).contains(n) <==> exists|i: int|
            0 <= i < entries.len() && (#[trigger] entries[i]).is_file && entries[i].name@ == n
                && named_in(n, list),
    decreases entries.len(),
{
    if entries.len() > 0 {
        let front = entries.drop_last();
        let rest = files_named_in(front, list);
        let all = files_named_in(entries, list);
        let e = entries.last();
        files_named_in_members(front, list, n);
        if all.contains(n) {
            let k = choose|k: int| 0 <= k < all.len() && all[k] == n;
            if k < rest.len() {
                assert(rest[k] == n);
                assert(rest.contains(n));
                let i = choose|i: int|
                    0 <= i < front.len() && (#[trigger] front[i]).is_file && front[i].name@ == n
                        && named_in(n, list);
                assert(entries[i] == front[i]);
            } else {
                assert(entries[entries.len() - 1] == e);
            }
        }
        if exists|i: int|
            0 <= i < entries.len() && (#[trigger] entries[i]).is_file && entries[i].name@ == n
                && named_in(n, list) {
            let i = choose|i: int|
                0 <= i < entries.len() && (#[trigger] entries[i]).is_file && entries[i].name@ == n
                    && named_in(n, list);
            if i < front.len() {
                assert(front[i] == entries[i]);
                assert(rest.contains(n));
                let k = choose|k: int| 0 <= k < rest.len() && rest[k] == n;
                assert(all[k] == n);
            } else {
                assert(all[all.len() - 1] == n);
            }
        }
    } else {
        assert(files_named_in(entries, list).len() == 0);
    }
}

} // verus!

//! Where ffmpeg and ffprobe are: the folders that may hold the kit, and the
//! search for each tool in them.
use crate::paths::{
    behind_drive, components, double_root, has_drive, slash_path, verbatim_prefix,
};
use crate::scan::starts_with;
use crate::text::{lower_char, opt_text, owned, push_text, replaced, texts};
use vstd::prelude::*;
use vstd::string::*;

verus! {

/// Names a file to be used as ffmpeg.
pub const FFMPEG_VARIABLE: &'static str = "VCC_FFMPEG";

/// Names a file to be used as ffprobe.
pub const FFPROBE_VARIABLE: &'static str = "VCC_FFPROBE";

/// Names a folder that holds the kit.
pub const FOLDER_VARIABLE: &'static str = "VCC_FFMPEG_DIR";

/// The folder of the kit in a project.
pub const KIT_FOLDER: &'static str = "engine";

/// How many folders above the running program are looked at.
pub const LEVELS_UP: usize = 3;

// ---------------------------------------------------------------------------
// Places
// ---------------------------------------------------------------------------

/// A place on disk: a path as it is, or a name in a folder.
#[derive(Debug)]
pub enum Place {
    At(String),
    In { folder: String, name: String },
}

/// The content of a place.
pub enum PlaceView {
    At(Seq<char>),
    In { folder: Seq<char>, name: Seq<char> },
}

impl View for Place {
    type V = PlaceView;

    open spec fn view(&self) -> PlaceView {
        match *self {
            Place::At(p) => PlaceView::At(p@),
            Place::In { folder, name } => PlaceView::In { folder: folder@, name: name@ },
        }
    }
}

/// The contents of a list of places.
pub open spec fn place_views(v: Seq<Place>) -> Seq<PlaceView> {
    v.map_values(|p: Place| p@)
}

/// Appends a path to a list of places.
fn push_at(v: &mut Vec<Place>, path: &str)
    ensures
        place_views(final(v)@) == place_views(old(v)@).push(PlaceView::At(path@)),
{
    v.push(Place::At(owned(path)));
    assert(place_views(v@) =~= place_views(old(v)@).push(PlaceView::At(path@)));
}

/// Appends a name in a folder to a list of places.
fn push_in(v: &mut Vec<Place>, folder: &str, name: &str)
    ensures
        place_views(final(v)@) == place_views(old(v)@).push(
            PlaceView::In { folder: folder@, name: name@ },
        ),
{
    v.push(Place::In { folder: owned(folder), name: owned(name) });
    assert(place_views(v@) =~= place_views(old(v)@).push(
        PlaceView::In { folder: folder@, name: name@ },
    ));
}

/// A copy of a place.
fn copy_place(p: &Place) -> (r: Place)
    ensures
        r@ == p@,
{
    match p {
        Place::At(s) => Place::At(owned(s.as_str())),
        Place::In { folder, name } => Place::In {
            folder: owned(folder.as_str()),
            name: owned(name.as_str()),
        },
    }
}

// ---------------------------------------------------------------------------
// Folders
// ---------------------------------------------------------------------------

/// The kit folders of a list of roots, in order.
pub open spec fn kits_of(roots: Seq<Seq<char>>) -> Seq<PlaceView> {
    roots.map_values(|r: Seq<char>| PlaceView::In { folder: r, name: KIT_FOLDER@ })
}

/// The roots themselves as places, in order.
pub open spec fn plain_roots(roots: Seq<Seq<char>>) -> Seq<PlaceView> {
    roots.map_values(|r: Seq<char>| PlaceView::At(r))
}

/// The roots that are looked at: the working folder, then the nearest folders
/// above the running program.
pub open spec fn search_roots(cwd: Option<Seq<char>>, above: Seq<Seq<char>>) -> Seq<Seq<char>> {
    let near = if above.len() > LEVELS_UP {
        above.take(LEVELS_UP as int)
    } else {
        above
    };
    match cwd {
        Some(c) => seq![c] + near,
        None => near,
    }
}

/// The places that may be folders of the kit, in the order of preference: the
/// named folder, then the kit folder of every root, then the roots themselves.
pub open spec fn folder_places(
    named: Option<Seq<char>>,
    cwd: Option<Seq<char>>,
    above: Seq<Seq<char>>,
) -> Seq<PlaceView> {
    let roots = search_roots(cwd, above);
    let first = match named {
        Some(dir) => seq![PlaceView::At(dir)],
        None => Seq::empty(),
    };
    first + kits_of(roots) + plain_roots(roots)
}

/// Lists the places that may be folders of the kit: `named` is the folder that
/// the environment names, `cwd` the working folder, and `above` the folders
/// above the running program, the nearest first.
pub fn candidate_dirs(named: &Option<String>, cwd: &Option<String>, above: &Vec<String>) -> (r: Vec<
    Place,
>)
    ensures
        place_views(r@) == folder_places(opt_text(*named), opt_text(*cwd), texts(above@)),
{
    let mut roots: Vec<String> = Vec::new();
    if let Some(c) = cwd {
        push_text(&mut roots, c.as_str());
    }
    let ghost first = texts(roots@);
    let near: usize = if above.len() > LEVELS_UP { LEVELS_UP } else { above.len() };
    for i in 0..near
        invariant
            near <= above@.len(),
            texts(roots@) == first + texts(above@).take(i as int),
    {
        push_text(&mut roots, above[i].as_str());
        assert(texts(above@).take(i + 1) =~= texts(above@).take(i as int).push(above@[i as int]@));
    }
    assert(texts(roots@) =~= search_roots(opt_text(*cwd), texts(above@)));
    let mut r: Vec<Place> = Vec::new();
    if let Some(dir) = named {
        push_at(&mut r, dir.as_str());
    }
    let ghost head = place_views(r@);
    let ghost all = texts(roots@);
    for i in 0..roots.len()
        invariant
            all == texts(roots@),
            place_views(r@) == head + kits_of(all).take(i as int),
    {
        push_in(&mut r, roots[i].as_str(), KIT_FOLDER);
        assert(all[i as int] == roots@[i as int]@);
        assert(place_views(r@) =~= head + kits_of(all).take(i + 1));
    }
    let ghost middle = place_views(r@);
    assert(middle =~= head + kits_of(all));
    for i in 0..roots.len()
        invariant
            all == texts(roots@),
            place_views(r@) == middle + plain_roots(all).take(i as int),
    {
        push_at(&mut r, roots[i].as_str());
        assert(all[i as int] == roots@[i as int]@);
        assert(place_views(r@) =~= middle + plain_roots(all).take(i + 1));
    }
    assert(place_views(r@) =~= folder_places(opt_text(*named), opt_text(*cwd), texts(above@)));
    r
}

/// Whether a slash path begins at the root of the file system.
pub open spec fn is_rooted(path: Seq<char>) -> bool {
    path.len() > 0 && path[0] == '/'
}

/// Whether a slash path begins with a dot as its first component.
pub open spec fn is_dotted(path: Seq<char>) -> bool {
    path.len() > 0 && path[0] == '.' && (path.len() == 1 || path[1] == '/')
}

/// Whether two slash paths are the same: doubled and closing slashes and inner
/// dots do not count.
pub open spec fn same_slash_path(a: Seq<char>, b: Seq<char>) -> bool {
    is_rooted(a) == is_rooted(b) && is_dotted(a) == is_dotted(b) && components(a) == components(b)
}

/// The drive that a path begins with, in lower case.
pub open spec fn drive(path: Seq<char>) -> Option<char> {
    if has_drive(path) {
        Some(lower_char(path[0]))
    } else {
        None
    }
}

/// Whether two paths are the same on a platform with drives and backslashes: the
/// case of a drive does not count, and backslashes are as good as slashes.
pub open spec fn same_drive_path(a: Seq<char>, b: Seq<char>) -> bool {
    &&& drive(a) == drive(b)
    &&& same_slash_path(
        replaced(behind_drive(a), '\\', '/'),
        replaced(behind_drive(b), '\\', '/'),
    )
}

/// Where the letter of a drive may stand in a path: at its beginning, or behind
/// the verbatim prefix.
pub open spec fn drive_at(path: Seq<char>) -> Option<int> {
    if path.len() >= 2 && path[1] == ':' {
        Some(0)
    } else if path.len() >= 6 && starts_with(path, verbatim_prefix()) && path[5] == ':' {
        Some(4)
    } else {
        None
    }
}

/// What a path holds beside separators, dots and the case of its drive.
pub open spec fn letters(path: Seq<char>) -> Seq<char> {
    let folded = match drive_at(path) {
        Some(i) => path.update(i, lower_char(path[i])),
        None => path,
    };
    folded.filter(|c: char| c != '/' && c != '\\' && c != '.')
}

/// What a platform may say to the question whether two paths are equal.
///
/// Equal texts are equal paths. Equal paths differ in separators, dots and the
/// case of a drive at most. Slash paths are equal where their components are.
/// Unless one of them begins with two slashes, there are two readings: that of a
/// platform where the slash alone parts names, and that of a platform with
/// drives and backslashes.
pub open spec fn may_be_same(a: Seq<char>, b: Seq<char>, r: bool) -> bool {
    &&& a == b ==> r
    &&& r ==> letters(a) == letters(b)
    &&& slash_path(a) && slash_path(b) ==> r == same_slash_path(a, b)
    &&& !double_root(a) && !double_root(b) ==> r == same_slash_path(a, b) || r == same_drive_path(
        a,
        b,
    )
}

/// Whether two paths are equal, by `==` on `std::path::Path`, which compares
/// components: equal texts are equal paths, and equal paths differ in
/// separators, dots and the case of a drive at most. The contract says what
/// either reading of two paths gives, as far as neither begins with two slashes.
/// Which reading applies is the platform's matter, and of different texts that
/// begin with two slashes no more is said.
#[verifier::external_body]
pub(crate) fn same_path(a: &str, b: &str) -> (r: bool)
    ensures
        may_be_same(a@, b@, r),
{
    std::path::Path::new(a) == std::path::Path::new(b)
}

/// Whether two paths are the same by either reading.
pub open spec fn same_either_way(a: Seq<char>, b: Seq<char>) -> bool {
    !double_root(a) && !double_root(b) && same_slash_path(a, b) && same_drive_path(a, b)
}

/// Whether two paths are different by either reading.
pub open spec fn different_either_way(a: Seq<char>, b: Seq<char>) -> bool {
    !double_root(a) && !double_root(b) && !same_slash_path(a, b) && !same_drive_path(a, b)
}

/// A list of folders after another one is to be added: `same` says which of the
/// list are equal to it.
pub open spec fn with_folder(
    dirs: Seq<Seq<char>>,
    path: Seq<char>,
    is_dir: bool,
    same: Seq<bool>,
) -> Seq<Seq<char>> {
    if is_dir && !same.contains(true) {
        dirs.push(path)
    } else {
        dirs
    }
}

/// Whether `same` is what a platform may say of a path and each of a list.
pub open spec fn compared(dirs: Seq<Seq<char>>, path: Seq<char>, same: Seq<bool>) -> bool {
    &&& same.len() == dirs.len()
    &&& forall|i: int| 0 <= i < dirs.len() ==> may_be_same(dirs[i], path, #[trigger] same[i])
}

/// Adds a folder to a list, where it is a folder; `same` says which of the list
/// are equal to it, and it is added where none is.
pub fn push_new(dirs: &mut Vec<String>, path: &str, is_dir: bool, same: &Vec<bool>)
    ensures
        texts(final(dirs)@) == with_folder(texts(old(dirs)@), path@, is_dir, same@),
{
    if !is_dir {
        return;
    }
    for i in 0..same.len()
        invariant
            dirs@ == old(dirs)@,
            is_dir,
            forall|j: int| 0 <= j < i ==> !same@[j],
    {
        if same[i] {
            assert(same@.contains(true));
            return;
        }
    }
    push_text(dirs, path);
}

/// Adds a folder to a list, where it is a folder and not in the list yet. Which
/// folders of the list it is equal to is for the platform to say, by one of two
/// readings; one that differs from all of them in more than separators, dots and
/// the case of a drive is added.
pub fn push_unique(dirs: &mut Vec<String>, path: &str, is_dir: bool)
    ensures
        exists|same: Seq<bool>|
            #[trigger] compared(texts(old(dirs)@), path@, same) && texts(final(dirs)@)
                == with_folder(texts(old(dirs)@), path@, is_dir, same),
        is_dir && (forall|i: int|
            0 <= i < old(dirs)@.len() ==> letters((#[trigger] old(dirs)@[i])@) != letters(path@))
            ==> texts(final(dirs)@) == texts(old(dirs)@).push(path@),
        !is_dir || texts(old(dirs)@).contains(path@) ==> texts(final(dirs)@) == texts(old(dirs)@),
        (exists|i: int|
            0 <= i < old(dirs)@.len() && same_either_way((#[trigger] old(dirs)@[i])@, path@))
            ==> texts(final(dirs)@) == texts(old(dirs)@),
        is_dir && (forall|i: int|
            0 <= i < old(dirs)@.len() ==> different_either_way(
                (#[trigger] old(dirs)@[i])@,
                path@,
            )) ==> texts(final(dirs)@) == texts(old(dirs)@).push(path@),
        is_dir && slash_path(path@) && (forall|i: int|
            0 <= i < old(dirs)@.len() ==> slash_path((#[trigger] old(dirs)@[i])@)) ==> texts(
            final(dirs)@,
        ) == if exists|i: int|
            0 <= i < old(dirs)@.len() && same_slash_path((#[trigger] old(dirs)@[i])@, path@) {
            texts(old(dirs)@)
        } else {
            texts(old(dirs)@).push(path@)
        },
{
    let ghost all = texts(dirs@);
    let mut same: Vec<bool> = Vec::new();
    for i in 0..dirs.len()
        invariant
            dirs@ == old(dirs)@,
            all == texts(dirs@),
            same@.len() == i,
            forall|j: int| 0 <= j < i ==> may_be_same(all[j], path@, #[trigger] same@[j]),
    {
        assert(all[i as int] == dirs@[i as int]@);
        same.push(same_path(dirs[i].as_str(), path));
    }
    assert(compared(all, path@, same@));
    proof {
        assert forall|i: int| 0 <= i < all.len() implies all[i] == #[trigger] dirs@[i]@ by {}
        if all.contains(path@) {
            let i = choose|i: int| 0 <= i < all.len() && all[i] == path@;
            assert(same@[i]);
            assert(same@.contains(true));
        }
        if exists|i: int|
            0 <= i < dirs@.len() && same_slash_path((#[trigger] dirs@[i])@, path@) {
            let i = choose|i: int|
                0 <= i < dirs@.len() && same_slash_path((#[trigger] dirs@[i])@, path@);
            if slash_path(path@) && slash_path(dirs@[i]@) {
                assert(may_be_same(all[i], path@, same@[i]));
                assert(same@.contains(true));
            }
        }
        if exists|i: int|
            0 <= i < dirs@.len() && same_either_way((#[trigger] dirs@[i])@, path@) {
            let i = choose|i: int|
                0 <= i < dirs@.len() && same_either_way((#[trigger] dirs@[i])@, path@);
            assert(may_be_same(all[i], path@, same@[i]));
            assert(same@.contains(true));
        }
        if same@.contains(true) {
            let i = choose|i: int| 0 <= i < same@.len() && same@[i];
            assert(may_be_same(all[i], path@, same@[i]));
            assert(all[i] == dirs@[i]@);
        }
    }
    push_new(dirs, path, is_dir, &same);
}

// ---------------------------------------------------------------------------
// Tools
// ---------------------------------------------------------------------------

/// What to do next in the search for a tool: test whether a place is a file, or
/// use it.
#[derive(Debug)]
pub enum ToolStep {
    Test(Place),
    Use(Place),
}

/// The content of a step.
pub enum ToolStepView {
    Test(PlaceView),
    Use(PlaceView),
}

impl View for ToolStep {
    type V = ToolStepView;

    open spec fn view(&self) -> ToolStepView {
        match *self {
            ToolStep::Test(p) => ToolStepView::Test(p@),
            ToolStep::Use(p) => ToolStepView::Use(p@),
        }
    }
}

/// A search for a tool: places that may hold it, and a name of last resort that
/// is left to the system to find.
pub struct ToolSearch {
    places: Vec<Place>,
    bare: String,
    at: usize,
}

/// The content of a search.
#[verifier::ext_equal]
pub struct ToolSearchView {
    pub places: Seq<PlaceView>,
    pub bare: Seq<char>,
    pub at: nat,
}

impl View for ToolSearch {
    type V = ToolSearchView;

    closed spec fn view(&self) -> ToolSearchView {
        ToolSearchView { places: place_views(self.places@), bare: self.bare@, at: self.at as nat }
    }
}

impl ToolSearchView {
    /// The search is at one of its places or past the last one.
    pub open spec fn wf(self) -> bool {
        self.at <= self.places.len()
    }

    /// What to do at the place that the search is at.
    pub open spec fn step(self) -> ToolStepView {
        if self.at < self.places.len() {
            ToolStepView::Test(self.places[self.at as int])
        } else {
            ToolStepView::Use(PlaceView::At(self.bare))
        }
    }

    /// The search one place further.
    pub open spec fn next(self) -> ToolSearchView {
        ToolSearchView { at: self.at + 1, ..self }
    }

    /// What to do after the answer whether the place is a file.
    pub open spec fn after(self, is_file: bool) -> ToolStepView {
        if self.at >= self.places.len() {
            self.step()
        } else if is_file {
            ToolStepView::Use(self.places[self.at as int])
        } else {
            self.next().step()
        }
    }
}

impl ToolSearch {
    /// What to do first.
    pub fn step(&self) -> (r: ToolStep)
        ensures
            r@ == self@.step(),
    {
        if self.at < self.places.len() {
            assert(place_views(self.places@)[self.at as int] == self.places@[self.at as int]@);
            ToolStep::Test(copy_place(&self.places[self.at]))
        } else {
            ToolStep::Use(Place::At(owned(self.bare.as_str())))
        }
    }

    /// Takes the answer whether the tested place is a file and says what to do
    /// next.
    pub fn answer(&mut self, is_file: bool) -> (r: ToolStep)
        requires
            old(self)@.wf(),
        ensures
            r@ == old(self)@.after(is_file),
            final(self)@ == if !is_file && old(self)@.at < old(self)@.places.len() {
                old(self)@.next()
            } else {
                old(self)@
            },
            final(self)@.wf(),
    {
        if self.at >= self.places.len() {
            return self.step();
        }
        if is_file {
            assert(place_views(self.places@)[self.at as int] == self.places@[self.at as int]@);
            return ToolStep::Use(copy_place(&self.places[self.at]));
        }
        self.at = self.at + 1;
        self.step()
    }
}

/// The places of a tool in a list of folders: in each folder first under its
/// Windows name, then under its plain name.
pub open spec fn places_in(dirs: Seq<Seq<char>>, exe: Seq<char>, plain: Seq<char>) -> Seq<PlaceView>
    decreases dirs.len(),
{
    if dirs.len() == 0 {
        Seq::empty()
    } else {
        places_in(dirs.drop_last(), exe, plain).push(
            PlaceView::In { folder: dirs.last(), name: exe },
        ).push(PlaceView::In { folder: dirs.last(), name: plain })
    }
}

/// All places of a tool: the named file first, then those in the folders.
pub open spec fn tool_places(
    named: Option<Seq<char>>,
    dirs: Seq<Seq<char>>,
    exe: Seq<char>,
    plain: Seq<char>,
) -> Seq<PlaceView> {
    match named {
        Some(p) => seq![PlaceView::At(p)] + places_in(dirs, exe, plain),
        None => places_in(dirs, exe, plain),
    }
}

/// Lists the places of a tool.
fn list_places(named: &Option<String>, dirs: &Vec<String>, exe: &str, plain: &str) -> (r: Vec<
    Place,
>)
    ensures
        place_views(r@) == tool_places(opt_text(*named), texts(dirs@), exe@, plain@),
{
    let mut r: Vec<Place> = Vec::new();
    if let Some(p) = named {
        push_at(&mut r, p.as_str());
    }
    let ghost head = place_views(r@);
    let ghost all = texts(dirs@);
    assert(head =~= head + places_in(all.take(0), exe@, plain@));
    for i in 0..dirs.len()
        invariant
            all == texts(dirs@),
            place_views(r@) == head + places_in(all.take(i as int), exe@, plain@),
    {
        push_in(&mut r, dirs[i].as_str(), exe);
        push_in(&mut r, dirs[i].as_str(), plain);
        assert(all.take(i + 1).drop_last() =~= all.take(i as int));
        assert(all[i as int] == dirs@[i as int]@);
        assert(place_views(r@) =~= head + places_in(all.take(i + 1), exe@, plain@));
    }
    assert(all.take(dirs@.len() as int) =~= all);
    assert(place_views(r@) =~= tool_places(opt_text(*named), texts(dirs@), exe@, plain@));
    r
}

/// Begins the search for ffmpeg: the file that the environment names, then the
/// folders of the kit, then the bare name.
pub fn ffmpeg_exe(named: &Option<String>, dirs: &Vec<String>) -> (s: ToolSearch)
    ensures
        s@ == (ToolSearchView {
            places: tool_places(opt_text(*named), texts(dirs@), "ffmpeg.exe"@, "ffmpeg"@),
            bare: "ffmpeg"@,
            at: 0,
        }),
        s@.wf(),
{
    ToolSearch {
        places: list_places(named, dirs, "ffmpeg.exe", "ffmpeg"),
        bare: owned("ffmpeg"),
        at: 0,
    }
}

/// The places of ffprobe: those of any tool, and last its Windows name beside
/// ffmpeg.
pub open spec fn ffprobe_places(
    named: Option<Seq<char>>,
    dirs: Seq<Seq<char>>,
    beside: Option<Seq<char>>,
) -> Seq<PlaceView> {
    let places = tool_places(named, dirs, "ffprobe.exe"@, "ffprobe"@);
    match beside {
        Some(folder) => places.push(PlaceView::In { folder, name: "ffprobe.exe"@ }),
        None => places,
    }
}

/// Begins the search for ffprobe: the file that the environment names, then the
/// folders of the kit, then the folder of ffmpeg, then the bare name.
pub fn ffprobe_exe(named: &Option<String>, dirs: &Vec<String>, beside: &Option<String>) -> (s:
    ToolSearch)
    ensures
        s@ == (ToolSearchView {
            places: ffprobe_places(opt_text(*named), texts(dirs@), opt_text(*beside)),
            bare: "ffprobe"@,
            at: 0,
        }),
        s@.wf(),
{
    let mut places = list_places(named, dirs, "ffprobe.exe", "ffprobe");
    if let Some(folder) = beside {
        push_in(&mut places, folder.as_str(), "ffprobe.exe");
    }
    ToolSearch { places, bare: owned("ffprobe"), at: 0 }
}

/// Whether ffmpeg is ready: `ran` is nothing where it could not be run, and
/// otherwise says whether it printed its version with success.
pub fn ffmpeg_ready(ran: Option<bool>) -> (r: bool)
    ensures
        r == (ran == Some(true)),
{
    match ran {
        Some(success) => success,
        None => false,
    }
}

/// Whether media can be worked on: ffmpeg is ready.
pub fn media_ready(ran: Option<bool>) -> (r: bool)
    ensures
        r == (ran == Some(true)),
{
    ffmpeg_ready(ran)
}

// ---------------------------------------------------------------------------
// Laws
// ---------------------------------------------------------------------------

/// Every kit folder is preferred to every root, the working folder to the
/// folders above the program, and the named folder to all of them.
pub proof fn kit_folders_come_first(
    named: Option<Seq<char>>,
    cwd: Option<Seq<char>>,
    above: Seq<Seq<char>>,
    i: int,
    j: int,
)
    requires
        0 <= i < search_roots(cwd, above).len(),
        0 <= j < search_roots(cwd, above).len(),
    ensures
        ({
            let roots = search_roots(cwd, above);
            let places = folder_places(named, cwd, above);
            let first: int = if named is Some { 1 } else { 0 };
            &&& named is Some ==> places[0] == PlaceView::At(named->0)
            &&& places[first + i] == (PlaceView::In { folder: roots[i], name: KIT_FOLDER@ })
            &&& places[first + roots.len() + j] == PlaceView::At(roots[j])
            &&& places.len() == first + 2 * roots.len()
            &&& cwd is Some ==> roots[0] == cwd->0
        }),
{
}

/// A list of folders stays free of repetitions: where the platform tells no two
/// of them to be equal before, it tells none after a folder is added.
pub proof fn folders_stay_different(
    dirs: Seq<Seq<char>>,
    path: Seq<char>,
    is_dir: bool,
    equal: spec_fn(Seq<char>, Seq<char>) -> bool,
)
    requires
        forall|i: int, j: int|
            0 <= i < j < dirs.len() ==> !equal(#[trigger] dirs[i], #[trigger] dirs[j]),
    ensures
        ({
            let same = dirs.map_values(|d: Seq<char>| equal(d, path));
            let after = with_folder(dirs, path, is_dir, same);
            &&& forall|i: int, j: int|
                0 <= i < j < after.len() ==> !equal(#[trigger] after[i], #[trigger] after[j])
            &&& after == if is_dir && !(exists|i: int|
                0 <= i < dirs.len() && equal(#[trigger] dirs[i], path)) {
                dirs.push(path)
            } else {
                dirs
            }
        }),
{
    let same = dirs.map_values(|d: Seq<char>| equal(d, path));
    let after = with_folder(dirs, path, is_dir, same);
    if exists|i: int| 0 <= i < dirs.len() && equal(#[trigger] dirs[i], path) {
        let i = choose|i: int| 0 <= i < dirs.len() && equal(#[trigger] dirs[i], path);
        assert(same[i]);
        assert(same.contains(true));
    } else if same.contains(true) {
        let i = choose|i: int| 0 <= i < same.len() && same[i];
        assert(equal(dirs[i], path));
    }
    if is_dir && !same.contains(true) {
        assert forall|i: int, j: int| 0 <= i < j < after.len() implies !equal(
            #[trigger] after[i],
            #[trigger] after[j],
        ) by {
            if j == dirs.len() {
                assert(!same[i]) by {
                    if same[i] {
                        assert(same.contains(true));
                    }
                }
            }
        }
    }
}

/// The place that a search comes to where `is_file` tells the files.
pub open spec fn resolved(s: ToolSearchView, is_file: spec_fn(PlaceView) -> bool) -> PlaceView
    decreases s.places.len() - s.at,
{
    if s.at >= s.places.len() {
        PlaceView::At(s.bare)
    } else {
        match s.after(is_file(s.places[s.at as int])) {
            ToolStepView::Use(p) => p,
            ToolStepView::Test(_) => resolved(s.next(), is_file),
        }
    }
}

/// A search comes to the first of its places that is a file, and to the bare
/// name where none is.
pub proof fn search_prefers_earlier_places(s: ToolSearchView, is_file: spec_fn(PlaceView) -> bool)
    requires
        s.at == 0,
    ensures
        ({
            let r = resolved(s, is_file);
            ||| exists|i: int|
                0 <= i < s.places.len() && r == #[trigger] s.places[i] && is_file(r) && forall|
                    j: int,
                |
                    0 <= j < i ==> !is_file(#[trigger] s.places[j])
            ||| r == PlaceView::At(s.bare) && forall|j: int|
                0 <= j < s.places.len() ==> !is_file(#[trigger] s.places[j])
        }),
{
    search_goes_on(s, is_file);
}

proof fn search_goes_on(s: ToolSearchView, is_file: spec_fn(PlaceView) -> bool)
    requires
        s.wf(),
        forall|j: int| 0 <= j < s.at ==> !is_file(#[trigger] s.places[j]),
    ensures
        ({
            let r = resolved(s, is_file);
            ||| exists|i: int|
                0 <= i < s.places.len() && r == #[trigger] s.places[i] && is_file(r) && forall|
                    j: int,
                |
                    0 <= j < i ==> !is_file(#[trigger] s.places[j])
            ||| r == PlaceView::At(s.bare) && forall|j: int|
                0 <= j < s.places.len() ==> !is_file(#[trigger] s.places[j])
        }),
    decreases s.places.len() - s.at,
{
    if s.at < s.places.len() && !is_file(s.places[s.at as int]) {
        search_goes_on(s.next(), is_file);
    }
}

/// No place of a search is hard-wired: a tool is looked for where the
/// environment names it, in the given folders, and beside ffmpeg.
pub proof fn tools_are_local(
    named: Option<Seq<char>>,
    dirs: Seq<Seq<char>>,
    beside: Option<Seq<char>>,
    exe: Seq<char>,
    plain: Seq<char>,
)
    ensures
        forall|i: int|
            0 <= i < tool_places(named, dirs, exe, plain).len() ==> match #[trigger] tool_places(
                named,
                dirs,
                exe,
                plain,
            )[i] {
                PlaceView::At(p) => named == Some(p),
                PlaceView::In { folder, name } => dirs.contains(folder) && (name == exe || name
                    == plain),
            },
        forall|i: int|
            0 <= i < ffprobe_places(named, dirs, beside).len() ==> match #[trigger] ffprobe_places(
                named,
                dirs,
                beside,
            )[i] {
                PlaceView::At(p) => named == Some(p),
                PlaceView::In { folder, .. } => dirs.contains(folder) || beside == Some(folder),
            },
{
    places_are_in(dirs, exe, plain);
    places_are_in(dirs, "ffprobe.exe"@, "ffprobe"@);
}

proof fn places_are_in(dirs: Seq<Seq<char>>, exe: Seq<char>, plain: Seq<char>)
    ensures
        forall|i: int|
            0 <= i < places_in(dirs, exe, plain).len() ==> match #[trigger] places_in(
                dirs,
                exe,
                plain,
            )[i] {
                PlaceView::At(_) => false,
                PlaceView::In { folder, name } => dirs.contains(folder) && (name == exe || name
                    == plain),
            },
    decreases dirs.len(),
{
    if dirs.len() > 0 {
        let front = dirs.drop_last();
        places_are_in(front, exe, plain);
        let all = places_in(dirs, exe, plain);
        let less = places_in(front, exe, plain);
        assert forall|i: int| 0 <= i < all.len() implies match #[trigger] all[i] {
            PlaceView::At(_) => false,
            PlaceView::In { folder, name } => dirs.contains(folder) && (name == exe || name
                == plain),
        } by {
            if i < less.len() {
                assert(all[i] == less[i]);
                if let PlaceView::In { folder, .. } = less[i] {
                    let k = choose|k: int| 0 <= k < front.len() && front[k] == folder;
                    assert(dirs[k] == folder);
                }
            } else {
                assert(dirs[dirs.len() - 1] == dirs.last());
            }
        }
    }
}

} // verus!

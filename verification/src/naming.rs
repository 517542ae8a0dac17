//! Names of output files: time stamps, the search for a name that is not taken
//! yet, and the default names of each job.
use crate::paths::{file_name, may_be_file_name, one_reading, slash_file_name, stem, stem_of};
use crate::text::{decimal, decimal_text, digit, join2, join3, opt_text, owned, push_text, texts};
use vstd::prelude::*;
use vstd::string::*;

verus! {

/// The last number that a taken name is given.
pub const LAST_NUMBER: u32 = 9999;

// ---------------------------------------------------------------------------
// Time stamps
// ---------------------------------------------------------------------------

/// The text of a time stamp: the seconds since the epoch, and zero for a clock
/// that stands before it.
pub open spec fn stamp_text(secs: Option<u64>) -> Seq<char> {
    match secs {
        Some(n) => decimal(n as nat),
        None => decimal(0),
    }
}

/// The seconds since the epoch, by `std::time::SystemTime::now`; nothing for a
/// clock that stands before the epoch. Nothing is said of the time itself.
#[verifier::external_body]
pub(crate) fn clock() -> (secs: Option<u64>)
{
    let now = std::time::SystemTime::now();
    now.duration_since(std::time::UNIX_EPOCH).map(|d| d.as_secs()).ok()
}

/// The time stamp of a given time.
pub fn stamp_at(secs: Option<u64>) -> (r: String)
    ensures
        r@ == stamp_text(secs),
{
    match secs {
        Some(n) => decimal_text(n),
        None => decimal_text(0),
    }
}

/// The time stamp of now.
pub fn stamp() -> (r: String)
    ensures
        exists|secs: Option<u64>| r@ == #[trigger] stamp_text(secs),
{
    stamp_at(clock())
}

// ---------------------------------------------------------------------------
// The search for a free name
// ---------------------------------------------------------------------------

/// The `n`th name that is tried: the plain one first, then numbered ones.
pub open spec fn candidate(stem: Seq<char>, ext: Seq<char>, n: nat) -> Seq<char> {
    if n <= 1 {
        stem + ext
    } else {
        stem + "_"@ + decimal(n) + ext
    }
}

/// The name of last resort, which carries a time stamp.
pub open spec fn stamped(stem: Seq<char>, ext: Seq<char>, secs: Option<u64>) -> Seq<char> {
    stem + "_"@ + stamp_text(secs) + ext
}

/// What to do next in a search: test whether a name is taken, or use it.
pub enum NameStep {
    Check(String),
    Take(String),
}

/// The content of a step.
pub enum NameStepView {
    Check(Seq<char>),
    Take(Seq<char>),
}

impl View for NameStep {
    type V = NameStepView;

    open spec fn view(&self) -> NameStepView {
        match *self {
            NameStep::Check(s) => NameStepView::Check(s@),
            NameStep::Take(s) => NameStepView::Take(s@),
        }
    }
}

/// A search for a name that is not taken: `stem` and `ext` with numbers between
/// them.
pub struct NameSearch {
    stem: String,
    ext: String,
    number: u32,
}

/// The content of a search.
#[verifier::ext_equal]
pub struct NameSearchView {
    pub stem: Seq<char>,
    pub ext: Seq<char>,
    pub number: nat,
}

impl View for NameSearch {
    type V = NameSearchView;

    closed spec fn view(&self) -> NameSearchView {
        NameSearchView { stem: self.stem@, ext: self.ext@, number: self.number as nat }
    }
}

impl NameSearchView {
    /// The search is at one of the names that it tries.
    pub open spec fn wf(self) -> bool {
        1 <= self.number <= LAST_NUMBER
    }

    /// The name that the search is at.
    pub open spec fn name(self) -> Seq<char> {
        candidate(self.stem, self.ext, self.number)
    }

    /// The step after the answer whether the name is taken, at the time `secs`.
    pub open spec fn step(self, taken: bool, secs: Option<u64>) -> NameStepView {
        if !taken {
            NameStepView::Take(self.name())
        } else if self.number < LAST_NUMBER {
            NameStepView::Check(self.next().name())
        } else {
            NameStepView::Take(stamped(self.stem, self.ext, secs))
        }
    }

    /// The search one name further.
    pub open spec fn next(self) -> NameSearchView {
        NameSearchView { number: self.number + 1, ..self }
    }
}

/// The search that begins with the plain name.
pub open spec fn search_for(stem: Seq<char>, ext: Seq<char>) -> NameSearchView {
    NameSearchView { stem, ext, number: 1 }
}

/// Begins the search for a free name made of `stem` and `ext`.
pub fn unique_out(stem: &str, ext: &str) -> (s: NameSearch)
    ensures
        s@ == search_for(stem@, ext@),
        s@.wf(),
{
    NameSearch { stem: owned(stem), ext: owned(ext), number: 1 }
}

impl NameSearch {
    /// The name to test now.
    pub fn name(&self) -> (r: String)
        ensures
            r@ == self@.name(),
    {
        if self.number <= 1 {
            join2(self.stem.as_str(), self.ext.as_str())
        } else {
            let head = join3(
                self.stem.as_str(),
                "_",
                decimal_text(self.number as u64).as_str(),
            );
            join2(head.as_str(), self.ext.as_str())
        }
    }

    /// Takes the answer whether the name is taken, at the time `secs`, and
    /// says what to do next.
    pub fn answer_at(&mut self, taken: bool, secs: Option<u64>) -> (r: NameStep)
        requires
            old(self)@.wf(),
        ensures
            r@ == old(self)@.step(taken, secs),
            final(self)@ == if taken && old(self)@.number < LAST_NUMBER {
                old(self)@.next()
            } else {
                old(self)@
            },
            final(self)@.wf(),
    {
        if !taken {
            NameStep::Take(self.name())
        } else if self.number < LAST_NUMBER {
            self.number = self.number + 1;
            NameStep::Check(self.name())
        } else {
            let head = join3(self.stem.as_str(), "_", stamp_at(secs).as_str());
            NameStep::Take(join2(head.as_str(), self.ext.as_str()))
        }
    }

    /// Takes the answer whether the name is taken and says what to do next.
    pub fn answer(&mut self, taken: bool) -> (r: NameStep)
        requires
            old(self)@.wf(),
        ensures
            exists|secs: Option<u64>| r@ == #[trigger] old(self)@.step(taken, secs),
            final(self)@ == if taken && old(self)@.number < LAST_NUMBER {
                old(self)@.next()
            } else {
                old(self)@
            },
            final(self)@.wf(),
    {
        let secs = clock();
        self.answer_at(taken, secs)
    }
}

/// The name that a search comes to where `taken` tells the taken names and the
/// last step is taken at the time `secs`.
pub open spec fn found(
    s: NameSearchView,
    taken: spec_fn(Seq<char>) -> bool,
    secs: Option<u64>,
) -> Seq<char>
    decreases LAST_NUMBER + 1 - s.number,
{
    match s.step(taken(s.name()), secs) {
        NameStepView::Take(name) => name,
        NameStepView::Check(_) => if s.number <= LAST_NUMBER {
            found(s.next(), taken, secs)
        } else {
            s.name()
        },
    }
}

/// A search comes to the first of its names that is not taken, and to the
/// stamped name only where all of them are.
pub proof fn search_finds_the_first_free(
    stem: Seq<char>,
    ext: Seq<char>,
    taken: spec_fn(Seq<char>) -> bool,
    secs: Option<u64>,
)
    ensures
        ({
            let r = found(search_for(stem, ext), taken, secs);
            ||| exists|n: nat|
                1 <= n <= LAST_NUMBER && r == #[trigger] candidate(stem, ext, n) && !taken(r)
                    && forall|m: nat|
                    1 <= m < n ==> taken(#[trigger] candidate(stem, ext, m))
            ||| r == stamped(stem, ext, secs) && forall|m: nat|
                1 <= m <= LAST_NUMBER ==> taken(#[trigger] candidate(stem, ext, m))
        }),
{
    search_from(search_for(stem, ext), taken, secs);
}

proof fn search_from(s: NameSearchView, taken: spec_fn(Seq<char>) -> bool, secs: Option<u64>)
    requires
        s.wf(),
        forall|m: nat| 1 <= m < s.number ==> taken(#[trigger] candidate(s.stem, s.ext, m)),
    ensures
        ({
            let r = found(s, taken, secs);
            ||| exists|n: nat|
                1 <= n <= LAST_NUMBER && r == #[trigger] candidate(s.stem, s.ext, n) && !taken(r)
                    && forall|m: nat|
                    1 <= m < n ==> taken(#[trigger] candidate(s.stem, s.ext, m))
            ||| r == stamped(s.stem, s.ext, secs) && forall|m: nat|
                1 <= m <= LAST_NUMBER ==> taken(#[trigger] candidate(s.stem, s.ext, m))
        }),
    decreases LAST_NUMBER + 1 - s.number,
{
    assert(s.name() == candidate(s.stem, s.ext, s.number));
    if taken(s.name()) && s.number < LAST_NUMBER {
        search_from(s.next(), taken, secs);
    }
}

/// Decimal notation is unambiguous.
pub proof fn decimal_is_injective(a: nat, b: nat)
    requires
        decimal(a) == decimal(b),
    ensures
        a == b,
    decreases a,
{
    if a < 10 && b < 10 {
        assert(decimal(a) == seq![digit(a)] && decimal(b) == seq![digit(b)]);
        assert(decimal(a)[0] == digit(a) && decimal(b)[0] == digit(b));
        digits_differ(a, b);
    } else if a < 10 {
        decimal_length(b / 10);
        assert(decimal(b).len() >= 2);
    } else if b < 10 {
        decimal_length(a / 10);
        assert(decimal(a).len() >= 2);
    } else {
        let x = decimal(a / 10);
        let y = decimal(b / 10);
        assert(decimal(a).drop_last() =~= x && decimal(b).drop_last() =~= y);
        assert(decimal(a).last() == digit(a % 10) && decimal(b).last() == digit(b % 10));
        digits_differ(a % 10, b % 10);
        decimal_is_injective(a / 10, b / 10);
    }
}

proof fn digits_differ(a: nat, b: nat)
    requires
        a < 10,
        b < 10,
        digit(a) == digit(b),
    ensures
        a == b,
{
    let all = seq!['0', '1', '2', '3', '4', '5', '6', '7', '8', '9'];
    assert(forall|i: int| 0 <= i < 10 ==> #[trigger] all[i] as int == 48 + i);
    assert(all[a as int] == all[b as int]);
}

proof fn decimal_length(n: nat)
    ensures
        decimal(n).len() >= 1,
    decreases n,
{
    if n >= 10 {
        decimal_length(n / 10);
    }
}

/// The names that a search tries are all different.
pub proof fn candidates_differ(stem: Seq<char>, ext: Seq<char>, m: nat, n: nat)
    requires
        1 <= m < n,
    ensures
        candidate(stem, ext, m) != candidate(stem, ext, n),
{
    reveal_strlit("_");
    let a = candidate(stem, ext, m);
    let b = candidate(stem, ext, n);
    if a == b {
        decimal_length(n);
        if m == 1 {
            assert(b.len() > a.len());
        } else {
            let k: int = stem.len() as int + 1;
            assert(a.len() == k + decimal(m).len() + ext.len());
            assert(b.len() == k + decimal(n).len() + ext.len());
            assert(decimal(m).len() == decimal(n).len());
            assert(decimal(m) =~= a.subrange(k, k + decimal(m).len()));
            assert(decimal(n) =~= b.subrange(k, k + decimal(n).len()));
            decimal_is_injective(m, n);
        }
    }
}

// ---------------------------------------------------------------------------
// Default output names
// ---------------------------------------------------------------------------

/// The stem of the output of a Concat job at the time `secs`.
pub open spec fn concat_stem(secs: Option<u64>) -> Seq<char> {
    "combined_"@ + stamp_text(secs)
}

/// Begins the search for the output of a Concat job at the time `secs`.
pub fn concat_output_at(secs: Option<u64>) -> (s: NameSearch)
    ensures
        s@ == search_for(concat_stem(secs), ".mp4"@),
        s@.wf(),
{
    let name = join2("combined_", stamp_at(secs).as_str());
    unique_out(name.as_str(), ".mp4")
}

/// Begins the search for the output of a Concat job: `combined_<time>.mp4`.
pub fn default_concat_output() -> (s: NameSearch)
    ensures
        exists|secs: Option<u64>| s@ == search_for(#[trigger] concat_stem(secs), ".mp4"@),
        s@.wf(),
{
    concat_output_at(clock())
}

/// The stem of the output of an Add Audio job at the time `secs`.
pub open spec fn audio_stem(reverse_audio: bool, secs: Option<u64>) -> Seq<char> {
    let tag = if reverse_audio {
        "rev-audio"@
    } else {
        "fwd"@
    };
    "plus-audio-combined_"@ + tag + "_"@ + stamp_text(secs)
}

/// Begins the search for the output of an Add Audio job at the time `secs`.
pub fn audio_output_at(reverse_audio: bool, secs: Option<u64>) -> (s: NameSearch)
    ensures
        s@ == search_for(audio_stem(reverse_audio, secs), ".mp4"@),
        s@.wf(),
{
    let tag = if reverse_audio {
        "rev-audio"
    } else {
        "fwd"
    };
    let head = join3("plus-audio-combined_", tag, "_");
    let name = join2(head.as_str(), stamp_at(secs).as_str());
    unique_out(name.as_str(), ".mp4")
}

/// Begins the search for the output of an Add Audio job:
/// `plus-audio-combined_<tag>_<time>.mp4`.
pub fn default_audio_output(reverse_audio: bool) -> (s: NameSearch)
    ensures
        exists|secs: Option<u64>|
            s@ == search_for(#[trigger] audio_stem(reverse_audio, secs), ".mp4"@),
        s@.wf(),
{
    audio_output_at(reverse_audio, clock())
}

/// A prefix with the stem of a file name, or with `fallback` where there is no
/// file name.
pub open spec fn prefixed_stem(
    prefix: Seq<char>,
    name: Option<Seq<char>>,
    fallback: Seq<char>,
) -> Seq<char> {
    prefix + match name {
        Some(n) => stem_of(n),
        None => fallback,
    }
}

/// Puts a prefix before the stem of a file name.
fn prefix_stem(prefix: &str, name: &Option<String>, fallback: &str) -> (r: String)
    ensures
        r@ == prefixed_stem(prefix@, opt_text(*name), fallback@),
{
    match name {
        Some(n) => join2(prefix, stem(n.as_str()).as_str()),
        None => join2(prefix, fallback),
    }
}

/// Begins the search for the output of a Speed job on a file of the given name.
pub fn speed_output_for(name: &Option<String>) -> (s: NameSearch)
    ensures
        s@ == search_for(prefixed_stem("fast_"@, opt_text(*name), "clip"@), ".mp4"@),
        s@.wf(),
{
    unique_out(prefix_stem("fast_", name, "clip").as_str(), ".mp4")
}

/// Begins the search for the output of a Speed job: `fast_<stem>.mp4`.
pub fn default_speed_output(input: &str) -> (s: NameSearch)
    ensures
        exists|name: Option<Seq<char>>| #[trigger]
            may_be_file_name(input@, name) && s@ == search_for(
                prefixed_stem("fast_"@, name, "clip"@),
                ".mp4"@,
            ),
        one_reading(input@) ==> s@ == search_for(
            prefixed_stem("fast_"@, slash_file_name(input@), "clip"@),
            ".mp4"@,
        ),
        s@.wf(),
{
    let name = file_name(input);
    assert(may_be_file_name(input@, opt_text(name)));
    speed_output_for(&name)
}

/// Begins the search for the output of a Convert job on a file of the given
/// name: `converted_<stem><ext>`.
pub fn convert_output_for(name: &Option<String>, ext: &str) -> (s: NameSearch)
    ensures
        s@ == search_for(prefixed_stem("converted_"@, opt_text(*name), "converted"@), ext@),
        s@.wf(),
{
    unique_out(prefix_stem("converted_", name, "converted").as_str(), ext)
}

// ---------------------------------------------------------------------------
// Exports and temporary files
// ---------------------------------------------------------------------------

/// A text with a number between two marks.
pub open spec fn numbered(head: Seq<char>, n: nat, tail: Seq<char>) -> Seq<char> {
    head + decimal(n) + tail
}

/// Writes a number between two marks.
fn number(head: &str, n: u64, tail: &str) -> (r: String)
    ensures
        r@ == numbered(head@, n as nat, tail@),
{
    join3(head, decimal_text(n).as_str(), tail)
}

/// The names of the edit list that is exported at `secs` seconds, as JSON and
/// as text.
pub fn edit_list_names(secs: u64) -> (r: (String, String))
    ensures
        r.0@ == numbered("edit-list-"@, secs as nat, ".json"@),
        r.1@ == numbered("edit-list-"@, secs as nat, ".txt"@),
{
    (number("edit-list-", secs, ".json"), number("edit-list-", secs, ".txt"))
}

/// The name of the edited video of a source of the given file name, exported at
/// `secs` seconds.
pub open spec fn edited_name_text(name: Option<Seq<char>>, secs: u64) -> Seq<char> {
    let stem = match name {
        Some(n) => stem_of(n),
        None => Seq::empty(),
    };
    stem + numbered("-edited-"@, secs as nat, ".mp4"@)
}

/// The name of the edited video of a source of the given file name, exported at
/// `secs` seconds.
pub fn edited_name_for(name: &Option<String>, secs: u64) -> (r: String)
    ensures
        r@ == edited_name_text(opt_text(*name), secs),
{
    let tail = number("-edited-", secs, ".mp4");
    match name {
        Some(n) => join2(stem(n.as_str()).as_str(), tail.as_str()),
        None => {
            assert(Seq::<char>::empty() + tail@ =~= tail@);
            tail
        },
    }
}

/// The name of the edited video of a source, exported at `secs` seconds:
/// `<stem>-edited-<time>.mp4`.
pub fn edited_name(source: &str, secs: u64) -> (r: String)
    ensures
        exists|name: Option<Seq<char>>| #[trigger]
            may_be_file_name(source@, name) && r@ == edited_name_text(name, secs),
        one_reading(source@) ==> r@ == edited_name_text(slash_file_name(source@), secs),
{
    let name = file_name(source);
    assert(may_be_file_name(source@, opt_text(name)));
    edited_name_for(&name, secs)
}

/// The name of the temporary file of segment `i` of an export at `secs`
/// seconds.
pub open spec fn segment_text(secs: u64, i: nat) -> Seq<char> {
    numbered("vc_seg_"@, secs as nat, "_"@) + numbered(Seq::empty(), i, ".mp4"@)
}

/// The name of the temporary file of segment `i` of an export at `secs`
/// seconds.
pub fn segment_name(secs: u64, i: usize) -> (r: String)
    ensures
        r@ == segment_text(secs, i as nat),
{
    let tail = number("", i as u64, ".mp4");
    proof {
        reveal_strlit("");
        assert(""@ =~= Seq::<char>::empty());
    }
    join2(number("vc_seg_", secs, "_").as_str(), tail.as_str())
}

/// The names of the temporary files of `n` segments of an export at `secs`
/// seconds, in order.
pub fn segment_names(secs: u64, n: usize) -> (r: Vec<String>)
    ensures
        texts(r@) == Seq::new(n as nat, |i: int| segment_text(secs, i as nat)),
{
    let ghost all = Seq::new(n as nat, |i: int| segment_text(secs, i as nat));
    let mut r: Vec<String> = Vec::new();
    for i in 0..n
        invariant
            all == Seq::new(n as nat, |i: int| segment_text(secs, i as nat)),
            texts(r@) == all.take(i as int),
    {
        push_text(&mut r, segment_name(secs, i).as_str());
        assert(texts(r@) =~= all.take(i + 1));
    }
    assert(all.take(n as int) =~= all);
    r
}

/// The segments of an export have different temporary files.
pub proof fn segment_names_differ(secs: u64, i: nat, j: nat)
    requires
        i != j,
    ensures
        segment_text(secs, i) != segment_text(secs, j),
{
    let a = segment_text(secs, i);
    let b = segment_text(secs, j);
    if a == b {
        let head = numbered("vc_seg_"@, secs as nat, "_"@);
        let k = head.len() as int;
        let tail = ".mp4"@.len();
        assert(a.len() == k + decimal(i).len() + tail);
        assert(b.len() == k + decimal(j).len() + tail);
        assert(decimal(i) =~= a.subrange(k, k + decimal(i).len()));
        assert(decimal(j) =~= b.subrange(k, k + decimal(j).len()));
        decimal_is_injective(i, j);
    }
}

/// The name of the temporary list file of an export at `secs` seconds.
pub fn export_list_name(secs: u64) -> (r: String)
    ensures
        r@ == numbered("vc_concat_"@, secs as nat, ".txt"@),
{
    number("vc_concat_", secs, ".txt")
}

/// The name of the temporary list file of a join at the time `secs`.
pub open spec fn join_list_text(secs: Option<u64>) -> Seq<char> {
    "vcc_concat_"@ + stamp_text(secs) + ".txt"@
}

/// The name of the temporary list file of a join at the time `secs`.
pub fn join_list_name_at(secs: Option<u64>) -> (r: String)
    ensures
        r@ == join_list_text(secs),
{
    join3("vcc_concat_", stamp_at(secs).as_str(), ".txt")
}

/// The name of the temporary list file of a join that begins now.
pub fn join_list_name() -> (r: String)
    ensures
        exists|secs: Option<u64>| r@ == #[trigger] join_list_text(secs),
{
    join_list_name_at(clock())
}

/// The name of the temporary video of the joined visuals at the time `secs`.
pub open spec fn base_text(secs: Option<u64>) -> Seq<char> {
    "vcc_silent_base_"@ + stamp_text(secs) + ".mp4"@
}

/// The name of the temporary video of the joined visuals at the time `secs`.
pub fn base_name_at(secs: Option<u64>) -> (r: String)
    ensures
        r@ == base_text(secs),
{
    join3("vcc_silent_base_", stamp_at(secs).as_str(), ".mp4")
}

/// The name of the temporary video of the joined visuals of now.
pub fn silent_base_name() -> (r: String)
    ensures
        exists|secs: Option<u64>| r@ == #[trigger] base_text(secs),
{
    base_name_at(clock())
}

/// The name of the temporary picture that the process `pid` extracts at
/// `millis` milliseconds.
pub fn frame_file_name(pid: u32, millis: u64) -> (r: String)
    ensures
        r@ == numbered("vcc_frame_"@, pid as nat, "_"@) + numbered(
            Seq::empty(),
            millis as nat,
            ".jpg"@,
        ),
{
    let tail = number("", millis, ".jpg");
    proof {
        reveal_strlit("");
        assert(""@ =~= Seq::<char>::empty());
    }
    join2(number("vcc_frame_", pid as u64, "_").as_str(), tail.as_str())
}

/// The name of the temporary sound file that is extracted at `millis`
/// milliseconds.
pub fn sound_file_name(millis: u64) -> (r: String)
    ensures
        r@ == numbered("vc_audio_"@, millis as nat, ".wav"@),
{
    number("vc_audio_", millis, ".wav")
}

} // verus!

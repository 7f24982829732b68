//! File browser state: the current directory, its listing, the selected
//! entry and the file-type filter.
//!
//! Reading the directory is left to the caller, which hands the raw
//! listing to [`BrowserState::apply_listing`].

use vstd::prelude::*;
use crate::strings::{lex_lt, lowercase, starts_with_char, str_eq, str_lt, to_lowercase};

verus! {

/// Supported file type filters for the browser.
#[derive(Debug, Clone, Copy, PartialEq, Eq, Structural)]
pub enum BrowserFilter {
    /// Show all supported files.
    All,
    /// Show only audio files.
    Audio,
    /// Show only MIDI files.
    Midi,
}

impl Default for BrowserFilter {
    fn default() -> (r: Self)
        ensures
            r == BrowserFilter::All,
    {
        BrowserFilter::All
    }
}

/// A single entry in the browser file list.
#[derive(Debug)]
pub struct BrowserEntry {
    /// Display name (file or directory name, no path).
    pub name: String,
    /// Full path to the file or directory.
    pub path: String,
    /// Whether this entry is a directory.
    pub is_dir: bool,
    /// File extension (lowercase, empty for directories).
    pub extension: String,
}

/// Mathematical model of a browser entry.
pub struct BrowserEntryView {
    pub name: Seq<char>,
    pub path: Seq<char>,
    pub is_dir: bool,
    pub extension: Seq<char>,
}

impl View for BrowserEntry {
    type V = BrowserEntryView;

    open spec fn view(&self) -> BrowserEntryView {
        BrowserEntryView { name: self.name@, path: self.path@, is_dir: self.is_dir, extension: self.extension@ }
    }
}

impl Clone for BrowserEntry {
    fn clone(&self) -> (r: Self)
        ensures
            r@ == self@,
    {
        BrowserEntry { name: self.name.clone(), path: self.path.clone(), is_dir: self.is_dir, extension: self.extension.clone() }
    }
}

/// Extensions of the audio formats the browser offers.
pub open spec fn is_audio_extension(e: Seq<char>) -> bool {
    ||| e == seq!['w', 'a', 'v']
    ||| e == seq!['f', 'l', 'a', 'c']
    ||| e == seq!['o', 'g', 'g']
    ||| e == seq!['m', 'p', '3']
    ||| e == seq!['a', 'i', 'f', 'f']
    ||| e == seq!['a', 'i', 'f']
}

/// Extensions of MIDI files.
pub open spec fn is_midi_extension(e: Seq<char>) -> bool {
    ||| e == seq!['m', 'i', 'd']
    ||| e == seq!['m', 'i', 'd', 'i']
}

impl BrowserEntry {
    /// Whether this entry is an audio file.
    pub fn is_audio(&self) -> (r: bool)
        ensures
            r == is_audio_extension(self.extension@),
    {
        proof {
            reveal_strlit("wav");
            assert("wav"@ =~= seq!['w', 'a', 'v']);
            reveal_strlit("flac");
            assert("flac"@ =~= seq!['f', 'l', 'a', 'c']);
            reveal_strlit("ogg");
            assert("ogg"@ =~= seq!['o', 'g', 'g']);
            reveal_strlit("mp3");
            assert("mp3"@ =~= seq!['m', 'p', '3']);
            reveal_strlit("aiff");
            assert("aiff"@ =~= seq!['a', 'i', 'f', 'f']);
            reveal_strlit("aif");
            assert("aif"@ =~= seq!['a', 'i', 'f']);
        }
        let e = self.extension.as_str();
        str_eq(e, "wav") || str_eq(e, "flac") || str_eq(e, "ogg") || str_eq(e, "mp3") || str_eq(e, "aiff")
            || str_eq(e, "aif")
    }

    /// Whether this entry is a MIDI file.
    pub fn is_midi(&self) -> (r: bool)
        ensures
            r == is_midi_extension(self.extension@),
    {
        proof {
            reveal_strlit("mid");
            assert("mid"@ =~= seq!['m', 'i', 'd']);
            reveal_strlit("midi");
            assert("midi"@ =~= seq!['m', 'i', 'd', 'i']);
        }
        let e = self.extension.as_str();
        str_eq(e, "mid") || str_eq(e, "midi")
    }
}

/// Whether a file of this extension passes the filter.
pub open spec fn passes_filter(f: BrowserFilter, ext: Seq<char>) -> bool {
    match f {
        BrowserFilter::All => is_audio_extension(ext) || is_midi_extension(ext),
        BrowserFilter::Audio => is_audio_extension(ext),
        BrowserFilter::Midi => is_midi_extension(ext),
    }
}

/// Hidden entries (name starting with a dot) are not listed.
pub open spec fn visible_entry(e: BrowserEntryView) -> bool {
    !(e.name.len() > 0 && e.name[0] == '.')
}

/// Sort key: the lower-cased name.
pub open spec fn name_key(e: BrowserEntryView) -> Seq<char> {
    lowercase(e.name)
}

/// Insert after every entry whose key does not order after `x`'s.
pub open spec fn insert_by_name(s: Seq<BrowserEntryView>, x: BrowserEntryView) -> Seq<BrowserEntryView>
    decreases s.len(),
{
    if s.len() == 0 {
        seq![x]
    } else if !lex_lt(name_key(x), name_key(s.last())) {
        s.push(x)
    } else {
        insert_by_name(s.drop_last(), x).push(s.last())
    }
}

/// Stable sort by lower-cased name.
pub open spec fn sort_by_name(s: Seq<BrowserEntryView>) -> Seq<BrowserEntryView>
    decreases s.len(),
{
    if s.len() == 0 {
        s
    } else {
        insert_by_name(sort_by_name(s.drop_last()), s.last())
    }
}

proof fn lemma_insert_by_name_split(p: Seq<BrowserEntryView>, x: BrowserEntryView, j: int)
    requires
        0 <= j <= p.len(),
        forall|k: int| j <= k < p.len() ==> lex_lt(name_key(x), name_key(#[trigger] p[k])),
        j == 0 || !lex_lt(name_key(x), name_key(p[j - 1])),
    ensures
        insert_by_name(p, x) == p.take(j).push(x) + p.skip(j),
    decreases p.len(),
{
    if p.len() == j {
        assert(p.take(j) == p);
        assert(p.skip(j) == Seq::<BrowserEntryView>::empty());
        if j == 0 {
            assert(insert_by_name(p, x) == seq![x]);
        }
    } else {
        assert(lex_lt(name_key(x), name_key(p[p.len() - 1])));
        lemma_insert_by_name_split(p.drop_last(), x, j);
        assert(p.drop_last().take(j) == p.take(j));
        assert(p.drop_last().skip(j).push(p.last()) == p.skip(j));
        assert((p.take(j).push(x) + p.drop_last().skip(j)).push(p.last()) == p.take(j).push(x) + p.skip(j));
    }
}

pub open spec fn entries_view(v: Seq<BrowserEntry>) -> Seq<BrowserEntryView> {
    v.map_values(|e: BrowserEntry| e@)
}

/// Whether `a` must come after `b` in name order.
fn orders_before(a: &BrowserEntry, b: &BrowserEntry) -> (r: bool)
    ensures
        r == lex_lt(name_key(a@), name_key(b@)),
{
    let ka = to_lowercase(a.name.as_str());
    let kb = to_lowercase(b.name.as_str());
    str_lt(ka.as_str(), kb.as_str())
}

/// Stable in-place sort of entries by lower-cased name.
pub fn sort_entries_by_name(v: &mut Vec<BrowserEntry>)
    ensures
        entries_view(final(v)@) == sort_by_name(entries_view(old(v)@)),
{
    let ghost orig = entries_view(v@);
    let n = v.len();
    let mut i: usize = 0;
    while i < n
        invariant
            n == orig.len(),
            v@.len() == n,
            i <= n,
            entries_view(v@).take(i as int) == sort_by_name(orig.take(i as int)),
            entries_view(v@).skip(i as int) == orig.skip(i as int),
        decreases n - i,
    {
        let ghost p = entries_view(v@).take(i as int);
        let ghost x = orig[i as int];
        proof {
            assert(entries_view(v@)[i as int] == entries_view(v@).skip(i as int)[0]);
            assert(orig[i as int] == orig.skip(i as int)[0]);
            assert(p.take(i as int) == p);
            assert(entries_view(v@).subrange(i as int + 1, i as int + 1) == p.subrange(i as int, i as int));
            assert(entries_view(v@).skip(i as int + 1) == entries_view(v@).skip(i as int).skip(1));
            assert(orig.skip(i as int + 1) == orig.skip(i as int).skip(1));
        }
        let mut j: usize = i;
        while j > 0 && orders_before(&v[j], &v[j - 1])
            invariant
                v@.len() == n,
                i < n,
                j <= i,
                p.len() == i,
                entries_view(v@)[j as int] == x,
                entries_view(v@).take(j as int) == p.take(j as int),
                entries_view(v@).subrange(j as int + 1, i as int + 1) == p.subrange(j as int, i as int),
                forall|k: int| j <= k < i ==> lex_lt(name_key(x), name_key(#[trigger] p[k])),
                entries_view(v@).skip(i as int + 1) == orig.skip(i as int + 1),
            decreases j,
        {
            let ghost before = entries_view(v@);
            proof {
                assert(before.take(j as int)[j - 1] == before[j - 1]);
                assert(p.take(j as int)[j - 1] == p[j - 1]);
            }
            let a = v[j - 1].clone();
            let b = v[j].clone();
            v.set(j - 1, b);
            v.set(j, a);
            j = j - 1;
            proof {
                let now = entries_view(v@);
                assert(now =~= before.update(j as int, before[j as int + 1]).update(j as int + 1, before[j as int]));
                assert(now.take(j as int) =~= p.take(j as int));
                assert forall|k: int| j as int + 1 <= k < i as int + 1 implies now[k] == p[k - 1] by {
                    if k == j as int + 1 {
                    } else {
                        assert(before[k] == before.subrange(j as int + 2, i as int + 1)[k - j - 2]);
                    }
                }
                assert(now.subrange(j as int + 1, i as int + 1) =~= p.subrange(j as int, i as int));
                assert(now.skip(i as int + 1) =~= before.skip(i as int + 1));
            }
        }
        proof {
            let now = entries_view(v@);
            if j > 0 {
                assert(now.take(j as int)[j - 1] == now[j - 1]);
                assert(p.take(j as int)[j - 1] == p[j - 1]);
            }
            lemma_insert_by_name_split(p, x, j as int);
            assert(now.take(i as int + 1) =~= p.take(j as int).push(x) + p.skip(j as int));
            assert(orig.take(i as int + 1).drop_last() == orig.take(i as int));
            assert(orig.take(i as int + 1).last() == x);
        }
        i = i + 1;
    }
    proof {
        assert(entries_view(v@).take(n as int) == entries_view(v@));
        assert(orig.take(n as int) == orig);
    }
}

/// A raw directory entry as a listed directory (no extension).
pub open spec fn as_dir(e: BrowserEntryView) -> BrowserEntryView {
    BrowserEntryView { extension: Seq::empty(), ..e }
}

/// A raw directory entry as a listed file (extension lower-cased).
pub open spec fn as_file(e: BrowserEntryView) -> BrowserEntryView {
    BrowserEntryView { extension: lowercase(e.extension), ..e }
}

pub open spec fn listed_dir() -> spec_fn(BrowserEntryView) -> bool {
    |e: BrowserEntryView| visible_entry(e) && e.is_dir
}

pub open spec fn listed_file(f: BrowserFilter) -> spec_fn(BrowserEntryView) -> bool {
    |e: BrowserEntryView| visible_entry(e) && !e.is_dir && passes_filter(f, lowercase(e.extension))
}

/// The listing shown for a raw directory read: visible directories, then
/// visible files passing the filter, each group sorted by lower-cased name.
pub open spec fn listing(raw: Seq<BrowserEntryView>, f: BrowserFilter) -> Seq<BrowserEntryView> {
    sort_by_name(raw.filter(listed_dir()).map_values(|e: BrowserEntryView| as_dir(e)))
        + sort_by_name(raw.filter(listed_file(f)).map_values(|e: BrowserEntryView| as_file(e)))
}

/// Browser panel state.
#[derive(Debug)]
pub struct BrowserState {
    /// Current directory being browsed.
    pub current_dir: String,
    /// Entries in the current directory (files + subdirectories).
    pub entries: Vec<BrowserEntry>,
    /// Index of the selected entry (None if nothing selected).
    pub selected_index: Option<usize>,
    /// Active file type filter.
    pub filter: BrowserFilter,
    /// Whether the browser panel is visible.
    pub visible: bool,
}

/// Calls `dirs::home_dir` (which reads the environment) and renders the
/// path as text. Which directory comes back depends on the machine and is
/// not stated; only that it is never empty: dirs (through dirs-sys on Unix)
/// skips an empty `$HOME` and an empty password-file entry and then returns
/// nothing, and rendering a non-empty path as text keeps it non-empty.
#[verifier::external_body]
fn home_dir() -> (r: Option<String>)
    ensures
        r matches Some(s) ==> s@.len() > 0,
{
    dirs::home_dir().map(|p| p.to_string_lossy().into_owned())
}

/// What `std::path::Path::parent` returns for a path given as text: the
/// path without its last component, or nothing for a root or empty path.
pub uninterp spec fn path_parent(p: Seq<char>) -> Option<Seq<char>>;

/// Calls `std::path::Path::parent`.
#[verifier::external_body]
fn parent_dir(p: &str) -> (r: Option<String>)
    ensures
        r is Some == path_parent(p@) is Some,
        r matches Some(s) ==> s@ == path_parent(p@)->0,
{
    std::path::Path::new(p).parent().map(|q| q.to_string_lossy().into_owned())
}

/// The browser as the application starts: hidden, no listing read yet,
/// nothing selected, showing all supported files.
pub open spec fn browser_at_start(b: BrowserState) -> bool {
    &&& b.entries@.len() == 0
    &&& b.selected_index is None
    &&& b.filter == BrowserFilter::All
    &&& !b.visible
}

/// The directory the browser starts in: the home directory, or the
/// current directory (`.`) when there is none.
pub open spec fn start_dir(home: Option<String>) -> Seq<char> {
    match home {
        Some(h) => h@,
        None => "."@,
    }
}

/// The browser as it starts, in the home directory `home` (or `.`).
pub fn browser_state_in(home: Option<String>) -> (r: BrowserState)
    ensures
        browser_at_start(r),
        r.current_dir@ == start_dir(home),
{
    let current_dir = match home {
        Some(h) => h,
        None => String::from_str("."),
    };
    BrowserState {
        current_dir,
        entries: Vec::new(),
        selected_index: None,
        filter: BrowserFilter::All,
        visible: false,
    }
}

impl Default for BrowserState {
    fn default() -> (r: Self)
        ensures
            browser_at_start(r),
            r.current_dir@.len() > 0,
    {
        let home = home_dir();
        proof {
            reveal_strlit(".");
        }
        browser_state_in(home)
    }
}

impl BrowserState {
    /// Forget the listing and the selection (the first step of a refresh).
    pub fn clear_listing(&mut self)
        ensures
            final(self).entries@.len() == 0,
            final(self).selected_index is None,
            final(self).current_dir@ == old(self).current_dir@,
            final(self).filter == old(self).filter,
            final(self).visible == old(self).visible,
    {
        self.entries = Vec::new();
        self.selected_index = None;
    }

    /// Install the listing of the current directory from its raw entries
    /// (names, paths, directory flags and extensions as read from disk).
    pub fn apply_listing(&mut self, raw: &Vec<BrowserEntry>)
        ensures
            entries_view(final(self).entries@) == listing(entries_view(raw@), old(self).filter),
            final(self).selected_index is None,
            final(self).current_dir@ == old(self).current_dir@,
            final(self).filter == old(self).filter,
            final(self).visible == old(self).visible,
    {
        let ghost r = entries_view(raw@);
        let ghost fd = |e: BrowserEntryView| as_dir(e);
        let ghost ff = |e: BrowserEntryView| as_file(e);
        let mut dirs: Vec<BrowserEntry> = Vec::new();
        let mut files: Vec<BrowserEntry> = Vec::new();
        let n = raw.len();
        for i in 0..n
            invariant
                n == raw@.len(),
                r == entries_view(raw@),
                fd == (|e: BrowserEntryView| as_dir(e)),
                ff == (|e: BrowserEntryView| as_file(e)),
                entries_view(dirs@) == r.take(i as int).filter(listed_dir()).map_values(fd),
                entries_view(files@) == r.take(i as int).filter(listed_file(self.filter)).map_values(ff),
        {
            let e = &raw[i];
            proof {
                assert(r[i as int] == e@);
                assert(r.take(i as int + 1) == r.take(i as int).push(e@));
                r.take(i as int).lemma_filter_push(e@, listed_dir());
                r.take(i as int).lemma_filter_push(e@, listed_file(self.filter));
            }
            let hidden = starts_with_char(e.name.as_str(), '.');
            if !hidden {
                if e.is_dir {
                    let ghost before = dirs@;
                    dirs.push(BrowserEntry {
                        name: e.name.clone(),
                        path: e.path.clone(),
                        is_dir: true,
                        extension: String::new(),
                    });
                    proof {
                        assert(entries_view(dirs@) =~= entries_view(before).push(as_dir(e@)));
                    }
                } else {
                    let entry = BrowserEntry {
                        name: e.name.clone(),
                        path: e.path.clone(),
                        is_dir: false,
                        extension: to_lowercase(e.extension.as_str()),
                    };
                    let passes = match self.filter {
                        BrowserFilter::All => entry.is_audio() || entry.is_midi(),
                        BrowserFilter::Audio => entry.is_audio(),
                        BrowserFilter::Midi => entry.is_midi(),
                    };
                    if passes {
                        let ghost before = files@;
                        files.push(entry);
                        proof {
                            assert(entries_view(files@) =~= entries_view(before).push(as_file(e@)));
                        }
                    }
                }
            }
            proof {
                assert(entries_view(dirs@) =~= r.take(i as int + 1).filter(listed_dir()).map_values(fd));
                assert(entries_view(files@) =~= r.take(i as int + 1).filter(listed_file(self.filter)).map_values(ff));
            }
        }
        proof {
            assert(r.take(n as int) == r);
        }
        sort_entries_by_name(&mut dirs);
        sort_entries_by_name(&mut files);
        let ghost dv = entries_view(dirs@);
        let ghost fv = entries_view(files@);
        let mut all = dirs;
        let m = files.len();
        for k in 0..m
            invariant
                m == files@.len(),
                fv == entries_view(files@),
                entries_view(all@) == dv + fv.take(k as int),
        {
            let ghost before = all@;
            all.push(files[k].clone());
            proof {
                assert(fv.take(k as int + 1) == fv.take(k as int).push(fv[k as int]));
                assert(entries_view(all@) =~= entries_view(before).push(fv[k as int]));
            }
        }
        proof {
            assert(fv.take(m as int) == fv);
        }
        self.entries = all;
        self.selected_index = None;
    }

    /// Navigate into a subdirectory: the listing is cleared and must be
    /// re-read for the new directory.
    pub fn enter_dir(&mut self, path: String)
        ensures
            final(self).current_dir@ == path@,
            final(self).entries@.len() == 0,
            final(self).selected_index is None,
            final(self).filter == old(self).filter,
            final(self).visible == old(self).visible,
    {
        self.current_dir = path;
        self.clear_listing();
    }
}

/// How moving to the parent directory changes the browser `a` into `b`;
/// `moved` tells whether there was a parent.
pub open spec fn go_up_result(a: BrowserState, b: BrowserState, moved: bool) -> bool {
    &&& moved == path_parent(a.current_dir@) is Some
    &&& moved ==> b.current_dir@ == path_parent(a.current_dir@)->0
        && b.entries@.len() == 0 && b.selected_index is None
    &&& !moved ==> b == a
    &&& b.filter == a.filter
    &&& b.visible == a.visible
}

impl BrowserState {
    /// Navigate to the parent directory; returns whether there was one (the
    /// listing is then cleared and must be re-read). At a root nothing
    /// changes.
    pub fn go_up(&mut self) -> (moved: bool)
        ensures
            go_up_result(*old(self), *final(self), moved),
    {
        match parent_dir(self.current_dir.as_str()) {
            Some(parent) => {
                self.current_dir = parent;
                self.clear_listing();
                true
            },
            None => false,
        }
    }

    /// The currently selected entry, if any (none when out of range).
    pub fn selected_entry(&self) -> (r: Option<&BrowserEntry>)
        ensures
            match self.selected_index {
                Some(i) => if i < self.entries@.len() {
                    r matches Some(e) && e@ == self.entries@[i as int]@
                } else {
                    r is None
                },
                None => r is None,
            },
    {
        match self.selected_index {
            Some(i) => {
                if i < self.entries.len() {
                    Some(&self.entries[i])
                } else {
                    None
                }
            },
            None => None,
        }
    }
}

/// Inserting keeps a property every element and the new one have.
proof fn lemma_insert_by_name_all(s: Seq<BrowserEntryView>, x: BrowserEntryView, p: spec_fn(BrowserEntryView) -> bool)
    requires
        forall|k: int| 0 <= k < s.len() ==> p(#[trigger] s[k]),
        p(x),
    ensures
        forall|k: int| 0 <= k < insert_by_name(s, x).len() ==> p(#[trigger] insert_by_name(s, x)[k]),
    decreases s.len(),
{
    if s.len() == 0 {
        assert(insert_by_name(s, x) == seq![x]);
    } else if !lex_lt(name_key(x), name_key(s.last())) {
        assert(insert_by_name(s, x) == s.push(x));
    } else {
        lemma_insert_by_name_all(s.drop_last(), x, p);
        let r = insert_by_name(s.drop_last(), x);
        assert(insert_by_name(s, x) == r.push(s.last()));
        assert forall|k: int| 0 <= k < insert_by_name(s, x).len() implies p(#[trigger] insert_by_name(s, x)[k]) by {
            if k < r.len() {
                assert(insert_by_name(s, x)[k] == r[k]);
            } else {
                assert(p(s[s.len() - 1]));
            }
        }
    }
}

/// Sorting keeps a property every element has.
proof fn lemma_sort_by_name_all(s: Seq<BrowserEntryView>, p: spec_fn(BrowserEntryView) -> bool)
    requires
        forall|k: int| 0 <= k < s.len() ==> p(#[trigger] s[k]),
    ensures
        forall|k: int| 0 <= k < sort_by_name(s).len() ==> p(#[trigger] sort_by_name(s)[k]),
    decreases s.len(),
{
    if s.len() > 0 {
        lemma_sort_by_name_all(s.drop_last(), p);
        lemma_insert_by_name_all(sort_by_name(s.drop_last()), s.last(), p);
    }
}

/// Law: in a listing every directory comes before every file.
pub proof fn lemma_listing_dirs_first(raw: Seq<BrowserEntryView>, f: BrowserFilter)
    ensures
        forall|i: int, j: int| 0 <= i < j < listing(raw, f).len() && (#[trigger] listing(raw, f)[j]).is_dir
            ==> (#[trigger] listing(raw, f)[i]).is_dir,
{
    broadcast use vstd::seq_lib::group_filter_ensures;
    let d0 = raw.filter(listed_dir()).map_values(|e: BrowserEntryView| as_dir(e));
    let f0 = raw.filter(listed_file(f)).map_values(|e: BrowserEntryView| as_file(e));
    let is_d = |e: BrowserEntryView| e.is_dir;
    let is_f = |e: BrowserEntryView| !e.is_dir;
    assert forall|k: int| 0 <= k < d0.len() implies is_d(#[trigger] d0[k]) by {
        assert(listed_dir()(raw.filter(listed_dir())[k]));
    }
    assert forall|k: int| 0 <= k < f0.len() implies is_f(#[trigger] f0[k]) by {
        assert(listed_file(f)(raw.filter(listed_file(f))[k]));
    }
    lemma_sort_by_name_all(d0, is_d);
    lemma_sort_by_name_all(f0, is_f);
    let d = sort_by_name(d0);
    let l = listing(raw, f);
    assert(l == d + sort_by_name(f0));
    assert forall|i: int, j: int| 0 <= i < j < l.len() && (#[trigger] l[j]).is_dir implies (#[trigger] l[i]).is_dir by {
        if j >= d.len() {
            assert(is_f(sort_by_name(f0)[j - d.len()]));
        }
        assert(is_d(d[i]));
    }
}

} // verus!

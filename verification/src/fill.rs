//! Filling the directory cache from the drive.
//!
//! A directory is known to the drive by an identifier, not by its path, so the listing of a
//! path is found by walking down: from the deepest ancestor whose own record is already cached,
//! or from the top. Each directory on the way is read page by page, written back to the cache,
//! and searched for entries that may lead on. Whoever runs the walk reads the pages it asks
//! for and hands them in, one at a time.
use vstd::prelude::*;
use crate::cache::Cache;
#[allow(unused_imports)]
use crate::cache::CacheView;
#[allow(unused_imports)]
use crate::file::{
    copy_listing, find_named, first_named, first_named_at, lemma_first_named, listing_view,
    opt_listing_view, root_view, FileView, QuarkFile,
};
#[allow(unused_imports)]
use crate::path::{
    climbs_to, file_name, file_name_of, lemma_parent_is_shorter, parent, parent_of, top_of,
};
#[allow(unused_imports)]
use crate::text::{joined, same_text, starts_with};

verus! {

/// How many entries one page of a listing holds.
pub const ONE_PAGE: u32 = 500;

/// How many pages of one directory are read; the drive serves no more.
pub const LAST_PAGE: u32 = 20;

/// A directory that is being read.
pub struct Reading {
    fid: String,
    path: String,
    stamp: (u64, u64),
    page_no: u32,
    files: Vec<QuarkFile>,
}

/// A directory that was read, and the entries of it still to be tried, the next one last.
pub struct Level {
    files: Vec<QuarkFile>,
    path: String,
}

/// A walk down to the directory `key`.
pub struct Fill {
    key: String,
    levels: Vec<Level>,
    reading: Option<Reading>,
}

/// What a [`Reading`] knows.
#[verifier::ext_equal]
pub struct ReadingView {
    pub fid: Seq<char>,
    pub path: Seq<char>,
    /// The marker of `path` from before the first page.
    pub stamp: (u64, u64),
    /// The page asked for.
    pub page_no: u32,
    /// The pages so far.
    pub files: Seq<FileView>,
}

/// What a [`Level`] knows.
#[verifier::ext_equal]
pub struct LevelView {
    /// The entries still to be tried, in order.
    pub rest: Seq<FileView>,
    pub path: Seq<char>,
}

/// What a [`Fill`] knows.
#[verifier::ext_equal]
pub struct FillView {
    pub key: Seq<char>,
    /// The directories above the one being read, topmost first.
    pub levels: Seq<LevelView>,
    pub reading: Option<ReadingView>,
}

impl View for Reading {
    type V = ReadingView;

    closed spec fn view(&self) -> ReadingView {
        ReadingView {
            fid: self.fid@,
            path: self.path@,
            stamp: self.stamp,
            page_no: self.page_no,
            files: listing_view(self.files@),
        }
    }
}

impl View for Level {
    type V = LevelView;

    closed spec fn view(&self) -> LevelView {
        LevelView { rest: listing_view(self.files@.reverse()), path: self.path@ }
    }
}

impl View for Fill {
    type V = FillView;

    closed spec fn view(&self) -> FillView {
        FillView {
            key: self.key@,
            levels: self.levels@.map_values(|l: Level| l@),
            reading: match self.reading {
                Some(r) => Some(r@),
                None => None,
            },
        }
    }
}

/// What to do next for a listing.
pub enum FillAction {
    /// The listing asked for, or that there is none.
    Answer(Option<Vec<QuarkFile>>),
    /// Take the lock with this number, and then start the walk.
    Lock(u64),
    /// Read this page of this directory.
    ReadPage { fid: String, page_no: u32, page_size: u32 },
}

/// Where a walk begins.
pub enum Start {
    /// At the top.
    Root,
    /// At a directory whose record is known.
    At { file: QuarkFile, path: String },
    /// Nowhere: the path does not lead up to the top.
    Nowhere,
}

/// The path of the entry `name` of the directory `path`.
pub open spec fn child_path(path: Seq<char>, name: Seq<char>) -> Seq<char> {
    if path == seq!['/'] {
        path + name
    } else {
        path.push('/') + name
    }
}

fn child(path: &str, name: &str) -> (res: String)
    ensures
        res@ == child_path(path@, name@),
{
    proof {
        reveal_strlit("/");
        assert("/"@ =~= seq!['/']);
    }
    if same_text(path, "/") {
        joined(path, name)
    } else {
        let mut res = path.to_owned();
        res.push('/');
        res.concat(name)
    }
}

/// Whether an entry may lead on to `key`: a directory whose path is a leading part of it.
pub open spec fn leads_on(file: FileView, path: Seq<char>, key: Seq<char>) -> bool {
    file.dir && child_path(path, file.file_name).is_prefix_of(key)
}

/// Whether a page is the last one to be read.
pub open spec fn is_last_page(entries: int, page_no: u32, total: u32) -> bool {
    entries < ONE_PAGE || page_no >= total as int / ONE_PAGE as int + 1 || page_no >= LAST_PAGE
}

/// The entries of a page, each with the directory it was found in.
pub open spec fn placed(list: Seq<FileView>, path: Seq<char>) -> Seq<FileView> {
    list.map_values(|f: FileView| FileView { parent_path: Some(path), ..f })
}

/// The next entry that may lead on, with what is left to be tried after it: the entries of the
/// deepest directory in order, then those of the one above, and so on.
pub open spec fn next_visit(levels: Seq<LevelView>, key: Seq<char>) -> Option<
    (Seq<LevelView>, FileView, Seq<char>),
>
    decreases levels.len(), levels.last().rest.len(),
{
    if levels.len() == 0 {
        None
    } else if levels.last().rest.len() == 0 {
        next_visit(levels.drop_last(), key)
    } else {
        let level = levels.last();
        let file = level.rest[0];
        let shorter = LevelView { rest: level.rest.skip(1), path: level.path };
        let left = levels.drop_last().push(shorter);
        if leads_on(file, level.path, key) {
            Some((left, file, child_path(level.path, file.file_name)))
        } else if left.last().rest.len() < levels.last().rest.len() {
            next_visit(left, key)
        } else {
            None
        }
    }
}

/// How a walk goes on.
pub enum Next {
    /// With the next page of the same directory.
    Page(FillView),
    /// With another directory.
    Visit { levels: Seq<LevelView>, file: FileView, path: Seq<char> },
    /// Not at all: this is what it found.
    Finished(Option<Seq<FileView>>),
}

/// How a walk goes on once nothing is being read.
pub open spec fn resumed(levels: Seq<LevelView>, key: Seq<char>) -> Next {
    match next_visit(levels, key) {
        Some((left, file, path)) => Next::Visit { levels: left, file, path },
        None => Next::Finished(None),
    }
}

/// The whole listing of the directory being read, once its last page has come.
pub open spec fn completed(f: FillView, page: Option<(Seq<FileView>, u32)>) -> Option<
    Seq<FileView>,
> {
    match (f.reading, page) {
        (Some(r), Some((list, total))) => if is_last_page(list.len() as int, r.page_no, total) {
            Some(r.files + placed(list, r.path))
        } else {
            None
        },
        _ => None,
    }
}

/// How a walk goes on after the page it asked for, `None` if that could not be read.
pub open spec fn after_page(f: FillView, page: Option<(Seq<FileView>, u32)>) -> Next {
    match (f.reading, page) {
        (Some(r), Some((list, total))) => {
            let files = r.files + placed(list, r.path);
            if !is_last_page(list.len() as int, r.page_no, total) {
                Next::Page(
                    FillView {
                        reading: Some(
                            ReadingView { page_no: (r.page_no + 1) as u32, files, ..r },
                        ),
                        ..f
                    },
                )
            } else if r.path == f.key {
                Next::Finished(Some(files))
            } else {
                resumed(f.levels.push(LevelView { rest: files, path: r.path }), f.key)
            }
        },
        _ => resumed(f.levels, f.key),
    }
}

/// The state of a walk that has just asked for the first page of a directory.
pub open spec fn visiting(
    cache: CacheView,
    key: Seq<char>,
    levels: Seq<LevelView>,
    file: FileView,
    path: Seq<char>,
) -> FillView {
    FillView {
        key,
        levels,
        reading: Some(
            ReadingView {
                fid: file.fid,
                path,
                stamp: cache.stamp(path),
                page_no: 1,
                files: Seq::empty(),
            },
        ),
    }
}

/// Whether an action asks for the page that a walk waits for.
pub open spec fn asks_for(action: FillAction, f: FillView) -> bool {
    f.reading matches Some(r) && action matches FillAction::ReadPage { fid, page_no, page_size }
        && fid@ == r.fid && page_no == r.page_no && page_size == ONE_PAGE
}

/// Whether an action is the answer of a walk that found `fetched`: what the cache has for the
/// path, or else that.
pub open spec fn answers(
    action: FillAction,
    cache: CacheView,
    key: Seq<char>,
    fetched: Option<Seq<FileView>>,
) -> bool {
    action matches FillAction::Answer(files) && (opt_listing_view(files) == fetched || (
    cache.listings.contains_key(key) && opt_listing_view(files) == Some(cache.listings[key])))
}

/// Whether an action answers with a listing.
pub open spec fn holds(action: FillAction, files: Seq<FileView>) -> bool {
    action matches FillAction::Answer(listing) && opt_listing_view(listing) == Some(files)
}

/// Whether a walk and an action follow from `next`.
pub open spec fn follows(next: Next, cache: CacheView, f: FillView, action: FillAction) -> bool {
    match next {
        Next::Page(g) => f == g && asks_for(action, f),
        Next::Visit { levels, file, path } => f == visiting(cache, f.key, levels, file, path)
            && asks_for(action, f),
        Next::Finished(fetched) => f.reading is None && answers(action, cache, f.key, fetched),
    }
}

/// The record of `path`, if a look at the listing of its directory shows it.
pub open spec fn known_by(path: Seq<char>, look: Option<Seq<FileView>>) -> Option<FileView> {
    match (look, file_name_of(path)) {
        (Some(files), Some(name)) => first_named(files, name),
        _ => None,
    }
}

/// Whether a walk begins at `start`, given a run of looks at the listings of the directories
/// above `path`, nearest first: at the deepest of `path` and the directories above it that its
/// look shows, or else at the top if the path leads there. There is a look for every directory
/// up to where it ends.
pub open spec fn starts_by(
    path: Seq<char>,
    looks: Seq<Option<Seq<FileView>>>,
    start: Start,
) -> bool
    decreases path.len(),
{
    match parent_of(path) {
        None => looks.len() == 0 && if path == seq!['/'] {
            start is Root
        } else {
            start is Nowhere
        },
        Some(up) => looks.len() > 0 && match known_by(path, looks[0]) {
            Some(record) => {
                &&& looks.len() == 1
                &&& start matches Start::At { file, path: p }
                &&& file@ == record
                &&& p@ == path
            },
            None => up.len() < path.len() && starts_by(up, looks.skip(1), start),
        },
    }
}

/// Whether a run of looks at the listings of the directories above `path`, nearest first, is
/// one that the cache may give: each look finds what the cache holds, or nothing.
pub open spec fn may_see(
    cache: CacheView,
    path: Seq<char>,
    looks: Seq<Option<Seq<FileView>>>,
) -> bool
    decreases looks.len(),
{
    looks.len() > 0 ==> match parent_of(path) {
        None => false,
        Some(up) => {
            &&& looks[0] matches Some(files) ==> cache.listings.contains_key(up) && files
                == cache.listings[up]
            &&& may_see(cache, up, looks.skip(1))
        },
    }
}

/// Whether a walk to `key` may begin at `start`: there where the looks at the cache lead it.
pub open spec fn may_start(cache: CacheView, key: Seq<char>, start: Start) -> bool {
    exists|looks: Seq<Option<Seq<FileView>>>| #[trigger]
        may_see(cache, key, looks) && starts_by(key, looks, start)
}

/// Whether a caller is answered from its first look at the cache, or else sent to the lock of
/// the directory.
pub open spec fn first_looked(
    before: CacheView,
    after: CacheView,
    key: Seq<char>,
    cached: Option<Vec<QuarkFile>>,
    action: FillAction,
) -> bool {
    match cached {
        Some(files) => action == FillAction::Answer(Some(files)) && after == before,
        None => action == FillAction::Lock(before.lock_for(key)) && after == before.with_lock(key),
    }
}

/// Whether a caller that holds the lock is answered from its second look at the cache, or else
/// begins a walk.
pub open spec fn second_looked(
    cache: CacheView,
    cached: Option<Vec<QuarkFile>>,
    start: Start,
    f: FillView,
    action: FillAction,
) -> bool {
    match cached {
        Some(files) => action == FillAction::Answer(Some(files)) && f.reading is None,
        None => follows(begun(start), cache, f, action),
    }
}

/// How a walk begins.
pub open spec fn begun(start: Start) -> Next {
    match start {
        Start::Root => Next::Visit { levels: Seq::empty(), file: root_view(), path: seq!['/'] },
        Start::At { file, path } => if file.dir {
            Next::Visit { levels: Seq::empty(), file: file@, path: path@ }
        } else {
            Next::Finished(None)
        },
        Start::Nowhere => Next::Finished(None),
    }
}

/// One step up from `path`, given what the cache has for its parent.
pub enum Climb {
    /// `path` is a known entry of its parent.
    Found(QuarkFile),
    /// Nothing is known of `path`; go on from its parent.
    Up(String),
    /// There is no parent.
    Top,
}

/// One step up from `path`, given what the cache has for its parent.
pub fn climb(path: &str, parent_listing: Option<Vec<QuarkFile>>) -> (res: Climb)
    ensures
        match parent_of(path@) {
            None => res is Top,
            Some(up) => {
                match known_by(path@, opt_listing_view(parent_listing)) {
                    Some(f) => res matches Climb::Found(file) && file@ == f,
                    None => res matches Climb::Up(p) && p@ == up,
                }
            },
        },
{
    match parent(path) {
        None => Climb::Top,
        Some(up) => {
            if let Some(files) = parent_listing {
                if let Some(name) = file_name(path) {
                    if let Some(file) = find_named(&files, name.as_str()) {
                        return Climb::Found(file);
                    }
                }
            }
            Climb::Up(up)
        },
    }
}

/// The answer of a walk: what the cache has for the path by now, or else what the walk found.
/// A listing that was read but not kept still answers the caller that read it.
pub fn final_answer(cached: Option<Vec<QuarkFile>>, fetched: Option<Vec<QuarkFile>>) -> (res:
    Option<Vec<QuarkFile>>)
    ensures
        res == (if cached is Some {
            cached
        } else {
            fetched
        }),
{
    if cached.is_some() {
        cached
    } else {
        fetched
    }
}

/// A listing in the opposite order.
fn reversed(files: Vec<QuarkFile>) -> (res: Vec<QuarkFile>)
    ensures
        res@ == files@.reverse(),
{
    let mut files = files;
    let mut res: Vec<QuarkFile> = Vec::new();
    let ghost all = files@;
    while files.len() > 0
        invariant
            files@ + res@.reverse() == all,
        decreases files.len(),
    {
        let ghost left = files@;
        let ghost done = res@;
        if let Some(f) = files.pop() {
            res.push(f);
            assert(left =~= files@.push(f));
            assert(res@.reverse() =~= seq![f] + done.reverse());
            assert(files@ + res@.reverse() =~= left + done.reverse());
        }
    }
    assert(res@ =~= res@.reverse().reverse());
    assert(res@.reverse() =~= all);
    res
}

impl Fill {
    /// Takes out the next entry that may lead on.
    fn next_child(&mut self) -> (res: Option<(QuarkFile, String)>)
        ensures
            match next_visit(old(self)@.levels, old(self)@.key) {
                Some((left, file, path)) => res matches Some(found) && found.0@ == file
                    && found.1@ == path && final(self)@ == (FillView {
                    levels: left,
                    ..old(self)@
                }),
                None => res is None,
            },
            final(self)@.key == old(self)@.key,
            final(self)@.reading == old(self)@.reading,
    {
        let ghost before = self@;
        loop
            invariant
                before == old(self)@,
                self@.key == before.key,
                self@.reading == before.reading,
                next_visit(self@.levels, before.key) == next_visit(before.levels, before.key),
            decreases self@.levels.len(), self@.levels.last().rest.len(),
        {
            let ghost now = self@;
            match self.levels.pop() {
                None => {
                    return None;
                },
                Some(level) => {
                    let ghost top = level@;
                    proof {
                        assert(now.levels.last() == top);
                        assert(self@.levels =~= now.levels.drop_last());
                    }
                    let mut level = level;
                    match level.files.pop() {
                        None => {
                            assert(top.rest.len() == 0);
                        },
                        Some(file) => {
                            let ghost shorter = level@;
                            proof {
                                assert(top.rest[0] == file@);
                                assert(shorter.rest =~= top.rest.skip(1));
                            }
                            let path = child(level.path.as_str(), file.file_name.as_str());
                            let leads = file.dir && starts_with(
                                self.key.as_str(),
                                path.as_str(),
                            );
                            self.levels.push(level);
                            assert(self@.levels =~= now.levels.drop_last().push(shorter));
                            if leads {
                                return Some((file, path));
                            }
                        },
                    }
                },
            }
        }
    }
}

/// The entries of a page, each with the directory it was found in.
fn place(list: Vec<QuarkFile>, path: &str) -> (res: Vec<QuarkFile>)
    ensures
        listing_view(res@) == placed(listing_view(list@), path@),
{
    let mut list = list;
    let ghost given = list@;
    let mut i: usize = 0;
    while i < list.len()
        invariant
            i <= list.len(),
            list.len() == given.len(),
            forall|j: int| i <= j < given.len() ==> list@[j] == given[j],
            forall|j: int|
                0 <= j < i ==> (#[trigger] list@[j])@ == (FileView {
                    parent_path: Some(path@),
                    ..given[j]@
                }),
        decreases list.len() - i,
    {
        let mut file = list[i].clone();
        file.parent_path = Some(path.to_owned());
        list.set(i, file);
        i += 1;
    }
    assert(listing_view(list@) =~= placed(listing_view(given), path@));
    list
}

impl Cache {
    /// Goes on from the first look for the listing of `key`: with what it found, or else with the
    /// lock to take before the listing is read.
    pub fn first_look(&mut self, key: &str, cached: Option<Vec<QuarkFile>>) -> (res: FillAction)
        requires
            old(self)@.valid(),
            old(self)@.locks_made < u64::MAX,
        ensures
            first_looked(old(self)@, final(self)@, key@, cached, res),
            final(self)@.valid(),
    {
        match cached {
            Some(files) => FillAction::Answer(Some(files)),
            None => FillAction::Lock(self.fill_lock(key)),
        }
    }

    /// First look for the listing of `key`: it is there, or else the lock to take before
    /// reading it. Whether a listing that was put in is still there is left open.
    pub fn get_or_insert(&mut self, key: &str) -> (res: FillAction)
        requires
            old(self)@.valid(),
            old(self)@.locks_made < u64::MAX,
        ensures
            exists|cached: Option<Vec<QuarkFile>>|
                {
                    &&& #[trigger] first_looked(old(self)@, final(self)@, key@, cached, res)
                    &&& cached is Some ==> old(self)@.listings.contains_key(key@)
                        && opt_listing_view(cached) == Some(old(self)@.listings[key@])
                },
            !old(self)@.listings.contains_key(key@) ==> res is Lock,
            final(self)@.valid(),
    {
        let cached = self.get(key);
        self.first_look(key, cached)
    }

    /// Where the walk to `path` begins: from `path` up, the first that the listing of its own
    /// directory shows.
    fn start_of(&self, path: String) -> (res: Start)
        ensures
            may_start(self@, path@, res),
        decreases path@.len(),
    {
        proof {
            lemma_parent_is_shorter(path@);
        }
        let listing = match parent(path.as_str()) {
            Some(up) => self.get(up.as_str()),
            None => None,
        };
        let ghost look = opt_listing_view(listing);
        match climb(path.as_str(), listing) {
            Climb::Found(file) => {
                let start = Start::At { file, path };
                proof {
                    let looks = seq![look];
                    assert(may_see(self@, path@, looks)) by {
                        assert(may_see(self@, parent_of(path@)->0, looks.skip(1)));
                    }
                    assert(starts_by(path@, looks, start));
                }
                start
            },
            Climb::Up(up) => {
                let start = self.start_of(up);
                proof {
                    let later = choose|looks: Seq<Option<Seq<FileView>>>| #[trigger]
                        may_see(self@, up@, looks) && starts_by(up@, looks, start);
                    let looks = seq![look] + later;
                    assert(looks.skip(1) =~= later);
                    assert(may_see(self@, path@, looks));
                    assert(starts_by(path@, looks, start));
                }
                start
            },
            Climb::Top => {
                proof {
                    reveal_strlit("/");
                    assert("/"@ =~= seq!['/']);
                    assert(may_see(self@, path@, Seq::empty()));
                }
                if same_text(path.as_str(), "/") {
                    Start::Root
                } else {
                    Start::Nowhere
                }
            },
        }
    }

    /// Asks for the first page of a directory.
    fn visit(&self, fill: &mut Fill, fid: String, path: String) -> (res: FillAction)
        ensures
            final(fill)@ == (FillView {
                reading: Some(
                    ReadingView {
                        fid: fid@,
                        path: path@,
                        stamp: self@.stamp(path@),
                        page_no: 1,
                        files: Seq::empty(),
                    },
                ),
                ..old(fill)@
            }),
            asks_for(res, final(fill)@),
    {
        let stamp = self.stamp(path.as_str());
        let asked = fid.clone();
        fill.reading = Some(Reading { fid, path, stamp, page_no: 1, files: Vec::new() });
        proof {
            assert(listing_view(Seq::<QuarkFile>::empty()) =~= Seq::<FileView>::empty());
        }
        FillAction::ReadPage { fid: asked, page_no: 1, page_size: ONE_PAGE }
    }

    /// Ends a walk.
    fn finish(&self, fill: &mut Fill, fetched: Option<Vec<QuarkFile>>) -> (res: FillAction)
        ensures
            final(fill)@.key == old(fill)@.key,
            final(fill)@.reading is None,
            answers(res, self@, old(fill)@.key, opt_listing_view(fetched)),
    {
        fill.reading = None;
        FillAction::Answer(final_answer(self.get(fill.key.as_str()), fetched))
    }

    /// Begins the walk to `key` at `start`.
    pub fn begin(&self, key: &str, start: Start) -> (res: (Fill, FillAction))
        ensures
            res.0@.key == key@,
            follows(begun(start), self@, res.0@, res.1),
    {
        let mut fill = Fill { key: key.to_owned(), levels: Vec::new(), reading: None };
        assert(fill@.levels =~= Seq::<LevelView>::empty());
        proof {
            reveal_strlit("/");
            assert("/"@ =~= seq!['/']);
        }
        let action = match start {
            Start::Root => self.visit(&mut fill, QuarkFile::new_root().fid, "/".to_owned()),
            Start::At { file, path } => if file.dir {
                self.visit(&mut fill, file.fid, path)
            } else {
                self.finish(&mut fill, None)
            },
            Start::Nowhere => self.finish(&mut fill, None),
        };
        (fill, action)
    }

    /// Goes on from the second look for the listing of `key`, taken with its lock held: with
    /// what it found, or else with a walk that begins at `start`.
    pub fn second_look(&self, key: &str, cached: Option<Vec<QuarkFile>>, start: Start) -> (res: (
        Fill,
        FillAction,
    ))
        ensures
            res.0@.key == key@,
            second_looked(self@, cached, start, res.0@, res.1),
    {
        match cached {
            Some(files) => {
                let fill = Fill { key: key.to_owned(), levels: Vec::new(), reading: None };
                (fill, FillAction::Answer(Some(files)))
            },
            None => self.begin(key, start),
        }
    }

    /// With the lock for `key` held: whoever held it before may have filled the entry, so look
    /// again; only then begin the walk. Whether a listing that was put in is still there is left
    /// open.
    pub fn start_fill(&self, key: &str) -> (res: (Fill, FillAction))
        ensures
            res.0@.key == key@,
            exists|cached: Option<Vec<QuarkFile>>, start: Start|
                {
                    &&& #[trigger] second_looked(self@, cached, start, res.0@, res.1)
                    &&& cached is Some ==> self@.listings.contains_key(key@) && opt_listing_view(
                        cached,
                    ) == Some(self@.listings[key@])
                    &&& cached is None ==> may_start(self@, key@, start)
                },
    {
        let cached = self.get(key);
        let start = if cached.is_some() {
            Start::Nowhere
        } else {
            self.start_of(key.to_owned())
        };
        self.second_look(key, cached, start)
    }

    /// Goes on with a walk after the page that it asked for: the entries of that page and how
    /// many the directory has, or `None` if it could not be read.
    pub fn dfs(&mut self, fill: &mut Fill, page: Option<(Vec<QuarkFile>, u32)>) -> (res: FillAction)
        requires
            old(fill)@.reading is Some,
        ensures
            final(fill)@.key == old(fill)@.key,
            ({
                let given = match page {
                    Some((list, total)) => Some((listing_view(list@), total)),
                    None => None,
                };
                let r = old(fill)@.reading->0;
                &&& final(self)@ == match completed(old(fill)@, given) {
                    Some(files) => old(self)@.kept(r.path, files, r.stamp),
                    None => old(self)@,
                }
                &&& follows(after_page(old(fill)@, given), final(self)@, final(fill)@, res)
            }),
            old(self)@.valid() ==> final(self)@.valid(),
    {
        let ghost before = fill@;
        let mut reading = match fill.reading.take() {
            Some(r) => r,
            None => {
                return self.finish(fill, None);
            },
        };
        if let Some((list, total)) = page {
            let entries = list.len();
            let ghost page_text = placed(listing_view(list@), reading.path@);
            let ghost sooner = reading.files@;
            let mut list = place(list, reading.path.as_str());
            let ghost added = list@;
            reading.files.append(&mut list);
            assert(listing_view(sooner + added) =~= listing_view(sooner) + page_text);
            if !(entries < ONE_PAGE as usize || reading.page_no >= total / ONE_PAGE + 1
                || reading.page_no >= LAST_PAGE) {
                reading.page_no = reading.page_no + 1;
                let fid = reading.fid.clone();
                let page_no = reading.page_no;
                fill.reading = Some(reading);
                return FillAction::ReadPage { fid, page_no, page_size: ONE_PAGE };
            }
            let Reading { fid: _, path, stamp, page_no: _, files } = reading;
            let kept = copy_listing(&files);
            self.insert_if_current(path.clone(), kept, stamp);
            if same_text(path.as_str(), fill.key.as_str()) {
                return self.finish(fill, Some(files));
            }
            let ghost whole = files@;
            let level = Level { files: reversed(files), path };
            assert(level.files@.reverse() =~= whole);
            fill.levels.push(level);
            assert(fill@.levels =~= before.levels.push(level@));
        }
        match fill.next_child() {
            Some((file, path)) => self.visit(fill, file.fid, path),
            None => self.finish(fill, None),
        }
    }
}

/// The rest of a directory's listing from one page on, as the drive `d` has it.
pub open spec fn collected(
    d: spec_fn(Seq<char>, u32) -> Option<(Seq<FileView>, u32)>,
    fid: Seq<char>,
    page_no: u32,
    path: Seq<char>,
) -> Option<Seq<FileView>>
    decreases LAST_PAGE - page_no,
{
    match d(fid, page_no) {
        None => None,
        Some((list, total)) => if is_last_page(list.len() as int, page_no, total) {
            Some(placed(list, path))
        } else {
            match collected(d, fid, (page_no + 1) as u32, path) {
                None => None,
                Some(rest) => Some(placed(list, path) + rest),
            }
        },
    }
}

/// What `d` lists for `key`, looked for in the directory `file` at `path` and below.
pub open spec fn listed_below(
    d: spec_fn(Seq<char>, u32) -> Option<(Seq<FileView>, u32)>,
    file: FileView,
    key: Seq<char>,
    path: Seq<char>,
) -> Option<Seq<FileView>>
    decreases key.len() - path.len(), 1nat, 0nat,
{
    if !file.dir {
        None
    } else {
        match collected(d, file.fid, 1, path) {
            None => None,
            Some(files) => if path == key {
                Some(files)
            } else {
                listed_among(d, files, key, path)
            },
        }
    }
}

/// What `d` lists for `key`, looked for below each of the entries `files` of the directory
/// `path` in turn.
pub open spec fn listed_among(
    d: spec_fn(Seq<char>, u32) -> Option<(Seq<FileView>, u32)>,
    files: Seq<FileView>,
    key: Seq<char>,
    path: Seq<char>,
) -> Option<Seq<FileView>>
    decreases key.len() - path.len(), 0nat, files.len(),
{
    if files.len() == 0 {
        None
    } else {
        let p = child_path(path, files[0].file_name);
        let first = if leads_on(files[0], path, key) && p.len() > path.len() {
            listed_below(d, files[0], key, p)
        } else {
            None
        };
        if first is Some {
            first
        } else {
            listed_among(d, files.skip(1), key, path)
        }
    }
}

/// What `d` lists for `key`, looked for among what the levels of a walk have left to try.
pub open spec fn listed_above(
    d: spec_fn(Seq<char>, u32) -> Option<(Seq<FileView>, u32)>,
    levels: Seq<LevelView>,
    key: Seq<char>,
) -> Option<Seq<FileView>>
    decreases levels.len(),
{
    if levels.len() == 0 {
        None
    } else {
        let first = listed_among(d, levels.last().rest, key, levels.last().path);
        if first is Some {
            first
        } else {
            listed_above(d, levels.drop_last(), key)
        }
    }
}

/// What a walk in the state `f` is going to find on the drive `d`.
pub open spec fn outcome(
    d: spec_fn(Seq<char>, u32) -> Option<(Seq<FileView>, u32)>,
    f: FillView,
) -> Option<Seq<FileView>> {
    match f.reading {
        None => listed_above(d, f.levels, f.key),
        Some(r) => match collected(d, r.fid, r.page_no, r.path) {
            None => listed_above(d, f.levels, f.key),
            Some(more) => if r.path == f.key {
                Some(r.files + more)
            } else {
                listed_above(
                    d,
                    f.levels.push(LevelView { rest: r.files + more, path: r.path }),
                    f.key,
                )
            },
        },
    }
}

/// Whether every entry has a name.
pub open spec fn all_named(files: Seq<FileView>) -> bool {
    forall|i: int| 0 <= i < files.len() ==> (#[trigger] files[i]).file_name.len() > 0
}

/// Whether every entry that a walk has seen has a name.
pub open spec fn walk_named(f: FillView) -> bool {
    &&& forall|i: int| 0 <= i < f.levels.len() ==> all_named((#[trigger] f.levels[i]).rest)
    &&& f.reading matches Some(r) ==> all_named(r.files)
}

/// Whether every entry that the drive `d` lists has a name.
pub open spec fn drive_named(d: spec_fn(Seq<char>, u32) -> Option<(Seq<FileView>, u32)>) -> bool {
    forall|fid: Seq<char>, page_no: u32|
        (#[trigger] d(fid, page_no)) matches Some(page) ==> all_named(page.0)
}

proof fn lemma_next_visit(
    d: spec_fn(Seq<char>, u32) -> Option<(Seq<FileView>, u32)>,
    levels: Seq<LevelView>,
    key: Seq<char>,
)
    requires
        forall|i: int| 0 <= i < levels.len() ==> all_named((#[trigger] levels[i]).rest),
    ensures
        match next_visit(levels, key) {
            None => listed_above(d, levels, key) is None,
            Some((left, file, path)) => {
                &&& file.dir
                &&& forall|i: int| 0 <= i < left.len() ==> all_named((#[trigger] left[i]).rest)
                &&& listed_above(d, levels, key) == (if listed_below(d, file, key, path) is Some {
                    listed_below(d, file, key, path)
                } else {
                    listed_above(d, left, key)
                })
            },
        },
    decreases levels.len(), levels.last().rest.len(),
{
    if levels.len() > 0 {
        let level = levels.last();
        let above = levels.drop_last();
        assert(forall|i: int| 0 <= i < above.len() ==> above[i] == #[trigger] levels[i]);
        if level.rest.len() == 0 {
            lemma_next_visit(d, above, key);
        } else {
            let file = level.rest[0];
            let shorter = LevelView { rest: level.rest.skip(1), path: level.path };
            let left = above.push(shorter);
            assert(all_named(level.rest)) by {
                assert(levels[levels.len() - 1] == level);
            }
            assert(all_named(shorter.rest)) by {
                assert forall|i: int| 0 <= i < shorter.rest.len() implies (
                #[trigger] shorter.rest[i]).file_name.len() > 0 by {
                    assert(shorter.rest[i] == level.rest[i + 1]);
                }
            }
            assert(forall|i: int|
                0 <= i < left.len() ==> all_named((#[trigger] left[i]).rest)) by {
                assert forall|i: int| 0 <= i < left.len() implies all_named(
                    (#[trigger] left[i]).rest,
                ) by {
                    if i < above.len() {
                        assert(left[i] == levels[i]);
                    }
                }
            }
            assert(left.drop_last() =~= above);
            assert(left.last() == shorter);
            assert(child_path(level.path, file.file_name).len() > level.path.len());
            if !leads_on(file, level.path, key) {
                lemma_next_visit(d, left, key);
            }
        }
    }
}

/// A walk looks for the same thing from step to step: if every page that it asks for comes
/// from one drive `d`, what it is going to find never changes, and what it ends with is that.
/// An entry without a name at the top would make the walk go round in a circle.
pub proof fn law_walk_finds_what_the_drive_lists(
    d: spec_fn(Seq<char>, u32) -> Option<(Seq<FileView>, u32)>,
    cache: CacheView,
    f: FillView,
)
    requires
        f.reading is Some,
        walk_named(f),
        drive_named(d),
    ensures
        match after_page(f, d(f.reading->0.fid, f.reading->0.page_no)) {
            Next::Page(g) => walk_named(g) && outcome(d, g) == outcome(d, f),
            Next::Visit { levels, file, path } => {
                let g = visiting(cache, f.key, levels, file, path);
                walk_named(g) && outcome(d, g) == outcome(d, f)
            },
            Next::Finished(found) => found == outcome(d, f),
        },
{
    let r = f.reading->0;
    match d(r.fid, r.page_no) {
        None => {
            lemma_next_visit(d, f.levels, f.key);
            lemma_visit(d, cache, f.levels, f.key);
        },
        Some((list, total)) => {
            let files = r.files + placed(list, r.path);
            assert(all_named(files)) by {
                assert forall|i: int| 0 <= i < files.len() implies (
                #[trigger] files[i]).file_name.len() > 0 by {
                    if i < r.files.len() {
                        assert(files[i] == r.files[i]);
                    } else {
                        assert(list[i - r.files.len()].file_name.len() > 0);
                    }
                }
            }
            if !is_last_page(list.len() as int, r.page_no, total) {
                match collected(d, r.fid, (r.page_no + 1) as u32, r.path) {
                    None => {},
                    Some(rest) => {
                        assert(r.files + (placed(list, r.path) + rest) =~= files + rest);
                    },
                }
            } else if r.path != f.key {
                let levels = f.levels.push(LevelView { rest: files, path: r.path });
                assert forall|i: int| 0 <= i < levels.len() implies all_named(
                    (#[trigger] levels[i]).rest,
                ) by {
                    if i < f.levels.len() {
                        assert(levels[i] == f.levels[i]);
                    }
                }
                lemma_next_visit(d, levels, f.key);
                lemma_visit(d, cache, levels, f.key);
            }
        },
    }
}

proof fn lemma_visit(
    d: spec_fn(Seq<char>, u32) -> Option<(Seq<FileView>, u32)>,
    cache: CacheView,
    levels: Seq<LevelView>,
    key: Seq<char>,
)
    requires
        forall|i: int| 0 <= i < levels.len() ==> all_named((#[trigger] levels[i]).rest),
    ensures
        next_visit(levels, key) matches Some((left, file, path)) ==> {
            let g = visiting(cache, key, left, file, path);
            walk_named(g) && outcome(d, g) == listed_above(d, levels, key)
        },
{
    lemma_next_visit(d, levels, key);
    if let Some((left, file, path)) = next_visit(levels, key) {
        law_walk_starts_with_all_below(d, cache, left, file, key, path);
    }
}

/// A walk that begins to read a directory is going to find what the drive lists at or below
/// that directory, or else what its levels have left.
pub proof fn law_walk_starts_with_all_below(
    d: spec_fn(Seq<char>, u32) -> Option<(Seq<FileView>, u32)>,
    cache: CacheView,
    levels: Seq<LevelView>,
    file: FileView,
    key: Seq<char>,
    path: Seq<char>,
)
    requires
        file.dir,
    ensures
        outcome(d, visiting(cache, key, levels, file, path)) == (if listed_below(
            d,
            file,
            key,
            path,
        ) is Some {
            listed_below(d, file, key, path)
        } else {
            listed_above(d, levels, key)
        }),
{
    if let Some(files) = collected(d, file.fid, 1, path) {
        assert(Seq::<FileView>::empty() + files =~= files);
        let deeper = levels.push(LevelView { rest: files, path });
        assert(deeper.drop_last() =~= levels);
        assert(deeper.last().rest == files);
    }
}

/// Whether every entry of a listing is marked as found in `path`.
pub open spec fn placed_in(files: Seq<FileView>, path: Seq<char>) -> bool {
    forall|i: int| 0 <= i < files.len() ==> (#[trigger] files[i]).parent_path == Some(path)
}

/// Whatever a walk writes back to the cache, and whatever it finds itself, is marked with the
/// directory it was found in.
pub proof fn law_listings_name_their_directory(f: FillView, page: Option<(Seq<FileView>, u32)>)
    requires
        f.reading is Some,
        placed_in(f.reading->0.files, f.reading->0.path),
    ensures
        completed(f, page) matches Some(files) ==> placed_in(files, f.reading->0.path),
        match after_page(f, page) {
            Next::Page(g) => g.reading matches Some(r) && placed_in(r.files, r.path),
            Next::Visit { .. } => true,
            Next::Finished(found) => found matches Some(files) ==> placed_in(files, f.key),
        },
{
}

/// Whether the pages that a walk has read of a directory are those that the drive `d` lists
/// first.
pub open spec fn reads_from(
    d: spec_fn(Seq<char>, u32) -> Option<(Seq<FileView>, u32)>,
    f: FillView,
) -> bool {
    f.reading matches Some(r) ==> collected(d, r.fid, 1, r.path) == match collected(
        d,
        r.fid,
        r.page_no,
        r.path,
    ) {
        Some(more) => Some(r.files + more),
        None => None,
    }
}

/// If every page comes from one drive `d`, each listing that a walk writes back to the cache is
/// the whole listing that `d` has of that directory.
pub proof fn law_kept_listing_is_the_drives(
    d: spec_fn(Seq<char>, u32) -> Option<(Seq<FileView>, u32)>,
    cache: CacheView,
    f: FillView,
)
    requires
        f.reading is Some,
        reads_from(d, f),
    ensures
        ({
            let r = f.reading->0;
            let page = d(r.fid, r.page_no);
            &&& completed(f, page) is Some ==> completed(f, page) == collected(
                d,
                r.fid,
                1,
                r.path,
            )
            &&& match after_page(f, page) {
                Next::Page(g) => reads_from(d, g),
                Next::Visit { levels, file, path } => reads_from(
                    d,
                    visiting(cache, f.key, levels, file, path),
                ),
                Next::Finished(_) => true,
            }
        }),
{
    let r = f.reading->0;
    if let Some((list, total)) = d(r.fid, r.page_no) {
        if !is_last_page(list.len() as int, r.page_no, total) {
            if let Some(rest) = collected(d, r.fid, (r.page_no + 1) as u32, r.path) {
                assert(r.files + (placed(list, r.path) + rest) =~= r.files + placed(list, r.path)
                    + rest);
            }
        }
    }
    if let Next::Visit { levels, file, path } = after_page(f, d(r.fid, r.page_no)) {
        if let Some(all) = collected(d, file.fid, 1, path) {
            assert(Seq::<FileView>::empty() + all =~= all);
        }
    }
}

/// Where a walk begins is known: at a directory on the way to `key` that the listing of its own
/// parent names, or else at the top if the path leads there.
pub proof fn law_walk_begins_where_it_is_known(cache: CacheView, key: Seq<char>, start: Start)
    requires
        may_start(cache, key, start),
    ensures
        match start {
            Start::Root => top_of(key) == seq!['/'],
            Start::Nowhere => top_of(key) != seq!['/'],
            Start::At { file, path } => {
                &&& climbs_to(key, path@)
                &&& parent_of(path@) is Some
                &&& cache.listings.contains_key(parent_of(path@)->0)
                &&& known_by(path@, Some(cache.listings[parent_of(path@)->0])) == Some(file@)
            },
        },
{
    let looks = choose|looks: Seq<Option<Seq<FileView>>>| #[trigger]
        may_see(cache, key, looks) && starts_by(key, looks, start);
    lemma_start(cache, key, looks, start);
}

proof fn lemma_start(
    cache: CacheView,
    path: Seq<char>,
    looks: Seq<Option<Seq<FileView>>>,
    start: Start,
)
    requires
        may_see(cache, path, looks),
        starts_by(path, looks, start),
    ensures
        match start {
            Start::Root => top_of(path) == seq!['/'],
            Start::Nowhere => top_of(path) != seq!['/'],
            Start::At { file, path: p } => {
                &&& climbs_to(path, p@)
                &&& parent_of(p@) is Some
                &&& cache.listings.contains_key(parent_of(p@)->0)
                &&& known_by(p@, Some(cache.listings[parent_of(p@)->0])) == Some(file@)
            },
        },
    decreases path.len(),
{
    lemma_parent_is_shorter(path);
    if let Some(up) = parent_of(path) {
        if known_by(path, looks[0]) is None {
            lemma_start(cache, up, looks.skip(1), start);
        }
    }
}

/// One caller's turn with the lock of a directory: what it found when it looked, and what came
/// of it.
pub struct Turn {
    /// The cache when the caller looked.
    pub before: CacheView,
    /// The cache when the caller gave the lock back.
    pub after: CacheView,
    pub cached: Option<Vec<QuarkFile>>,
    pub start: Start,
    pub fill: FillView,
    pub action: FillAction,
}

impl Turn {
    /// Whether the turn went as [`Cache::start_fill`] has it, with a look that finds what is
    /// there. A caller that begins no walk leaves the cache as it is.
    pub open spec fn is_fair(self, key: Seq<char>) -> bool {
        &&& second_looked(self.before, self.cached, self.start, self.fill, self.action)
        &&& self.before.listings.contains_key(key) ==> opt_listing_view(self.cached) == Some(
            self.before.listings[key],
        )
        &&& self.cached is Some ==> self.after == self.before
    }
}

/// Callers that miss on one directory are sent to one lock, also after the first of them. Once
/// the walk of one of them has kept its listing, every caller whose turn comes after is answered
/// with that listing and asks for no page: however many they are, the directory is read once.
pub proof fn law_callers_share_one_read(
    v: CacheView,
    key: Seq<char>,
    files: Seq<FileView>,
    stamp: (u64, u64),
    turns: Seq<Turn>,
    i: int,
)
    requires
        v.stamp(key) == stamp,
        0 <= i < turns.len(),
        turns[0].before == v.kept(key, files, stamp),
        forall|k: int| 0 <= k < turns.len() ==> (#[trigger] turns[k]).is_fair(key),
        forall|k: int|
            0 < k < turns.len() ==> (#[trigger] turns[k]).before == turns[k - 1].after,
    ensures
        v.with_lock(key).lock_for(key) == v.lock_for(key),
        v.kept(key, files, stamp).with_lock(key).lock_for(key) == v.lock_for(key),
        holds(turns[i].action, files),
        turns[i].fill.reading is None,
        turns[i].after == v.kept(key, files, stamp),
    decreases i,
{
    if i > 0 {
        law_callers_share_one_read(v, key, files, stamp, turns, i - 1);
        assert(turns[i].before == turns[i - 1].after);
    }
    assert(turns[i].is_fair(key));
}

/// The caller whose walk read the directory to its end, with no invalidation since the walk
/// began to read it, is answered with what it read, and that is what is kept.
pub proof fn law_reader_is_answered_with_what_it_read(
    v: CacheView,
    f: FillView,
    page: Option<(Seq<FileView>, u32)>,
    files: Seq<FileView>,
    action: FillAction,
)
    requires
        f.reading is Some,
        f.reading->0.path == f.key,
        completed(f, page) == Some(files),
        v.stamp(f.key) == f.reading->0.stamp,
        answers(action, v.kept(f.key, files, f.reading->0.stamp), f.key, Some(files)),
    ensures
        after_page(f, page) == Next::Finished(Some(files)),
        v.kept(f.key, files, f.reading->0.stamp) == v.holding(f.key, files),
        holds(action, files),
{
}

/// Whether two records agree in everything but the directory they were found in.
pub open spec fn same_record(a: FileView, b: FileView) -> bool {
    &&& a.fid == b.fid
    &&& a.file_name == b.file_name
    &&& a.pdir_fid == b.pdir_fid
    &&& a.size == b.size
    &&& a.format_type == b.format_type
    &&& a.status == b.status
    &&& a.dir == b.dir
    &&& a.file == b.file
    &&& a.content_hash == b.content_hash
    &&& a.created_at == b.created_at
    &&& a.updated_at == b.updated_at
    &&& a.download_url == b.download_url
}

/// Whether `files` is `before` followed by the records of `list`, each as it was given but for
/// the directory `path` that it was found in.
pub open spec fn follows_as_given(
    before: Seq<FileView>,
    list: Seq<FileView>,
    path: Seq<char>,
    files: Seq<FileView>,
) -> bool {
    &&& files.len() == before.len() + list.len()
    &&& forall|i: int| 0 <= i < before.len() ==> #[trigger] files[i] == before[i]
    &&& forall|i: int|
        0 <= i < list.len() ==> {
            &&& same_record(#[trigger] files[before.len() + i], list[i])
            &&& files[before.len() + i].parent_path == Some(path)
        }
}

/// A page goes behind those before it, every record as the drive gave it but for the directory
/// it was found in: in what is kept of a directory, in what a walk answers with, and in what it
/// goes on with. The next page asked for is the next of the same directory, and what was read is
/// kept under the directory's own path once no page is left.
pub proof fn law_records_are_kept_as_given(f: FillView, list: Seq<FileView>, total: u32)
    requires
        f.reading is Some,
    ensures
        ({
            let r = f.reading->0;
            let page = Some((list, total));
            &&& completed(f, page) matches Some(files) ==> follows_as_given(
                r.files,
                list,
                r.path,
                files,
            )
            &&& match after_page(f, page) {
                Next::Page(g) => {
                    &&& completed(f, page) is None
                    &&& g.key == f.key
                    &&& g.levels == f.levels
                    &&& g.reading matches Some(s) && {
                        &&& s.fid == r.fid
                        &&& s.path == r.path
                        &&& s.stamp == r.stamp
                        &&& r.page_no < 20 && s.page_no == r.page_no + 1
                        &&& follows_as_given(r.files, list, r.path, s.files)
                    }
                },
                Next::Finished(Some(files)) => {
                    &&& r.path == f.key
                    &&& completed(f, page) == Some(files)
                    &&& follows_as_given(r.files, list, r.path, files)
                },
                _ => completed(f, page) is Some && r.path != f.key,
            }
        }),
{
    let files = f.reading->0.files + placed(list, f.reading->0.path);
    assert(follows_as_given(f.reading->0.files, list, f.reading->0.path, files));
}

/// Another page is asked for exactly if this one was full, the directory may have more than was
/// read so far, and the drive serves it.
pub proof fn law_pages_are_read_to_the_end(f: FillView, list: Seq<FileView>, total: u32)
    requires
        f.reading is Some,
    ensures
        after_page(f, Some((list, total))) is Page <==> list.len() >= 500
            && f.reading->0.page_no * 500 <= total && f.reading->0.page_no < 20,
        completed(f, Some((list, total))) is Some <==> !(after_page(f, Some((list, total)))
            is Page),
        completed(f, None) is None,
{
}

/// A directory on the way is read from its first page on, by the identifier that its own record
/// gives, and under the marker that its path has at that time.
pub proof fn law_directory_is_read_from_its_beginning(
    cache: CacheView,
    key: Seq<char>,
    levels: Seq<LevelView>,
    file: FileView,
    path: Seq<char>,
    start: Start,
)
    ensures
        ({
            let f = visiting(cache, key, levels, file, path);
            &&& f.key == key
            &&& f.levels == levels
            &&& f.reading matches Some(r) && {
                &&& r.fid == file.fid
                &&& r.path == path
                &&& r.page_no == 1
                &&& r.files.len() == 0
                &&& r.stamp == cache.stamp(path)
            }
        }),
        match start {
            Start::Root => begun(start) matches Next::Visit { levels: none, file: top, path: p }
                && none.len() == 0 && top.fid == "0"@ && p == seq!['/'],
            Start::At { file: at, path: p } => if at.dir {
                begun(start) matches Next::Visit { levels: none, file: dir, path: q } && none.len()
                    == 0 && dir == at@ && q == p@
            } else {
                begun(start) == Next::Finished(None)
            },
            Start::Nowhere => begun(start) == Next::Finished(None),
        },
{
}

/// A walk goes on only into a directory, and only into one whose path is a leading part of the
/// path it is looking for. That path ends with the name.
pub proof fn law_walk_goes_into_directories_on_the_way(levels: Seq<LevelView>, key: Seq<char>)
    ensures
        next_visit(levels, key) matches Some((left, file, path)) ==> {
            &&& file.dir
            &&& path.len() <= key.len()
            &&& path == key.take(path.len() as int)
            &&& path.len() > file.file_name.len()
            &&& path.skip(path.len() - file.file_name.len()) == file.file_name
        },
    decreases levels.len(), levels.last().rest.len(),
{
    if levels.len() > 0 {
        let level = levels.last();
        if level.rest.len() == 0 {
            law_walk_goes_into_directories_on_the_way(levels.drop_last(), key);
        } else {
            let file = level.rest[0];
            let shorter = LevelView { rest: level.rest.skip(1), path: level.path };
            let left = levels.drop_last().push(shorter);
            assert(left.last() == shorter);
            if leads_on(file, level.path, key) {
                let up = level.path;
                let path = child_path(up, file.file_name);
                assert(key.subrange(0, path.len() as int) =~= key.take(path.len() as int));
                assert(path.skip(path.len() - file.file_name.len()) =~= file.file_name);
            } else {
                law_walk_goes_into_directories_on_the_way(left, key);
            }
        }
    }
}

/// A walk passes over an entry exactly if it is no directory, or if its path, which is the one
/// above, a separator and the name, is no leading part of the path looked for.
pub proof fn law_no_way_is_passed_over(
    levels: Seq<LevelView>,
    level: LevelView,
    key: Seq<char>,
)
    requires
        level.rest.len() > 0,
    ensures
        ({
            let file = level.rest[0];
            let path = level.path + (if level.path == seq!['/'] {
                Seq::empty()
            } else {
                seq!['/']
            }) + file.file_name;
            let left = levels.push(LevelView { rest: level.rest.skip(1), path: level.path });
            next_visit(levels.push(level), key) == if file.dir && path.len() <= key.len() && path
                == key.take(path.len() as int) {
                Some((left, file, path))
            } else {
                next_visit(left, key)
            }
        }),
        next_visit(
            levels.push(LevelView { rest: Seq::empty(), path: level.path }),
            key,
        ) == next_visit(levels, key),
        next_visit(Seq::empty(), key) is None,
{
    let file = level.rest[0];
    let path = level.path + (if level.path == seq!['/'] {
        Seq::empty()
    } else {
        seq!['/']
    }) + file.file_name;
    assert(path =~= child_path(level.path, file.file_name));
    assert(levels.push(level).drop_last() =~= levels);
    assert(levels.push(LevelView { rest: Seq::empty(), path: level.path }).drop_last() =~= levels);
    if path.len() <= key.len() {
        assert(key.subrange(0, path.len() as int) =~= key.take(path.len() as int));
    }
}

/// What a look shows of a path is the first record of its name there.
pub proof fn law_look_shows_the_first_of_the_name(
    path: Seq<char>,
    look: Option<Seq<FileView>>,
    i: int,
)
    ensures
        known_by(path, look) matches Some(record) ==> (look matches Some(files) && file_name_of(
            path,
        ) == Some(record.file_name) && files.contains(record)),
        (look, file_name_of(path)) matches (Some(files), Some(name)) ==> {
            &&& (known_by(path, look) is Some <==> exists|k: int|
                0 <= k < files.len() && (#[trigger] files[k]).file_name == name)
            &&& 0 <= i < files.len() && files[i].file_name == name && (forall|j: int|
                0 <= j < i ==> (#[trigger] files[j]).file_name != name) ==> known_by(path, look)
                == Some(files[i])
        },
{
    if let (Some(files), Some(name)) = (look, file_name_of(path)) {
        lemma_first_named(files, name);
        assert(0 <= i < files.len() && files[i].file_name == name && (forall|j: int|
            0 <= j < i ==> (#[trigger] files[j]).file_name != name) ==> first_named_at(
            files,
            name,
            i,
        ));
        lemma_first_named_is_listed(files, name);
    }
}

proof fn lemma_first_named_is_listed(files: Seq<FileView>, name: Seq<char>)
    ensures
        first_named(files, name) matches Some(record) ==> record.file_name == name
            && files.contains(record),
    decreases files.len(),
{
    if files.len() > 0 {
        if files[0].file_name == name {
            assert(files.contains(files[0]));
        } else {
            lemma_first_named_is_listed(files.skip(1), name);
            if let Some(record) = first_named(files.skip(1), name) {
                let k = choose|k: int| 0 <= k < files.skip(1).len() && files.skip(1)[k] == record;
                assert(files[k + 1] == record);
            }
        }
    }
}

/// A walk that is over answers with nothing but what it found or what the cache has of the path.
pub proof fn law_answer_is_found_or_cached(
    action: FillAction,
    cache: CacheView,
    f: FillView,
    fetched: Option<Seq<FileView>>,
)
    requires
        follows(Next::Finished(fetched), cache, f, action),
    ensures
        f.reading is None,
        action matches FillAction::Answer(files) && {
            &&& !cache.listings.contains_key(f.key) ==> opt_listing_view(files) == fetched
            &&& opt_listing_view(files) != fetched ==> opt_listing_view(files) == Some(
                cache.listings[f.key],
            )
        },
{
}

/// A caller whose first look found the listing is answered with it, and nothing changes. One
/// that found none is sent to the lock of the directory, and only that lock is new.
pub proof fn law_first_look_answers_or_locks(
    before: CacheView,
    after: CacheView,
    key: Seq<char>,
    cached: Option<Vec<QuarkFile>>,
    action: FillAction,
)
    requires
        before.valid(),
        before.locks_made < u64::MAX,
        first_looked(before, after, key, cached, action),
    ensures
        match cached {
            Some(files) => after == before && (action matches FillAction::Answer(Some(given))
                && given == files),
            None => {
                &&& action matches FillAction::Lock(number) && after.fills.contains_key(key)
                    && after.fills[key] == number
                &&& after.listings == before.listings
                &&& after.stamp(key) == before.stamp(key)
                &&& before.fills.contains_key(key) ==> after == before
            },
        },
{
}

/// A caller whose second look found the listing is answered with it and reads nothing. One that
/// found none reads where the walk begins, from the first page on, or is answered at once if it
/// begins nowhere.
pub proof fn law_second_look_answers_or_reads(
    cache: CacheView,
    cached: Option<Vec<QuarkFile>>,
    start: Start,
    f: FillView,
    action: FillAction,
)
    requires
        second_looked(cache, cached, start, f, action),
    ensures
        match (cached, start) {
            (Some(files), _) => f.reading is None && (action matches FillAction::Answer(
                Some(given),
            ) && given == files),
            (None, Start::Root) => f.levels.len() == 0 && (f.reading matches Some(r) && r.path
                == seq!['/'] && r.page_no == 1) && (action matches FillAction::ReadPage {
                fid,
                page_no,
                page_size,
            } && fid@ == "0"@ && page_no == 1 && page_size == 500),
            (None, Start::At { file, path }) => if file.dir {
                f.levels.len() == 0 && (f.reading matches Some(r) && r.path == path@ && r.page_no
                    == 1) && (action matches FillAction::ReadPage { fid, page_no, page_size }
                    && fid@ == file.fid@ && page_no == 1 && page_size == 500)
            } else {
                f.reading is None && action is Answer
            },
            (None, Start::Nowhere) => f.reading is None && action is Answer,
        },
{
}

/// A walk that goes on asks for just the page that it waits for, with as many entries as pages
/// have.
pub proof fn law_walk_asks_for_the_page_it_waits_for(
    next: Next,
    cache: CacheView,
    f: FillView,
    action: FillAction,
)
    requires
        follows(next, cache, f, action),
        !(next is Finished),
    ensures
        f.reading matches Some(r) && (action matches FillAction::ReadPage { fid, page_no, page_size }
            && fid@ == r.fid && page_no == r.page_no && page_size == 500),
        next matches Next::Page(g) ==> f == g,
        next matches Next::Visit { levels, file, path } ==> f.levels == levels && (f.reading
            matches Some(r) && r.fid == file.fid && r.path == path && r.page_no == 1
            && r.files.len() == 0 && r.stamp == cache.stamp(path)),
{
}

/// The directory so many steps above a path.
pub open spec fn above(path: Seq<char>, steps: nat) -> Option<Seq<char>>
    decreases steps,
{
    if steps == 0 {
        Some(path)
    } else {
        match above(path, (steps - 1) as nat) {
            Some(up) => parent_of(up),
            None => None,
        }
    }
}

proof fn lemma_above(path: Seq<char>, steps: nat)
    requires
        steps > 0,
    ensures
        above(path, steps) == match parent_of(path) {
            Some(up) => above(up, (steps - 1) as nat),
            None => None,
        },
    decreases steps,
{
    if steps > 1 {
        lemma_above(path, (steps - 1) as nat);
    } else {
        assert(above(path, 0) == Some(path));
        assert(above(path, 1) == parent_of(path));
    }
}

/// A walk begins as deep as its looks let it: at the first of the path and the directories above
/// it that its look shows, with what that look shows of it. Where none is shown, every directory
/// up to the end was looked at, and the walk begins at the top if that is where it ends.
pub proof fn law_walk_begins_as_deep_as_is_known(
    path: Seq<char>,
    looks: Seq<Option<Seq<FileView>>>,
    start: Start,
    n: nat,
)
    requires
        starts_by(path, looks, start),
    ensures
        n < looks.len() ==> (above(path, n) matches Some(at) && match known_by(
            at,
            looks[n as int],
        ) {
            Some(record) => n == looks.len() - 1 && (start matches Start::At { file, path: p }
                && file@ == record && p@ == at),
            None => n < looks.len() - 1 || !(start is At),
        }),
        !(start is At) ==> (above(path, looks.len()) matches Some(end) && parent_of(end) is None
            && (start is Root <==> end == seq!['/'])),
    decreases looks.len(),
{
    if let Some(up) = parent_of(path) {
        if known_by(path, looks[0]) is None {
            let later = looks.skip(1);
            law_walk_begins_as_deep_as_is_known(
                up,
                later,
                start,
                if n > 0 {
                    (n - 1) as nat
                } else {
                    0
                },
            );
            lemma_above(path, looks.len());
            if n > 0 {
                lemma_above(path, n);
                if n < looks.len() {
                    assert(later[n - 1] == looks[n as int]);
                }
            }
            reveal_with_fuel(starts_by, 2);
        }
    }
}

/// A look of the cache at a directory finds what it has of the directory, or nothing.
pub proof fn law_looks_are_at_the_directories_above(
    cache: CacheView,
    path: Seq<char>,
    looks: Seq<Option<Seq<FileView>>>,
    n: nat,
)
    requires
        may_see(cache, path, looks),
        n < looks.len(),
    ensures
        above(path, n + 1) matches Some(dir) && (looks[n as int] matches Some(files)
            ==> cache.listings.contains_key(dir) && cache.listings[dir] == files),
    decreases looks.len(),
{
    lemma_above(path, n + 1);
    if n > 0 {
        law_looks_are_at_the_directories_above(
            cache,
            parent_of(path)->0,
            looks.skip(1),
            (n - 1) as nat,
        );
    }
}

}

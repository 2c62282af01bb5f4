//! The directory cache: listings of directories, and the bookkeeping that decides which of
//! them may still be kept and who may fill an entry.
//!
//! Filling an entry takes two steps, reading the listing from the drive and writing it back,
//! and an invalidation can land in between. A marker taken before the read tells the two
//! orders apart, so that a listing older than an invalidation is never left in the cache.
use vstd::prelude::*;
use dashmap::DashMap;
use moka::sync::Cache as MokaCache;
#[allow(unused_imports)]
use crate::file::{listing_view, FileView};
use crate::file::QuarkFile;
#[allow(unused_imports)]
use crate::outside::{
    leaves_latest, limits_of, listings_get, listings_in, listings_insert, listings_new,
    listings_remove, listings_remove_older, longest_ttl, numbers_clear, numbers_get, numbers_in,
    numbers_insert, numbers_new, written_in, wrote_last,
};
#[allow(unused_imports)]
use crate::path::{parent, parent_of};

verus! {

/// Listings of directories by path, with the markers that tell which of them are current.
pub struct Cache {
    inner: MokaCache<String, Vec<QuarkFile>>,
    generations: DashMap<String, u64>,
    epoch: u64,
    fills: DashMap<String, u64>,
    locks_made: u64,
}

/// What a [`Cache`] knows.
#[verifier::ext_equal]
pub struct CacheView {
    /// The listings put in and not taken out; the cache may have dropped some on its own.
    pub listings: Map<Seq<char>, Seq<FileView>>,
    /// How many listings it is made for, and for how many seconds each.
    pub limits: (u64, u64),
    /// How often everything was invalidated.
    pub epoch: u64,
    /// How often each key was invalidated on its own since then.
    pub generations: Map<Seq<char>, u64>,
    /// The number of the lock that guards filling each key.
    pub fills: Map<Seq<char>, u64>,
    /// How many locks were ever numbered.
    pub locks_made: u64,
}

/// `n + 1`, starting over after the largest number.
pub open spec fn next_count(n: u64) -> u64 {
    if n == u64::MAX {
        0
    } else {
        (n + 1) as u64
    }
}

fn counted(n: u64) -> (res: u64)
    ensures
        res == next_count(n),
{
    if n == u64::MAX {
        0
    } else {
        n + 1
    }
}

impl CacheView {
    /// How often `key` was invalidated on its own.
    pub open spec fn generation(self, key: Seq<char>) -> u64 {
        if self.generations.contains_key(key) {
            self.generations[key]
        } else {
            0
        }
    }

    /// The marker of `key`: a listing may be kept only while this is what it was before the
    /// listing was read.
    pub open spec fn stamp(self, key: Seq<char>) -> (u64, u64) {
        (self.epoch, self.generation(key))
    }

    /// After a listing was put in.
    pub open spec fn holding(self, key: Seq<char>, files: Seq<FileView>) -> CacheView {
        CacheView { listings: self.listings.insert(key, files), ..self }
    }

    /// After a listing read under `stamp` was offered: put in only if the marker is unmoved.
    pub open spec fn kept(self, key: Seq<char>, files: Seq<FileView>, stamp: (u64, u64)) -> CacheView {
        if self.stamp(key) == stamp {
            self.holding(key, files)
        } else {
            self
        }
    }

    /// After an invalidation of `key`.
    pub open spec fn bumped(self, key: Seq<char>) -> CacheView {
        CacheView {
            listings: self.listings.remove(key),
            generations: self.generations.insert(key, next_count(self.generation(key))),
            ..self
        }
    }

    /// After an invalidation of the directory that holds `path`, if there is one.
    pub open spec fn bumped_parent(self, path: Seq<char>) -> CacheView {
        match parent_of(path) {
            Some(p) => self.bumped(p),
            None => self,
        }
    }

    /// The markers after an invalidation of everything.
    pub open spec fn refreshed(self, listings: Map<Seq<char>, Seq<FileView>>) -> CacheView {
        CacheView {
            listings,
            limits: self.limits,
            epoch: next_count(self.epoch),
            generations: Map::empty(),
            fills: Map::empty(),
            locks_made: self.locks_made,
        }
    }

    /// The number of the lock for `key`: the one it has, or else the next unused one.
    pub open spec fn lock_for(self, key: Seq<char>) -> u64 {
        if self.fills.contains_key(key) {
            self.fills[key]
        } else {
            self.locks_made
        }
    }

    /// After the lock for `key` was asked for.
    pub open spec fn with_lock(self, key: Seq<char>) -> CacheView {
        if self.fills.contains_key(key) {
            self
        } else {
            CacheView {
                fills: self.fills.insert(key, self.locks_made),
                locks_made: (self.locks_made + 1) as u64,
                ..self
            }
        }
    }

    /// No two keys share a lock, and every lock handed out was numbered.
    pub open spec fn valid(self) -> bool {
        &&& forall|k: Seq<char>| #[trigger]
            self.fills.contains_key(k) ==> self.fills[k] < self.locks_made
        &&& forall|a: Seq<char>, b: Seq<char>|
            self.fills.contains_key(a) && self.fills.contains_key(b) && a != b
                ==> #[trigger] self.fills[a] != #[trigger] self.fills[b]
    }
}

impl View for Cache {
    type V = CacheView;

    closed spec fn view(&self) -> CacheView {
        CacheView {
            listings: listings_in(self.inner),
            limits: limits_of(self.inner),
            epoch: self.epoch,
            generations: numbers_in(self.generations),
            fills: numbers_in(self.fills),
            locks_made: self.locks_made,
        }
    }
}

impl Cache {
    /// When each listing was last put in, by a clock that never runs backwards.
    pub closed spec fn written(self) -> Map<Seq<char>, int> {
        written_in(self.inner)
    }

    /// A cache that holds at most `max_capacity` listings for at most `ttl` seconds each.
    pub fn new(max_capacity: u64, ttl: u64) -> (res: Self)
        requires
            ttl <= longest_ttl(),
        ensures
            res@ == (CacheView {
                listings: Map::empty(),
                limits: (max_capacity, ttl),
                epoch: 0,
                generations: Map::empty(),
                fills: Map::empty(),
                locks_made: 0,
            }),
            res@.valid(),
    {
        Cache {
            inner: listings_new(max_capacity, ttl),
            generations: numbers_new(),
            epoch: 0,
            fills: numbers_new(),
            locks_made: 0,
        }
    }

    /// The listing of `key`, if one was put in and it was not dropped meanwhile. Whether it was
    /// dropped rests on its age and on how full the cache is, and is left open.
    pub fn get(&self, key: &str) -> (res: Option<Vec<QuarkFile>>)
        ensures
            res matches Some(files) ==> self@.listings.contains_key(key@)
                && listing_view(files@) == self@.listings[key@],
    {
        listings_get(&self.inner, key)
    }

    /// Puts a listing in, over whatever was there.
    pub fn insert(&mut self, key: String, value: Vec<QuarkFile>)
        ensures
            final(self)@ == old(self)@.holding(key@, listing_view(value@)),
            wrote_last(old(self)@.listings, old(self).written(), final(self).written(), key@),
    {
        listings_insert(&mut self.inner, key, value);
    }

    /// The marker of `key`. A listing may only be kept if the marker taken before reading it
    /// is still the current one.
    pub fn stamp(&self, key: &str) -> (res: (u64, u64))
        ensures
            res == self@.stamp(key@),
    {
        let generation: u64 = match numbers_get(&self.generations, key) {
            Some(n) => n,
            None => 0,
        };
        (self.epoch, generation)
    }

    /// How many locks were numbered so far.
    pub fn locks_made(&self) -> (res: u64)
        ensures
            res == self@.locks_made,
    {
        self.locks_made
    }

    /// The number of the lock to hold for the whole read and write-back of one directory, so
    /// that callers arriving meanwhile wait for that result instead of reading again.
    pub fn fill_lock(&mut self, key: &str) -> (res: u64)
        requires
            old(self)@.valid(),
            old(self)@.locks_made < u64::MAX,
        ensures
            res == old(self)@.lock_for(key@),
            final(self)@ == old(self)@.with_lock(key@),
            final(self).written() == old(self).written(),
            final(self)@.valid(),
    {
        let fresh = self.locks_made;
        match numbers_get(&self.fills, key) {
            Some(n) => n,
            None => {
                numbers_insert(&mut self.fills, key, fresh);
                self.locks_made = fresh + 1;
                assert(self@ == old(self)@.with_lock(key@));
                fresh
            },
        }
    }

    /// Writes a listing back, unless `key` was invalidated since `stamp` was taken.
    pub fn insert_if_current(&mut self, key: String, value: Vec<QuarkFile>, stamp: (u64, u64))
        ensures
            final(self)@ == old(self)@.kept(key@, listing_view(value@), stamp),
            if old(self)@.stamp(key@) == stamp {
                wrote_last(old(self)@.listings, old(self).written(), final(self).written(), key@)
            } else {
                final(self).written() == old(self).written()
            },
    {
        let now = self.stamp(key.as_str());
        if now.0 != stamp.0 || now.1 != stamp.1 {
            return;
        }
        self.insert(key, value);
    }

    /// Invalidates the listing of `path`: its marker moves on and the listing is taken out.
    pub fn invalidate(&mut self, path: &str)
        ensures
            final(self)@ == old(self)@.bumped(path@),
            final(self).written() == old(self).written(),
            old(self)@.valid() ==> final(self)@.valid(),
    {
        let n = self.stamp(path).1;
        numbers_insert(&mut self.generations, path, counted(n));
        listings_remove(&mut self.inner, path);
        assert(self@ == old(self)@.bumped(path@));
    }

    /// Invalidates the listing of the directory that holds `path`, if there is one.
    pub fn invalidate_parent(&mut self, path: &str)
        ensures
            final(self)@ == old(self)@.bumped_parent(path@),
            final(self).written() == old(self).written(),
            old(self)@.valid() ==> final(self)@.valid(),
    {
        if let Some(p) = parent(path) {
            self.invalidate(p.as_str());
        }
    }

    /// Invalidates every listing. One step of the epoch stands for moving every key's marker.
    /// The listings go by the clock: only one that was put in at the very tick of the call can
    /// be left.
    pub fn invalidate_all(&mut self)
        ensures
            final(self)@ == old(self)@.refreshed(final(self)@.listings),
            leaves_latest(old(self)@.listings, old(self).written(), final(self)@.listings),
            final(self).written() == old(self).written(),
            final(self)@.valid(),
    {
        self.epoch = counted(self.epoch);
        numbers_clear(&mut self.generations);
        numbers_clear(&mut self.fills);
        listings_remove_older(&mut self.inner);
    }
}

/// A change to a cache.
pub enum Change {
    /// The listing of one directory is invalidated.
    One(Seq<char>),
    /// Every listing is invalidated.
    All,
    /// A listing is put in.
    Put(Seq<char>, Seq<FileView>),
}

impl Change {
    /// Whether it invalidates the listing of `key`.
    pub open spec fn touches(self, key: Seq<char>) -> bool {
        self is All || self == Change::One(key)
    }
}

impl CacheView {
    /// After a run of changes. Which listings stand after an invalidation of everything is of no
    /// account here.
    pub open spec fn changed(self, run: Seq<Change>) -> CacheView
        decreases run.len(),
    {
        if run.len() == 0 {
            self
        } else {
            let before = self.changed(run.drop_last());
            match run.last() {
                Change::One(key) => before.bumped(key),
                Change::All => before.refreshed(Map::empty()),
                Change::Put(key, files) => before.holding(key, files),
            }
        }
    }
}

/// Whether some change of a run invalidates the listing of `key`.
pub open spec fn touched(run: Seq<Change>, key: Seq<char>) -> bool {
    exists|i: int| 0 <= i < run.len() && #[trigger] run[i].touches(key)
}

/// How often a run invalidates everything.
pub open spec fn refreshes(run: Seq<Change>) -> nat
    decreases run.len(),
{
    if run.len() == 0 {
        0
    } else {
        refreshes(run.drop_last()) + if run.last() is All {
            1nat
        } else {
            0nat
        }
    }
}

/// How often a run invalidates the listing of `key` on its own after it last invalidates
/// everything.
pub open spec fn invalidations(run: Seq<Change>, key: Seq<char>) -> nat
    decreases run.len(),
{
    if run.len() == 0 || run.last() is All {
        0
    } else {
        invalidations(run.drop_last(), key) + if run.last() == Change::One(key) {
            1nat
        } else {
            0nat
        }
    }
}

proof fn lemma_counts_are_small(run: Seq<Change>, key: Seq<char>)
    ensures
        refreshes(run) <= run.len(),
        invalidations(run, key) <= run.len(),
    decreases run.len(),
{
    if run.len() > 0 {
        lemma_counts_are_small(run.drop_last(), key);
    }
}

/// A marker counts: of a new cache, after any run of changes, the marker of a key says how often
/// everything was invalidated, and how often the key was on its own after that. Other keys and
/// listings that are put in do not count.
pub proof fn law_marker_counts_invalidations(v: CacheView, run: Seq<Change>, key: Seq<char>)
    requires
        v.epoch == 0,
        v.generations == Map::<Seq<char>, u64>::empty(),
        run.len() <= u64::MAX,
    ensures
        v.changed(run).stamp(key) == (refreshes(run) as u64, invalidations(run, key) as u64),
        refreshes(run) <= u64::MAX,
        invalidations(run, key) <= u64::MAX,
    decreases run.len(),
{
    lemma_counts_are_small(run, key);
    if run.len() > 0 {
        lemma_counts_are_small(run.drop_last(), key);
        law_marker_counts_invalidations(v, run.drop_last(), key);
    }
}

proof fn lemma_markers_move_on(v: CacheView, key: Seq<char>, run: Seq<Change>)
    requires
        v.epoch + run.len() <= u64::MAX,
        v.generation(key) + run.len() <= u64::MAX,
    ensures
        ({
            let w = v.changed(run);
            &&& v.epoch <= w.epoch <= v.epoch + run.len()
            &&& w.epoch == v.epoch ==> v.generation(key) <= w.generation(key) <= v.generation(key)
                + run.len()
            &&& w.stamp(key) == v.stamp(key) <==> !touched(run, key)
        }),
    decreases run.len(),
{
    if run.len() > 0 {
        let sooner = run.drop_last();
        lemma_markers_move_on(v, key, sooner);
        assert(run[run.len() - 1].touches(key) == run.last().touches(key));
        if touched(sooner, key) {
            let i = choose|i: int| 0 <= i < sooner.len() && #[trigger] sooner[i].touches(key);
            assert(run[i] == sooner[i]);
        }
        if touched(run, key) && !run.last().touches(key) {
            let i = choose|i: int| 0 <= i < run.len() && #[trigger] run[i].touches(key);
            assert(sooner[i] == run[i]);
        }
    }
}

/// A listing offered with the marker taken before it was read is kept exactly if neither its
/// own directory nor everything was invalidated since, whatever happened to other directories.
pub proof fn law_listing_is_kept_unless_invalidated_since(
    v: CacheView,
    key: Seq<char>,
    files: Seq<FileView>,
    run: Seq<Change>,
)
    requires
        v.epoch + run.len() <= u64::MAX,
        v.generation(key) + run.len() <= u64::MAX,
    ensures
        !touched(run, key) ==> v.changed(run).kept(key, files, v.stamp(key)) == v.changed(
            run,
        ).holding(key, files),
        touched(run, key) ==> v.changed(run).kept(key, files, v.stamp(key)) == v.changed(run),
{
    lemma_markers_move_on(v, key, run);
}

/// An offered listing is there afterwards, or what was there before still is. Either way the
/// listings of other directories and every marker are as they were.
pub proof fn law_offer_changes_no_other_key(
    v: CacheView,
    key: Seq<char>,
    files: Seq<FileView>,
    stamp: (u64, u64),
    other: Seq<char>,
)
    ensures
        ({
            let after = v.kept(key, files, stamp);
            &&& v.stamp(key) == stamp ==> after.listings.contains_key(key) && after.listings[key]
                == files
            &&& v.stamp(key) != stamp ==> after == v
            &&& other != key ==> after.listings.contains_key(other) == v.listings.contains_key(
                other,
            ) && after.listings[other] == v.listings[other]
            &&& after.stamp(other) == v.stamp(other)
        }),
{
}

proof fn lemma_epoch_grows(v: CacheView, run: Seq<Change>)
    requires
        v.epoch + run.len() <= u64::MAX,
    ensures
        v.epoch <= v.changed(run).epoch <= v.epoch + run.len(),
    decreases run.len(),
{
    if run.len() > 0 {
        lemma_epoch_grows(v, run.drop_last());
    }
}

/// An invalidation of everything moves every marker: afterwards the marker of a key says one
/// more refresh and no invalidation since, and it differs from every marker of any key taken
/// before, whatever came in between. It takes out every listing that was put in sooner than some
/// other, and changes none: whatever is left was put in at one and the same time, the latest.
pub proof fn law_refresh_moves_every_marker(
    v: CacheView,
    run: Seq<Change>,
    written: Map<Seq<char>, int>,
    left: Map<Seq<char>, Seq<FileView>>,
    key: Seq<char>,
    other: Seq<char>,
)
    requires
        v.epoch + run.len() < u64::MAX,
        leaves_latest(v.changed(run).listings, written, left),
    ensures
        ({
            let before = v.changed(run);
            let after = before.refreshed(left);
            &&& after.stamp(key) == ((before.epoch + 1) as u64, 0u64)
            &&& after.stamp(key) != v.stamp(other)
            &&& before.listings.contains_key(key) && before.listings.contains_key(other)
                && written[key] < written[other] ==> !after.listings.contains_key(key)
            &&& after.listings.contains_key(key) ==> before.listings.contains_key(key)
                && after.listings[key] == before.listings[key]
            &&& after.listings.contains_key(key) && after.listings.contains_key(other)
                ==> written[key] == written[other]
        }),
{
    lemma_epoch_grows(v, run);
    assert(left.dom().contains(key) ==> v.changed(run).listings.contains_key(key));
    assert(left.dom().contains(other) ==> v.changed(run).listings.contains_key(other));
}

/// Invalidating a directory takes out its listing and leaves those of other directories.
pub proof fn law_invalidation_is_local(v: CacheView, key: Seq<char>, other: Seq<char>)
    requires
        other != key,
    ensures
        !v.bumped(key).listings.contains_key(key),
        v.bumped(key).listings.contains_key(other) == v.listings.contains_key(other),
        v.listings.contains_key(other) ==> v.bumped(key).listings[other] == v.listings[other],
        v.bumped(key).stamp(other) == v.stamp(other),
{
}

/// Callers that miss on one directory are sent to one lock, and callers that miss on different
/// directories to different locks.
pub proof fn law_one_lock_for_each_directory(v: CacheView, a: Seq<char>, b: Seq<char>)
    requires
        v.valid(),
        v.locks_made < u64::MAX,
    ensures
        v.with_lock(a).valid(),
        v.with_lock(a).lock_for(b) == v.lock_for(a) <==> a == b,
{
}

/// Invalidating the directory that holds a path is invalidating that directory, and nothing for
/// a path that no directory holds.
pub proof fn law_parent_is_invalidated_as_itself(v: CacheView, path: Seq<char>, key: Seq<char>)
    ensures
        parent_of(path) is None ==> v.bumped_parent(path) == v,
        parent_of(path) == Some(key) ==> {
            &&& !v.bumped_parent(path).listings.contains_key(key)
            &&& v.bumped_parent(path).stamp(key) != v.stamp(key)
        },
        parent_of(path) != Some(key) ==> {
            &&& v.bumped_parent(path).listings.contains_key(key) == v.listings.contains_key(key)
            &&& v.listings.contains_key(key) ==> v.bumped_parent(path).listings[key]
                == v.listings[key]
            &&& v.bumped_parent(path).stamp(key) == v.stamp(key)
        },
{
}

/// A listing that is put in is there as it was given, and nothing else changes. One that is
/// offered with another marker than the present one changes nothing at all.
pub proof fn law_listing_is_put_in_as_given(
    v: CacheView,
    key: Seq<char>,
    files: Seq<FileView>,
    stamp: (u64, u64),
    other: Seq<char>,
)
    ensures
        ({
            let after = v.holding(key, files);
            &&& after.listings.contains_key(key)
            &&& after.listings[key] == files
            &&& other != key ==> after.listings.contains_key(other) == v.listings.contains_key(
                other,
            ) && (v.listings.contains_key(other) ==> after.listings[other] == v.listings[other])
            &&& after == (CacheView { listings: after.listings, ..v })
        }),
        (v.epoch, v.generation(key)) == stamp ==> v.kept(key, files, stamp) == v.holding(
            key,
            files,
        ),
        (v.epoch, v.generation(key)) != stamp ==> v.kept(key, files, stamp) == v,
{
}

/// A lock that is asked for stays that of its directory, and asking changes neither listings nor
/// markers.
pub proof fn law_lock_changes_no_listing(v: CacheView, key: Seq<char>, other: Seq<char>)
    requires
        v.locks_made < u64::MAX,
    ensures
        v.with_lock(key).listings == v.listings,
        v.with_lock(key).limits == v.limits,
        v.with_lock(key).stamp(other) == v.stamp(other),
        v.with_lock(key).lock_for(key) == v.lock_for(key),
        v.with_lock(key).fills.contains_key(key),
        v.fills.contains_key(other) ==> v.with_lock(key).lock_for(other) == v.lock_for(other),
        v.fills.contains_key(key) ==> v.with_lock(key) == v,
        v.with_lock(key).locks_made >= v.locks_made,
{
}

/// An invalidation of everything forgets every lock, but numbers none of them again: what a
/// directory is sent to afterwards is a lock that no directory had before. Limits stay.
pub proof fn law_refresh_numbers_no_lock_again(
    v: CacheView,
    left: Map<Seq<char>, Seq<FileView>>,
    key: Seq<char>,
    other: Seq<char>,
)
    requires
        v.valid(),
    ensures
        v.refreshed(left).valid(),
        v.refreshed(left).limits == v.limits,
        v.refreshed(left).listings == left,
        v.fills.contains_key(other) ==> v.refreshed(left).lock_for(key) > v.lock_for(other),
{
}

}

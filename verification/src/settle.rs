//! Closing out a finished upload.
//!
//! The drive is eventually consistent: that an upload is finished does not mean that its file
//! is listed yet. Until it is, the placeholder answers for it, so the placeholder is dropped
//! only once the file is seen in the listing of its directory.
use vstd::prelude::*;
#[allow(unused_imports)]
use crate::file::{has_name, opt_listing_view, position_named, FileView, QuarkFile};
use crate::vfs::QuarkDriveFileSystem;
#[allow(unused_imports)]
use crate::vfs::FsView;

verus! {

/// Seconds to wait before each of the first looks.
pub open spec fn delays() -> Seq<u64> {
    seq![2, 2, 3, 5, 8]
}

/// Seconds to wait before the look after `looks` looks: as the list has it, and its last entry
/// from then on.
pub open spec fn delay_after(looks: int) -> u64 {
    if 0 <= looks < delays().len() {
        delays()[looks]
    } else {
        delays().last()
    }
}

/// Seconds to wait before the look after `looks` looks.
pub fn delay(looks: usize) -> (res: u64)
    ensures
        res == delay_after(looks as int),
{
    match looks {
        0 => 2,
        1 => 2,
        2 => 3,
        3 => 5,
        _ => 8,
    }
}

/// A finished upload that is being closed out.
pub struct Settle {
    /// The directory that should list the file.
    pub parent_dir: String,
    /// The directory under which the placeholder stands.
    pub parent_file_path: String,
    pub file_name: String,
    /// How many looks were taken.
    pub looks: usize,
}

/// What to do next.
pub enum SettleAction {
    /// Wait so many seconds, and then ask for the listing.
    Sleep(u64),
    /// Nothing more.
    Done,
}

/// Whether a listing shows the file.
pub open spec fn shows(listing: Option<Seq<FileView>>, name: Seq<char>) -> bool {
    listing matches Some(files) && has_name(files, name)
}

/// The file system after a look. A listing without the file is dropped, so that the next look
/// reads it anew.
pub open spec fn after_look(fs: FsView, s: Settle, listing: Option<Seq<FileView>>) -> FsView {
    if shows(listing, s.file_name@) {
        fs.without_placeholder(s.parent_file_path@, s.file_name@)
    } else {
        fs.bumped(s.parent_dir@)
    }
}

impl QuarkDriveFileSystem {
    /// Begins to close out an upload. Whatever is cached of its directory predates it.
    pub fn settle_upload(&mut self, parent_dir: &str, parent_file_path: &str, file_name: &str) -> (res:
        (Settle, SettleAction))
        ensures
            res.0.parent_dir@ == parent_dir@,
            res.0.parent_file_path@ == parent_file_path@,
            res.0.file_name@ == file_name@,
            res.0.looks == 0,
            res.1 == SettleAction::Sleep(delay_after(0)),
            final(self)@ == old(self)@.bumped(parent_dir@),
            old(self)@.cache.valid() ==> final(self)@.cache.valid(),
    {
        self.dir_cache.invalidate(parent_dir);
        let settle = Settle {
            parent_dir: parent_dir.to_owned(),
            parent_file_path: parent_file_path.to_owned(),
            file_name: file_name.to_owned(),
            looks: 0,
        };
        (settle, SettleAction::Sleep(delay(0)))
    }
}

impl Settle {
    /// Goes on after a look at the listing of the directory: for as long as the file is not
    /// listed, its placeholder stands and the listing is looked at again.
    pub fn looked(&mut self, fs: &mut QuarkDriveFileSystem, listing: Option<Vec<QuarkFile>>) -> (res:
        SettleAction)
        requires
            old(self).looks < usize::MAX,
        ensures
            final(fs)@ == after_look(old(fs)@, *old(self), opt_listing_view(listing)),
            res == (if shows(opt_listing_view(listing), old(self).file_name@) {
                SettleAction::Done
            } else {
                SettleAction::Sleep(delay_after(old(self).looks + 1))
            }),
            *final(self) == (Settle { looks: (old(self).looks + 1) as usize, ..*old(self) }),
            old(fs)@.cache.valid() ==> final(fs)@.cache.valid(),
    {
        self.looks = self.looks + 1;
        let listed = match listing {
            Some(files) => position_named(&files, self.file_name.as_str()).is_some(),
            None => false,
        };
        if listed {
            fs.remove_uploading_file(self.parent_file_path.as_str(), self.file_name.as_str());
            return SettleAction::Done;
        }
        fs.dir_cache.invalidate(self.parent_dir.as_str());
        SettleAction::Sleep(delay(self.looks))
    }
}

/// The file system after a run of looks.
pub open spec fn after_looks(fs: FsView, s: Settle, seen: Seq<Option<Seq<FileView>>>) -> FsView
    decreases seen.len(),
{
    if seen.len() == 0 {
        fs
    } else {
        after_look(after_looks(fs, s, seen.drop_last()), s, seen.last())
    }
}

/// As long as no look has shown the file, however many there were, the placeholders stand as
/// they stood at first, and the listing without the file is not cached. The look that shows the
/// file drops the placeholder and nothing else.
pub proof fn law_placeholder_stands_until_listed(
    fs: FsView,
    s: Settle,
    seen: Seq<Option<Seq<FileView>>>,
)
    requires
        0 < seen.len(),
        forall|i: int| 0 <= i < seen.len() - 1 ==> !shows(#[trigger] seen[i], s.file_name@),
    ensures
        ({
            let after = after_looks(fs, s, seen);
            if shows(seen.last(), s.file_name@) {
                after.uploading == fs.without_placeholder(
                    s.parent_file_path@,
                    s.file_name@,
                ).uploading
            } else {
                after.uploading == fs.uploading && !after.cache.listings.contains_key(
                    s.parent_dir@,
                )
            }
        }),
    decreases seen.len(),
{
    if seen.len() > 1 {
        let sooner = seen.drop_last();
        assert forall|i: int| 0 <= i < sooner.len() - 1 implies !shows(
            #[trigger] sooner[i],
            s.file_name@,
        ) by {
            assert(sooner[i] == seen[i]);
        }
        assert(sooner.last() == seen[seen.len() - 2]);
        law_placeholder_stands_until_listed(fs, s, sooner);
    } else {
        assert(after_looks(fs, s, seen.drop_last()) == fs);
    }
}

/// The waits between looks never get shorter, are two seconds at first and eight in the end.
pub proof fn law_waits_grow_to_eight_seconds(looks: int, later: int)
    requires
        0 <= looks <= later,
    ensures
        delay_after(looks) <= delay_after(later),
        2 <= delay_after(looks) <= 8,
        delay_after(looks) == 2 <==> looks < 2,
        delay_after(looks) == 3 <==> looks == 2,
        delay_after(looks) == 5 <==> looks == 3,
        delay_after(looks) == 8 <==> looks >= 4,
{
}

/// A look shows the file exactly if some record of the listing has its name. It then drops the
/// first placeholder of that name in its directory, and leaves the cache alone; otherwise it
/// leaves the placeholders alone, and of the cache it takes out the one listing, so that the
/// marker of that directory moves and no other.
pub proof fn law_look_goes_by_the_name(
    fs: FsView,
    s: Settle,
    listing: Option<Seq<FileView>>,
    other: Seq<char>,
)
    ensures
        ({
            let listed = listing matches Some(files) && exists|i: int|
                0 <= i < files.len() && (#[trigger] files[i]).file_name == s.file_name@;
            let after = after_look(fs, s, listing);
            &&& shows(listing, s.file_name@) <==> listed
            &&& listed ==> after == fs.without_placeholder(s.parent_file_path@, s.file_name@)
                && after.cache == fs.cache
            &&& !listed ==> {
                &&& after == (FsView { cache: after.cache, ..fs })
                &&& after.cache.listings == fs.cache.listings.remove(s.parent_dir@)
                &&& after.cache.stamp(s.parent_dir@) != fs.cache.stamp(s.parent_dir@)
                &&& other != s.parent_dir@ ==> after.cache.stamp(other) == fs.cache.stamp(other)
            }
        }),
{
}

}

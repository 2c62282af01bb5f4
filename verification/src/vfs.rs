//! The file system that a WebDAV server sees: settings, the directory cache, and the
//! placeholders of uploads whose files the drive does not list yet.
use vstd::prelude::*;
use dashmap::DashMap;
use crate::cache::Cache;
#[allow(unused_imports)]
use crate::cache::CacheView;
use crate::error::FsError;
#[allow(unused_imports)]
use crate::file::{
    find_named, first_named, first_named_at, has_name, lemma_first_named, listing_view,
    opt_listing_view, opt_text, position_named, root_view, FileView, QuarkFile,
};
#[allow(unused_imports)]
use crate::outside::{
    longest_ttl, placeholders_get, placeholders_in, placeholders_insert,
    placeholders_new,
};
#[allow(unused_imports)]
use crate::path::{
    components_of, file_name, file_name_of, is_absolute, join, join_of, law_join_adds_components,
    lemma_body_without_lead, lemma_end_carries_no_meaning, lemma_join_is_within,
    lemma_root_has_no_parent, parent, parent_of, same_path, within,
};
#[allow(unused_imports)]
use crate::text::{
    chars_of, cut_once, joined, law_cut_is_at_the_first, pieces, same_text, split, starts_with,
    texts,
};

verus! {

/// The file system.
pub struct QuarkDriveFileSystem {
    pub dir_cache: Cache,
    /// Records of files that are being uploaded, by the path of their directory.
    pub uploading: DashMap<String, Vec<QuarkFile>>,
    pub root: String,
    pub no_trash: bool,
    pub read_only: bool,
    pub upload_buffer_size: usize,
    pub skip_upload_same_size: bool,
    pub prefer_http_download: bool,
    pub upload_wait_timeout: u64,
    pub temp_dir: String,
}

/// What a [`QuarkDriveFileSystem`] knows.
#[verifier::ext_equal]
pub struct FsView {
    pub cache: CacheView,
    pub uploading: Map<Seq<char>, Seq<FileView>>,
    pub root: Seq<char>,
    pub no_trash: bool,
    pub read_only: bool,
    pub upload_buffer_size: usize,
    pub skip_upload_same_size: bool,
    pub prefer_http_download: bool,
    pub upload_wait_timeout: u64,
    pub temp_dir: Seq<char>,
}

impl View for QuarkDriveFileSystem {
    type V = FsView;

    open spec fn view(&self) -> FsView {
        FsView {
            cache: self.dir_cache@,
            uploading: placeholders_in(self.uploading),
            root: self.root@,
            no_trash: self.no_trash,
            read_only: self.read_only,
            upload_buffer_size: self.upload_buffer_size,
            skip_upload_same_size: self.skip_upload_same_size,
            prefer_http_download: self.prefer_http_download,
            upload_wait_timeout: self.upload_wait_timeout,
            temp_dir: self.temp_dir@,
        }
    }
}

/// The records without the one at `i`, whose place the last record takes.
pub open spec fn without_at(files: Seq<FileView>, i: int) -> Seq<FileView> {
    if i == files.len() - 1 {
        files.drop_last()
    } else {
        files.drop_last().update(i, files.last())
    }
}

impl FsView {
    /// The placeholders for a directory.
    pub open spec fn placeholders(self, dir: Seq<char>) -> Seq<FileView> {
        if self.uploading.contains_key(dir) {
            self.uploading[dir]
        } else {
            Seq::empty()
        }
    }

    /// After a placeholder was added to a directory.
    pub open spec fn with_placeholder(self, dir: Seq<char>, file: FileView) -> FsView {
        FsView {
            uploading: self.uploading.insert(dir, self.placeholders(dir).push(file)),
            ..self
        }
    }

    /// After the first placeholder of the given name in a directory was dropped, if it has
    /// one.
    pub open spec fn without_placeholder(self, dir: Seq<char>, name: Seq<char>) -> FsView {
        let files = self.placeholders(dir);
        if has_name(files, name) {
            let i = choose|i: int| first_named_at(files, name, i);
            FsView { uploading: self.uploading.insert(dir, without_at(files, i)), ..self }
        } else {
            self
        }
    }

    /// After an invalidation of the listing of a directory.
    pub open spec fn bumped(self, dir: Seq<char>) -> FsView {
        FsView { cache: self.cache.bumped(dir), ..self }
    }

    /// After an invalidation of the listing that a path is in.
    pub open spec fn bumped_parent(self, path: Seq<char>) -> FsView {
        FsView { cache: self.cache.bumped_parent(path), ..self }
    }
}

/// The root as given, or below the top if it was given without a leading `/`.
pub open spec fn rooted(root: Seq<char>) -> Seq<char> {
    if is_absolute(root) {
        root
    } else {
        join_of("/"@, root)
    }
}

/// A file system with no cached listings, no uploads and the default settings.
pub open spec fn fresh_view(root: Seq<char>, cache_size: u64, cache_ttl: u64) -> FsView {
    FsView {
        cache: CacheView {
            listings: Map::empty(),
            limits: (cache_size, cache_ttl),
            epoch: 0,
            generations: Map::empty(),
            fills: Map::empty(),
            locks_made: 0,
        },
        uploading: Map::empty(),
        root: rooted(root),
        no_trash: false,
        read_only: false,
        upload_buffer_size: 16_777_216,
        skip_upload_same_size: false,
        prefer_http_download: false,
        upload_wait_timeout: 280,
        temp_dir: "/tmp"@,
    }
}

/// A request path without a `/` at its end.
pub open spec fn without_end(p: Seq<char>) -> Seq<char> {
    if p.len() > 1 && p.last() == '/' {
        p.drop_last()
    } else {
        p
    }
}

/// A request path without its first character and without a `/` at its end.
pub open spec fn relative(p: Seq<char>) -> Seq<char> {
    let rest = if p.len() > 0 {
        p.skip(1)
    } else {
        p
    };
    if rest.len() > 0 && rest.last() == '/' {
        rest.drop_last()
    } else {
        rest
    }
}

/// The path on the drive that a request path stands for: itself if it is within the root, and
/// otherwise the same path seen from the root.
pub open spec fn normalized(root: Seq<char>, p: Seq<char>) -> Seq<char> {
    if parent_of(root) is None || components_of(root).is_prefix_of(components_of(without_end(p))) {
        without_end(p)
    } else if components_of(relative(p)) == components_of(""@) {
        root
    } else {
        join_of(root, relative(p))
    }
}

/// The last text of a list that is not empty.
pub open spec fn last_filled(parts: Seq<Seq<char>>) -> Option<Seq<char>>
    decreases parts.len(),
{
    if parts.len() == 0 {
        None
    } else if parts.last().len() > 0 {
        Some(parts.last())
    } else {
        last_filled(parts.drop_last())
    }
}

/// The name at the end of a request path.
pub open spec fn request_name(p: Seq<char>) -> Option<Seq<char>> {
    last_filled(pieces(p, '/'))
}

/// The name at the end of a request path.
pub fn last_segment(p: &str) -> (res: Option<String>)
    ensures
        res is Some == request_name(p@) is Some,
        res matches Some(name) ==> Some(name@) == request_name(p@),
{
    let mut parts = split(p, '/');
    let ghost all = texts(parts@);
    while parts.len() > 0
        invariant
            all == pieces(p@, '/'),
            last_filled(texts(parts@)) == last_filled(all),
        decreases parts.len(),
    {
        let ghost before = parts@;
        if let Some(part) = parts.pop() {
            assert(texts(before).last() == part@);
            if part.as_str().unicode_len() > 0 {
                return Some(part);
            }
            assert(texts(parts@) =~= texts(before).drop_last());
        }
    }
    None
}

fn cut_end(p: &str) -> (res: String)
    ensures
        res@ == without_end(p@),
{
    let v = chars_of(p);
    let n = v.len();
    if n > 1 && v[n - 1] == '/' {
        assert(p@.subrange(0, n - 1) =~= p@.drop_last());
        p.substring_char(0, n - 1).to_owned()
    } else {
        p.to_owned()
    }
}

fn relative_part(p: &str) -> (res: String)
    ensures
        res@ == relative(p@),
{
    let v = chars_of(p);
    let n = v.len();
    if n == 0 {
        return p.to_owned();
    }
    assert(p@.skip(1) =~= p@.subrange(1, n as int));
    if n > 1 && v[n - 1] == '/' {
        assert(p@.subrange(1, n - 1) =~= p@.skip(1).drop_last());
        p.substring_char(1, n - 1).to_owned()
    } else {
        p.substring_char(1, n).to_owned()
    }
}

/// Where the record of a path is to be found.
pub enum Lookup {
    /// It is the record of the top directory.
    Top,
    /// In the listing of this directory.
    Within(String),
    /// Nowhere: the path names nothing in its directory.
    Nowhere,
}

/// What a lookup of `path` finds, given the listing of its directory.
pub open spec fn looked_up(path: Seq<char>, listing: Option<Seq<FileView>>) -> Result<
    Option<FileView>,
    FsError,
> {
    match parent_of(path) {
        None => Ok(Some(root_view())),
        Some(_) => match file_name_of(path) {
            None => Err(FsError::NotFound),
            Some(name) => match listing {
                Some(files) => Ok(first_named(files, name)),
                None => Ok(None),
            },
        },
    }
}

/// The outcome of a lookup as mathematical values.
pub open spec fn found_view(found: Result<Option<QuarkFile>, FsError>) -> Result<
    Option<FileView>,
    FsError,
> {
    match found {
        Ok(Some(f)) => Ok(Some(f@)),
        Ok(None) => Ok(None),
        Err(e) => Err(e),
    }
}

/// Where to look for the record of `path`.
pub fn lookup(path: &str) -> (res: Lookup)
    ensures
        match (parent_of(path@), file_name_of(path@)) {
            (None, _) => res is Top,
            (Some(_), None) => res is Nowhere,
            (Some(dir), Some(_)) => res matches Lookup::Within(d) && d@ == dir,
        },
{
    match parent(path) {
        None => Lookup::Top,
        Some(dir) => match file_name(path) {
            Some(_) => Lookup::Within(dir),
            None => Lookup::Nowhere,
        },
    }
}

impl QuarkDriveFileSystem {
    /// A file system below `root` whose cache holds at most `cache_size` listings for at most
    /// `cache_ttl` seconds each.
    pub fn new(root: String, cache_size: u64, cache_ttl: u64) -> (res: Result<Self, FsError>)
        requires
            cache_ttl <= longest_ttl(),
        ensures
            res matches Ok(fs) && fs@ == fresh_view(root@, cache_size, cache_ttl)
                && fs@.cache.valid(),
    {
        let dir_cache = Cache::new(cache_size, cache_ttl);
        proof {
            reveal_strlit("/");
            if is_absolute(root@) {
                assert(root@.subrange(0, 1) =~= "/"@);
            }
            if "/"@.is_prefix_of(root@) {
                assert(root@.subrange(0, 1)[0] == root@[0]);
            }
        }
        let root = if starts_with(root.as_str(), "/") {
            root
        } else {
            join("/", root.as_str())
        };
        Ok(
            QuarkDriveFileSystem {
                dir_cache,
                uploading: placeholders_new(),
                root,
                no_trash: false,
                read_only: false,
                upload_buffer_size: 16_777_216,
                skip_upload_same_size: false,
                prefer_http_download: false,
                upload_wait_timeout: 280,
                temp_dir: "/tmp".to_owned(),
            },
        )
    }

    /// Sets whether every change is refused.
    pub fn set_read_only(&mut self, read_only: bool) -> (res: &mut Self)
        ensures
            *res == (QuarkDriveFileSystem { read_only, ..*old(self) }),
            *final(self) == *final(res),
    {
        self.read_only = read_only;
        self
    }

    /// Sets whether removed files are deleted for good.
    pub fn set_no_trash(&mut self, no_trash: bool) -> (res: &mut Self)
        ensures
            *res == (QuarkDriveFileSystem { no_trash, ..*old(self) }),
            *final(self) == *final(res),
    {
        self.no_trash = no_trash;
        self
    }

    /// Sets the size of the upload buffer, in bytes.
    pub fn set_upload_buffer_size(&mut self, upload_buffer_size: usize) -> (res: &mut Self)
        ensures
            *res == (QuarkDriveFileSystem { upload_buffer_size, ..*old(self) }),
            *final(self) == *final(res),
    {
        self.upload_buffer_size = upload_buffer_size;
        self
    }

    /// Sets whether an upload is skipped where the drive has a file of the same size.
    pub fn set_skip_upload_same_size(&mut self, skip_upload_same_size: bool) -> (res: &mut Self)
        ensures
            *res == (QuarkDriveFileSystem { skip_upload_same_size, ..*old(self) }),
            *final(self) == *final(res),
    {
        self.skip_upload_same_size = skip_upload_same_size;
        self
    }

    /// Sets whether plain HTTP is preferred for downloads.
    pub fn set_prefer_http_download(&mut self, prefer_http_download: bool) -> (res: &mut Self)
        ensures
            *res == (QuarkDriveFileSystem { prefer_http_download, ..*old(self) }),
            *final(self) == *final(res),
    {
        self.prefer_http_download = prefer_http_download;
        self
    }

    /// Sets how many seconds a client waits for an upload; 0 for as long as it takes.
    pub fn set_upload_wait_timeout(&mut self, upload_wait_timeout: u64) -> (res: &mut Self)
        ensures
            *res == (QuarkDriveFileSystem { upload_wait_timeout, ..*old(self) }),
            *final(self) == *final(res),
    {
        self.upload_wait_timeout = upload_wait_timeout;
        self
    }

    /// Sets the directory in which uploads are staged.
    pub fn set_temp_dir(&mut self, temp_dir: String) -> (res: &mut Self)
        ensures
            *res == (QuarkDriveFileSystem { temp_dir, ..*old(self) }),
            *final(self) == *final(res),
    {
        self.temp_dir = temp_dir;
        self
    }

    /// The placeholders for a directory.
    pub fn list_uploading_files(&self, parent_file_path: &str) -> (res: Vec<QuarkFile>)
        ensures
            listing_view(res@) == self@.placeholders(parent_file_path@),
    {
        match placeholders_get(&self.uploading, parent_file_path) {
            Some(files) => files,
            None => {
                let none: Vec<QuarkFile> = Vec::new();
                assert(listing_view(none@) =~= Seq::<FileView>::empty());
                none
            },
        }
    }

    /// Adds a placeholder to a directory.
    pub fn add_uploading_file(&mut self, parent_file_path: &str, file: QuarkFile)
        ensures
            final(self)@ == old(self)@.with_placeholder(parent_file_path@, file@),
    {
        let mut files = self.list_uploading_files(parent_file_path);
        let ghost before = files@;
        files.push(file);
        assert(listing_view(files@) =~= listing_view(before).push(file@));
        placeholders_insert(&mut self.uploading, parent_file_path, files);
    }

    /// Drops the first placeholder of the given name from a directory, if it has one.
    pub fn remove_uploading_file(&mut self, parent_file_path: &str, file_name: &str)
        ensures
            final(self)@ == old(self)@.without_placeholder(parent_file_path@, file_name@),
    {
        let mut files = self.list_uploading_files(parent_file_path);
        let ghost before = listing_view(files@);
        if let Some(i) = position_named(&files, file_name) {
            proof {
                let k = choose|k: int| first_named_at(before, file_name@, k);
                assert(first_named_at(before, file_name@, i as int));
                if k < i {
                    assert(before[k].file_name != file_name@);
                } else if i < k {
                    assert(before[i as int].file_name != file_name@);
                }
                assert(before[i as int].file_name == file_name@);
            }
            files.swap_remove(i);
            assert(listing_view(files@) =~= without_at(before, i as int));
            placeholders_insert(&mut self.uploading, parent_file_path, files);
        }
    }

    /// What a lookup of `path` finds, given the listing of its directory.
    pub fn find_in_cache(&self, path: &str, listing: Option<Vec<QuarkFile>>) -> (res: Result<
        Option<QuarkFile>,
        FsError,
    >)
        ensures
            found_view(res) == looked_up(path@, opt_listing_view(listing)),
    {
        match parent(path) {
            None => Ok(Some(QuarkFile::new_root())),
            Some(_) => match file_name(path) {
                None => Err(FsError::NotFound),
                Some(name) => match listing {
                    None => Ok(None),
                    Some(files) => Ok(find_named(&files, name.as_str())),
                },
            },
        }
    }

    /// The path on the drive that a request path stands for.
    pub fn normalize_dav_path(&self, dav_path: &str) -> (res: String)
        ensures
            res@ == normalized(self@.root, dav_path@),
    {
        let path = cut_end(dav_path);
        if parent(self.root.as_str()).is_none() || within(path.as_str(), self.root.as_str()) {
            return path;
        }
        let rel_path = relative_part(dav_path);
        if same_path(rel_path.as_str(), "") {
            return self.root.clone();
        }
        join(self.root.as_str(), rel_path.as_str())
    }
}

/// The path that a request for metadata is about: `0` stands for the top.
pub open spec fn metadata_path_of(root: Seq<char>, p: Seq<char>) -> Seq<char> {
    if normalized(root, p) == "0"@ {
        "/"@
    } else {
        normalized(root, p)
    }
}

/// The metadata of `path`, given the listing of its directory: what is listed, or else the
/// placeholder of an upload.
pub open spec fn metadata_of(fs: FsView, path: Seq<char>, listing: Option<Seq<FileView>>) -> Result<
    FileView,
    FsError,
> {
    if components_of(path) == components_of(fs.root) {
        Ok(root_view())
    } else {
        match looked_up(path, listing) {
            Ok(Some(file)) => Ok(file),
            _ => match (parent_of(path), file_name_of(path)) {
                (Some(dir), Some(name)) => match first_named(fs.placeholders(dir), name) {
                    Some(file) => Ok(file),
                    None => Err(FsError::NotFound),
                },
                _ => Err(FsError::NotFound),
            },
        }
    }
}

/// The answer to a request for a file's checksums.
pub open spec fn checksums_text(sha1: Seq<char>) -> Seq<char> {
    CHECKSUMS_HEAD@ + sha1 + CHECKSUMS_TAIL@
}

/// What stands before the checksum in the answer to a request for checksums.
pub const CHECKSUMS_HEAD: &'static str = "<?xml version=\"1.0\"?>\n                        <oc:checksums xmlns:d=\"DAV:\" xmlns:nc=\"http://nextcloud.org/ns\" xmlns:oc=\"http://owncloud.org/ns\">\n                            <oc:checksum>sha1:";

/// What stands behind the checksum in the answer to a request for checksums.
pub const CHECKSUMS_TAIL: &'static str = "</oc:checksum>\n                        </oc:checksums>\n                    ";

impl QuarkDriveFileSystem {
    /// The listing that a request for a directory is about.
    pub fn read_dir(&self, listing: Option<Vec<QuarkFile>>) -> (res: Result<
        Vec<QuarkFile>,
        FsError,
    >)
        ensures
            res == (match listing {
                Some(files) => Ok::<Vec<QuarkFile>, FsError>(files),
                None => Err(FsError::NotFound),
            }),
    {
        match listing {
            Some(files) => Ok(files),
            None => Err(FsError::NotFound),
        }
    }

    /// The path that a request for metadata is about.
    pub fn metadata_path(&self, dav_path: &str) -> (res: String)
        ensures
            res@ == metadata_path_of(self@.root, dav_path@),
    {
        let path = self.normalize_dav_path(dav_path);
        if same_text(path.as_str(), "0") {
            "/".to_owned()
        } else {
            path
        }
    }

    /// The metadata of `path`, given the listing of its directory.
    pub fn metadata(&self, path: &str, listing: Option<Vec<QuarkFile>>) -> (res: Result<
        QuarkFile,
        FsError,
    >)
        ensures
            match metadata_of(self@, path@, opt_listing_view(listing)) {
                Ok(f) => res matches Ok(file) && file@ == f,
                Err(e) => res == Err::<QuarkFile, FsError>(e),
            },
    {
        if same_path(path, self.root.as_str()) {
            return Ok(QuarkFile::new_root());
        }
        if let Ok(Some(file)) = self.find_in_cache(path, listing) {
            return Ok(file);
        }
        if let Some(dir) = parent(path) {
            if let Some(name) = file_name(path) {
                let waiting = self.list_uploading_files(dir.as_str());
                if let Some(file) = find_named(&waiting, name.as_str()) {
                    return Ok(file);
                }
            }
        }
        Err(FsError::NotFound)
    }

    /// Whether a property is the one that holds a file's checksums.
    pub fn is_checksums_prop(&self, namespace: Option<String>, name: &str) -> (res: bool)
        ensures
            res == (opt_text(namespace) == Some("http://owncloud.org/ns"@) && name@
                == "checksums"@),
    {
        match namespace {
            Some(ns) => same_text(ns.as_str(), "http://owncloud.org/ns") && same_text(
                name,
                "checksums",
            ),
            None => false,
        }
    }

    /// The answer to a request for a property: the checksums of the file that a lookup found,
    /// if it is they that were asked for. No other property is known.
    pub fn get_prop(&self, checksums: bool, found: Result<Option<QuarkFile>, FsError>) -> (res:
        Result<String, FsError>)
        ensures
            match (checksums, found_view(found)) {
                (false, _) => res == Err::<String, FsError>(FsError::NotImplemented),
                (true, Err(e)) => res == Err::<String, FsError>(e),
                (true, Ok(None)) => res == Err::<String, FsError>(FsError::NotFound),
                (true, Ok(Some(file))) => match file.content_hash {
                    Some(sha1) => res matches Ok(text) && text@ == checksums_text(sha1),
                    None => res == Err::<String, FsError>(FsError::NotImplemented),
                },
            },
    {
        if !checksums {
            return Err(FsError::NotImplemented);
        }
        match found {
            Err(e) => Err(e),
            Ok(None) => Err(FsError::NotFound),
            Ok(Some(file)) => match file.content_hash {
                Some(sha1) => Ok(joined(CHECKSUMS_HEAD, sha1.as_str()).concat(CHECKSUMS_TAIL)),
                None => Err(FsError::NotImplemented),
            },
        }
    }

    /// The quota to report, given how much is used and how much there is, or that the drive
    /// did not say.
    pub fn get_quota(&self, quota: Option<(u64, u64)>) -> (res: Result<(u64, Option<u64>), FsError>)
        ensures
            res == (match quota {
                Some((used, total)) => Ok::<(u64, Option<u64>), FsError>((used, Some(total))),
                None => Err(FsError::GeneralFailure),
            }),
    {
        match quota {
            Some((used, total)) => Ok((used, Some(total))),
            None => Err(FsError::GeneralFailure),
        }
    }

    /// Which file's MD5 to ask for, given what a lookup found: none of a file that is not on
    /// the drive yet.
    pub fn get_file_md5_for_path(&self, found: Result<Option<QuarkFile>, FsError>) -> (res: Option<
        String,
    >)
        ensures
            match found_view(found) {
                Ok(Some(file)) => if file.fid.len() == 0 {
                    res is None
                } else {
                    res matches Some(fid) && fid@ == file.fid
                },
                _ => res is None,
            },
    {
        match found {
            Ok(Some(file)) => if file.fid.as_str().unicode_len() == 0 {
                None
            } else {
                Some(file.fid)
            },
            _ => None,
        }
    }

    /// Copying is not supported.
    pub fn copy(&self) -> (res: Result<(), FsError>)
        ensures
            res == Err::<(), FsError>(FsError::NotImplemented),
    {
        Err(FsError::NotImplemented)
    }
}

/// A file that is listed, or that has a placeholder, is never reported as missing.
pub proof fn law_no_upload_goes_missing(
    fs: FsView,
    path: Seq<char>,
    dir: Seq<char>,
    name: Seq<char>,
    listing: Option<Seq<FileView>>,
)
    requires
        parent_of(path) == Some(dir),
        file_name_of(path) == Some(name),
    ensures
        (listing matches Some(files) && has_name(files, name)) || has_name(
            fs.placeholders(dir),
            name,
        ) ==> metadata_of(fs, path, listing) is Ok,
        listing matches Some(files) ==> has_name(files, name) && components_of(path)
            != components_of(fs.root) ==> metadata_of(fs, path, listing) == Ok::<
            FileView,
            FsError,
        >(first_named(files, name)->0),
{
    lemma_first_named(fs.placeholders(dir), name);
    if let Some(files) = listing {
        lemma_first_named(files, name);
    }
}

/// Dropping one placeholder leaves those of other directories alone, and leaves every other
/// name of its own directory.
pub proof fn law_dropping_a_placeholder_is_local(
    fs: FsView,
    dir: Seq<char>,
    name: Seq<char>,
    other_dir: Seq<char>,
    other_name: Seq<char>,
)
    ensures
        other_dir != dir ==> fs.without_placeholder(dir, name).placeholders(other_dir)
            == fs.placeholders(other_dir),
        other_name != name ==> has_name(
            fs.without_placeholder(dir, name).placeholders(dir),
            other_name,
        ) == has_name(fs.placeholders(dir), other_name),
{
    let files = fs.placeholders(dir);
    if has_name(files, name) && other_name != name {
        lemma_first_named_exists(files, name);
        let i = choose|i: int| first_named_at(files, name, i);
        let left = without_at(files, i);
        if has_name(files, other_name) {
            let k = choose|k: int|
                0 <= k < files.len() && (#[trigger] files[k]).file_name == other_name;
            if k == files.len() - 1 {
                assert(left[i] == files[k]);
            } else {
                assert(left[k] == files[k]);
            }
        }
        if has_name(left, other_name) {
            let k = choose|k: int| 0 <= k < left.len() && (#[trigger] left[k]).file_name
                == other_name;
            if k == i {
                assert(left[k] == files.last());
                assert(files[files.len() - 1].file_name == other_name);
            } else {
                assert(left[k] == files[k]);
                assert(files[k].file_name == other_name);
            }
        }
    }
}

/// If a name occurs, there is a first place where it does.
proof fn lemma_first_named_exists(files: Seq<FileView>, name: Seq<char>)
    requires
        has_name(files, name),
    ensures
        exists|i: int| first_named_at(files, name, i),
    decreases files.len(),
{
    let k = choose|k: int| 0 <= k < files.len() && (#[trigger] files[k]).file_name == name;
    if !first_named_at(files, name, k) {
        let j = choose|j: int| 0 <= j < k && (#[trigger] files[j]).file_name == name;
        let front = files.take(k);
        assert(front[j].file_name == name);
        lemma_first_named_exists(front, name);
        let i = choose|i: int| first_named_at(front, name, i);
        assert(first_named_at(files, name, i)) by {
            assert(front[i] == files[i]);
            assert forall|m: int| 0 <= m < i implies (#[trigger] files[m]).file_name != name by {
                assert(front[m] == files[m]);
            }
        }
    }
}

/// Whether a path is the root or lies below it.
pub open spec fn is_within(root: Seq<char>, path: Seq<char>) -> bool {
    components_of(root).is_prefix_of(components_of(path))
}

/// What a request path stands for lies within the root, and stands for itself. Left out are a
/// request path that is not absolute where the root is the top, and one that begins with two
/// separators and lies outside the root.
pub proof fn law_normalized_path_is_within_root(root: Seq<char>, p: Seq<char>)
    requires
        is_absolute(root),
        parent_of(root) is None ==> is_absolute(p),
        parent_of(root) is Some && is_absolute(relative(p)) ==> is_within(root, without_end(p)),
    ensures
        is_within(root, normalized(root, p)),
        components_of(normalized(root, normalized(root, p))) == components_of(normalized(root, p)),
        without_end(normalized(root, p)) == normalized(root, p) ==> normalized(
            root,
            normalized(root, p),
        ) == normalized(root, p),
{
    let res = normalized(root, p);
    let own = components_of(root);
    assert(own.subrange(0, own.len() as int) =~= own);
    if parent_of(root) is None {
        lemma_root_has_no_parent(root);
        assert(is_absolute(res));
        lemma_root_has_no_parent(res);
        assert(components_of(res).subrange(0, 1) =~= own);
    } else if !is_within(root, without_end(p)) {
        lemma_join_is_within(root, relative(p));
    }
    if res.len() > 1 && res.last() == '/' {
        lemma_end_carries_no_meaning(res);
    }
    assert(components_of(without_end(res)) == components_of(res));
}

/// Where the root is the top, a request path stands for itself without a `/` at its end. The
/// top of the requests stands for the root.
pub proof fn law_normalized_top(root: Seq<char>, p: Seq<char>)
    requires
        is_absolute(root),
    ensures
        root == seq!['/'] ==> normalized(root, p) == without_end(p),
        p == seq!['/'] ==> components_of(normalized(root, p)) == components_of(root),
        p == seq!['/'] && parent_of(root) is Some ==> normalized(root, p) == root,
{
    lemma_root_has_no_parent(root);
    if p == seq!['/'] {
        lemma_root_has_no_parent(p);
        assert(parent_of(p) is None);
        if parent_of(root) is None {
            assert(components_of(p) =~= components_of(root));
        } else {
            assert(relative(p) =~= ""@) by {
                reveal_strlit("");
            }
        }
    }
}

/// The metadata of a path is the first record of its name that its directory lists, or else the
/// first placeholder of that name, and otherwise the path is not found. The root, and a path
/// with nothing above it, are the top directory. A path that names nothing in its directory is
/// not found.
pub proof fn law_metadata_is_of_what_is_there(
    fs: FsView,
    path: Seq<char>,
    listing: Option<Seq<FileView>>,
    i: int,
)
    ensures
        components_of(path) == components_of(fs.root) || parent_of(path) is None ==> (metadata_of(
            fs,
            path,
            listing,
        ) matches Ok(top) && is_top(top)),
        components_of(path) != components_of(fs.root) && parent_of(path) is Some && file_name_of(
            path,
        ) is None ==> metadata_of(fs, path, listing) == Err::<FileView, FsError>(
            FsError::NotFound,
        ),
        components_of(path) != components_of(fs.root) ==> match (
            parent_of(path),
            file_name_of(path),
        ) {
            (Some(dir), Some(name)) => {
                let listed = match listing {
                    Some(files) => files,
                    None => Seq::empty(),
                };
                let waiting = fs.placeholders(dir);
                let found = metadata_of(fs, path, listing);
                &&& is_first_of_name(listed, name, i) ==> found == Ok::<FileView, FsError>(
                    listed[i],
                )
                &&& has_no_such(listed, name) && is_first_of_name(waiting, name, i) ==> found
                    == Ok::<FileView, FsError>(waiting[i])
                &&& has_no_such(listed, name) && has_no_such(waiting, name) ==> found == Err::<
                    FileView,
                    FsError,
                >(FsError::NotFound)
            },
            _ => true,
        },
{
    reveal_strlit("");
    if let (Some(dir), Some(name)) = (parent_of(path), file_name_of(path)) {
        lemma_first_named(fs.placeholders(dir), name);
        if let Some(files) = listing {
            lemma_first_named(files, name);
            assert(is_first_of_name(files, name, i) ==> first_named_at(files, name, i));
        }
        assert(is_first_of_name(fs.placeholders(dir), name, i) ==> first_named_at(
            fs.placeholders(dir),
            name,
            i,
        ));
    }
}

/// Whether a record is that of the top directory.
pub open spec fn is_top(record: FileView) -> bool {
    &&& record.dir
    &&& !record.file
    &&& record.fid == "0"@
    &&& record.file_name == "/"@
    &&& record.pdir_fid.len() == 0
    &&& record.size == 0
    &&& record.format_type.len() == 0
    &&& record.status == 1
    &&& record.content_hash is None
    &&& record.created_at == 0
    &&& record.updated_at == 0
    &&& record.download_url is None
    &&& record.parent_path is None
}

/// Whether the record at `i` is the first of that name.
pub open spec fn is_first_of_name(files: Seq<FileView>, name: Seq<char>, i: int) -> bool {
    &&& 0 <= i < files.len()
    &&& files[i].file_name == name
    &&& forall|j: int| 0 <= j < i ==> (#[trigger] files[j]).file_name != name
}

/// Whether no record has that name.
pub open spec fn has_no_such(files: Seq<FileView>, name: Seq<char>) -> bool {
    forall|j: int| 0 <= j < files.len() ==> (#[trigger] files[j]).file_name != name
}

/// A lookup finds the first record of the name that the directory lists, or nothing. With
/// nothing above it, a path is the top directory, and a path that names nothing in its directory
/// is an error.
pub proof fn law_lookup_finds_what_is_listed(
    path: Seq<char>,
    listing: Option<Seq<FileView>>,
    i: int,
)
    ensures
        ({
            let listed = match listing {
                Some(files) => files,
                None => Seq::empty(),
            };
            let found = looked_up(path, listing);
            match (parent_of(path), file_name_of(path)) {
                (None, _) => found matches Ok(Some(top)) && is_top(top),
                (Some(_), None) => found == Err::<Option<FileView>, FsError>(FsError::NotFound),
                (Some(_), Some(name)) => {
                    &&& is_first_of_name(listed, name, i) ==> found == Ok::<
                        Option<FileView>,
                        FsError,
                    >(Some(listed[i]))
                    &&& has_no_such(listed, name) ==> found == Ok::<Option<FileView>, FsError>(
                        None,
                    )
                },
            }
        }),
{
    reveal_strlit("");
    if let Some(name) = file_name_of(path) {
        if let Some(files) = listing {
            lemma_first_named(files, name);
            assert(is_first_of_name(files, name, i) ==> first_named_at(files, name, i));
        }
    }
}

/// A placeholder that is added stands behind those that its directory has. Nothing else changes.
pub proof fn law_placeholder_is_added_behind(
    fs: FsView,
    dir: Seq<char>,
    file: FileView,
    other: Seq<char>,
)
    ensures
        ({
            let after = fs.with_placeholder(dir, file);
            let had = fs.placeholders(dir);
            let has = after.placeholders(dir);
            &&& has.len() == had.len() + 1
            &&& has.last() == file
            &&& forall|i: int| 0 <= i < had.len() ==> has[i] == had[i]
            &&& other != dir ==> after.placeholders(other) == fs.placeholders(other)
            &&& after == (FsView { uploading: after.uploading, ..fs })
        }),
{
}

/// Dropping a placeholder takes out the first record of that name and no other: the others of
/// its directory are all still there, though the last may have changed its place. Where there is
/// none of that name, and in every other respect, nothing changes.
pub proof fn law_placeholder_is_dropped_once(
    fs: FsView,
    dir: Seq<char>,
    name: Seq<char>,
    i: int,
    other: Seq<char>,
)
    ensures
        ({
            let after = fs.without_placeholder(dir, name);
            let had = fs.placeholders(dir);
            let has = after.placeholders(dir);
            &&& is_first_of_name(had, name, i) ==> has.to_multiset()
                == had.to_multiset().remove(had[i]) && has.len() == had.len() - 1
            &&& has_no_such(had, name) ==> after == fs
            &&& other != dir ==> after.placeholders(other) == fs.placeholders(other)
            &&& after == (FsView { uploading: after.uploading, ..fs })
        }),
{
    let had = fs.placeholders(dir);
    if is_first_of_name(had, name, i) {
        assert(has_name(had, name));
        assert(first_named_at(had, name, i));
        let k = choose|k: int| first_named_at(had, name, k);
        assert(k == i) by {
            if k < i {
                assert(had[k].file_name != name);
            } else if i < k {
                assert(had[i].file_name != name);
            }
        }
        let left = without_at(had, i);
        broadcast use vstd::seq_lib::group_to_multiset_ensures;

        assert(had =~= had.drop_last().push(had.last()));
        if i < had.len() - 1 {
            let front = had.drop_last();
            assert(front.update(i, had.last()) =~= front.remove(i).insert(i, had.last()));
            assert(left.to_multiset() =~= had.to_multiset().remove(had[i]));
        } else {
            assert(left.to_multiset() =~= had.to_multiset().remove(had[i]));
        }
    }
}

/// A request path that lies within the root stands for itself, and any other stands for the same
/// path seen from the root. Left out is one that begins with two separators.
pub proof fn law_request_path_is_seen_from_the_root(root: Seq<char>, p: Seq<char>)
    requires
        is_absolute(root),
        is_absolute(p),
        p.len() > 1 ==> p[1] != '/',
    ensures
        components_of(normalized(root, p)) == if components_of(root).is_prefix_of(
            components_of(p),
        ) {
            components_of(p)
        } else {
            components_of(root) + components_of(p).skip(1)
        },
{
    lemma_root_has_no_parent(root);
    lemma_root_has_no_parent(p);
    let cut = without_end(p);
    if p.len() > 1 && p.last() == '/' {
        lemma_end_carries_no_meaning(p);
    }
    assert(components_of(cut) == components_of(p));
    if parent_of(root) is None {
        assert(components_of(p).subrange(0, 1) =~= components_of(root));
    } else if !components_of(root).is_prefix_of(components_of(p)) {
        let rel = relative(p);
        assert(cut =~= seq!['/'] + rel);
        assert(!is_absolute(rel));
        if components_of(rel) == components_of(""@) {
            reveal_strlit("");
            assert(components_of(""@) =~= Seq::<Seq<char>>::empty());
            lemma_body_without_lead('/', rel);
            assert(components_of(p).skip(1) =~= Seq::<Seq<char>>::empty());
            assert(components_of(root) + Seq::<Seq<char>>::empty() =~= components_of(root));
        } else {
            law_join_adds_components(root, rel);
        }
    }
}

proof fn lemma_pieces_of_sum(a: Seq<char>, b: Seq<char>, sep: char)
    ensures
        pieces(a + seq![sep] + b, sep) == pieces(a, sep) + pieces(b, sep),
    decreases a.len(),
{
    let s = a + seq![sep] + b;
    match cut_once(a, sep) {
        Some((head, tail)) => {
            law_cut_is_at_the_first(a, sep, head, tail);
            let rest = tail + seq![sep] + b;
            assert(s =~= head + seq![sep] + rest);
            law_cut_is_at_the_first(s, sep, head, rest);
            lemma_pieces_of_sum(tail, b, sep);
            assert(seq![head] + (pieces(tail, sep) + pieces(b, sep)) =~= seq![head] + pieces(
                tail,
                sep,
            ) + pieces(b, sep));
        },
        None => {
            law_cut_is_at_the_first(a, sep, a, a);
            law_cut_is_at_the_first(s, sep, a, b);
        },
    }
}

/// The name of a request is what stands behind its last separator. Separators at its end do not
/// count, and with nothing else it has no name.
pub proof fn law_request_is_named_by_its_end(p: Seq<char>, name: Seq<char>)
    requires
        name.len() > 0,
        !name.contains('/'),
    ensures
        request_name(name) == Some(name),
        request_name(p + seq!['/'] + name) == Some(name),
        request_name(p + seq!['/']) == request_name(p),
        request_name(Seq::empty()) is None,
{
    let none = Seq::<char>::empty();
    law_cut_is_at_the_first(name, '/', name, name);
    law_cut_is_at_the_first(none, '/', none, none);
    assert(pieces(name, '/') == seq![name]);
    assert(pieces(none, '/') == seq![none]);
    lemma_pieces_of_sum(p, name, '/');
    lemma_pieces_of_sum(p, none, '/');
    assert((pieces(p, '/') + seq![name]).last() == name);
    assert(p + seq!['/'] + none =~= p + seq!['/']);
    assert((pieces(p, '/') + seq![none]).drop_last() =~= pieces(p, '/'));
    assert(seq![none].drop_last() =~= Seq::<Seq<char>>::empty());
    assert(last_filled(seq![none].drop_last()) is None);
    assert(last_filled(seq![none]) is None);
}

/// A request for the metadata of `0` is one for the top. Every other is about the path that it
/// stands for.
pub proof fn law_zero_is_the_top(root: Seq<char>, p: Seq<char>)
    ensures
        normalized(root, p) == seq!['0'] ==> metadata_path_of(root, p) == seq!['/'],
        normalized(root, p) != seq!['0'] ==> metadata_path_of(root, p) == normalized(root, p),
{
    reveal_strlit("0");
    reveal_strlit("/");
    assert("0"@ =~= seq!['0']);
    assert("/"@ =~= seq!['/']);
}

/// The root of a new file system is the one that was given, below the top if it was given without
/// a leading separator. Nothing is cached or uploaded in it, and it may be changed.
pub proof fn law_new_file_system_is_empty(
    root: Seq<char>,
    cache_size: u64,
    cache_ttl: u64,
    key: Seq<char>,
)
    ensures
        ({
            let fs = fresh_view(root, cache_size, cache_ttl);
            &&& is_absolute(root) ==> fs.root == root
            &&& !is_absolute(root) ==> fs.root == seq!['/'] + root
            &&& is_absolute(fs.root)
            &&& !fs.cache.listings.contains_key(key)
            &&& fs.cache.stamp(key) == (0u64, 0u64)
            &&& fs.cache.limits == (cache_size, cache_ttl)
            &&& fs.placeholders(key).len() == 0
            &&& !fs.read_only
            &&& !fs.no_trash
            &&& !fs.skip_upload_same_size
            &&& !fs.prefer_http_download
            &&& fs.upload_wait_timeout == 280
            &&& fs.upload_buffer_size == 16 * 1024 * 1024
            &&& fs.temp_dir == "/tmp"@
        }),
{
    reveal_strlit("/");
    assert("/"@ =~= seq!['/']);
    assert(rooted(root).len() > 0);
}

/// The settings of a file system are what its fields say.
pub proof fn law_file_system_says_what_it_holds(fs: QuarkDriveFileSystem)
    ensures
        fs@.root == fs.root@,
        fs@.no_trash == fs.no_trash,
        fs@.read_only == fs.read_only,
        fs@.upload_buffer_size == fs.upload_buffer_size,
        fs@.skip_upload_same_size == fs.skip_upload_same_size,
        fs@.prefer_http_download == fs.prefer_http_download,
        fs@.upload_wait_timeout == fs.upload_wait_timeout,
        fs@.temp_dir == fs.temp_dir@,
        fs@.cache == fs.dir_cache@,
        fs@.uploading == placeholders_in(fs.uploading),
{
}

/// The outcome of a lookup says what it holds.
pub proof fn law_lookup_says_what_it_holds(found: Result<Option<QuarkFile>, FsError>)
    ensures
        match found {
            Ok(Some(file)) => found_view(found) == Ok::<Option<FileView>, FsError>(Some(file@)),
            Ok(None) => found_view(found) == Ok::<Option<FileView>, FsError>(None),
            Err(e) => found_view(found) == Err::<Option<FileView>, FsError>(e),
        },
{
}

/// The answer to a request for checksums differs only in the checksum: it can be read off the
/// answer, between what always stands before and what always stands behind.
pub proof fn law_checksum_can_be_read_off(sha1: Seq<char>, other: Seq<char>)
    ensures
        checksums_text(sha1).len() == CHECKSUMS_HEAD@.len() + sha1.len() + CHECKSUMS_TAIL@.len(),
        checksums_text(sha1).subrange(
            CHECKSUMS_HEAD@.len() as int,
            (CHECKSUMS_HEAD@.len() + sha1.len()) as int,
        ) == sha1,
        checksums_text(sha1) == checksums_text(other) <==> sha1 == other,
{
    let head = CHECKSUMS_HEAD@.len() as int;
    assert(checksums_text(sha1).subrange(head, head + sha1.len()) =~= sha1);
    assert(checksums_text(other).subrange(head, head + other.len()) =~= other);
}

}

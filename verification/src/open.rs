//! Opening a file for reading or writing.
use vstd::prelude::*;
use crate::error::FsError;
#[allow(unused_imports)]
use crate::file::{
    has_name, lemma_first_named, opt_text, FileView, QuarkFile,
};
use crate::path::parent;
#[allow(unused_imports)]
use crate::path::{file_name_of, parent_of};
use crate::text::{eq_ignore_ascii_case, split_once};
#[allow(unused_imports)]
use crate::text::{cut_once, law_cut_is_at_the_first, same_but_case};
use crate::upload::QuarkDavFile;
#[allow(unused_imports)]
use crate::upload::{opened, DavFileView, UploadView};
use crate::vfs::{last_segment, QuarkDriveFileSystem};
#[allow(unused_imports)]
use crate::vfs::{found_view, metadata_of, normalized, request_name, FsView};

verus! {

/// How a client wants to open a file.
#[derive(Debug)]
pub struct OpenOptions {
    pub read: bool,
    pub write: bool,
    pub append: bool,
    pub truncate: bool,
    /// Make the file if there is none.
    pub create: bool,
    /// Make the file, and fail if there is one.
    pub create_new: bool,
    /// How long the file is going to be.
    pub size: Option<u64>,
    /// A checksum, as the name of the algorithm, a colon, and the digest.
    pub checksum: Option<String>,
}

/// A file that is being opened; texts are of type `T`.
pub struct Opening<T> {
    pub path: T,
    pub parent_path: T,
    /// The name at the end of the request path.
    pub name: Option<T>,
    pub sha1: Option<T>,
    pub write: bool,
    pub create: bool,
    pub create_new: bool,
    pub size: Option<u64>,
    /// The directory that the file is in, once it was found.
    pub parent_fid: Option<T>,
}

/// What to do next; an open file is of type `D`.
pub enum OpenAction<T, D> {
    /// Look up the record of this path.
    Find(Opening<T>, T),
    /// Nothing more; the file is open.
    Opened(D),
    /// Nothing more; it is not.
    Failed(FsError),
}

impl View for Opening<String> {
    type V = Opening<Seq<char>>;

    open spec fn view(&self) -> Opening<Seq<char>> {
        Opening {
            path: self.path@,
            parent_path: self.parent_path@,
            name: opt_text(self.name),
            sha1: opt_text(self.sha1),
            write: self.write,
            create: self.create,
            create_new: self.create_new,
            size: self.size,
            parent_fid: opt_text(self.parent_fid),
        }
    }
}

impl View for OpenAction<String, QuarkDavFile> {
    type V = OpenAction<Seq<char>, DavFileView>;

    open spec fn view(&self) -> OpenAction<Seq<char>, DavFileView> {
        match *self {
            OpenAction::Find(opening, path) => OpenAction::Find(opening@, path@),
            OpenAction::Opened(file) => OpenAction::Opened(file@),
            OpenAction::Failed(e) => OpenAction::Failed(e),
        }
    }
}

/// The SHA-1 digest that a checksum gives, if it gives one.
pub open spec fn sha1_of_checksum(checksum: Option<Seq<char>>) -> Option<Seq<char>> {
    match checksum {
        None => None,
        Some(c) => match cut_once(c, ':') {
            Some((algorithm, digest)) => if same_but_case(algorithm, "sha1"@) {
                Some(digest)
            } else {
                None
            },
            None => None,
        },
    }
}

fn checksum_sha1(checksum: &Option<String>) -> (res: Option<String>)
    ensures
        opt_text(res) == sha1_of_checksum(opt_text(*checksum)),
{
    match checksum {
        None => None,
        Some(c) => match split_once(c.as_str(), ':') {
            Some((algorithm, digest)) => if eq_ignore_ascii_case(algorithm.as_str(), "sha1") {
                Some(digest)
            } else {
                None
            },
            None => None,
        },
    }
}

/// The record of a file that is going to be uploaded.
pub open spec fn placeholder_of(
    o: Opening<Seq<char>>,
    name: Seq<char>,
    parent_fid: Seq<char>,
    now: u64,
) -> FileView {
    FileView {
        fid: ""@,
        file_name: name,
        pdir_fid: parent_fid,
        size: match o.size {
            Some(size) => size,
            None => 0,
        },
        format_type: "application/octet-stream"@,
        status: 1,
        dir: false,
        file: true,
        content_hash: o.sha1,
        created_at: now,
        updated_at: now,
        download_url: None,
        parent_path: Some(o.parent_path),
    }
}

/// The open file. It is sent as it arrives if it is written and its length is known.
pub open spec fn open_file(
    fs: FsView,
    o: Opening<Seq<char>>,
    file: FileView,
    parent_fid: Seq<char>,
) -> DavFileView {
    let plain = opened(file, parent_fid, o.parent_path, 0, o.sha1);
    DavFileView {
        state: UploadView {
            declared_size: o.size,
            streaming: o.write && o.size is Some,
            ..plain.state
        },
        http_download: fs.prefer_http_download,
        ..plain
    }
}

/// How opening a file begins.
pub open spec fn open_begun(
    path: Seq<char>,
    name: Option<Seq<char>>,
    append: bool,
    o: Opening<Seq<char>>,
) -> OpenAction<Seq<char>, DavFileView> {
    if append {
        OpenAction::Failed(FsError::NotImplemented)
    } else {
        match parent_of(path) {
            None => OpenAction::Failed(FsError::NotFound),
            Some(parent_path) => OpenAction::Find(
                Opening { path, parent_path, name, parent_fid: None, ..o },
                parent_path,
            ),
        }
    }
}

/// How opening a file ends once its directory is known, given what the lookup of the file
/// itself found.
pub open spec fn open_found(
    fs: FsView,
    o: Opening<Seq<char>>,
    parent_fid: Seq<char>,
    found: Result<Option<FileView>, FsError>,
    now: u64,
) -> OpenAction<Seq<char>, DavFileView> {
    match found {
        Err(e) => OpenAction::Failed(e),
        Ok(Some(file)) => if o.write && o.create_new {
            OpenAction::Failed(FsError::Exists)
        } else if o.write && fs.read_only {
            OpenAction::Failed(FsError::Forbidden)
        } else {
            OpenAction::Opened(open_file(fs, o, file, parent_fid))
        },
        Ok(None) => if !(o.write && (o.create || o.create_new)) {
            OpenAction::Failed(FsError::NotFound)
        } else if fs.read_only {
            OpenAction::Failed(FsError::Forbidden)
        } else {
            match o.name {
                None => OpenAction::Failed(FsError::GeneralFailure),
                Some(name) => OpenAction::Opened(
                    open_file(fs, o, placeholder_of(o, name, parent_fid, now), parent_fid),
                ),
            }
        },
    }
}

/// How opening a file goes on after a lookup.
pub open spec fn open_next(
    fs: FsView,
    o: Opening<Seq<char>>,
    found: Result<Option<FileView>, FsError>,
    now: u64,
) -> OpenAction<Seq<char>, DavFileView> {
    match o.parent_fid {
        Some(parent_fid) => open_found(fs, o, parent_fid, found, now),
        None => match found {
            Err(e) => OpenAction::Failed(e),
            Ok(None) => OpenAction::Failed(FsError::NotFound),
            Ok(Some(dir)) => OpenAction::Find(Opening { parent_fid: Some(dir.fid), ..o }, o.path),
        },
    }
}

/// The file system after a lookup: a file that is going to be uploaded has a placeholder.
pub open spec fn fs_after_open(
    fs: FsView,
    o: Opening<Seq<char>>,
    found: Result<Option<FileView>, FsError>,
    now: u64,
) -> FsView {
    match (o.parent_fid, found, open_next(fs, o, found, now)) {
        (Some(_), Ok(None), OpenAction::Opened(file)) => fs.with_placeholder(
            o.parent_path,
            file.file,
        ),
        _ => fs,
    }
}

/// What the options ask for, before anything is known of the file.
pub open spec fn asked(options: OpenOptions) -> Opening<Seq<char>> {
    Opening {
        path: Seq::empty(),
        parent_path: Seq::empty(),
        name: None,
        sha1: sha1_of_checksum(opt_text(options.checksum)),
        write: options.write,
        create: options.create,
        create_new: options.create_new,
        size: options.size,
        parent_fid: None,
    }
}

impl QuarkDriveFileSystem {
    /// Begins to open a file.
    pub fn open(&self, dav_path: &str, options: &OpenOptions) -> (res: OpenAction<
        String,
        QuarkDavFile,
    >)
        ensures
            res@ == open_begun(
                normalized(self@.root, dav_path@),
                request_name(dav_path@),
                options.append,
                asked(*options),
            ),
            !(res is Opened),
    {
        let path = self.normalize_dav_path(dav_path);
        if options.append {
            return OpenAction::Failed(FsError::NotImplemented);
        }
        match parent(path.as_str()) {
            None => OpenAction::Failed(FsError::NotFound),
            Some(parent_path) => {
                let wanted = parent_path.clone();
                let opening = Opening {
                    path,
                    parent_path,
                    name: last_segment(dav_path),
                    sha1: checksum_sha1(&options.checksum),
                    write: options.write,
                    create: options.create,
                    create_new: options.create_new,
                    size: options.size,
                    parent_fid: None,
                };
                OpenAction::Find(opening, wanted)
            },
        }
    }
}

impl Opening<String> {
    fn open_file(self, fs: &QuarkDriveFileSystem, file: QuarkFile, parent_fid: String) -> (res:
        QuarkDavFile)
        ensures
            res@ == open_file(fs@, self@, file@, parent_fid@),
            res.in_step(),
            res@.valid(),
    {
        let mut dav_file = QuarkDavFile::new(file, parent_fid, self.parent_path, 0, self.sha1);
        dav_file.upload_state.declared_size = self.size;
        dav_file.upload_state.streaming = self.write && self.size.is_some();
        dav_file.http_download = fs.prefer_http_download;
        dav_file
    }

    /// Goes on with opening a file after a lookup; `now` is the time.
    pub fn found(
        self,
        fs: &mut QuarkDriveFileSystem,
        found: Result<Option<QuarkFile>, FsError>,
        now: u64,
    ) -> (res: OpenAction<String, QuarkDavFile>)
        ensures
            res@ == open_next(old(fs)@, self@, found_view(found), now),
            final(fs)@ == fs_after_open(old(fs)@, self@, found_view(found), now),
            res matches OpenAction::Opened(file) ==> file.in_step() && file@.valid(),
    {
        let found = match found {
            Err(e) => {
                return OpenAction::Failed(e);
            },
            Ok(found) => found,
        };
        let parent_fid = match &self.parent_fid {
            Some(fid) => fid.clone(),
            None => {
                return match found {
                    None => OpenAction::Failed(FsError::NotFound),
                    Some(dir) => {
                        let wanted = self.path.clone();
                        OpenAction::Find(Opening { parent_fid: Some(dir.fid), ..self }, wanted)
                    },
                };
            },
        };
        match found {
            Some(file) => {
                if self.write && self.create_new {
                    return OpenAction::Failed(FsError::Exists);
                }
                if self.write && fs.read_only {
                    return OpenAction::Failed(FsError::Forbidden);
                }
                OpenAction::Opened(self.open_file(fs, file, parent_fid))
            },
            None => {
                if !(self.write && (self.create || self.create_new)) {
                    return OpenAction::Failed(FsError::NotFound);
                }
                if fs.read_only {
                    return OpenAction::Failed(FsError::Forbidden);
                }
                let name = match &self.name {
                    None => {
                        return OpenAction::Failed(FsError::GeneralFailure);
                    },
                    Some(name) => name.clone(),
                };
                let file = QuarkFile {
                    fid: "".to_owned(),
                    file_name: name,
                    pdir_fid: parent_fid.clone(),
                    size: match self.size {
                        Some(size) => size,
                        None => 0,
                    },
                    format_type: "application/octet-stream".to_owned(),
                    status: 1,
                    dir: false,
                    file: true,
                    content_hash: self.sha1.clone(),
                    created_at: now,
                    updated_at: now,
                    download_url: None,
                    parent_path: Some(self.parent_path.clone()),
                };
                fs.add_uploading_file(self.parent_path.as_str(), file.clone());
                OpenAction::Opened(self.open_file(fs, file, parent_fid))
            },
        }
    }
}

/// What opening a file comes to, given what every lookup finds.
pub open spec fn open_outcome(
    fs: FsView,
    finds: spec_fn(Seq<char>) -> Result<Option<FileView>, FsError>,
    path: Seq<char>,
    name: Option<Seq<char>>,
    append: bool,
    o: Opening<Seq<char>>,
    now: u64,
) -> Result<DavFileView, FsError> {
    if append {
        Err(FsError::NotImplemented)
    } else {
        match parent_of(path) {
            None => Err(FsError::NotFound),
            Some(parent_path) => match finds(parent_path) {
                Err(e) => Err(e),
                Ok(None) => Err(FsError::NotFound),
                Ok(Some(dir)) => {
                    let full = Opening {
                        path,
                        parent_path,
                        name,
                        parent_fid: Some(dir.fid),
                        ..o
                    };
                    match open_found(fs, full, dir.fid, finds(path), now) {
                        OpenAction::Opened(file) => Ok(file),
                        OpenAction::Failed(e) => Err(e),
                        OpenAction::Find(_, _) => Err(FsError::GeneralFailure),
                    }
                },
            },
        }
    }
}

/// The end of opening a file, from an action on, given what every lookup finds.
pub open spec fn open_run(
    fs: FsView,
    finds: spec_fn(Seq<char>) -> Result<Option<FileView>, FsError>,
    action: OpenAction<Seq<char>, DavFileView>,
    now: u64,
    lookups: nat,
) -> Result<DavFileView, FsError>
    decreases lookups,
{
    match action {
        OpenAction::Opened(file) => Ok(file),
        OpenAction::Failed(e) => Err(e),
        OpenAction::Find(o, wanted) => if lookups == 0 {
            Err(FsError::GeneralFailure)
        } else {
            open_run(
                fs_after_open(fs, o, finds(wanted), now),
                finds,
                open_next(fs, o, finds(wanted), now),
                now,
                (lookups - 1) as nat,
            )
        },
    }
}

/// Opening a file takes at most two lookups and comes to what [`open_outcome`] says.
pub proof fn law_open(
    fs: FsView,
    finds: spec_fn(Seq<char>) -> Result<Option<FileView>, FsError>,
    path: Seq<char>,
    name: Option<Seq<char>>,
    append: bool,
    o: Opening<Seq<char>>,
    now: u64,
)
    ensures
        open_run(fs, finds, open_begun(path, name, append, o), now, 2) == open_outcome(
            fs,
            finds,
            path,
            name,
            append,
            o,
            now,
        ),
{
    reveal_with_fuel(open_run, 3);
}

/// In read-only mode no file is opened for writing.
pub proof fn law_read_only_opens_nothing_for_writing(
    fs: FsView,
    o: Opening<Seq<char>>,
    found: Result<Option<FileView>, FsError>,
    now: u64,
)
    requires
        fs.read_only,
        o.write,
    ensures
        !(open_next(fs, o, found, now) is Opened),
        fs_after_open(fs, o, found, now) == fs,
{
}

/// A file that was opened to be made answers requests for metadata at once, whatever is listed.
pub proof fn law_new_file_is_visible(
    fs: FsView,
    o: Opening<Seq<char>>,
    listing: Option<Seq<FileView>>,
    now: u64,
)
    requires
        o.parent_fid is Some,
        parent_of(o.path) == Some(o.parent_path),
        o.name is Some,
        file_name_of(o.path) == o.name,
        open_next(fs, o, Ok(None), now) is Opened,
    ensures
        metadata_of(fs_after_open(fs, o, Ok(None), now), o.path, listing) is Ok,
{
    let after = fs_after_open(fs, o, Ok(None), now);
    let waiting = after.placeholders(o.parent_path);
    assert(waiting.last().file_name == o.name->0);
    assert(has_name(waiting, o.name->0)) by {
        assert(waiting[waiting.len() - 1].file_name == o.name->0);
    }
    lemma_first_named(waiting, o.name->0);
}

/// Whether a file is open on a record, in the directory with that identifier and path, as the
/// options ask: at its beginning, with nothing written, and sent as it arrives exactly if it is
/// written and its length is known.
pub open spec fn is_open_on(
    opened: DavFileView,
    fs: FsView,
    o: Opening<Seq<char>>,
    record: FileView,
    dir_fid: Seq<char>,
    dir_path: Seq<char>,
) -> bool {
    &&& opened.file == record
    &&& opened.parent_file_id == dir_fid
    &&& opened.parent_dir == dir_path
    &&& opened.current_pos == 0
    &&& opened.http_download == fs.prefer_http_download
    &&& opened.hashed.len() == 0
    &&& opened.phase is Idle
    &&& opened.state.declared_size == o.size
    &&& opened.state.streaming == (o.write && o.size is Some)
    &&& opened.state.sha1 == o.sha1
    &&& opened.state.size == 0
    &&& opened.state.chunk_count == 0
    &&& opened.state.chunk_size == 0
    &&& opened.state.callback is None
    &&& opened.state.temp_file_path.len() == 0
    &&& !opened.state.is_finished
    &&& !opened.state.is_uploading
    &&& !opened.state.stream_started
    &&& opened.state.flush_count == 0
    &&& opened.state.part_buf.len() == 0
    &&& opened.state.part_number == 0
    &&& opened.state.etags.len() == 0
    &&& opened.state.target.mime_type == "application/octet-stream"@
    &&& opened.state.target.upload_id.len() == 0
    &&& opened.state.target.upload_url.len() == 0
    &&& opened.state.target.task_id.len() == 0
    &&& opened.state.target.bucket.len() == 0
    &&& opened.state.target.obj_key.len() == 0
    &&& opened.state.target.auth_info.len() == 0
}

/// Whether a record is that of a new file of that name which is going to be uploaded: the drive
/// has no identifier for it yet.
pub open spec fn is_new_record(
    record: FileView,
    o: Opening<Seq<char>>,
    name: Seq<char>,
    dir_fid: Seq<char>,
    dir_path: Seq<char>,
    now: u64,
) -> bool {
    &&& record.fid.len() == 0
    &&& record.file_name == name
    &&& record.pdir_fid == dir_fid
    &&& record.parent_path == Some(dir_path)
    &&& record.size == (if o.size is Some {
        o.size->0
    } else {
        0
    })
    &&& record.file
    &&& !record.dir
    &&& record.status == 1
    &&& record.content_hash == o.sha1
    &&& record.created_at == now
    &&& record.updated_at == now
    &&& record.download_url is None
    &&& record.format_type == "application/octet-stream"@
}

/// A file that is there is opened, for reading and for writing alike, unless it was to be made
/// anew or nothing may be written. A file that is not there is made if it is to be written and
/// made, and something may be written. There is no other way to an open file, and each failure
/// has its own reason.
pub proof fn law_open_case_by_case(
    fs: FsView,
    finds: spec_fn(Seq<char>) -> Result<Option<FileView>, FsError>,
    path: Seq<char>,
    name: Option<Seq<char>>,
    append: bool,
    o: Opening<Seq<char>>,
    now: u64,
)
    ensures
        ({
            let outcome = open_run(fs, finds, open_begun(path, name, append, o), now, 2);
            let dir_path = parent_of(path)->0;
            let made = o.write && (o.create || o.create_new);
            if append {
                outcome == Err::<DavFileView, FsError>(FsError::NotImplemented)
            } else if parent_of(path) is None {
                outcome == Err::<DavFileView, FsError>(FsError::NotFound)
            } else {
                match (finds(dir_path), finds(path)) {
                    (Err(e), _) => outcome == Err::<DavFileView, FsError>(e),
                    (Ok(None), _) => outcome == Err::<DavFileView, FsError>(FsError::NotFound),
                    (Ok(Some(_)), Err(e)) => outcome == Err::<DavFileView, FsError>(e),
                    (Ok(Some(dir)), Ok(Some(record))) => {
                        &&& o.write && o.create_new ==> outcome == Err::<DavFileView, FsError>(
                            FsError::Exists,
                        )
                        &&& o.write && !o.create_new && fs.read_only ==> outcome == Err::<
                            DavFileView,
                            FsError,
                        >(FsError::Forbidden)
                        &&& !(o.write && o.create_new) && !(o.write && fs.read_only) ==> (outcome
                            matches Ok(opened) && is_open_on(
                            opened,
                            fs,
                            o,
                            record,
                            dir.fid,
                            dir_path,
                        ))
                    },
                    (Ok(Some(dir)), Ok(None)) => {
                        &&& !made ==> outcome == Err::<DavFileView, FsError>(FsError::NotFound)
                        &&& made && fs.read_only ==> outcome == Err::<DavFileView, FsError>(
                            FsError::Forbidden,
                        )
                        &&& made && !fs.read_only && name is None ==> outcome == Err::<
                            DavFileView,
                            FsError,
                        >(FsError::GeneralFailure)
                        &&& made && !fs.read_only && name is Some ==> (outcome matches Ok(opened)
                            && is_open_on(opened, fs, o, opened.file, dir.fid, dir_path)
                            && is_new_record(opened.file, o, name->0, dir.fid, dir_path, now))
                    },
                }
            }
        }),
{
    reveal_with_fuel(open_run, 3);
    reveal_strlit("");
}

/// Opening a file leaves the file system as it is, with one exception: a file that is made has a
/// placeholder in its directory, behind those that are there, with the record of the open file.
pub proof fn law_open_adds_one_placeholder_at_most(
    fs: FsView,
    o: Opening<Seq<char>>,
    found: Result<Option<FileView>, FsError>,
    now: u64,
    other: Seq<char>,
)
    ensures
        ({
            let after = fs_after_open(fs, o, found, now);
            let had = fs.placeholders(o.parent_path);
            let has = after.placeholders(o.parent_path);
            &&& after == (FsView { uploading: after.uploading, ..fs })
            &&& other != o.parent_path ==> after.placeholders(other) == fs.placeholders(other)
            &&& match open_next(fs, o, found, now) {
                OpenAction::Opened(opened) => if opened.file.fid.len() == 0 && found == Ok::<
                    Option<FileView>,
                    FsError,
                >(None) {
                    has == had.push(opened.file)
                } else {
                    after == fs
                },
                _ => after == fs,
            }
        }),
{
    reveal_strlit("");
}

/// A checksum gives a SHA-1 digest exactly if it is the word `sha1`, in whatever case, then a
/// colon, and then that digest.
pub proof fn law_checksum_names_its_algorithm(
    checksum: Seq<char>,
    algorithm: Seq<char>,
    digest: Seq<char>,
)
    ensures
        sha1_of_checksum(None) is None,
        checksum == algorithm + seq![':'] + digest && !algorithm.contains(':')
            ==> sha1_of_checksum(Some(checksum)) == if same_but_case(algorithm, "sha1"@) {
            Some(digest)
        } else {
            None
        },
        !checksum.contains(':') ==> sha1_of_checksum(Some(checksum)) is None,
{
    if checksum == algorithm + seq![':'] + digest && !algorithm.contains(':') {
        law_cut_is_at_the_first(checksum, ':', algorithm, digest);
    }
}

/// What the options ask for is what is gone by, and the first lookup is of the directory.
pub proof fn law_options_are_gone_by(
    path: Seq<char>,
    name: Option<Seq<char>>,
    options: OpenOptions,
)
    ensures
        open_begun(path, name, options.append, asked(options)) matches OpenAction::Find(
            o,
            wanted,
        ) ==> {
            &&& !options.append
            &&& parent_of(path) == Some(wanted)
            &&& o.path == path
            &&& o.parent_path == wanted
            &&& o.name == name
            &&& o.write == options.write
            &&& o.create == options.create
            &&& o.create_new == options.create_new
            &&& o.size == options.size
            &&& o.parent_fid is None
            &&& options.checksum is None ==> o.sha1 is None
            &&& options.checksum matches Some(c) ==> o.sha1 == sha1_of_checksum(Some(c@))
        },
        !(open_begun(path, name, options.append, asked(options)) is Opened),
{
}

/// What opening a file goes by, and what comes of it, says what it holds.
pub proof fn law_opening_says_what_it_holds(
    o: Opening<String>,
    action: OpenAction<String, QuarkDavFile>,
)
    ensures
        o@.path == o.path@,
        o@.parent_path == o.parent_path@,
        o@.write == o.write,
        o@.create == o.create,
        o@.create_new == o.create_new,
        o@.size == o.size,
        o@.name is Some == o.name is Some,
        o.name matches Some(name) ==> o@.name == Some(name@),
        o@.sha1 is Some == o.sha1 is Some,
        o.sha1 matches Some(sha1) ==> o@.sha1 == Some(sha1@),
        o@.parent_fid is Some == o.parent_fid is Some,
        o.parent_fid matches Some(fid) ==> o@.parent_fid == Some(fid@),
        match action {
            OpenAction::Find(opening, path) => action@ == OpenAction::<
                Seq<char>,
                DavFileView,
            >::Find(opening@, path@),
            OpenAction::Opened(file) => action@ == OpenAction::<Seq<char>, DavFileView>::Opened(
                file@,
            ),
            OpenAction::Failed(e) => action@ == OpenAction::<Seq<char>, DavFileView>::Failed(e),
        },
{
}

}

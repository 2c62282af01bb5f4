//! A file that a client has open, and its upload.
//!
//! Where the client said how long the file is, its parts are sent as they arrive. Otherwise
//! the file is staged and sent when it is flushed. Either way an upload alternates between the
//! drive and a decision: [`QuarkDavFile`] says what to do next, and goes on with what came back.
use vstd::prelude::*;
use bytes::BytesMut;
use md5::Context as Md5Context;
use sha1::Sha1;
use crate::chunks::ChunkUpload;
use crate::drive::{Callback, Target};
use crate::error::FsError;
#[allow(unused_imports)]
use crate::file::{opt_text, FileView};
use crate::file::QuarkFile;
#[allow(unused_imports)]
use crate::outside::{buffer_new, buffered, md5_fed, md5_new, sha1_fed, sha1_new};
use crate::part::PartUpload;
#[allow(unused_imports)]
use crate::text::texts;

verus! {

/// The MD5 of no bytes.
pub const EMPTY_MD5: &'static str = "d41d8cd98f00b204e9800998ecf8427e";

/// The SHA-1 of no bytes.
pub const EMPTY_SHA1: &'static str = "da39a3ee5e6b4b0d3255bfef95601890afd80709";

/// What is known of an upload.
pub struct UploadState {
    pub size: u64,
    pub chunk_count: u64,
    pub chunk_size: u64,
    pub target: Target<String>,
    pub callback: Option<Callback<String>>,
    pub sha1: Option<String>,
    /// Where the file is staged.
    pub temp_file_path: String,
    /// There is nothing more to send.
    pub is_finished: bool,
    /// Something was staged.
    pub is_uploading: bool,
    pub flush_count: u32,
    /// How long the file is, if the client said so.
    pub declared_size: Option<u64>,
    /// Whether parts are sent as they arrive.
    pub streaming: bool,
    pub stream_started: bool,
    /// What has arrived and is not sent yet.
    pub part_buf: BytesMut,
    pub part_number: u32,
    pub etags: Vec<String>,
}

/// What an [`UploadState`] says.
#[verifier::ext_equal]
pub struct UploadView {
    pub size: u64,
    pub chunk_count: u64,
    pub chunk_size: u64,
    pub target: Target<Seq<char>>,
    pub callback: Option<Callback<Seq<char>>>,
    pub sha1: Option<Seq<char>>,
    pub temp_file_path: Seq<char>,
    pub is_finished: bool,
    pub is_uploading: bool,
    pub flush_count: u32,
    pub declared_size: Option<u64>,
    pub streaming: bool,
    pub stream_started: bool,
    pub part_buf: Seq<u8>,
    pub part_number: u32,
    pub etags: Seq<Seq<char>>,
}

impl View for UploadState {
    type V = UploadView;

    open spec fn view(&self) -> UploadView {
        UploadView {
            size: self.size,
            chunk_count: self.chunk_count,
            chunk_size: self.chunk_size,
            target: self.target@,
            callback: match self.callback {
                Some(c) => Some(c@),
                None => None,
            },
            sha1: opt_text(self.sha1),
            temp_file_path: self.temp_file_path@,
            is_finished: self.is_finished,
            is_uploading: self.is_uploading,
            flush_count: self.flush_count,
            declared_size: self.declared_size,
            streaming: self.streaming,
            stream_started: self.stream_started,
            part_buf: buffered(self.part_buf),
            part_number: self.part_number,
            etags: texts(self.etags@),
        }
    }
}

/// An upload of which nothing is known yet.
pub open spec fn fresh_upload() -> UploadView {
    UploadView {
        size: 0,
        chunk_count: 0,
        chunk_size: 0,
        target: Target {
            upload_id: ""@,
            upload_url: ""@,
            task_id: ""@,
            bucket: ""@,
            obj_key: ""@,
            mime_type: "application/octet-stream"@,
            auth_info: ""@,
        },
        callback: None,
        sha1: None,
        temp_file_path: ""@,
        is_finished: false,
        is_uploading: false,
        flush_count: 0,
        declared_size: None,
        streaming: false,
        stream_started: false,
        part_buf: Seq::empty(),
        part_number: 0,
        etags: Seq::empty(),
    }
}

impl Default for UploadState {
    fn default() -> (res: Self)
        ensures
            res@ == fresh_upload(),
    {
        let etags: Vec<String> = Vec::new();
        assert(texts(etags@) =~= Seq::<Seq<char>>::empty());
        UploadState {
            size: 0,
            chunk_count: 0,
            chunk_size: 0,
            target: Target {
                upload_id: "".to_owned(),
                upload_url: "".to_owned(),
                task_id: "".to_owned(),
                bucket: "".to_owned(),
                obj_key: "".to_owned(),
                mime_type: "application/octet-stream".to_owned(),
                auth_info: "".to_owned(),
            },
            callback: None,
            sha1: None,
            temp_file_path: "".to_owned(),
            is_finished: false,
            is_uploading: false,
            flush_count: 0,
            declared_size: None,
            streaming: false,
            stream_started: false,
            part_buf: buffer_new(),
            part_number: 0,
            etags,
        }
    }
}

/// What an open file waits for.
pub enum Phase<T, B, L> {
    /// Nothing.
    Idle,
    /// The old file to be removed before parts are sent as they arrive; these bytes have
    /// arrived.
    StreamRemoving(B),
    /// The reply to the announcement of such an upload; these bytes have arrived.
    StreamAnnouncing(B),
    /// A part to be sent, the last one if the file is being flushed.
    StreamPart { part: PartUpload<T, B>, flushing: bool },
    /// The reply to the digests of what was sent.
    StreamHashing,
    Committing,
    Finishing,
    /// Bytes to be staged.
    Staging(B),
    /// The MD5 of the old file, before a staged or an empty file is sent.
    OldMd5 { empty: bool },
    /// The old file to be removed.
    OldRemoving { empty: bool },
    /// The reply to the announcement.
    Announcing { empty: bool },
    /// The reply to the digests.
    Hashing { empty: bool },
    /// An empty file to be staged.
    TempMaking,
    /// An empty file to be sent.
    Chunks(ChunkUpload<T, B, L>),
    /// The task that sends a staged file.
    Waiting,
    /// The staged file to be removed after a flush, and whether the drive has a new file.
    Cleaning { uploaded: bool, outcome: Result<(), FsError> },
    /// The new file to be listed.
    Settling { outcome: Result<(), FsError> },
}

impl View for Phase<String, Vec<u8>, Vec<String>> {
    type V = Phase<Seq<char>, Seq<u8>, Seq<Seq<char>>>;

    open spec fn view(&self) -> Phase<Seq<char>, Seq<u8>, Seq<Seq<char>>> {
        match *self {
            Phase::Idle => Phase::Idle,
            Phase::StreamRemoving(b) => Phase::StreamRemoving(b@),
            Phase::StreamAnnouncing(b) => Phase::StreamAnnouncing(b@),
            Phase::StreamPart { part, flushing } => Phase::StreamPart { part: part@, flushing },
            Phase::StreamHashing => Phase::StreamHashing,
            Phase::Committing => Phase::Committing,
            Phase::Finishing => Phase::Finishing,
            Phase::Staging(b) => Phase::Staging(b@),
            Phase::OldMd5 { empty } => Phase::OldMd5 { empty },
            Phase::OldRemoving { empty } => Phase::OldRemoving { empty },
            Phase::Announcing { empty } => Phase::Announcing { empty },
            Phase::Hashing { empty } => Phase::Hashing { empty },
            Phase::TempMaking => Phase::TempMaking,
            Phase::Chunks(c) => Phase::Chunks(c@),
            Phase::Waiting => Phase::Waiting,
            Phase::Cleaning { uploaded, outcome } => Phase::Cleaning { uploaded, outcome },
            Phase::Settling { outcome } => Phase::Settling { outcome },
        }
    }
}

/// A file that a client has open.
pub struct QuarkDavFile {
    pub file: QuarkFile,
    pub parent_file_id: String,
    pub parent_dir: String,
    pub current_pos: u64,
    pub upload_state: UploadState,
    pub http_download: bool,
    pub md5_ctx: Md5Context,
    pub sha1_ctx: Sha1,
    /// How many bytes went into the digests.
    pub hashed_len: u64,
    pub phase: Phase<String, Vec<u8>, Vec<String>>,
}

/// What a [`QuarkDavFile`] knows.
#[verifier::ext_equal]
pub struct DavFileView {
    pub file: FileView,
    pub parent_file_id: Seq<char>,
    pub parent_dir: Seq<char>,
    pub current_pos: u64,
    pub state: UploadView,
    pub http_download: bool,
    /// The bytes that went into the digests.
    pub hashed: Seq<u8>,
    pub phase: Phase<Seq<char>, Seq<u8>, Seq<Seq<char>>>,
}

impl View for QuarkDavFile {
    type V = DavFileView;

    open spec fn view(&self) -> DavFileView {
        DavFileView {
            file: self.file@,
            parent_file_id: self.parent_file_id@,
            parent_dir: self.parent_dir@,
            current_pos: self.current_pos,
            state: self.upload_state@,
            http_download: self.http_download,
            hashed: md5_fed(self.md5_ctx),
            phase: self.phase@,
        }
    }
}

impl QuarkDavFile {
    /// Both digests are of the same bytes.
    pub open spec fn in_step(self) -> bool {
        &&& sha1_fed(self.sha1_ctx) == md5_fed(self.md5_ctx)
        &&& self.hashed_len == md5_fed(self.md5_ctx).len()
    }

    /// A file that was just opened.
    pub fn new(
        file: QuarkFile,
        parent_file_id: String,
        parent_dir: String,
        size: u64,
        sha1: Option<String>,
    ) -> (res: Self)
        ensures
            res@ == opened(file@, parent_file_id@, parent_dir@, size, opt_text(sha1)),
            res.in_step(),
    {
        QuarkDavFile {
            file,
            parent_file_id,
            parent_dir,
            current_pos: 0,
            upload_state: UploadState { size, sha1, ..UploadState::default() },
            http_download: false,
            md5_ctx: md5_new(),
            sha1_ctx: sha1_new(),
            hashed_len: 0,
            phase: Phase::Idle,
        }
    }

    /// The record of the file.
    pub fn metadata(&self) -> (res: QuarkFile)
        ensures
            res@ == self@.file,
    {
        self.file.clone()
    }
}

/// A file that was just opened.
pub open spec fn opened(
    file: FileView,
    parent_file_id: Seq<char>,
    parent_dir: Seq<char>,
    size: u64,
    sha1: Option<Seq<char>>,
) -> DavFileView {
    DavFileView {
        file,
        parent_file_id,
        parent_dir,
        current_pos: 0,
        state: UploadView { size, sha1, ..fresh_upload() },
        http_download: false,
        hashed: Seq::empty(),
        phase: Phase::Idle,
    }
}

/// An open file says what it holds.
pub proof fn law_open_file_says_what_it_holds(f: QuarkDavFile)
    ensures
        f@.file == f.file@,
        f@.parent_file_id == f.parent_file_id@,
        f@.parent_dir == f.parent_dir@,
        f@.current_pos == f.current_pos,
        f@.http_download == f.http_download,
        f@.state.size == f.upload_state.size,
        f@.state.chunk_count == f.upload_state.chunk_count,
        f@.state.chunk_size == f.upload_state.chunk_size,
        f@.state.target == f.upload_state.target@,
        f@.state.temp_file_path == f.upload_state.temp_file_path@,
        f@.state.is_finished == f.upload_state.is_finished,
        f@.state.is_uploading == f.upload_state.is_uploading,
        f@.state.flush_count == f.upload_state.flush_count,
        f@.state.declared_size == f.upload_state.declared_size,
        f@.state.streaming == f.upload_state.streaming,
        f@.state.stream_started == f.upload_state.stream_started,
        f@.state.part_buf == buffered(f.upload_state.part_buf),
        f@.state.part_number == f.upload_state.part_number,
        f@.hashed == md5_fed(f.md5_ctx),
        f.in_step() ==> sha1_fed(f.sha1_ctx) == f@.hashed && f.hashed_len == f@.hashed.len(),
{
}

/// The digests that are reported for no bytes are the MD5 and the SHA-1 of no bytes.
pub proof fn law_digests_of_nothing()
    ensures
        EMPTY_MD5@ == "d41d8cd98f00b204e9800998ecf8427e"@,
        EMPTY_SHA1@ == "da39a3ee5e6b4b0d3255bfef95601890afd80709"@,
        EMPTY_MD5@.len() == 32,
        EMPTY_SHA1@.len() == 40,
{
    reveal_strlit("d41d8cd98f00b204e9800998ecf8427e");
    reveal_strlit("da39a3ee5e6b4b0d3255bfef95601890afd80709");
}

/// A file that was just opened is as it was given: at its beginning, with nothing written.
pub proof fn law_new_open_file_is_as_given(
    file: FileView,
    parent_file_id: Seq<char>,
    parent_dir: Seq<char>,
    size: u64,
    sha1: Option<Seq<char>>,
)
    ensures
        ({
            let f = opened(file, parent_file_id, parent_dir, size, sha1);
            &&& f.file == file
            &&& f.parent_file_id == parent_file_id
            &&& f.parent_dir == parent_dir
            &&& f.current_pos == 0
            &&& !f.http_download
            &&& f.hashed.len() == 0
            &&& f.phase is Idle
            &&& f.state.size == size
            &&& f.state.sha1 == sha1
            &&& f.state.declared_size is None
            &&& f.state.callback is None
            &&& f.state.temp_file_path.len() == 0
            &&& !f.state.is_finished
            &&& !f.state.is_uploading
            &&& !f.state.streaming
            &&& !f.state.stream_started
            &&& f.state.chunk_count == 0
            &&& f.state.chunk_size == 0
            &&& f.state.flush_count == 0
            &&& f.state.part_number == 0
            &&& f.state.part_buf.len() == 0
            &&& f.state.etags.len() == 0
        }),
{
    reveal_strlit("");
}

}

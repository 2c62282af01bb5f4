//! What the upload of an open file does, step by step, and what holds of it as a whole.
use vstd::prelude::*;
#[allow(unused_imports)]
use crate::chunks::{
    chunk_count_of, chunk_start, chunks_await, chunks_next, chunks_valid, law_chunks_cover_the_file,
    lemma_chunk_count_is_small, lemma_chunks_stay_valid, ChunkStage, ChunkUpload, TaskStage,
    UploadTask,
};
#[allow(unused_imports)]
use crate::clock::http_date_of;
#[allow(unused_imports)]
use crate::drive::{commit_of, PreUpload, Target};
#[allow(unused_imports)]
use crate::error::FsError;
#[allow(unused_imports)]
use crate::file::FileView;
#[allow(unused_imports)]
use crate::number::{decimal_of, hex_of};
#[allow(unused_imports)]
use crate::outside::{md5_of, most_hashed, sha1_of};
#[allow(unused_imports)]
use crate::part::{
    part_awaits, part_begun, part_next, part_request, ActionView, EventView, PartNext, PartUpload,
    TaskEnd, UploadAction, UploadEvent,
};
#[allow(unused_imports)]
use crate::path::join_of;
#[allow(unused_imports)]
use crate::text::{same_but_case, without_prefix};
#[allow(unused_imports)]
use crate::upload::{fresh_upload, DavFileView, Phase, UploadView, EMPTY_MD5, EMPTY_SHA1};
#[allow(unused_imports)]
use crate::vfs::FsView;

verus! {

/// A URL without its scheme, if that is `https` or `http`.
pub open spec fn without_scheme(url: Seq<char>) -> Seq<char> {
    match without_prefix(url, "https://"@) {
        Some(rest) => rest,
        None => match without_prefix(url, "http://"@) {
            Some(rest) => rest,
            None => url,
        },
    }
}

/// The name under which a file is staged.
pub open spec fn staged_name(now: u64, name: Seq<char>) -> Seq<char> {
    decimal_of(now as nat) + "_"@ + name
}

impl DavFileView {
    /// The end of what was asked of the file.
    pub open spec fn done(self, outcome: Result<(), FsError>) -> (DavFileView, ActionView) {
        (DavFileView { phase: Phase::Idle, ..self }, UploadAction::Done(outcome))
    }

    /// The end of a flush: the staged file goes first.
    pub open spec fn after_flush(self, uploaded: bool, outcome: Result<(), FsError>) -> (
        DavFileView,
        ActionView,
    ) {
        (
            DavFileView { phase: Phase::Cleaning { uploaded, outcome }, ..self },
            UploadAction::RemoveTemp { path: self.state.temp_file_path },
        )
    }

    /// The end of a flush that failed. An empty file leaves nothing to be put right.
    pub open spec fn flush_failed(self, empty: bool, e: FsError) -> (DavFileView, ActionView) {
        if empty {
            self.done(Err(e))
        } else {
            self.after_flush(false, Err(e))
        }
    }

    /// With nothing more to send.
    pub open spec fn finished(self) -> DavFileView {
        DavFileView { state: UploadView { is_finished: true, ..self.state }, ..self }
    }

    /// The announcement of an upload.
    pub open spec fn announcement(self, size: u64) -> ActionView {
        UploadAction::UpPre {
            file_name: self.file.file_name,
            size,
            parent_fid: self.parent_file_id,
        }
    }

    /// The request to remove the old file.
    pub open spec fn removal(self, fs: FsView) -> ActionView {
        UploadAction::RemoveFile { fid: self.file.fid, trash: !fs.no_trash }
    }

    /// The size of what is flushed.
    pub open spec fn flushed_size(self, empty: bool) -> u64 {
        if empty {
            0
        } else {
            self.state.size
        }
    }

    /// The MD5 of what is flushed.
    pub open spec fn md5_text(self, empty: bool) -> Seq<char> {
        if empty {
            EMPTY_MD5@
        } else {
            hex_of(md5_of(self.hashed))
        }
    }

    /// The SHA-1 of what is flushed.
    pub open spec fn sha1_text(self, empty: bool) -> Seq<char> {
        if empty {
            EMPTY_SHA1@
        } else {
            hex_of(sha1_of(self.hashed))
        }
    }

    /// The report of the digests.
    pub open spec fn report(self, empty: bool) -> ActionView {
        UploadAction::UpHash {
            md5: self.md5_text(empty),
            sha1: self.sha1_text(empty),
            task_id: self.state.target.task_id,
        }
    }

    /// With what the reply to an announcement says.
    pub open spec fn adopted(
        self,
        reply: PreUpload<Seq<char>>,
        size: u64,
        chunk_size: u64,
        chunk_count: u64,
    ) -> DavFileView {
        DavFileView {
            file: FileView { fid: reply.fid, ..self.file },
            state: UploadView {
                size,
                chunk_size,
                chunk_count,
                target: Target {
                    upload_id: match reply.upload_id {
                        Some(id) => id,
                        None => self.state.target.upload_id,
                    },
                    upload_url: without_scheme(reply.upload_url),
                    task_id: reply.task_id,
                    bucket: reply.bucket,
                    obj_key: reply.obj_key,
                    mime_type: if reply.format_type.len() > 0 {
                        reply.format_type
                    } else {
                        self.state.target.mime_type
                    },
                    auth_info: reply.auth_info,
                },
                callback: Some(reply.callback),
                ..self.state
            },
            ..self
        }
    }

    /// The next part, of so many of the bytes that have arrived, is on its way. The digests
    /// take it in as it leaves.
    pub open spec fn part_started(self, len: int, flushing: bool, now: u64) -> (
        DavFileView,
        ActionView,
    ) {
        let bytes = self.state.part_buf.take(len);
        let part_number = (self.state.part_number + 1) as u32;
        let part = PartUpload::Meta {
            target: self.state.target,
            part_number,
            utc_time: http_date_of(now),
            bytes,
        };
        (
            DavFileView {
                hashed: self.hashed + bytes,
                state: UploadView {
                    part_buf: self.state.part_buf.skip(len),
                    part_number,
                    ..self.state
                },
                phase: Phase::StreamPart { part, flushing },
                ..self
            },
            part_begun(self.state.target, part_number, http_date_of(now)),
        )
    }

    /// With bytes that have arrived.
    pub open spec fn with_arrived(self, bytes: Seq<u8>) -> DavFileView {
        DavFileView {
            state: UploadView { part_buf: self.state.part_buf + bytes, ..self.state },
            ..self
        }
    }

    /// As long as a whole part has arrived, it is sent.
    pub open spec fn write_on(self, now: u64) -> (DavFileView, ActionView) {
        if self.state.chunk_size == 0 {
            self.done(Err(FsError::GeneralFailure))
        } else if self.state.part_buf.len() >= self.state.chunk_size {
            self.part_started(self.state.chunk_size as int, false, now)
        } else {
            self.done(Ok(()))
        }
    }

    /// The first bytes of a file that is sent as it arrives. An old file is removed, unless it
    /// is of the same size and that is reason enough to keep it.
    pub open spec fn start_stream(self, fs: FsView, bytes: Seq<u8>) -> (DavFileView, ActionView) {
        let v = DavFileView {
            state: UploadView { stream_started: true, ..self.state },
            ..self
        };
        match self.state.declared_size {
            None => v.done(Err(FsError::GeneralFailure)),
            Some(size) => if self.file.fid.len() > 0 && fs.skip_upload_same_size && self.file.size
                == size {
                v.finished().done(Ok(()))
            } else if self.file.fid.len() > 0 {
                (DavFileView { phase: Phase::StreamRemoving(bytes), ..v }, self.removal(fs))
            } else {
                (
                    DavFileView { phase: Phase::StreamAnnouncing(bytes), ..v },
                    self.announcement(size),
                )
            },
        }
    }

    /// Bytes arrive for a file that is staged.
    pub open spec fn stage(self, fs: FsView, bytes: Seq<u8>, now: u64) -> (
        DavFileView,
        ActionView,
    ) {
        let path = if self.state.is_uploading {
            self.state.temp_file_path
        } else {
            join_of(fs.temp_dir, staged_name(now, self.file.file_name))
        };
        (
            DavFileView {
                state: UploadView {
                    is_uploading: true,
                    temp_file_path: path,
                    size: (self.state.size + bytes.len()) as u64,
                    ..self.state
                },
                phase: Phase::Staging(bytes),
                ..self
            },
            UploadAction::AppendTemp { path, bytes },
        )
    }

    /// Bytes arrive.
    pub open spec fn write_begun(self, fs: FsView, bytes: Seq<u8>, now: u64) -> (
        DavFileView,
        ActionView,
    ) {
        if self.state.is_finished {
            self.done(Ok(()))
        } else if !self.state.streaming {
            self.stage(fs, bytes, now)
        } else if !self.state.stream_started {
            self.start_stream(fs, bytes)
        } else {
            self.with_arrived(bytes).write_on(now)
        }
    }

    /// A staged or an empty file is flushed: first comes what the drive has already.
    pub open spec fn do_flush(self, empty: bool) -> (DavFileView, ActionView) {
        if self.file.fid.len() > 0 {
            (
                DavFileView { phase: Phase::OldMd5 { empty }, ..self },
                UploadAction::GetFileMd5 { fid: self.file.fid },
            )
        } else {
            (
                DavFileView { phase: Phase::Announcing { empty }, ..self },
                self.announcement(self.flushed_size(empty)),
            )
        }
    }

    /// A file that was sent as it arrived is flushed.
    pub open spec fn stream_flush(self, now: u64) -> (DavFileView, ActionView) {
        if self.state.is_finished {
            self.after_flush(true, Ok(()))
        } else if !self.state.stream_started {
            self.done(Ok(()))
        } else if self.state.part_buf.len() > 0 {
            self.part_started(self.state.part_buf.len() as int, true, now)
        } else {
            (DavFileView { phase: Phase::StreamHashing, ..self }, self.report(false))
        }
    }

    /// The file is flushed.
    pub open spec fn flush_begun(self, now: u64) -> (DavFileView, ActionView) {
        if self.state.streaming {
            self.stream_flush(now)
        } else if !self.state.is_uploading {
            DavFileView {
                state: UploadView {
                    flush_count: (self.state.flush_count + 1) as u32,
                    ..self.state
                },
                ..self
            }.done(Ok(()))
        } else if self.state.is_finished {
            self.done(Ok(()))
        } else {
            self.do_flush(false)
        }
    }

    /// The reply to the announcement of a file that is sent as it arrives.
    pub open spec fn stream_announced(
        self,
        reply: Option<PreUpload<Seq<char>>>,
        bytes: Seq<u8>,
        now: u64,
    ) -> (DavFileView, ActionView) {
        match reply {
            None => self.done(Err(FsError::GeneralFailure)),
            Some(r) => if r.finish {
                self.finished().done(Ok(()))
            } else {
                let v = self.adopted(
                    r,
                    self.state.declared_size->0,
                    r.part_size,
                    self.state.chunk_count,
                );
                if r.upload_id is None {
                    v.done(Err(FsError::GeneralFailure))
                } else {
                    v.with_arrived(bytes).write_on(now)
                }
            },
        }
    }

    /// A part was sent, and the store tagged it. The tag `finish` says that it has the whole
    /// object already.
    pub open spec fn part_tagged(self, etag: Seq<char>, flushing: bool, now: u64) -> (
        DavFileView,
        ActionView,
    ) {
        let kept = DavFileView {
            state: UploadView { etags: self.state.etags.push(etag), ..self.state },
            ..self
        };
        if etag == "finish"@ {
            if flushing {
                self.finished().after_flush(true, Ok(()))
            } else {
                self.finished().done(Ok(()))
            }
        } else if flushing {
            (DavFileView { phase: Phase::StreamHashing, ..kept }, kept.report(false))
        } else {
            kept.write_on(now)
        }
    }

    /// A part goes on, or could not be sent.
    pub open spec fn part_went_on(
        self,
        next: PartNext<Seq<char>, Seq<u8>, Seq<Seq<char>>>,
        flushing: bool,
        now: u64,
    ) -> (DavFileView, ActionView) {
        match next {
            PartNext::Ask(part, action) => (
                DavFileView { phase: Phase::StreamPart { part, flushing }, ..self },
                action,
            ),
            PartNext::Tagged(etag) => self.part_tagged(etag, flushing, now),
            _ => if flushing {
                self.after_flush(false, Err(FsError::GeneralFailure))
            } else {
                self.done(Err(FsError::GeneralFailure))
            },
        }
    }

    /// The reply to the digests of what was sent.
    pub open spec fn stream_hashed(self, had: Option<bool>) -> (DavFileView, ActionView) {
        match (had, self.state.callback) {
            (Some(true), _) => self.finished().after_flush(true, Ok(())),
            (Some(false), Some(callback)) => (
                DavFileView { phase: Phase::Committing, ..self },
                UploadAction::Commit(commit_of(self.state.target, callback, self.state.etags)),
            ),
            _ => self.after_flush(false, Err(FsError::GeneralFailure)),
        }
    }

    /// Whether the drive has what is flushed, by its MD5.
    pub open spec fn has_same(self, empty: bool, cloud_md5: Option<Option<Seq<char>>>) -> bool {
        cloud_md5 matches Some(Some(m)) && same_but_case(m, self.md5_text(empty))
    }

    /// What the drive has is known. The same content is not sent again, nor is a file of the
    /// same size if that is reason enough.
    pub open spec fn old_known(
        self,
        fs: FsView,
        empty: bool,
        cloud_md5: Option<Option<Seq<char>>>,
    ) -> (DavFileView, ActionView) {
        if self.has_same(empty, cloud_md5) || (!empty && fs.skip_upload_same_size && self.file.size == self.state.size) {
            self.finished().after_flush(true, Ok(()))
        } else {
            (DavFileView { phase: Phase::OldRemoving { empty }, ..self }, self.removal(fs))
        }
    }

    /// The reply to the announcement of a staged or an empty file.
    pub open spec fn announced(self, empty: bool, reply: Option<PreUpload<Seq<char>>>) -> (
        DavFileView,
        ActionView,
    ) {
        match reply {
            None => self.flush_failed(empty, FsError::GeneralFailure),
            Some(r) => if r.finish {
                self.finished().after_flush(true, Ok(()))
            } else {
                let v = if empty {
                    self.adopted(r, self.state.size, 0, 1)
                } else {
                    self.adopted(
                        r,
                        self.state.size,
                        r.part_size,
                        chunk_count_of(self.state.size, r.part_size) as u64,
                    )
                };
                if r.upload_id is None {
                    v.flush_failed(empty, FsError::GeneralFailure)
                } else {
                    (DavFileView { phase: Phase::Hashing { empty }, ..v }, v.report(empty))
                }
            },
        }
    }

    /// The staged file, to be sent in parts.
    pub open spec fn staged(self) -> ChunkUpload<Seq<char>, Seq<u8>, Seq<Seq<char>>> {
        ChunkUpload {
            target: self.state.target,
            callback: self.state.callback->0,
            temp_path: self.state.temp_file_path,
            size: self.state.size,
            chunk_size: self.state.chunk_size,
            chunk_count: self.state.chunk_count,
            etags: Seq::empty(),
            stage: ChunkStage::Opening,
        }
    }

    /// The reply to the digests of a staged or an empty file. A staged file goes to a task on
    /// its own and belongs to it from then on.
    pub open spec fn hashed_reply(self, fs: FsView, empty: bool, had: Option<bool>, now: u64) -> (
        DavFileView,
        ActionView,
    ) {
        match had {
            None => self.flush_failed(empty, FsError::GeneralFailure),
            Some(true) => self.finished().after_flush(true, Ok(())),
            Some(false) => if empty {
                let path = join_of(
                    fs.temp_dir,
                    staged_name(now, self.file.file_name),
                );
                (
                    DavFileView {
                        state: UploadView { temp_file_path: path, ..self.state },
                        phase: Phase::TempMaking,
                        ..self
                    },
                    UploadAction::MakeTemp { path },
                )
            } else {
                (
                    DavFileView {
                        state: UploadView { temp_file_path: ""@, ..self.state },
                        phase: Phase::Waiting,
                        ..self
                    },
                    UploadAction::Spawn {
                        task: UploadTask {
                            chunks: self.staged(),
                            parent_dir: self.parent_dir,
                            parent_path: self.file.parent_path->0,
                            file_name: self.file.file_name,
                            stage: TaskStage::Sending,
                        },
                        wait: fs.upload_wait_timeout,
                    },
                )
            },
        }
    }

    /// An empty file goes on being sent.
    pub open spec fn chunks_went_on(
        self,
        next: (ChunkUpload<Seq<char>, Seq<u8>, Seq<Seq<char>>>, ActionView),
    ) -> (DavFileView, ActionView) {
        match next.1 {
            UploadAction::Done(Ok(_)) => self.after_flush(true, Ok(())),
            UploadAction::Done(Err(e)) => self.done(Err(e)),
            _ => (DavFileView { phase: Phase::Chunks(next.0), ..self }, next.1),
        }
    }

    /// The task that sends a staged file ended, or was waited for long enough: then it goes on
    /// without the client.
    pub open spec fn task_ended(self, end: TaskEnd) -> (DavFileView, ActionView) {
        match end {
            TaskEnd::Ended(Err(e)) => self.after_flush(false, Err(e)),
            TaskEnd::Lost => self.after_flush(false, Err(FsError::GeneralFailure)),
            _ => (DavFileView { state: fresh_upload(), ..self }).done(Ok(())),
        }
    }

    /// The staged file is gone; if the drive has a new file, it remains to be listed.
    pub open spec fn cleaned(self, uploaded: bool, outcome: Result<(), FsError>) -> (
        DavFileView,
        ActionView,
    ) {
        let v = DavFileView { state: fresh_upload(), ..self };
        if uploaded {
            (
                DavFileView { phase: Phase::Settling { outcome }, ..v },
                UploadAction::Settle {
                    parent_dir: self.parent_dir,
                    parent_path: self.file.parent_path->0,
                    file_name: self.file.file_name,
                },
            )
        } else {
            v.done(outcome)
        }
    }

    /// How the upload goes on after what was asked for.
    pub open spec fn next(self, fs: FsView, event: EventView, now: u64) -> (
        DavFileView,
        ActionView,
    ) {
        let failed = Err(FsError::GeneralFailure);
        match (self.phase, event) {
            (Phase::StreamRemoving(bytes), UploadEvent::Removed) => (
                DavFileView { phase: Phase::StreamAnnouncing(bytes), ..self },
                self.announcement(self.state.declared_size->0),
            ),
            (Phase::StreamAnnouncing(bytes), UploadEvent::Announced(reply)) =>
            self.stream_announced(reply, bytes, now),
            (Phase::StreamPart { part, flushing }, e) => self.part_went_on(
                part_next(part, e),
                flushing,
                now,
            ),
            (Phase::StreamHashing, UploadEvent::Hashed(had)) => self.stream_hashed(had),
            (Phase::Committing, UploadEvent::Committed(did)) => if did {
                (
                    DavFileView { phase: Phase::Finishing, ..self },
                    UploadAction::Finish {
                        obj_key: self.state.target.obj_key,
                        task_id: self.state.target.task_id,
                    },
                )
            } else {
                self.after_flush(false, failed)
            },
            (Phase::Finishing, UploadEvent::Finished(did)) => if did {
                self.after_flush(true, Ok(()))
            } else {
                self.after_flush(false, failed)
            },
            (Phase::Staging(bytes), UploadEvent::TempWritten(did)) => if did {
                (DavFileView { hashed: self.hashed + bytes, ..self }).done(Ok(()))
            } else {
                self.done(failed)
            },
            (Phase::OldMd5 { empty }, UploadEvent::CloudMd5(m)) => self.old_known(fs, empty, m),
            (Phase::OldRemoving { empty }, UploadEvent::Removed) => (
                DavFileView { phase: Phase::Announcing { empty }, ..self },
                self.announcement(self.flushed_size(empty)),
            ),
            (Phase::Announcing { empty }, UploadEvent::Announced(reply)) => self.announced(
                empty,
                reply,
            ),
            (Phase::Hashing { empty }, UploadEvent::Hashed(had)) => self.hashed_reply(
                fs,
                empty,
                had,
                now,
            ),
            (Phase::TempMaking, UploadEvent::TempWritten(did)) => if did {
                (
                    DavFileView { phase: Phase::Chunks(self.staged()), ..self },
                    UploadAction::OpenTemp { path: self.state.temp_file_path },
                )
            } else {
                self.done(failed)
            },
            (Phase::Chunks(c), e) => self.chunks_went_on(chunks_next(c, e, now)),
            (Phase::Waiting, UploadEvent::TaskEnded(end)) => self.task_ended(end),
            (Phase::Cleaning { uploaded, outcome }, UploadEvent::TempRemoved) => self.cleaned(
                uploaded,
                outcome,
            ),
            (Phase::Settling { outcome }, UploadEvent::Settled) => self.done(outcome),
            _ => self.done(failed),
        }
    }

    /// What the upload does to the file system on its way. Where nothing new is on the drive,
    /// the placeholder goes, and the listing with it: the old file may be gone already.
    pub open spec fn fs_next(self, fs: FsView, event: EventView) -> FsView {
        match (self.phase, event, self.file.parent_path) {
            (
                Phase::Cleaning { uploaded: false, .. },
                UploadEvent::TempRemoved,
                Some(path),
            ) => fs.without_placeholder(path, self.file.file_name).bumped(self.parent_dir),
            _ => fs,
        }
    }

    /// Whether the file is on its way to the store as it arrives.
    pub open spec fn is_streaming(self) -> bool {
        match self.phase {
            Phase::StreamRemoving(_) => true,
            Phase::StreamAnnouncing(_) => true,
            Phase::StreamPart { .. } => true,
            Phase::StreamHashing => true,
            Phase::Committing => true,
            Phase::Finishing => true,
            _ => false,
        }
    }

    /// Whether a staged or an empty file is on its way.
    pub open spec fn is_flushing(self) -> bool {
        match self.phase {
            Phase::OldMd5 { .. } => true,
            Phase::OldRemoving { .. } => true,
            Phase::Announcing { .. } => true,
            Phase::Hashing { .. } => true,
            Phase::TempMaking => true,
            Phase::Chunks(_) => true,
            Phase::Waiting => true,
            _ => false,
        }
    }

    /// Bytes that have arrived and are neither staged nor in the buffer yet.
    pub open spec fn pending(self) -> Seq<u8> {
        match self.phase {
            Phase::StreamRemoving(bytes) => bytes,
            Phase::StreamAnnouncing(bytes) => bytes,
            Phase::Staging(bytes) => bytes,
            _ => Seq::empty(),
        }
    }

    /// All that is held agrees.
    pub open spec fn valid(self) -> bool {
        &&& self.hashed.len() + self.state.part_buf.len() + self.pending().len() <= most_hashed()
        &&& self.state.part_buf.len() + self.pending().len() <= isize::MAX
        &&& !self.state.streaming ==> self.state.part_buf.len() == 0
        &&& self.is_streaming() ==> self.state.streaming
        &&& match self.phase {
            Phase::StreamPart { flushing, .. } => flushing ==> self.state.part_buf.len() == 0,
            Phase::StreamHashing => self.state.part_buf.len() == 0,
            Phase::Staging(_) => !self.state.streaming,
            Phase::StreamRemoving(_) => self.state.declared_size is Some,
            Phase::StreamAnnouncing(_) => self.state.declared_size is Some,
            Phase::OldMd5 { empty } => empty || !self.state.streaming,
            Phase::OldRemoving { empty } => empty || !self.state.streaming,
            Phase::Announcing { empty } => empty || !self.state.streaming,
            Phase::Hashing { empty } => self.state.callback is Some && if empty {
                self.state.chunk_count == 1 && self.state.chunk_size == 0
            } else {
                !self.state.streaming && self.state.chunk_size > 0 && self.state.chunk_count == chunk_count_of(
                    self.state.size,
                    self.state.chunk_size,
                )
            },
            Phase::TempMaking => self.state.callback is Some && self.state.chunk_count == 1
                && self.state.chunk_size == 0,
            Phase::Chunks(c) => chunks_valid(c),
            Phase::Cleaning { uploaded, outcome } => uploaded == (outcome is Ok),
            Phase::Settling { .. } => self.state == fresh_upload(),
            _ => true,
        }
    }

    /// Whether an event is what the upload waits for. Where it may send another part, that part
    /// has a number. Where it says which directory the file is in, the record says so. Where it
    /// cuts a staged file into parts, the drive asks for parts that are not empty.
    pub open spec fn awaits(self, event: EventView) -> bool {
        match self.phase {
            Phase::Idle => false,
            Phase::StreamRemoving(_) => event is Removed,
            Phase::StreamAnnouncing(_) => event is Announced && self.state.part_number < u32::MAX,
            Phase::StreamPart { part, flushing } => part_awaits(part, event) && (!flushing
                && event is Etag ==> self.state.part_number < u32::MAX),
            Phase::StreamHashing => event is Hashed,
            Phase::Committing => event is Committed,
            Phase::Finishing => event is Finished,
            Phase::Staging(_) => event is TempWritten,
            Phase::OldMd5 { .. } => event is CloudMd5,
            Phase::OldRemoving { .. } => event is Removed,
            Phase::Announcing { empty } => event matches UploadEvent::Announced(reply) && (
            reply matches Some(r) ==> empty || r.finish || r.part_size > 0),
            Phase::Hashing { empty } => event matches UploadEvent::Hashed(had) && (!empty && had
                == Some(false) ==> self.file.parent_path is Some),
            Phase::TempMaking => event is TempWritten,
            Phase::Chunks(c) => chunks_await(c, event),
            Phase::Waiting => event is TaskEnded,
            Phase::Cleaning { .. } => event is TempRemoved && self.file.parent_path is Some,
            Phase::Settling { .. } => event is Settled,
        }
    }

    /// Whether another part has a number, if there may be one.
    pub open spec fn can_send(self) -> bool {
        self.state.streaming ==> self.state.part_number < u32::MAX
    }

    /// Whether a flush can be counted, if it is.
    pub open spec fn can_count(self) -> bool {
        !self.state.streaming && !self.state.is_uploading ==> self.state.flush_count < u32::MAX
    }

    /// Whether so many more bytes can be taken.
    pub open spec fn can_take(self, len: int) -> bool {
        &&& self.hashed.len() + self.state.part_buf.len() + len <= most_hashed()
        &&& self.state.part_buf.len() + len <= isize::MAX
        &&& self.state.size + len <= u64::MAX
    }
}

impl DavFileView {
    /// All bytes that were taken: those in the digests, those in the buffer, and those that
    /// have just arrived.
    pub open spec fn all_bytes(self) -> Seq<u8> {
        self.hashed + self.state.part_buf + self.pending()
    }

    /// Whether nothing was written since the file was opened, or since an earlier upload of it
    /// ended.
    pub open spec fn nothing_written(self) -> bool {
        &&& self.phase is Idle
        &&& !self.state.is_finished
        &&& !self.state.is_uploading
        &&& !self.state.stream_started
    }

    /// Whether an empty file was announced.
    pub open spec fn announces_nothing(self) -> bool {
        self.phase matches Phase::Announcing { empty: true }
    }

    /// Whether the file is about to be compared with the old one.
    pub open spec fn compares_old(self, empty: bool) -> bool {
        self.phase matches Phase::OldMd5 { empty: e } && e == empty
    }

    /// Whether a flush is under way that ends with the client still there.
    pub open spec fn flush_is_awaited(self) -> bool {
        match self.phase {
            Phase::StreamPart { flushing, .. } => flushing,
            Phase::StreamHashing => true,
            Phase::Committing => true,
            Phase::Finishing => true,
            Phase::Cleaning { .. } => true,
            Phase::Settling { .. } => true,
            Phase::Waiting => false,
            _ => self.is_flushing(),
        }
    }

    /// Whether bytes are still of use: the upload is neither finished nor cleared away.
    pub open spec fn is_live(self) -> bool {
        !self.state.is_finished && !(self.phase is Settling)
    }

    /// What became of a file that a client abandoned: the placeholder of an upload that was
    /// not finished goes, and so does what was staged.
    pub open spec fn abandoned(self, fs: FsView) -> FsView {
        match self.file.parent_path {
            Some(path) => if !self.state.is_finished && (self.state.is_uploading
                || self.state.stream_started) {
                fs.without_placeholder(path, self.file.file_name)
            } else {
                fs
            },
            None => fs,
        }
    }
}

/// Every step keeps what is held in agreement, and what is handed to a task on its own can be
/// sent.
pub proof fn lemma_step_keeps_valid(v: DavFileView, fs: FsView, event: EventView, now: u64)
    requires
        v.valid(),
        v.awaits(event),
    ensures
        v.next(fs, event, now).0.valid(),
        v.next(fs, event, now).1 matches UploadAction::Spawn { task, .. } ==> chunks_valid(
            task.chunks,
        ),
{
    if v.state.chunk_size > 0 && v.state.chunk_count == chunk_count_of(
        v.state.size,
        v.state.chunk_size,
    ) {
        law_chunks_cover_the_file(v.staged(), 1);
    }
    match (v.phase, event) {
        (Phase::Chunks(c), _) => {
            lemma_chunks_stay_valid(c, event, now);
        },
        (Phase::TempMaking, _) => {
            assert(chunk_start(v.staged().chunk_size, 1) == 0);
        },
        (Phase::Announcing { empty }, UploadEvent::Announced(Some(r))) => {
            if r.part_size > 0 {
                lemma_chunk_count_is_small(v.state.size, r.part_size);
            }
        },
        _ => {},
    }
}

/// A write loses nothing: unless it fails, or there is nothing more to send, what was taken so
/// far is followed by what it brought.
pub proof fn law_write_takes_every_byte(v: DavFileView, fs: FsView, bytes: Seq<u8>, now: u64)
    requires
        v.valid(),
        v.phase is Idle,
        !v.state.is_finished,
    ensures
        ({
            let (after, action) = v.write_begun(fs, bytes, now);
            action != ActionView::Done(Err(FsError::GeneralFailure)) && after.is_live()
                ==> after.all_bytes() == v.all_bytes() + bytes
        }),
{
    let (after, action) = v.write_begun(fs, bytes, now);
    if v.state.streaming && v.state.stream_started {
        let arrived = v.with_arrived(bytes);
        assert(arrived.all_bytes() =~= v.all_bytes() + bytes);
        lemma_part_keeps_bytes(arrived, arrived.state.chunk_size as int, false, now);
    } else {
        assert(v.all_bytes() =~= v.hashed + v.state.part_buf);
    }
}

proof fn lemma_part_keeps_bytes(v: DavFileView, len: int, flushing: bool, now: u64)
    ensures
        0 <= len <= v.state.part_buf.len() ==> v.part_started(len, flushing, now).0.all_bytes()
            == v.hashed + v.state.part_buf,
{
    if 0 <= len <= v.state.part_buf.len() {
        let part = v.state.part_buf.take(len);
        let rest = v.state.part_buf.skip(len);
        assert(part + rest =~= v.state.part_buf);
        assert(v.hashed + part + rest + Seq::<u8>::empty() =~= v.hashed + (part + rest));
    }
}

/// A step loses nothing: unless it fails or the upload is over, all bytes that were taken stay
/// taken, in their order.
pub proof fn law_step_keeps_every_byte(v: DavFileView, fs: FsView, event: EventView, now: u64)
    requires
        v.valid(),
        v.awaits(event),
        v.is_live(),
    ensures
        ({
            let (after, action) = v.next(fs, event, now);
            after.is_live() && !(action matches UploadAction::Done(Err(_))) && !(v.phase is Waiting)
                && !(v.phase is Cleaning) ==> after.all_bytes() == v.all_bytes()
        }),
{
    let (after, action) = v.next(fs, event, now);
    match (v.phase, event) {
        (Phase::StreamAnnouncing(bytes), UploadEvent::Announced(Some(r))) => {
            let w = v.adopted(
                r,
                v.state.declared_size->0,
                r.part_size,
                v.state.chunk_count,
            ).with_arrived(bytes);
            lemma_part_keeps_bytes(w, r.part_size as int, false, now);
            assert(w.hashed + w.state.part_buf =~= v.all_bytes());
            assert(w.done(Ok(())).0.all_bytes() =~= v.all_bytes());
        },
        (Phase::StreamPart { part, flushing }, e) => {
            assert(v.all_bytes() =~= v.hashed + v.state.part_buf);
            if let PartNext::Tagged(etag) = part_next(part, e) {
                let kept = DavFileView {
                    state: UploadView { etags: v.state.etags.push(etag), ..v.state },
                    ..v
                };
                lemma_part_keeps_bytes(kept, kept.state.chunk_size as int, false, now);
            }
        },
        (Phase::Staging(bytes), _) => {
            assert(v.all_bytes() =~= v.hashed + bytes);
            assert(after.all_bytes() =~= after.hashed);
        },
        (Phase::StreamRemoving(bytes), _) => {
            assert(after.all_bytes() =~= v.all_bytes());
        },
        _ => {
            if after.is_live() && !(v.phase is Waiting) && !(v.phase is Cleaning) {
                assert(after.hashed == v.hashed);
            }
        },
    }
}

/// A part that is sent as it arrived holds just the bytes that the digests took in for it, under
/// the number after that of the part before.
pub proof fn law_each_part_is_sent_as_hashed(
    v: DavFileView,
    fs: FsView,
    len: int,
    flushing: bool,
    meta: Seq<char>,
    key: Seq<char>,
    now: u64,
    later: u64,
)
    requires
        0 <= len <= v.state.part_buf.len(),
        v.state.part_number < u32::MAX,
    ensures
        ({
            let bytes = v.state.part_buf.take(len);
            let number = (v.state.part_number + 1) as u32;
            let started = v.part_started(len, flushing, now).0;
            let signed = started.next(fs, EventView::Meta(Some(meta)), later).0;
            let (sent, action) = signed.next(fs, EventView::Key(Some(key)), later);
            &&& action == ActionView::UpPart(
                part_request(v.state.target, number, http_date_of(now), bytes, key),
            )
            &&& sent.hashed == v.hashed + bytes
            &&& sent.state.part_number == v.state.part_number + 1
            &&& bytes + sent.state.part_buf == v.state.part_buf
        }),
{
    assert(v.state.part_buf.take(len) + v.state.part_buf.skip(len) =~= v.state.part_buf);
}

/// The digests that are reported for an upload are those of all its bytes, and they are
/// reported only when every byte has been taken in.
pub proof fn law_reported_digests_are_of_every_byte(
    v: DavFileView,
    fs: FsView,
    event: EventView,
    now: u64,
)
    requires
        v.valid(),
        v.awaits(event),
        !v.announces_nothing(),
    ensures
        ({
            let (after, action) = v.next(fs, event, now);
            action matches UploadAction::UpHash { md5, sha1, .. } ==> md5 == hex_of(
                md5_of(after.all_bytes()),
            ) && sha1 == hex_of(sha1_of(after.all_bytes()))
        }),
        ({
            let (after, action) = v.flush_begun(now);
            v.phase is Idle ==> (action matches UploadAction::UpHash { md5, sha1, .. } ==> md5
                == hex_of(md5_of(after.all_bytes())) && sha1 == hex_of(
                sha1_of(after.all_bytes()),
            ))
        }),
{
    let (after, _) = v.next(fs, event, now);
    if after.state.part_buf.len() == 0 && after.pending().len() == 0 {
        assert(after.all_bytes() =~= after.hashed);
    }
    assert(v.hashed + v.state.part_buf + Seq::<u8>::empty() =~= v.hashed + v.state.part_buf);
}

/// When a write of a file that is sent as it arrives is done, at once or after some steps, less
/// than one part is held back.
pub proof fn law_less_than_a_part_is_held(
    v: DavFileView,
    fs: FsView,
    bytes: Seq<u8>,
    event: EventView,
    now: u64,
)
    requires
        v.valid(),
    ensures
        v.is_streaming() && v.awaits(event) ==> {
            let (after, action) = v.next(fs, event, now);
            action == ActionView::Done(Ok(())) && after.is_live() ==> after.state.part_buf.len()
                < after.state.chunk_size
        },
        v.phase is Idle && v.state.streaming ==> {
            let (after, action) = v.write_begun(fs, bytes, now);
            action == ActionView::Done(Ok(())) && after.is_live() ==> after.state.part_buf.len()
                < after.state.chunk_size
        },
{
}

/// A flush with nothing written asks for nothing and changes nothing but its counter, so that a
/// write that follows goes as the file was opened.
pub proof fn law_flush_of_nothing_changes_nothing(v: DavFileView, now: u64)
    requires
        v.nothing_written(),
    ensures
        ({
            let (after, action) = v.flush_begun(now);
            &&& action == ActionView::Done(Ok(()))
            &&& after == (DavFileView {
                state: UploadView { flush_count: after.state.flush_count, ..v.state },
                ..v
            })
            &&& after.state.flush_count == (if v.state.streaming {
                v.state.flush_count
            } else {
                (v.state.flush_count + 1) as u32
            })
            &&& after.nothing_written()
        }),
{
}

/// When the flush that ends an upload is over, well or not, nothing is written as yet.
pub proof fn law_upload_ends_with_nothing_written(
    v: DavFileView,
    fs: FsView,
    event: EventView,
    now: u64,
)
    requires
        v.valid(),
        v.awaits(event),
        v.phase is Waiting || v.phase is Cleaning || v.phase is Settling,
    ensures
        ({
            let (after, action) = v.next(fs, event, now);
            action is Done ==> after.state == fresh_upload() && after.nothing_written()
        }),
{
}

/// The parts of an upload that was sent as it arrived are put together only after the digests
/// were reported, and it is ended only after that.
pub proof fn law_hash_then_commit_then_finish(
    v: DavFileView,
    fs: FsView,
    event: EventView,
    now: u64,
)
    requires
        v.valid(),
        v.awaits(event),
        v.is_streaming(),
    ensures
        v.next(fs, event, now).1 is Commit ==> v.phase is StreamHashing && event
            == EventView::Hashed(Some(false)),
        v.next(fs, event, now).1 is Finish ==> v.phase is Committing && event
            == EventView::Committed(true),
        v.next(fs, event, now).1 matches UploadAction::Commit(req) ==> req.md5s == v.state.etags,
{
    if let Phase::StreamPart { part, flushing } = v.phase {
        assert(part_next(part, event) matches PartNext::Ask(_, a) ==> !(a is Commit) && !(a
            is Finish));
    }
}

/// A file whose content the drive has already is neither removed nor sent: the flush ends well
/// with what is there. Otherwise the old file is removed only if its size does not count.
pub proof fn law_same_content_is_not_sent_again(
    v: DavFileView,
    fs: FsView,
    empty: bool,
    cloud_md5: Option<Option<Seq<char>>>,
    now: u64,
)
    requires
        v.compares_old(empty),
    ensures
        ({
            let (after, action) = v.next(fs, EventView::CloudMd5(cloud_md5), now);
            &&& v.has_same(empty, cloud_md5) ==> (after, action) == v.finished().after_flush(
                true,
                Ok(()),
            )
            &&& action is RemoveFile ==> !v.has_same(empty, cloud_md5) && !(!empty
                && fs.skip_upload_same_size && v.file.size == v.state.size)
        }),
{
}

/// A flush reports success only when the file was seen in its directory.
pub proof fn law_flush_succeeds_only_once_settled(
    v: DavFileView,
    fs: FsView,
    event: EventView,
    now: u64,
)
    requires
        v.valid(),
        v.awaits(event),
        v.flush_is_awaited(),
    ensures
        v.next(fs, event, now).1 == ActionView::Done(Ok(())) ==> v.phase is Settling && event
            is Settled,
{
    if let Phase::StreamPart { part, flushing } = v.phase {
        assert(part_next(part, event) matches PartNext::Ask(_, a) ==> !(a is Done));
    }
}

/// A flush that failed leaves neither a placeholder behind nor the listing that may be stale,
/// and it reports its failure.
pub proof fn law_failed_flush_is_cleared_away(
    v: DavFileView,
    fs: FsView,
    e: FsError,
    now: u64,
)
    requires
        v.file.parent_path is Some,
    ensures
        ({
            let cleaning = v.after_flush(false, Err(e)).0;
            let (after, action) = cleaning.next(fs, EventView::TempRemoved, now);
            let left = cleaning.fs_next(fs, EventView::TempRemoved);
            &&& action == ActionView::Done(Err(e))
            &&& after.state == fresh_upload()
            &&& left.uploading == fs.without_placeholder(
                v.file.parent_path->0,
                v.file.file_name,
            ).uploading
            &&& !left.cache.listings.contains_key(v.parent_dir)
        }),
{
}

}

//! Carrying on with the upload of an open file.
use vstd::prelude::*;
use crate::chunks::{count_chunks, ChunkUpload, TaskStage, UploadTask};
#[allow(unused_imports)]
use crate::chunks::chunks_valid;
use crate::clock::http_date;
#[allow(unused_imports)]
use crate::clock::is_datable;
use crate::drive::{commit_request, copy_bytes, copy_texts, PreUpload, Target};
use crate::error::FsError;
use crate::number::{decimal, lower_hex};
#[allow(unused_imports)]
use crate::outside::{
    buffer_len, buffer_put, buffer_split_to, md5_consume, md5_digest, most_hashed, sha1_digest,
    sha1_update,
};
use crate::part::{Action, Event, PartNext, PartUpload, TaskEnd, UploadAction, UploadEvent};
#[allow(unused_imports)]
use crate::part::{opt_opt_text, ActionView};
use crate::path::join;
#[allow(unused_imports)]
use crate::plan::{lemma_step_keeps_valid, staged_name, without_scheme};
use crate::text::{eq_ignore_ascii_case, joined, same_text, strip_prefix};
#[allow(unused_imports)]
use crate::text::texts;
use crate::upload::{Phase, QuarkDavFile, UploadState, EMPTY_MD5, EMPTY_SHA1};
#[allow(unused_imports)]
use crate::upload::{DavFileView, UploadView};
use crate::vfs::QuarkDriveFileSystem;

verus! {

fn strip_scheme(url: String) -> (res: String)
    ensures
        res@ == without_scheme(url@),
{
    match strip_prefix(url.as_str(), "https://") {
        Some(rest) => rest,
        None => match strip_prefix(url.as_str(), "http://") {
            Some(rest) => rest,
            None => url,
        },
    }
}

fn name_to_stage(now: u64, name: &str) -> (res: String)
    ensures
        res@ == staged_name(now, name@),
{
    joined(decimal(now as u128).as_str(), "_").concat(name)
}

impl QuarkDavFile {
    fn done(&mut self, outcome: Result<(), FsError>) -> (res: Action)
        ensures
            (final(self)@, res@) == old(self)@.done(outcome),
            old(self).in_step() ==> final(self).in_step(),
    {
        self.phase = Phase::Idle;
        UploadAction::Done(outcome)
    }

    fn after_flush(&mut self, uploaded: bool, outcome: Result<(), FsError>) -> (res: Action)
        ensures
            (final(self)@, res@) == old(self)@.after_flush(uploaded, outcome),
            old(self).in_step() ==> final(self).in_step(),
    {
        self.phase = Phase::Cleaning { uploaded, outcome };
        UploadAction::RemoveTemp { path: self.upload_state.temp_file_path.clone() }
    }

    fn flush_failed(&mut self, empty: bool, e: FsError) -> (res: Action)
        ensures
            (final(self)@, res@) == old(self)@.flush_failed(empty, e),
            old(self).in_step() ==> final(self).in_step(),
    {
        if empty {
            self.done(Err(e))
        } else {
            self.after_flush(false, Err(e))
        }
    }

    fn announcement(&self, size: u64) -> (res: Action)
        ensures
            res@ == self@.announcement(size),
    {
        UploadAction::UpPre {
            file_name: self.file.file_name.clone(),
            size,
            parent_fid: self.parent_file_id.clone(),
        }
    }

    fn removal(&self, fs: &QuarkDriveFileSystem) -> (res: Action)
        ensures
            res@ == self@.removal(fs@),
    {
        UploadAction::RemoveFile { fid: self.file.fid.clone(), trash: !fs.no_trash }
    }

    fn md5_text(&self, empty: bool) -> (res: String)
        ensures
            res@ == self@.md5_text(empty),
    {
        if empty {
            EMPTY_MD5.to_owned()
        } else {
            lower_hex(md5_digest(&self.md5_ctx).as_slice())
        }
    }

    fn sha1_text(&self, empty: bool) -> (res: String)
        requires
            self.in_step(),
            self@.hashed.len() <= most_hashed(),
        ensures
            res@ == self@.sha1_text(empty),
    {
        if empty {
            EMPTY_SHA1.to_owned()
        } else {
            lower_hex(sha1_digest(&self.sha1_ctx).as_slice())
        }
    }

    fn report(&self, empty: bool) -> (res: Action)
        requires
            self.in_step(),
            self@.hashed.len() <= most_hashed(),
        ensures
            res@ == self@.report(empty),
    {
        UploadAction::UpHash {
            md5: self.md5_text(empty),
            sha1: self.sha1_text(empty),
            task_id: self.upload_state.target.task_id.clone(),
        }
    }

    fn adopt(&mut self, reply: PreUpload<String>, size: u64, chunk_size: u64, chunk_count: u64)
        ensures
            final(self)@ == old(self)@.adopted(reply@, size, chunk_size, chunk_count),
            old(self).in_step() ==> final(self).in_step(),
    {
        let target = Target {
            upload_id: match reply.upload_id {
                Some(id) => id,
                None => self.upload_state.target.upload_id.clone(),
            },
            upload_url: strip_scheme(reply.upload_url),
            task_id: reply.task_id,
            bucket: reply.bucket,
            obj_key: reply.obj_key,
            mime_type: if reply.format_type.as_str().unicode_len() > 0 {
                reply.format_type
            } else {
                self.upload_state.target.mime_type.clone()
            },
            auth_info: reply.auth_info,
        };
        self.upload_state.target = target;
        self.upload_state.callback = Some(reply.callback);
        self.upload_state.size = size;
        self.upload_state.chunk_size = chunk_size;
        self.upload_state.chunk_count = chunk_count;
        self.file.fid = reply.fid;
    }

    fn hash(&mut self, bytes: &Vec<u8>)
        requires
            old(self).in_step(),
            old(self)@.hashed.len() + bytes@.len() <= most_hashed(),
        ensures
            final(self)@ == (DavFileView { hashed: old(self)@.hashed + bytes@, ..old(self)@ }),
            final(self).in_step(),
    {
        md5_consume(&mut self.md5_ctx, bytes.as_slice());
        sha1_update(&mut self.sha1_ctx, bytes.as_slice());
        self.hashed_len = self.hashed_len + bytes.len() as u64;
    }

    /// Sends one part straight from memory. Every byte passes through here exactly once and in
    /// order, so the digests are those of the whole file.
    fn upload_stream_part(&mut self, len: usize, flushing: bool, now: u64) -> (res: Action)
        requires
            old(self).in_step(),
            len <= old(self)@.state.part_buf.len(),
            old(self)@.hashed.len() + len <= most_hashed(),
            old(self)@.state.part_number < u32::MAX,
            is_datable(now),
        ensures
            (final(self)@, res@) == old(self)@.part_started(len as int, flushing, now),
            final(self).in_step(),
    {
        let bytes = buffer_split_to(&mut self.upload_state.part_buf, len);
        self.hash(&bytes);
        self.upload_state.part_number = self.upload_state.part_number + 1;
        let (part, action) = PartUpload::begin(
            self.upload_state.target.clone(),
            self.upload_state.part_number,
            http_date(now),
            bytes,
        );
        self.phase = Phase::StreamPart { part, flushing };
        action
    }

    fn write_on(&mut self, now: u64) -> (res: Action)
        requires
            old(self).in_step(),
            old(self)@.hashed.len() + old(self)@.state.part_buf.len() <= most_hashed(),
            old(self)@.state.part_number < u32::MAX,
            is_datable(now),
        ensures
            (final(self)@, res@) == old(self)@.write_on(now),
            final(self).in_step(),
    {
        let part_size = self.upload_state.chunk_size;
        if part_size == 0 {
            return self.done(Err(FsError::GeneralFailure));
        }
        if buffer_len(&self.upload_state.part_buf) as u64 >= part_size {
            return self.upload_stream_part(part_size as usize, false, now);
        }
        self.done(Ok(()))
    }

    fn arrive(&mut self, bytes: &Vec<u8>)
        requires
            old(self)@.state.part_buf.len() + bytes@.len() <= isize::MAX,
        ensures
            final(self)@ == old(self)@.with_arrived(bytes@),
            old(self).in_step() ==> final(self).in_step(),
    {
        buffer_put(&mut self.upload_state.part_buf, bytes.as_slice());
    }

    /// Announces an upload before all of it has arrived, which is possible because the client
    /// said how long the file is.
    fn start_stream(&mut self, fs: &QuarkDriveFileSystem, bytes: Vec<u8>) -> (res: Action)
        requires
            old(self).in_step(),
        ensures
            (final(self)@, res@) == old(self)@.start_stream(fs@, bytes@),
            final(self).in_step(),
    {
        self.upload_state.stream_started = true;
        match self.upload_state.declared_size {
            None => self.done(Err(FsError::GeneralFailure)),
            Some(size) => {
                if self.file.fid.as_str().unicode_len() > 0 {
                    if fs.skip_upload_same_size && self.file.size == size {
                        self.upload_state.is_finished = true;
                        return self.done(Ok(()));
                    }
                    self.phase = Phase::StreamRemoving(bytes);
                    return self.removal(fs);
                }
                self.phase = Phase::StreamAnnouncing(bytes);
                self.announcement(size)
            },
        }
    }

    /// Has bytes staged. The place is made up when the first ones arrive.
    fn consume_buf(&mut self, fs: &QuarkDriveFileSystem, bytes: Vec<u8>, now: u64) -> (res: Action)
        requires
            old(self).in_step(),
            old(self)@.state.size + bytes@.len() <= u64::MAX,
        ensures
            (final(self)@, res@) == old(self)@.stage(fs@, bytes@, now),
            final(self).in_step(),
    {
        if !self.upload_state.is_uploading {
            self.upload_state.is_uploading = true;
            let name = name_to_stage(now, self.file.file_name.as_str());
            self.upload_state.temp_file_path = join(fs.temp_dir.as_str(), name.as_str());
        }
        self.upload_state.size = self.upload_state.size + bytes.len() as u64;
        let path = self.upload_state.temp_file_path.clone();
        let copy = copy_bytes(&bytes);
        self.phase = Phase::Staging(bytes);
        UploadAction::AppendTemp { path, bytes: copy }
    }

    /// Whether so many more bytes can be taken.
    pub fn can_take(&self, len: usize) -> (res: bool)
        requires
            self.in_step(),
            self@.hashed.len() + self@.state.part_buf.len() <= most_hashed(),
        ensures
            res == self@.can_take(len as int),
    {
        let held = buffer_len(&self.upload_state.part_buf) as u64;
        let len = len as u64;
        len <= 0x1fff_ffff_ffff_ffff - self.hashed_len - held && len as u128 + held as u128
            <= isize::MAX as u128 && len <= u64::MAX - self.upload_state.size
    }

    /// Takes bytes that have arrived; `now` is the time.
    pub fn write_buf(&mut self, fs: &QuarkDriveFileSystem, buf: Vec<u8>, now: u64) -> (res: Action)
        requires
            old(self).in_step(),
            old(self)@.valid(),
            old(self)@.phase is Idle,
            old(self)@.can_take(buf@.len() as int),
            old(self)@.can_send(),
            is_datable(now),
        ensures
            (final(self)@, res@) == old(self)@.write_begun(fs@, buf@, now),
            final(self).in_step(),
            final(self)@.valid(),
    {
        if self.upload_state.is_finished {
            return self.done(Ok(()));
        }
        if !self.upload_state.streaming {
            return self.consume_buf(fs, buf, now);
        }
        if !self.upload_state.stream_started {
            return self.start_stream(fs, buf);
        }
        self.arrive(&buf);
        self.write_on(now)
    }

    fn do_flush(&mut self, empty: bool) -> (res: Action)
        requires
            old(self).in_step(),
        ensures
            (final(self)@, res@) == old(self)@.do_flush(empty),
            final(self).in_step(),
    {
        if self.file.fid.as_str().unicode_len() > 0 {
            self.phase = Phase::OldMd5 { empty };
            return UploadAction::GetFileMd5 { fid: self.file.fid.clone() };
        }
        self.phase = Phase::Announcing { empty };
        let size = if empty {
            0
        } else {
            self.upload_state.size
        };
        self.announcement(size)
    }

    fn stream_flush(&mut self, now: u64) -> (res: Action)
        requires
            old(self).in_step(),
            old(self)@.valid(),
            old(self)@.state.part_number < u32::MAX,
            is_datable(now),
        ensures
            (final(self)@, res@) == old(self)@.stream_flush(now),
            final(self).in_step(),
    {
        if self.upload_state.is_finished {
            return self.after_flush(true, Ok(()));
        }
        if !self.upload_state.stream_started {
            return self.done(Ok(()));
        }
        let held = buffer_len(&self.upload_state.part_buf);
        if held > 0 {
            return self.upload_stream_part(held, true, now);
        }
        self.phase = Phase::StreamHashing;
        self.report(false)
    }

    /// Flushes the file; `now` is the time.
    pub fn flush(&mut self, now: u64) -> (res: Action)
        requires
            old(self).in_step(),
            old(self)@.valid(),
            old(self)@.phase is Idle,
            old(self)@.can_send(),
            old(self)@.can_count(),
            is_datable(now),
        ensures
            (final(self)@, res@) == old(self)@.flush_begun(now),
            final(self).in_step(),
            final(self)@.valid(),
    {
        if self.upload_state.streaming {
            return self.stream_flush(now);
        }
        if !self.upload_state.is_uploading {
            self.upload_state.flush_count = self.upload_state.flush_count + 1;
            return self.done(Ok(()));
        }
        if self.upload_state.is_finished {
            return self.done(Ok(()));
        }
        self.do_flush(false)
    }

    /// Flushes an empty file.
    pub fn upload_mini_byte_file(&mut self) -> (res: Action)
        requires
            old(self).in_step(),
            old(self)@.valid(),
            old(self)@.phase is Idle,
        ensures
            (final(self)@, res@) == old(self)@.do_flush(true),
            final(self).in_step(),
            final(self)@.valid(),
    {
        self.do_flush(true)
    }
}

impl QuarkDavFile {
    fn stream_announced(&mut self, reply: Option<PreUpload<String>>, bytes: Vec<u8>, now: u64) -> (res:
        Action)
        requires
            old(self).in_step(),
            old(self)@.state.declared_size is Some,
            old(self)@.hashed.len() + old(self)@.state.part_buf.len() + bytes@.len()
                <= most_hashed(),
            old(self)@.state.part_buf.len() + bytes@.len() <= isize::MAX,
            old(self)@.state.part_number < u32::MAX,
            is_datable(now),
        ensures
            (final(self)@, res@) == old(self)@.stream_announced(
                match reply {
                    Some(r) => Some(r@),
                    None => None,
                },
                bytes@,
                now,
            ),
            final(self).in_step(),
    {
        let r = match reply {
            None => {
                return self.done(Err(FsError::GeneralFailure));
            },
            Some(r) => r,
        };
        if r.finish {
            self.upload_state.is_finished = true;
            return self.done(Ok(()));
        }
        let size = match self.upload_state.declared_size {
            Some(size) => size,
            None => 0,
        };
        let chunk_size = r.part_size;
        let chunk_count = self.upload_state.chunk_count;
        let started = r.upload_id.is_some();
        self.adopt(r, size, chunk_size, chunk_count);
        if !started {
            return self.done(Err(FsError::GeneralFailure));
        }
        self.arrive(&bytes);
        self.write_on(now)
    }

    fn part_tagged(&mut self, etag: String, flushing: bool, now: u64) -> (res: Action)
        requires
            old(self).in_step(),
            old(self)@.hashed.len() + old(self)@.state.part_buf.len() <= most_hashed(),
            !flushing ==> old(self)@.state.part_number < u32::MAX,
            is_datable(now),
        ensures
            (final(self)@, res@) == old(self)@.part_tagged(etag@, flushing, now),
            final(self).in_step(),
    {
        if same_text(etag.as_str(), "finish") {
            self.upload_state.is_finished = true;
            return if flushing {
                self.after_flush(true, Ok(()))
            } else {
                self.done(Ok(()))
            };
        }
        let ghost sooner = self.upload_state.etags@;
        self.upload_state.etags.push(etag);
        assert(texts(self.upload_state.etags@) =~= texts(sooner).push(etag@));
        if flushing {
            self.phase = Phase::StreamHashing;
            return self.report(false);
        }
        self.write_on(now)
    }

    fn stream_hashed(&mut self, had: Option<bool>) -> (res: Action)
        requires
            old(self).in_step(),
        ensures
            (final(self)@, res@) == old(self)@.stream_hashed(had),
            final(self).in_step(),
    {
        if let Some(true) = had {
            self.upload_state.is_finished = true;
            return self.after_flush(true, Ok(()));
        }
        if let Some(false) = had {
            if let Some(callback) = &self.upload_state.callback {
                let req = commit_request(
                    &self.upload_state.target,
                    callback.clone(),
                    copy_texts(&self.upload_state.etags),
                );
                self.phase = Phase::Committing;
                return UploadAction::Commit(req);
            }
        }
        self.after_flush(false, Err(FsError::GeneralFailure))
    }

    fn old_known(
        &mut self,
        fs: &QuarkDriveFileSystem,
        empty: bool,
        cloud_md5: Option<Option<String>>,
    ) -> (res: Action)
        requires
            old(self).in_step(),
        ensures
            (final(self)@, res@) == old(self)@.old_known(
                fs@,
                empty,
                opt_opt_text(cloud_md5),
            ),
            final(self).in_step(),
    {
        let same = match cloud_md5 {
            Some(Some(m)) => eq_ignore_ascii_case(m.as_str(), self.md5_text(empty).as_str()),
            _ => false,
        };
        if same || (!empty && fs.skip_upload_same_size && self.file.size
            == self.upload_state.size) {
            self.upload_state.is_finished = true;
            return self.after_flush(true, Ok(()));
        }
        self.phase = Phase::OldRemoving { empty };
        self.removal(fs)
    }

    fn announced(&mut self, empty: bool, reply: Option<PreUpload<String>>) -> (res: Action)
        requires
            old(self).in_step(),
            old(self)@.hashed.len() <= most_hashed(),
            reply matches Some(r) ==> empty || r.finish || r.part_size > 0,
        ensures
            (final(self)@, res@) == old(self)@.announced(
                empty,
                match reply {
                    Some(r) => Some(r@),
                    None => None,
                },
            ),
            final(self).in_step(),
    {
        let r = match reply {
            None => {
                return self.flush_failed(empty, FsError::GeneralFailure);
            },
            Some(r) => r,
        };
        if r.finish {
            self.upload_state.is_finished = true;
            return self.after_flush(true, Ok(()));
        }
        let size = self.upload_state.size;
        let started = r.upload_id.is_some();
        if empty {
            self.adopt(r, size, 0, 1);
        } else {
            let chunk_size = r.part_size;
            self.adopt(r, size, chunk_size, count_chunks(size, chunk_size));
        }
        if !started {
            return self.flush_failed(empty, FsError::GeneralFailure);
        }
        self.phase = Phase::Hashing { empty };
        self.report(empty)
    }

    fn hashed_reply(
        &mut self,
        fs: &QuarkDriveFileSystem,
        empty: bool,
        had: Option<bool>,
        now: u64,
    ) -> (res: Action)
        requires
            old(self).in_step(),
            old(self)@.state.callback is Some,
            !empty && had == Some(false) ==> old(self)@.file.parent_path is Some,
        ensures
            (final(self)@, res@) == old(self)@.hashed_reply(fs@, empty, had, now),
            final(self).in_step(),
    {
        match had {
            None => self.flush_failed(empty, FsError::GeneralFailure),
            Some(true) => {
                self.upload_state.is_finished = true;
                self.after_flush(true, Ok(()))
            },
            Some(false) => {
                if empty {
                    let name = name_to_stage(now, self.file.file_name.as_str());
                    let path = join(fs.temp_dir.as_str(), name.as_str());
                    self.upload_state.temp_file_path = path.clone();
                    self.phase = Phase::TempMaking;
                    return UploadAction::MakeTemp { path };
                }
                match (&self.upload_state.callback, &self.file.parent_path) {
                    (Some(callback), Some(parent_path)) => {
                        let (chunks, _first) = ChunkUpload::begin(
                            self.upload_state.target.clone(),
                            callback.clone(),
                            self.upload_state.temp_file_path.clone(),
                            self.upload_state.size,
                            self.upload_state.chunk_size,
                            self.upload_state.chunk_count,
                        );
                        let task = UploadTask {
                            chunks,
                            parent_dir: self.parent_dir.clone(),
                            parent_path: parent_path.clone(),
                            file_name: self.file.file_name.clone(),
                            stage: TaskStage::Sending,
                        };
                        self.upload_state.temp_file_path = "".to_owned();
                        self.phase = Phase::Waiting;
                        UploadAction::Spawn { task, wait: fs.upload_wait_timeout }
                    },
                    _ => self.done(Err(FsError::GeneralFailure)),
                }
            },
        }
    }

    /// Sends an empty staged file.
    fn upload_chunk(&mut self) -> (res: Action)
        requires
            old(self).in_step(),
            old(self)@.state.callback is Some,
        ensures
            (final(self)@, res@) == (
                DavFileView { phase: Phase::Chunks(old(self)@.staged()), ..old(self)@ },
                ActionView::OpenTemp { path: old(self)@.state.temp_file_path },
            ),
            final(self).in_step(),
    {
        match &self.upload_state.callback {
            Some(callback) => {
                let (chunks, action) = ChunkUpload::begin(
                    self.upload_state.target.clone(),
                    callback.clone(),
                    self.upload_state.temp_file_path.clone(),
                    self.upload_state.size,
                    self.upload_state.chunk_size,
                    self.upload_state.chunk_count,
                );
                self.phase = Phase::Chunks(chunks);
                action
            },
            None => self.done(Err(FsError::GeneralFailure)),
        }
    }

    fn cleaned(
        &mut self,
        fs: &mut QuarkDriveFileSystem,
        uploaded: bool,
        outcome: Result<(), FsError>,
    ) -> (res: Action)
        requires
            old(self).in_step(),
            old(self)@.file.parent_path is Some,
        ensures
            (final(self)@, res@) == old(self)@.cleaned(uploaded, outcome),
            final(self).in_step(),
            final(fs)@ == if uploaded {
                old(fs)@
            } else {
                old(fs)@.without_placeholder(
                    old(self)@.file.parent_path->0,
                    old(self)@.file.file_name,
                ).bumped(old(self)@.parent_dir)
            },
            old(fs)@.cache.valid() ==> final(fs)@.cache.valid(),
    {
        self.upload_state = UploadState::default();
        let parent_path = match &self.file.parent_path {
            Some(path) => path.clone(),
            None => "".to_owned(),
        };
        if uploaded {
            self.phase = Phase::Settling { outcome };
            return UploadAction::Settle {
                parent_dir: self.parent_dir.clone(),
                parent_path,
                file_name: self.file.file_name.clone(),
            };
        }
        fs.remove_uploading_file(parent_path.as_str(), self.file.file_name.as_str());
        fs.dir_cache.invalidate(self.parent_dir.as_str());
        self.done(outcome)
    }

    fn stream_step(
        &mut self,
        fs: &QuarkDriveFileSystem,
        phase: Phase<String, Vec<u8>, Vec<String>>,
        event: Event,
        now: u64,
    ) -> (res: Action)
        requires
            old(self).in_step(),
            ({
                let v = DavFileView { phase: phase@, ..old(self)@ };
                v.valid() && v.awaits(event@) && v.is_streaming()
            }),
            is_datable(now),
        ensures
            (final(self)@, res@) == (DavFileView { phase: phase@, ..old(self)@ }).next(
                fs@,
                event@,
                now,
            ),
            final(self).in_step(),
    {
        match (phase, event) {
            (Phase::StreamRemoving(bytes), _) => {
                self.phase = Phase::StreamAnnouncing(bytes);
                let size = match self.upload_state.declared_size {
                    Some(size) => size,
                    None => 0,
                };
                self.announcement(size)
            },
            (Phase::StreamAnnouncing(bytes), UploadEvent::Announced(reply)) =>
            self.stream_announced(reply, bytes, now),
            (Phase::StreamPart { part, flushing }, e) => match part.step(e) {
                PartNext::Ask(part, action) => {
                    self.phase = Phase::StreamPart { part, flushing };
                    action
                },
                PartNext::Tagged(etag) => self.part_tagged(etag, flushing, now),
                _ => if flushing {
                    self.after_flush(false, Err(FsError::GeneralFailure))
                } else {
                    self.done(Err(FsError::GeneralFailure))
                },
            },
            (Phase::StreamHashing, UploadEvent::Hashed(had)) => self.stream_hashed(had),
            (Phase::Committing, UploadEvent::Committed(true)) => {
                self.phase = Phase::Finishing;
                UploadAction::Finish {
                    obj_key: self.upload_state.target.obj_key.clone(),
                    task_id: self.upload_state.target.task_id.clone(),
                }
            },
            (Phase::Finishing, UploadEvent::Finished(true)) => self.after_flush(true, Ok(())),
            _ => self.after_flush(false, Err(FsError::GeneralFailure)),
        }
    }

    fn flush_step(
        &mut self,
        fs: &QuarkDriveFileSystem,
        phase: Phase<String, Vec<u8>, Vec<String>>,
        event: Event,
        now: u64,
    ) -> (res: Action)
        requires
            old(self).in_step(),
            ({
                let v = DavFileView { phase: phase@, ..old(self)@ };
                v.valid() && v.awaits(event@) && v.is_flushing()
            }),
            is_datable(now),
        ensures
            (final(self)@, res@) == (DavFileView { phase: phase@, ..old(self)@ }).next(
                fs@,
                event@,
                now,
            ),
            final(self).in_step(),
    {
        match (phase, event) {
            (Phase::OldMd5 { empty }, UploadEvent::CloudMd5(m)) => self.old_known(fs, empty, m),
            (Phase::OldRemoving { empty }, _) => {
                self.phase = Phase::Announcing { empty };
                let size = if empty {
                    0
                } else {
                    self.upload_state.size
                };
                self.announcement(size)
            },
            (Phase::Announcing { empty }, UploadEvent::Announced(reply)) => self.announced(
                empty,
                reply,
            ),
            (Phase::Hashing { empty }, UploadEvent::Hashed(had)) => self.hashed_reply(
                fs,
                empty,
                had,
                now,
            ),
            (Phase::TempMaking, UploadEvent::TempWritten(true)) => self.upload_chunk(),
            (Phase::Chunks(chunks), e) => {
                let (chunks, action) = chunks.step(e, now);
                match action {
                    UploadAction::Done(Ok(_)) => self.after_flush(true, Ok(())),
                    UploadAction::Done(Err(e)) => self.done(Err(e)),
                    _ => {
                        self.phase = Phase::Chunks(chunks);
                        action
                    },
                }
            },
            (Phase::Waiting, UploadEvent::TaskEnded(end)) => match end {
                TaskEnd::Ended(Err(e)) => self.after_flush(false, Err(e)),
                TaskEnd::Lost => self.after_flush(false, Err(FsError::GeneralFailure)),
                _ => {
                    self.upload_state = UploadState::default();
                    self.done(Ok(()))
                },
            },
            _ => self.done(Err(FsError::GeneralFailure)),
        }
    }

    /// Goes on with the upload after what was asked for; `now` is the time.
    pub fn step(&mut self, fs: &mut QuarkDriveFileSystem, event: Event, now: u64) -> (res: Action)
        requires
            old(self).in_step(),
            old(self)@.valid(),
            old(self)@.awaits(event@),
            is_datable(now),
        ensures
            (final(self)@, res@) == old(self)@.next(old(fs)@, event@, now),
            final(fs)@ == old(self)@.fs_next(old(fs)@, event@),
            final(self).in_step(),
            final(self)@.valid(),
            old(fs)@.cache.valid() ==> final(fs)@.cache.valid(),
            res matches UploadAction::Spawn { task, .. } ==> chunks_valid(task@.chunks),
    {
        let ghost before = self@;
        let mut phase = Phase::Idle;
        std::mem::swap(&mut phase, &mut self.phase);
        assert(self@ == (DavFileView { phase: Phase::Idle, ..before }));
        assert((DavFileView { phase: phase@, ..self@ }) == before);
        proof {
            lemma_step_keeps_valid(before, fs@, event@, now);
        }
        match phase {
            Phase::Idle => self.done(Err(FsError::GeneralFailure)),
            Phase::StreamRemoving(_) => self.stream_step(fs, phase, event, now),
            Phase::StreamAnnouncing(_) => self.stream_step(fs, phase, event, now),
            Phase::StreamPart { .. } => self.stream_step(fs, phase, event, now),
            Phase::StreamHashing => self.stream_step(fs, phase, event, now),
            Phase::Committing => self.stream_step(fs, phase, event, now),
            Phase::Finishing => self.stream_step(fs, phase, event, now),
            Phase::Staging(bytes) => {
                if let UploadEvent::TempWritten(true) = event {
                    self.hash(&bytes);
                    return self.done(Ok(()));
                }
                self.done(Err(FsError::GeneralFailure))
            },
            Phase::Cleaning { uploaded, outcome } => self.cleaned(fs, uploaded, outcome),
            Phase::Settling { outcome } => self.done(outcome),
            _ => self.flush_step(fs, phase, event, now),
        }
    }
}

impl QuarkDavFile {
    /// Gives up a file that is closed. What comes back is the path of a staged file that
    /// nobody else will remove.
    pub fn abandon(&mut self, fs: &mut QuarkDriveFileSystem) -> (res: Option<String>)
        ensures
            final(fs)@ == old(self)@.abandoned(old(fs)@),
            if old(self)@.state.temp_file_path.len() > 0 {
                res matches Some(path) && path@ == old(self)@.state.temp_file_path
            } else {
                res is None
            },
            final(self)@ == (DavFileView {
                state: UploadView { temp_file_path: ""@, ..old(self)@.state },
                ..old(self)@
            }),
    {
        if !self.upload_state.is_finished && (self.upload_state.is_uploading
            || self.upload_state.stream_started) {
            if let Some(path) = &self.file.parent_path {
                fs.remove_uploading_file(path.as_str(), self.file.file_name.as_str());
            }
        }
        let mut path = "".to_owned();
        std::mem::swap(&mut path, &mut self.upload_state.temp_file_path);
        if path.as_str().unicode_len() == 0 {
            None
        } else {
            Some(path)
        }
    }
}

}

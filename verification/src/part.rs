//! Sending one part of an upload: its headers are signed by the drive, and then it goes to the
//! store.
use vstd::prelude::*;
use crate::chunks::UploadTask;
use crate::drive::{PreUpload, Target, UpAuthAndCommitRequest, UpPartMethodRequest};
use crate::error::FsError;
#[allow(unused_imports)]
use crate::file::opt_text;

verus! {

/// What to do next for an upload.
pub enum UploadAction<T, B, L> {
    /// Remove a file of the drive. Whether that succeeds makes no difference.
    RemoveFile { fid: T, trash: bool },
    /// Ask for the MD5 of a file of the drive.
    GetFileMd5 { fid: T },
    /// Announce an upload.
    UpPre { file_name: T, size: u64, parent_fid: T },
    /// Ask what is to be signed for a part.
    PartAuthMeta {
        mime_type: T,
        utc_time: T,
        bucket: T,
        obj_key: T,
        part_number: u32,
        upload_id: T,
    },
    /// Ask for a signature.
    Auth { auth_info: T, auth_meta: T, task_id: T },
    /// Send a part.
    UpPart(UpPartMethodRequest<T, B>),
    /// Report the digests of the whole file.
    UpHash { md5: T, sha1: T, task_id: T },
    /// Put the parts together.
    Commit(UpAuthAndCommitRequest<T, L>),
    /// End the upload.
    Finish { obj_key: T, task_id: T },
    /// Append bytes to a staged file, making it and its directory if need be.
    AppendTemp { path: T, bytes: B },
    /// Make an empty staged file, and its directory if need be.
    MakeTemp { path: T },
    /// Open a staged file for reading from its beginning.
    OpenTemp { path: T },
    /// Read exactly so many bytes on from the staged file.
    ReadTemp { len: u64 },
    /// Remove a staged file if there is one.
    RemoveTemp { path: T },
    /// Wait until a finished upload is listed.
    Settle { parent_dir: T, parent_path: T, file_name: T },
    /// Run a task on its own, and wait for it so many seconds, or for good if 0.
    Spawn { task: UploadTask<T, B, L>, wait: u64 },
    /// Nothing more; this is the outcome.
    Done(Result<(), FsError>),
}

/// An action as it is carried out.
pub type Action = UploadAction<String, Vec<u8>, Vec<String>>;

/// An action as contracts speak of it.
pub type ActionView = UploadAction<Seq<char>, Seq<u8>, Seq<Seq<char>>>;

/// An event as it is handed in.
pub type Event = UploadEvent<String, Vec<u8>>;

/// An event as contracts speak of it.
pub type EventView = UploadEvent<Seq<char>, Seq<u8>>;

/// How a task on its own ended.
pub enum TaskEnd {
    /// With this outcome.
    Ended(Result<(), FsError>),
    /// Not at all so far.
    StillRunning,
    /// It cannot be told.
    Lost,
}

/// What came back.
pub enum UploadEvent<T, B> {
    /// A file was removed, or not.
    Removed,
    /// The MD5 of a file if the drive knows it, or that asking failed.
    CloudMd5(Option<Option<T>>),
    /// The reply to an announcement, or that it failed.
    Announced(Option<PreUpload<T>>),
    /// What is to be signed, or that asking failed.
    Meta(Option<T>),
    /// A signature, or that asking failed.
    Key(Option<T>),
    /// The store's tag for a part if it gave one, or that sending it failed.
    Etag(Option<Option<T>>),
    /// Whether the drive has the content already, or that the report failed.
    Hashed(Option<bool>),
    /// Whether the parts were put together.
    Committed(bool),
    /// Whether the upload was ended.
    Finished(bool),
    /// Whether a staged file was written.
    TempWritten(bool),
    /// Whether a staged file was opened.
    TempOpened(bool),
    /// The bytes of a staged file, or that reading failed.
    TempRead(Option<B>),
    /// A staged file was removed, or there was none.
    TempRemoved,
    /// A finished upload is listed.
    Settled,
    /// A task on its own ended, or was waited for long enough.
    TaskEnded(TaskEnd),
}

/// A part that is being sent.
pub enum PartUpload<T, B> {
    /// Asking what is to be signed.
    Meta { target: Target<T>, part_number: u32, utc_time: T, bytes: B },
    /// Asking for the signature.
    Auth { target: Target<T>, part_number: u32, utc_time: T, bytes: B },
    /// Sending it.
    Put,
}

/// How sending a part goes on.
pub enum PartNext<T, B, L> {
    Ask(PartUpload<T, B>, UploadAction<T, B, L>),
    /// It was sent, and this is the store's tag for it.
    Tagged(T),
    /// It was sent, and the store gave no tag.
    Untagged,
    Failed,
}

/// An optional optional text as mathematical values.
pub open spec fn opt_opt_text(o: Option<Option<String>>) -> Option<Option<Seq<char>>> {
    match o {
        Some(t) => Some(opt_text(t)),
        None => None,
    }
}

impl View for UploadEvent<String, Vec<u8>> {
    type V = UploadEvent<Seq<char>, Seq<u8>>;

    open spec fn view(&self) -> UploadEvent<Seq<char>, Seq<u8>> {
        match *self {
            UploadEvent::Removed => UploadEvent::Removed,
            UploadEvent::CloudMd5(m) => UploadEvent::CloudMd5(opt_opt_text(m)),
            UploadEvent::Announced(Some(r)) => UploadEvent::Announced(Some(r@)),
            UploadEvent::Announced(None) => UploadEvent::Announced(None),
            UploadEvent::Meta(m) => UploadEvent::Meta(opt_text(m)),
            UploadEvent::Key(k) => UploadEvent::Key(opt_text(k)),
            UploadEvent::Etag(e) => UploadEvent::Etag(opt_opt_text(e)),
            UploadEvent::Hashed(h) => UploadEvent::Hashed(h),
            UploadEvent::Committed(did) => UploadEvent::Committed(did),
            UploadEvent::Finished(did) => UploadEvent::Finished(did),
            UploadEvent::TempWritten(did) => UploadEvent::TempWritten(did),
            UploadEvent::TempOpened(did) => UploadEvent::TempOpened(did),
            UploadEvent::TempRead(Some(b)) => UploadEvent::TempRead(Some(b@)),
            UploadEvent::TempRead(None) => UploadEvent::TempRead(None),
            UploadEvent::TempRemoved => UploadEvent::TempRemoved,
            UploadEvent::Settled => UploadEvent::Settled,
            UploadEvent::TaskEnded(end) => UploadEvent::TaskEnded(end),
        }
    }
}

impl View for UploadAction<String, Vec<u8>, Vec<String>> {
    type V = UploadAction<Seq<char>, Seq<u8>, Seq<Seq<char>>>;

    open spec fn view(&self) -> UploadAction<Seq<char>, Seq<u8>, Seq<Seq<char>>> {
        match *self {
            UploadAction::RemoveFile { fid, trash } => UploadAction::RemoveFile {
                fid: fid@,
                trash,
            },
            UploadAction::GetFileMd5 { fid } => UploadAction::GetFileMd5 { fid: fid@ },
            UploadAction::UpPre { file_name, size, parent_fid } => UploadAction::UpPre {
                file_name: file_name@,
                size,
                parent_fid: parent_fid@,
            },
            UploadAction::PartAuthMeta {
                mime_type,
                utc_time,
                bucket,
                obj_key,
                part_number,
                upload_id,
            } => UploadAction::PartAuthMeta {
                mime_type: mime_type@,
                utc_time: utc_time@,
                bucket: bucket@,
                obj_key: obj_key@,
                part_number,
                upload_id: upload_id@,
            },
            UploadAction::Auth { auth_info, auth_meta, task_id } => UploadAction::Auth {
                auth_info: auth_info@,
                auth_meta: auth_meta@,
                task_id: task_id@,
            },
            UploadAction::UpPart(req) => UploadAction::UpPart(req@),
            UploadAction::UpHash { md5, sha1, task_id } => UploadAction::UpHash {
                md5: md5@,
                sha1: sha1@,
                task_id: task_id@,
            },
            UploadAction::Commit(req) => UploadAction::Commit(req@),
            UploadAction::Finish { obj_key, task_id } => UploadAction::Finish {
                obj_key: obj_key@,
                task_id: task_id@,
            },
            UploadAction::AppendTemp { path, bytes } => UploadAction::AppendTemp {
                path: path@,
                bytes: bytes@,
            },
            UploadAction::MakeTemp { path } => UploadAction::MakeTemp { path: path@ },
            UploadAction::OpenTemp { path } => UploadAction::OpenTemp { path: path@ },
            UploadAction::ReadTemp { len } => UploadAction::ReadTemp { len },
            UploadAction::RemoveTemp { path } => UploadAction::RemoveTemp { path: path@ },
            UploadAction::Settle { parent_dir, parent_path, file_name } => UploadAction::Settle {
                parent_dir: parent_dir@,
                parent_path: parent_path@,
                file_name: file_name@,
            },
            UploadAction::Spawn { task, wait } => UploadAction::Spawn { task: task@, wait },
            UploadAction::Done(outcome) => UploadAction::Done(outcome),
        }
    }
}

impl View for PartUpload<String, Vec<u8>> {
    type V = PartUpload<Seq<char>, Seq<u8>>;

    open spec fn view(&self) -> PartUpload<Seq<char>, Seq<u8>> {
        match *self {
            PartUpload::Meta { target, part_number, utc_time, bytes } => PartUpload::Meta {
                target: target@,
                part_number,
                utc_time: utc_time@,
                bytes: bytes@,
            },
            PartUpload::Auth { target, part_number, utc_time, bytes } => PartUpload::Auth {
                target: target@,
                part_number,
                utc_time: utc_time@,
                bytes: bytes@,
            },
            PartUpload::Put => PartUpload::Put,
        }
    }
}

impl View for PartNext<String, Vec<u8>, Vec<String>> {
    type V = PartNext<Seq<char>, Seq<u8>, Seq<Seq<char>>>;

    open spec fn view(&self) -> PartNext<Seq<char>, Seq<u8>, Seq<Seq<char>>> {
        match *self {
            PartNext::Ask(part, action) => PartNext::Ask(part@, action@),
            PartNext::Tagged(etag) => PartNext::Tagged(etag@),
            PartNext::Untagged => PartNext::Untagged,
            PartNext::Failed => PartNext::Failed,
        }
    }
}

/// The first request for a part.
pub open spec fn part_begun(
    target: Target<Seq<char>>,
    part_number: u32,
    utc_time: Seq<char>,
) -> UploadAction<Seq<char>, Seq<u8>, Seq<Seq<char>>> {
    UploadAction::PartAuthMeta {
        mime_type: target.mime_type,
        utc_time,
        bucket: target.bucket,
        obj_key: target.obj_key,
        part_number,
        upload_id: target.upload_id,
    }
}

/// The request that sends a part.
pub open spec fn part_request(
    target: Target<Seq<char>>,
    part_number: u32,
    utc_time: Seq<char>,
    bytes: Seq<u8>,
    auth_key: Seq<char>,
) -> UpPartMethodRequest<Seq<char>, Seq<u8>> {
    UpPartMethodRequest {
        auth_key,
        mime_type: target.mime_type,
        utc_time,
        bucket: target.bucket,
        upload_url: target.upload_url,
        obj_key: target.obj_key,
        part_number,
        upload_id: target.upload_id,
        part_bytes: bytes,
    }
}

/// How sending a part goes on.
pub open spec fn part_next(
    part: PartUpload<Seq<char>, Seq<u8>>,
    event: UploadEvent<Seq<char>, Seq<u8>>,
) -> PartNext<Seq<char>, Seq<u8>, Seq<Seq<char>>> {
    match (part, event) {
        (PartUpload::Meta { target, part_number, utc_time, bytes }, UploadEvent::Meta(Some(m))) =>
        PartNext::Ask(
            PartUpload::Auth { target, part_number, utc_time, bytes },
            UploadAction::Auth {
                auth_info: target.auth_info,
                auth_meta: m,
                task_id: target.task_id,
            },
        ),
        (PartUpload::Auth { target, part_number, utc_time, bytes }, UploadEvent::Key(Some(key))) =>
        PartNext::Ask(
            PartUpload::Put,
            UploadAction::UpPart(part_request(target, part_number, utc_time, bytes, key)),
        ),
        (PartUpload::Put, UploadEvent::Etag(Some(Some(etag)))) => PartNext::Tagged(etag),
        (PartUpload::Put, UploadEvent::Etag(Some(None))) => PartNext::Untagged,
        _ => PartNext::Failed,
    }
}

/// Whether a part waits for such an event.
pub open spec fn part_awaits(
    part: PartUpload<Seq<char>, Seq<u8>>,
    event: UploadEvent<Seq<char>, Seq<u8>>,
) -> bool {
    match part {
        PartUpload::Meta { .. } => event is Meta,
        PartUpload::Auth { .. } => event is Key,
        PartUpload::Put => event is Etag,
    }
}

impl PartUpload<String, Vec<u8>> {
    /// Begins to send a part.
    pub fn begin(target: Target<String>, part_number: u32, utc_time: String, bytes: Vec<u8>) -> (res:
        (Self, UploadAction<String, Vec<u8>, Vec<String>>))
        ensures
            res.0@ == (PartUpload::Meta {
                target: target@,
                part_number,
                utc_time: utc_time@,
                bytes: bytes@,
            }),
            res.1@ == part_begun(target@, part_number, utc_time@),
    {
        let action = UploadAction::PartAuthMeta {
            mime_type: target.mime_type.clone(),
            utc_time: utc_time.clone(),
            bucket: target.bucket.clone(),
            obj_key: target.obj_key.clone(),
            part_number,
            upload_id: target.upload_id.clone(),
        };
        (PartUpload::Meta { target, part_number, utc_time, bytes }, action)
    }

    /// Goes on with sending a part after what was asked for.
    pub fn step(self, event: UploadEvent<String, Vec<u8>>) -> (res: PartNext<
        String,
        Vec<u8>,
        Vec<String>,
    >)
        requires
            part_awaits(self@, event@),
        ensures
            res@ == part_next(self@, event@),
    {
        match (self, event) {
            (
                PartUpload::Meta { target, part_number, utc_time, bytes },
                UploadEvent::Meta(Some(auth_meta)),
            ) => {
                let action = UploadAction::Auth {
                    auth_info: target.auth_info.clone(),
                    auth_meta,
                    task_id: target.task_id.clone(),
                };
                PartNext::Ask(PartUpload::Auth { target, part_number, utc_time, bytes }, action)
            },
            (
                PartUpload::Auth { target, part_number, utc_time, bytes },
                UploadEvent::Key(Some(auth_key)),
            ) => {
                let req = UpPartMethodRequest {
                    auth_key,
                    mime_type: target.mime_type,
                    utc_time,
                    bucket: target.bucket,
                    upload_url: target.upload_url,
                    obj_key: target.obj_key,
                    part_number,
                    upload_id: target.upload_id,
                    part_bytes: bytes,
                };
                PartNext::Ask(PartUpload::Put, UploadAction::UpPart(req))
            },
            (PartUpload::Put, UploadEvent::Etag(Some(Some(etag)))) => PartNext::Tagged(etag),
            (PartUpload::Put, UploadEvent::Etag(Some(None))) => PartNext::Untagged,
            _ => PartNext::Failed,
        }
    }
}

/// A part goes to the store after two requests to the drive: what is to be signed for it, and the
/// signature of that. Each says of the upload what the drive said of it, and the part has its own
/// number, date and bytes. The tag that the store gives is handed on as it is, and whatever fails
/// on the way, or comes out of its turn, ends it.
pub proof fn law_part_is_signed_and_then_sent(
    target: Target<Seq<char>>,
    part_number: u32,
    utc_time: Seq<char>,
    bytes: Seq<u8>,
    meta: Seq<char>,
    key: Seq<char>,
    etag: Seq<char>,
    event: UploadEvent<Seq<char>, Seq<u8>>,
)
    ensures
        part_begun(target, part_number, utc_time) matches UploadAction::PartAuthMeta {
            mime_type: m,
            utc_time: t,
            bucket: b,
            obj_key: o,
            part_number: n,
            upload_id: u,
        } && m == target.mime_type && t == utc_time && b == target.bucket && o == target.obj_key
            && n == part_number && u == target.upload_id,
        ({
            let first = PartUpload::Meta { target, part_number, utc_time, bytes };
            &&& part_next(first, UploadEvent::Meta(Some(meta))) matches PartNext::Ask(second, asked)
                && {
                &&& asked matches UploadAction::Auth { auth_info, auth_meta, task_id } && auth_info
                    == target.auth_info && auth_meta == meta && task_id == target.task_id
                &&& part_next(second, UploadEvent::Key(Some(key))) matches PartNext::Ask(
                    third,
                    sent,
                ) && {
                    &&& sent matches UploadAction::UpPart(req) && {
                        &&& req.auth_key == key
                        &&& req.mime_type == target.mime_type
                        &&& req.utc_time == utc_time
                        &&& req.bucket == target.bucket
                        &&& req.upload_url == target.upload_url
                        &&& req.obj_key == target.obj_key
                        &&& req.part_number == part_number
                        &&& req.upload_id == target.upload_id
                        &&& req.part_bytes == bytes
                    }
                    &&& part_next(third, UploadEvent::Etag(Some(Some(etag))))
                        matches PartNext::Tagged(given) && given == etag
                    &&& part_next(third, UploadEvent::Etag(Some(None))) is Untagged
                    &&& part_next(third, event) is Failed <==> !(event matches UploadEvent::Etag(
                        Some(_),
                    ))
                }
                &&& part_next(second, event) is Failed <==> !(event matches UploadEvent::Key(
                    Some(_),
                ))
            }
            &&& part_next(first, event) is Failed <==> !(event matches UploadEvent::Meta(Some(_)))
        }),
{
}

/// An action says what it holds.
pub proof fn law_upload_action_says_what_it_holds(action: Action)
    ensures
        match action {
            UploadAction::RemoveFile { fid, trash } => action@ == (ActionView::RemoveFile {
                fid: fid@,
                trash,
            }),
            UploadAction::GetFileMd5 { fid } => action@ == (ActionView::GetFileMd5 { fid: fid@ }),
            UploadAction::UpPre { file_name, size, parent_fid } => action@ == (ActionView::UpPre {
                file_name: file_name@,
                size,
                parent_fid: parent_fid@,
            }),
            UploadAction::PartAuthMeta {
                mime_type,
                utc_time,
                bucket,
                obj_key,
                part_number,
                upload_id,
            } => action@ == (ActionView::PartAuthMeta {
                mime_type: mime_type@,
                utc_time: utc_time@,
                bucket: bucket@,
                obj_key: obj_key@,
                part_number,
                upload_id: upload_id@,
            }),
            UploadAction::Auth { auth_info, auth_meta, task_id } => action@ == (ActionView::Auth {
                auth_info: auth_info@,
                auth_meta: auth_meta@,
                task_id: task_id@,
            }),
            UploadAction::UpPart(req) => action@ == ActionView::UpPart(req@),
            UploadAction::UpHash { md5, sha1, task_id } => action@ == (ActionView::UpHash {
                md5: md5@,
                sha1: sha1@,
                task_id: task_id@,
            }),
            UploadAction::Commit(req) => action@ == ActionView::Commit(req@),
            UploadAction::Finish { obj_key, task_id } => action@ == (ActionView::Finish {
                obj_key: obj_key@,
                task_id: task_id@,
            }),
            UploadAction::AppendTemp { path, bytes } => action@ == (ActionView::AppendTemp {
                path: path@,
                bytes: bytes@,
            }),
            UploadAction::MakeTemp { path } => action@ == (ActionView::MakeTemp { path: path@ }),
            UploadAction::OpenTemp { path } => action@ == (ActionView::OpenTemp { path: path@ }),
            UploadAction::ReadTemp { len } => action@ == (ActionView::ReadTemp { len }),
            UploadAction::RemoveTemp { path } => action@ == (ActionView::RemoveTemp {
                path: path@,
            }),
            UploadAction::Settle { parent_dir, parent_path, file_name } => action@ == (
            ActionView::Settle {
                parent_dir: parent_dir@,
                parent_path: parent_path@,
                file_name: file_name@,
            }),
            UploadAction::Spawn { task, wait } => action@ == (ActionView::Spawn {
                task: task@,
                wait,
            }),
            UploadAction::Done(outcome) => action@ == ActionView::Done(outcome),
        },
{
}

/// An event says what it holds.
pub proof fn law_upload_event_says_what_it_holds(event: Event)
    ensures
        match event {
            UploadEvent::Removed => event@ == EventView::Removed,
            UploadEvent::CloudMd5(Some(Some(md5))) => event@ == EventView::CloudMd5(
                Some(Some(md5@)),
            ),
            UploadEvent::CloudMd5(Some(None)) => event@ == EventView::CloudMd5(Some(None)),
            UploadEvent::CloudMd5(None) => event@ == EventView::CloudMd5(None),
            UploadEvent::Announced(Some(reply)) => event@ == EventView::Announced(Some(reply@)),
            UploadEvent::Announced(None) => event@ == EventView::Announced(None),
            UploadEvent::Meta(Some(meta)) => event@ == EventView::Meta(Some(meta@)),
            UploadEvent::Meta(None) => event@ == EventView::Meta(None),
            UploadEvent::Key(Some(key)) => event@ == EventView::Key(Some(key@)),
            UploadEvent::Key(None) => event@ == EventView::Key(None),
            UploadEvent::Etag(Some(Some(etag))) => event@ == EventView::Etag(Some(Some(etag@))),
            UploadEvent::Etag(Some(None)) => event@ == EventView::Etag(Some(None)),
            UploadEvent::Etag(None) => event@ == EventView::Etag(None),
            UploadEvent::Hashed(had) => event@ == EventView::Hashed(had),
            UploadEvent::Committed(did) => event@ == EventView::Committed(did),
            UploadEvent::Finished(did) => event@ == EventView::Finished(did),
            UploadEvent::TempWritten(did) => event@ == EventView::TempWritten(did),
            UploadEvent::TempOpened(did) => event@ == EventView::TempOpened(did),
            UploadEvent::TempRead(Some(bytes)) => event@ == EventView::TempRead(Some(bytes@)),
            UploadEvent::TempRead(None) => event@ == EventView::TempRead(None),
            UploadEvent::TempRemoved => event@ == EventView::TempRemoved,
            UploadEvent::Settled => event@ == EventView::Settled,
            UploadEvent::TaskEnded(end) => event@ == EventView::TaskEnded(end),
        },
{
}

}

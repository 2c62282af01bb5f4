//! What each reply leads to in the upload of an open file.
use vstd::prelude::*;
#[allow(unused_imports)]
use crate::chunks::{chunk_count_of, chunks_next, lemma_chunk_count_is_small, ChunkUpload};
#[allow(unused_imports)]
use crate::clock::http_date_of;
#[allow(unused_imports)]
use crate::drive::PreUpload;
#[allow(unused_imports)]
use crate::error::FsError;
#[allow(unused_imports)]
use crate::file::FileView;
#[allow(unused_imports)]
use crate::number::{decimal_of, hex_of};
#[allow(unused_imports)]
use crate::outside::{md5_of, sha1_of};
#[allow(unused_imports)]
use crate::part::{part_next, ActionView, EventView, PartNext, PartUpload, TaskEnd, UploadAction};
#[allow(unused_imports)]
use crate::path::join_of;
#[allow(unused_imports)]
use crate::plan::without_scheme;
#[allow(unused_imports)]
use crate::text::{law_prefix_and_rest_make_up_the_text, same_but_case};
#[allow(unused_imports)]
use crate::upload::{DavFileView, Phase, UploadView, EMPTY_MD5, EMPTY_SHA1};
#[allow(unused_imports)]
use crate::vfs::FsView;

verus! {

/// Whether a flush has come to its end, well: the staged file is to be removed, and then the new
/// one to be waited for.
pub open spec fn ends_well(v: DavFileView, after: DavFileView, action: ActionView) -> bool {
    &&& action == ActionView::RemoveTemp { path: v.state.temp_file_path }
    &&& after.phase matches Phase::Cleaning { uploaded, outcome } && uploaded && outcome is Ok
    &&& after.file.file_name == v.file.file_name
    &&& after.file.parent_path == v.file.parent_path
    &&& after.parent_dir == v.parent_dir
}

/// Whether a flush has come to its end, not well: the staged file is to be removed, and then the
/// failure to be reported.
pub open spec fn ends_badly(
    v: DavFileView,
    after: DavFileView,
    action: ActionView,
    e: FsError,
) -> bool {
    &&& action == ActionView::RemoveTemp { path: v.state.temp_file_path }
    &&& after.phase matches Phase::Cleaning { uploaded, outcome } && !uploaded && outcome == Err::<
        (),
        FsError,
    >(e)
    &&& after.file.file_name == v.file.file_name
    &&& after.file.parent_path == v.file.parent_path
    &&& after.parent_dir == v.parent_dir
}

/// Whether what was asked of the file is over, with this outcome.
pub open spec fn is_over(
    after: DavFileView,
    action: ActionView,
    outcome: Result<(), FsError>,
) -> bool {
    action == ActionView::Done(outcome) && after.phase is Idle
}

/// Whether the upload of a file of that size is announced, by its name and its directory.
pub open spec fn announces(v: DavFileView, action: ActionView, size: u64) -> bool {
    action == ActionView::UpPre {
        file_name: v.file.file_name,
        size,
        parent_fid: v.parent_file_id,
    }
}

/// Whether the state says of the upload what the reply to its announcement said of it.
pub open spec fn goes_by(
    v: DavFileView,
    after: DavFileView,
    reply: PreUpload<Seq<char>>,
) -> bool {
    &&& after.file == (FileView { fid: reply.fid, ..v.file })
    &&& after.parent_file_id == v.parent_file_id
    &&& after.parent_dir == v.parent_dir
    &&& after.current_pos == v.current_pos
    &&& reply.upload_id == Some(after.state.target.upload_id)
    &&& after.state.target.task_id == reply.task_id
    &&& after.state.target.bucket == reply.bucket
    &&& after.state.target.obj_key == reply.obj_key
    &&& after.state.target.auth_info == reply.auth_info
    &&& after.state.target.mime_type == (if reply.format_type.len() > 0 {
        reply.format_type
    } else {
        v.state.target.mime_type
    })
    &&& is_without_scheme(reply.upload_url, after.state.target.upload_url)
    &&& after.state.callback == Some(reply.callback)
    &&& after.state.temp_file_path == v.state.temp_file_path
    &&& after.state.is_uploading == v.state.is_uploading
    &&& after.state.is_finished == v.state.is_finished
    &&& after.state.streaming == v.state.streaming
    &&& after.state.stream_started == v.state.stream_started
    &&& after.state.declared_size == v.state.declared_size
    &&& after.state.etags == v.state.etags
    &&& after.state.flush_count == v.state.flush_count
    &&& after.state.sha1 == v.state.sha1
    &&& after.http_download == v.http_download
}

/// Whether `rest` is a URL without the scheme that it begins with, or the URL itself if it begins
/// with neither.
pub open spec fn is_without_scheme(url: Seq<char>, rest: Seq<char>) -> bool {
    ||| url == "https://"@ + rest
    ||| url == "http://"@ + rest && !"https://"@.is_prefix_of(url)
    ||| url == rest && !"https://"@.is_prefix_of(url) && !"http://"@.is_prefix_of(url)
}

proof fn lemma_scheme(url: Seq<char>)
    ensures
        is_without_scheme(url, without_scheme(url)),
{
    law_prefix_and_rest_make_up_the_text(url, "https://"@, without_scheme(url));
    law_prefix_and_rest_make_up_the_text(url, "http://"@, without_scheme(url));
}

/// An old file is left as it is exactly if the drive reports the digest of just the bytes that
/// were written, in whatever case, or if a file of the same size counts as the same. Otherwise
/// it is removed, and then what was written is announced: nothing that differs is taken for
/// sent.
pub proof fn law_only_the_same_content_is_skipped(
    v: DavFileView,
    fs: FsView,
    empty: bool,
    cloud_md5: Option<Option<Seq<char>>>,
    now: u64,
    later: u64,
)
    requires
        v.valid(),
        v.compares_old(empty),
    ensures
        ({
            let digest = if empty {
                EMPTY_MD5@
            } else {
                hex_of(md5_of(v.all_bytes()))
            };
            let same_bytes = cloud_md5 matches Some(Some(m)) && same_but_case(m, digest);
            let same_size = !empty && fs.skip_upload_same_size && v.file.size == v.state.size;
            let (after, action) = v.next(fs, EventView::CloudMd5(cloud_md5), now);
            if same_bytes || same_size {
                ends_well(v, after, action)
            } else {
                let (sending, announced) = after.next(fs, EventView::Removed, later);
                &&& action == ActionView::RemoveFile { fid: v.file.fid, trash: !fs.no_trash }
                &&& announces(
                    v,
                    announced,
                    if empty {
                        0
                    } else {
                        v.state.size
                    },
                )
                &&& sending.phase matches Phase::Announcing { empty: e } && e == empty
                &&& sending.state == v.state
                &&& sending.file == v.file
                &&& sending.all_bytes() == v.all_bytes()
            }
        }),
{
    assert(!empty ==> v.all_bytes() =~= v.hashed);
    let (after, action) = v.next(fs, EventView::CloudMd5(cloud_md5), now);
    let (sending, _) = after.next(fs, EventView::Removed, later);
    if !empty {
        assert(sending.all_bytes() =~= sending.hashed);
    }
}

/// What was staged is compared with the old file first if there is one, and announced at once if
/// there is none. The same goes for an empty file.
pub proof fn law_flush_asks_for_the_old_file_first(v: DavFileView, now: u64, empty: bool)
    requires
        v.phase is Idle,
        empty || (!v.state.streaming && v.state.is_uploading && !v.state.is_finished),
    ensures
        ({
            let (after, action) = if empty {
                v.do_flush(true)
            } else {
                v.flush_begun(now)
            };
            let size = if empty {
                0
            } else {
                v.state.size
            };
            &&& after == (DavFileView { phase: after.phase, ..v })
            &&& if v.file.fid.len() > 0 {
                action == ActionView::GetFileMd5 { fid: v.file.fid } && (after.phase
                    matches Phase::OldMd5 { empty: e } && e == empty)
            } else {
                announces(v, action, size) && (after.phase matches Phase::Announcing { empty: e }
                    && e == empty)
            }
        }),
{
}

/// A flush of a file that is sent as it arrives sends what is left as the last part, or if
/// nothing is left, reports the digests at once. Where there is nothing more to send, it ends
/// well, and where nothing was written, it does nothing. So does that of a staged file.
pub proof fn law_flush_sends_what_is_left(v: DavFileView, now: u64)
    requires
        v.valid(),
        v.phase is Idle,
        v.can_send(),
    ensures
        ({
            let (after, action) = v.flush_begun(now);
            let left = v.state.part_buf;
            if v.state.streaming {
                if v.state.is_finished {
                    ends_well(v, after, action)
                } else if !v.state.stream_started {
                    is_over(after, action, Ok(())) && after == v
                } else if left.len() > 0 {
                    &&& after.phase matches Phase::StreamPart { part, flushing } && flushing && is_part(
                        v,
                        part,
                        left,
                        now,
                    )
                    &&& asks_to_sign(v, action, now)
                    &&& is_same_but_for_bytes(v, after, v.state.etags)
                    &&& after.state.part_number == v.state.part_number + 1
                    &&& after.state.part_buf.len() == 0
                    &&& after.hashed == v.hashed + left
                } else {
                    &&& action == ActionView::UpHash {
                        md5: hex_of(md5_of(v.hashed)),
                        sha1: hex_of(sha1_of(v.hashed)),
                        task_id: v.state.target.task_id,
                    }
                    &&& after == (DavFileView { phase: Phase::StreamHashing, ..v })
                }
            } else if !v.state.is_uploading {
                is_over(after, action, Ok(())) && after.state == (UploadView {
                    flush_count: after.state.flush_count,
                    ..v.state
                })
            } else if v.state.is_finished {
                is_over(after, action, Ok(())) && after == v
            } else {
                action is GetFileMd5 || action is UpPre
            }
        }),
{
    assert(v.state.part_buf.take(v.state.part_buf.len() as int) =~= v.state.part_buf);
}

/// Whether a part is the next one of the file, with those bytes.
pub open spec fn is_part(
    v: DavFileView,
    part: PartUpload<Seq<char>, Seq<u8>>,
    content: Seq<u8>,
    now: u64,
) -> bool {
    part matches PartUpload::Meta { target, part_number, utc_time, bytes } && {
        &&& target == v.state.target
        &&& part_number == v.state.part_number + 1
        &&& utc_time == http_date_of(now)
        &&& bytes == content
    }
}

/// Whether it is asked what is to be signed for the next part of the file.
pub open spec fn asks_to_sign(v: DavFileView, action: ActionView, now: u64) -> bool {
    action == ActionView::PartAuthMeta {
        mime_type: v.state.target.mime_type,
        utc_time: http_date_of(now),
        bucket: v.state.target.bucket,
        obj_key: v.state.target.obj_key,
        part_number: (v.state.part_number + 1) as u32,
        upload_id: v.state.target.upload_id,
    }
}

/// Bytes for a file that is staged are appended to what was staged, all of them and in the place
/// where that is. The first of them name that place: in the directory for it, under the time and
/// the name of the file. They count once they are written.
pub proof fn law_bytes_are_staged_in_one_place(
    v: DavFileView,
    fs: FsView,
    bytes: Seq<u8>,
    now: u64,
    later: u64,
)
    requires
        v.valid(),
        v.phase is Idle,
        !v.state.streaming,
        !v.state.is_finished,
        v.state.size + bytes.len() <= u64::MAX,
    ensures
        ({
            let (after, action) = v.write_begun(fs, bytes, now);
            let place = if v.state.is_uploading {
                v.state.temp_file_path
            } else {
                join_of(fs.temp_dir, decimal_of(now as nat) + seq!['_'] + v.file.file_name)
            };
            let (kept, done) = after.next(fs, EventView::TempWritten(true), later);
            let (lost, failed) = after.next(fs, EventView::TempWritten(false), later);
            &&& action == ActionView::AppendTemp { path: place, bytes }
            &&& after.state == (UploadView {
                is_uploading: true,
                temp_file_path: place,
                size: (v.state.size + bytes.len()) as u64,
                ..v.state
            })
            &&& is_over(kept, done, Ok(()))
            &&& kept.hashed == v.hashed + bytes
            &&& kept.state == after.state
            &&& kept.file == v.file
            &&& is_over(lost, failed, Err(FsError::GeneralFailure))
            &&& lost.hashed == v.hashed
        }),
{
    reveal_strlit("_");
    assert("_"@ =~= seq!['_']);
}

/// With nothing more to send, bytes are taken and dropped.
pub proof fn law_finished_file_takes_no_bytes(
    v: DavFileView,
    fs: FsView,
    bytes: Seq<u8>,
    now: u64,
)
    requires
        v.phase is Idle,
        v.state.is_finished,
    ensures
        v.write_begun(fs, bytes, now).0 == v,
        v.write_begun(fs, bytes, now).1 == ActionView::Done(Ok(())),
{
}

/// The first bytes of a file that is sent as it arrives begin its upload: an old file of the same
/// size is left as it is if that counts as the same; any other old file is removed, and then the
/// file is announced with the length that the client gave; with no old file it is announced at
/// once. The bytes wait until the drive has answered.
pub proof fn law_stream_begins_with_the_old_file(
    v: DavFileView,
    fs: FsView,
    bytes: Seq<u8>,
    size: u64,
    now: u64,
    later: u64,
)
    requires
        v.phase is Idle,
        v.state.streaming,
        !v.state.stream_started,
        !v.state.is_finished,
        v.state.declared_size == Some(size),
    ensures
        ({
            let (after, action) = v.write_begun(fs, bytes, now);
            let had = v.file.fid.len() > 0;
            &&& after.file == v.file
            &&& after.hashed == v.hashed
            &&& after.state == (UploadView {
                stream_started: true,
                is_finished: after.state.is_finished,
                ..v.state
            })
            &&& if had && fs.skip_upload_same_size && v.file.size == size {
                is_over(after, action, Ok(())) && after.state.is_finished
            } else if had {
                let (announcing, announced) = after.next(fs, EventView::Removed, later);
                &&& action == ActionView::RemoveFile { fid: v.file.fid, trash: !fs.no_trash }
                &&& !after.state.is_finished
                &&& announces(v, announced, size)
                &&& announcing.phase matches Phase::StreamAnnouncing(b) && b == bytes
                &&& announcing.state == after.state
            } else {
                &&& announces(v, action, size)
                &&& !after.state.is_finished
                &&& after.phase matches Phase::StreamAnnouncing(b) && b == bytes
            }
        }),
{
}

/// Whether bytes of a file that is sent as it arrives were taken: the parts they make up are sent
/// one by one, and less than a part is held. Parts of no size fail.
pub open spec fn takes_in(
    v: DavFileView,
    held: Seq<u8>,
    after: DavFileView,
    action: ActionView,
    now: u64,
) -> bool {
    let part_size = after.state.chunk_size;
    if part_size == 0 {
        is_over(after, action, Err(FsError::GeneralFailure))
    } else if held.len() < part_size {
        &&& is_over(after, action, Ok(()))
        &&& after.state.part_buf == held
        &&& after.hashed == v.hashed
        &&& after.state.part_number == v.state.part_number
    } else {
        &&& after.phase matches Phase::StreamPart { part, flushing } && !flushing && (part
            matches PartUpload::Meta { target, part_number, utc_time, bytes } && target
            == after.state.target && part_number == v.state.part_number + 1 && utc_time
            == http_date_of(now) && bytes == held.take(part_size as int))
        &&& action == ActionView::PartAuthMeta {
            mime_type: after.state.target.mime_type,
            utc_time: http_date_of(now),
            bucket: after.state.target.bucket,
            obj_key: after.state.target.obj_key,
            part_number: (v.state.part_number + 1) as u32,
            upload_id: after.state.target.upload_id,
        }
        &&& after.state.part_buf == held.skip(part_size as int)
        &&& after.hashed == v.hashed + held.take(part_size as int)
        &&& after.state.part_number == v.state.part_number + 1
    }
}

/// Whether of an open file only the tags, the bytes that are held and hashed, and the number of
/// the last part have changed, and the tags to these.
pub open spec fn is_same_but_for_bytes(
    v: DavFileView,
    after: DavFileView,
    etags: Seq<Seq<char>>,
) -> bool {
    &&& after.state == (UploadView {
        etags,
        part_buf: after.state.part_buf,
        part_number: after.state.part_number,
        ..v.state
    })
    &&& after == (DavFileView {
        state: after.state,
        hashed: after.hashed,
        phase: after.phase,
        ..v
    })
}

/// A file that is sent as it arrives has to have a length.
pub proof fn law_stream_needs_a_length(v: DavFileView, fs: FsView, bytes: Seq<u8>, now: u64)
    requires
        v.phase is Idle,
        v.state.streaming,
        !v.state.stream_started,
        !v.state.is_finished,
        v.state.declared_size is None,
    ensures
        is_over(
            v.write_begun(fs, bytes, now).0,
            v.write_begun(fs, bytes, now).1,
            Err(FsError::GeneralFailure),
        ),
{
}

/// Later bytes join those that are held, and whole parts of them are sent.
pub proof fn law_later_bytes_join_those_held(
    v: DavFileView,
    fs: FsView,
    bytes: Seq<u8>,
    now: u64,
)
    requires
        v.phase is Idle,
        v.state.streaming,
        v.state.stream_started,
        !v.state.is_finished,
        v.can_send(),
    ensures
        ({
            let (after, action) = v.write_begun(fs, bytes, now);
            &&& takes_in(v, v.state.part_buf + bytes, after, action, now)
            &&& is_same_but_for_bytes(v, after, v.state.etags)
        }),
{
}

/// The reply to the announcement of a file that is sent as it arrives: where the drive has it
/// already, there is nothing more to send; where the reply is missing or names no upload, the
/// write fails; otherwise the upload goes by the reply, in parts of the size that it gives, and
/// the bytes that waited are taken in.
pub proof fn law_stream_goes_by_the_reply(
    v: DavFileView,
    fs: FsView,
    bytes: Seq<u8>,
    reply: Option<PreUpload<Seq<char>>>,
    now: u64,
)
    requires
        v.phase == Phase::<Seq<char>, Seq<u8>, Seq<Seq<char>>>::StreamAnnouncing(bytes),
        v.state.part_number < u32::MAX,
        v.state.declared_size is Some,
    ensures
        ({
            let (after, action) = v.next(fs, EventView::Announced(reply), now);
            match reply {
                None => is_over(after, action, Err(FsError::GeneralFailure)),
                Some(r) => if r.finish {
                    &&& is_over(after, action, Ok(()))
                    &&& after.state == (UploadView { is_finished: true, ..v.state })
                    &&& after.file == v.file
                } else if r.upload_id is None {
                    is_over(after, action, Err(FsError::GeneralFailure))
                } else {
                    &&& goes_by(v, after, r)
                    &&& after.state.chunk_size == r.part_size
                    &&& Some(after.state.size) == v.state.declared_size
                    &&& takes_in(v, v.state.part_buf + bytes, after, action, now)
                },
            }
        }),
{
    if let Some(r) = reply {
        lemma_scheme(r.upload_url);
    }
}

/// A part goes on as parts do. Its tag is kept behind those before, and then the next part is
/// sent if a whole one is held; after the last part the digests of all bytes are reported. The
/// tag `finish` says that there is nothing more to send. A part that cannot be sent, or that has
/// no tag, is a failure.
pub proof fn law_part_is_followed_by_the_next(
    v: DavFileView,
    fs: FsView,
    part: PartUpload<Seq<char>, Seq<u8>>,
    flushing: bool,
    event: EventView,
    now: u64,
)
    requires
        v.phase == (Phase::<Seq<char>, Seq<u8>, Seq<Seq<char>>>::StreamPart { part, flushing }),
        v.awaits(event),
    ensures
        ({
            let (after, action) = v.next(fs, event, now);
            match part_next(part, event) {
                PartNext::Ask(later, asked) => {
                    &&& action == asked
                    &&& after.phase matches Phase::StreamPart { part: p, flushing: f } && p == later
                        && f == flushing
                    &&& after == (DavFileView { phase: after.phase, ..v })
                },
                PartNext::Tagged(etag) => if etag == "finish"@ {
                    &&& after.state == (UploadView { is_finished: true, ..v.state })
                    &&& after.file == v.file
                    &&& flushing ==> ends_well(v, after, action)
                    &&& !flushing ==> is_over(after, action, Ok(()))
                } else {
                    &&& is_same_but_for_bytes(v, after, v.state.etags.push(etag))
                    &&& flushing ==> {
                        &&& after.phase is StreamHashing
                        &&& after.hashed == v.hashed
                        &&& action == ActionView::UpHash {
                            md5: hex_of(md5_of(v.hashed)),
                            sha1: hex_of(sha1_of(v.hashed)),
                            task_id: v.state.target.task_id,
                        }
                    }
                    &&& !flushing ==> takes_in(v, v.state.part_buf, after, action, now)
                },
                _ => if flushing {
                    ends_badly(v, after, action, FsError::GeneralFailure)
                } else {
                    is_over(after, action, Err(FsError::GeneralFailure))
                },
            }
        }),
{
    if let PartNext::Tagged(_) = part_next(part, event) {
        assert(event is Etag);
    }
}

/// Once the digests are reported, the upload ends well if the drive has the content already.
/// Otherwise the parts are put together by their tags in order, and the upload is ended; it ends
/// well exactly if both come about.
pub proof fn law_stream_is_put_together_and_ended(
    v: DavFileView,
    fs: FsView,
    event: EventView,
    now: u64,
)
    requires
        v.awaits(event),
        v.phase is StreamHashing || v.phase is Committing || v.phase is Finishing,
    ensures
        ({
            let (after, action) = v.next(fs, event, now);
            match (v.phase, event) {
                (Phase::StreamHashing, EventView::Hashed(Some(true))) => ends_well(
                    v,
                    after,
                    action,
                ) && after.state.is_finished,
                (Phase::StreamHashing, EventView::Hashed(Some(false))) => match v.state.callback {
                    Some(callback) => {
                        &&& after == (DavFileView { phase: Phase::Committing, ..v })
                        &&& action matches UploadAction::Commit(req) && {
                            &&& req.md5s == v.state.etags
                            &&& req.callback == callback
                            &&& req.bucket == v.state.target.bucket
                            &&& req.obj_key == v.state.target.obj_key
                            &&& req.upload_id == v.state.target.upload_id
                            &&& req.auth_info == v.state.target.auth_info
                            &&& req.task_id == v.state.target.task_id
                            &&& req.upload_url == v.state.target.upload_url
                        }
                    },
                    None => ends_badly(v, after, action, FsError::GeneralFailure),
                },
                (Phase::Committing, EventView::Committed(true)) => {
                    &&& after == (DavFileView { phase: Phase::Finishing, ..v })
                    &&& action == ActionView::Finish {
                        obj_key: v.state.target.obj_key,
                        task_id: v.state.target.task_id,
                    }
                },
                (Phase::Finishing, EventView::Finished(true)) => ends_well(v, after, action),
                _ => ends_badly(v, after, action, FsError::GeneralFailure),
            }
        }),
{
}

/// The reply to the announcement of a staged or an empty file: where the drive has it already,
/// the flush ends well; where the reply is missing or names no upload, it fails; otherwise the
/// upload goes by the reply, and the digests of all bytes are reported for it.
pub proof fn law_flush_goes_by_the_reply(
    v: DavFileView,
    fs: FsView,
    empty: bool,
    reply: Option<PreUpload<Seq<char>>>,
    now: u64,
)
    requires
        v.valid(),
        v.phase == (Phase::<Seq<char>, Seq<u8>, Seq<Seq<char>>>::Announcing { empty }),
        v.awaits(EventView::Announced(reply)),
    ensures
        ({
            let (after, action) = v.next(fs, EventView::Announced(reply), now);
            let failed = if empty {
                is_over(after, action, Err(FsError::GeneralFailure))
            } else {
                ends_badly(v, after, action, FsError::GeneralFailure)
            };
            match reply {
                None => failed,
                Some(r) => if r.finish {
                    ends_well(v, after, action) && after.state.is_finished
                } else if r.upload_id is None {
                    failed
                } else {
                    &&& goes_by(v, after, r)
                    &&& after.phase matches Phase::Hashing { empty: e } && e == empty
                    &&& after.hashed == v.hashed
                    &&& after.state.size == v.state.size
                    &&& empty ==> after.state.chunk_count == 1 && after.state.chunk_size == 0
                    &&& !empty ==> after.state.chunk_size == r.part_size && after.state.chunk_count
                        == chunk_count_of(v.state.size, r.part_size)
                    &&& action == ActionView::UpHash {
                        md5: if empty {
                            EMPTY_MD5@
                        } else {
                            hex_of(md5_of(v.all_bytes()))
                        },
                        sha1: if empty {
                            EMPTY_SHA1@
                        } else {
                            hex_of(sha1_of(v.all_bytes()))
                        },
                        task_id: r.task_id,
                    }
                },
            }
        }),
{
    if let Some(r) = reply {
        lemma_scheme(r.upload_url);
        if !empty && r.part_size > 0 {
            lemma_chunk_count_is_small(v.state.size, r.part_size);
        }
    }
    if !empty {
        assert(v.all_bytes() =~= v.hashed);
    }
}

/// Whether a staged file is sent just as it stands: from its place, in parts as the drive asked
/// for them, none of them sent yet.
pub open spec fn sends_staged(
    v: DavFileView,
    chunks: ChunkUpload<Seq<char>, Seq<u8>, Seq<Seq<char>>>,
) -> bool {
    &&& chunks.target == v.state.target
    &&& Some(chunks.callback) == v.state.callback
    &&& chunks.temp_path == v.state.temp_file_path
    &&& chunks.size == v.state.size
    &&& chunks.chunk_size == v.state.chunk_size
    &&& chunks.chunk_count == v.state.chunk_count
    &&& chunks.etags.len() == 0
    &&& chunks.stage is Opening
}

/// The reply to the digests of a staged or an empty file: where the drive has the content
/// already, the flush ends well; where the reply is missing, it fails; otherwise the file is
/// sent. A staged file is handed, with its place, to a task on its own, and waited for as long
/// as is set. An empty one is first staged, in the same way.
pub proof fn law_flush_sends_what_the_drive_lacks(
    v: DavFileView,
    fs: FsView,
    empty: bool,
    had: Option<bool>,
    now: u64,
    later: u64,
)
    requires
        v.valid(),
        v.phase == (Phase::<Seq<char>, Seq<u8>, Seq<Seq<char>>>::Hashing { empty }),
        v.awaits(EventView::Hashed(had)),
    ensures
        ({
            let (after, action) = v.next(fs, EventView::Hashed(had), now);
            match had {
                None => if empty {
                    is_over(after, action, Err(FsError::GeneralFailure))
                } else {
                    ends_badly(v, after, action, FsError::GeneralFailure)
                },
                Some(true) => ends_well(v, after, action) && after.state.is_finished,
                Some(false) => if empty {
                    let place = join_of(
                        fs.temp_dir,
                        decimal_of(now as nat) + seq!['_'] + v.file.file_name,
                    );
                    let (sending, opening) = after.next(fs, EventView::TempWritten(true), later);
                    let (gone, failed) = after.next(fs, EventView::TempWritten(false), later);
                    &&& action == ActionView::MakeTemp { path: place }
                    &&& after.state == (UploadView { temp_file_path: place, ..v.state })
                    &&& opening == ActionView::OpenTemp { path: place }
                    &&& sending.phase matches Phase::Chunks(chunks) && sends_staged(after, chunks)
                    &&& is_over(gone, failed, Err(FsError::GeneralFailure))
                } else {
                    &&& after.phase is Waiting
                    &&& after.state.temp_file_path.len() == 0
                    &&& after.state == (UploadView {
                        temp_file_path: after.state.temp_file_path,
                        ..v.state
                    })
                    &&& after.file == v.file
                    &&& action matches UploadAction::Spawn { task, wait } && {
                        &&& wait == fs.upload_wait_timeout
                        &&& sends_staged(v, task.chunks)
                        &&& task.parent_dir == v.parent_dir
                        &&& Some(task.parent_path) == v.file.parent_path
                        &&& task.file_name == v.file.file_name
                        &&& task.stage is Sending
                    }
                },
            }
        }),
{
    reveal_strlit("_");
    reveal_strlit("");
    assert("_"@ =~= seq!['_']);
}

/// An empty file goes on as staged files do; once it is sent, the flush ends well, and where it
/// cannot be sent, it fails with that.
pub proof fn law_empty_file_is_sent_as_staged_ones(
    v: DavFileView,
    fs: FsView,
    chunks: ChunkUpload<Seq<char>, Seq<u8>, Seq<Seq<char>>>,
    event: EventView,
    now: u64,
)
    requires
        v.phase == Phase::<Seq<char>, Seq<u8>, Seq<Seq<char>>>::Chunks(chunks),
    ensures
        ({
            let (after, action) = v.next(fs, event, now);
            let (on, asked) = chunks_next(chunks, event, now);
            match asked {
                UploadAction::Done(Ok(_)) => ends_well(v, after, action),
                UploadAction::Done(Err(e)) => is_over(after, action, Err(e)),
                _ => action == asked && (after.phase matches Phase::Chunks(c) && c == on) && after
                    == (DavFileView { phase: after.phase, ..v }),
            }
        }),
{
}

/// A task that ended well, or that was waited for long enough, ends the flush well. One that
/// failed ends it with that failure, and one of which nothing is known with a general one.
pub proof fn law_task_decides_the_flush(v: DavFileView, fs: FsView, end: TaskEnd, now: u64)
    requires
        v.phase is Waiting,
    ensures
        ({
            let (after, action) = v.next(fs, EventView::TaskEnded(end), now);
            match end {
                TaskEnd::Ended(Ok(_)) => is_over(after, action, Ok(())),
                TaskEnd::StillRunning => is_over(after, action, Ok(())),
                TaskEnd::Ended(Err(e)) => ends_badly(v, after, action, e),
                TaskEnd::Lost => ends_badly(v, after, action, FsError::GeneralFailure),
            }
        }),
{
}

/// A flush that ended well waits until the file is listed, under its name and in its directory,
/// and is over then. One that failed is over at once: its placeholder goes, and the listing of
/// its directory. No other step of an upload changes the file system.
pub proof fn law_flush_is_over_once_listed(
    v: DavFileView,
    fs: FsView,
    event: EventView,
    now: u64,
    later: u64,
)
    requires
        v.awaits(event),
    ensures
        ({
            let (after, action) = v.next(fs, event, now);
            let left = v.fs_next(fs, event);
            &&& v.phase is Cleaning ==> after.file == v.file && after.parent_dir == v.parent_dir
                && after.parent_file_id == v.parent_file_id && after.current_pos == v.current_pos
            &&& match v.phase {
                Phase::Cleaning { uploaded, outcome } => if uploaded {
                    let (ended, done) = after.next(fs, EventView::Settled, later);
                    &&& left == fs
                    &&& action matches UploadAction::Settle { parent_dir, parent_path, file_name }
                        && parent_dir == v.parent_dir && Some(parent_path) == v.file.parent_path
                        && file_name == v.file.file_name
                    &&& is_over(ended, done, outcome)
                } else {
                    &&& is_over(after, action, outcome)
                    &&& left.uploading == fs.without_placeholder(
                        v.file.parent_path->0,
                        v.file.file_name,
                    ).uploading
                    &&& left.cache == fs.cache.bumped(v.parent_dir)
                    &&& left == (FsView { uploading: left.uploading, cache: left.cache, ..fs })
                },
                _ => left == fs,
            }
        }),
{
}

/// Giving up a file drops its placeholder exactly if something of it was written and it is not
/// finished, and changes nothing else.
pub proof fn law_abandoned_upload_leaves_no_placeholder(v: DavFileView, fs: FsView)
    ensures
        ({
            let begun = v.state.is_uploading || v.state.stream_started;
            let after = v.abandoned(fs);
            &&& begun && !v.state.is_finished && v.file.parent_path is Some ==> after
                == fs.without_placeholder(v.file.parent_path->0, v.file.file_name)
            &&& !begun || v.state.is_finished || v.file.parent_path is None ==> after == fs
        }),
{
}

}

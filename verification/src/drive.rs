//! Requests to the drive for uploads, and its replies.
//!
//! Texts are of type `T`, bytes of type `B` and lists of texts of type `L`: strings and vectors
//! in a request that is sent, sequences in what a contract says of it.
use vstd::prelude::*;
#[allow(unused_imports)]
use crate::file::opt_text;
#[allow(unused_imports)]
use crate::text::texts;

verus! {

/// What the store calls back when an upload is committed.
#[derive(Debug)]
pub struct Callback<T> {
    pub callback_url: T,
    pub callback_body: T,
}

/// What every request of one upload says.
#[derive(Debug)]
pub struct Target<T> {
    pub upload_id: T,
    pub upload_url: T,
    pub task_id: T,
    pub bucket: T,
    pub obj_key: T,
    pub mime_type: T,
    pub auth_info: T,
}

/// The reply to the announcement of an upload.
#[derive(Debug)]
pub struct PreUpload<T> {
    /// The drive has the content already; there is nothing to send.
    pub finish: bool,
    pub auth_info: T,
    pub callback: Callback<T>,
    pub task_id: T,
    pub upload_url: T,
    pub bucket: T,
    pub obj_key: T,
    pub format_type: T,
    pub fid: T,
    pub upload_id: Option<T>,
    /// How many bytes each part has, except the last one.
    pub part_size: u64,
}

/// One part of an upload.
#[derive(Debug)]
pub struct UpPartMethodRequest<T, B> {
    pub auth_key: T,
    pub mime_type: T,
    pub utc_time: T,
    pub bucket: T,
    pub upload_url: T,
    pub obj_key: T,
    pub part_number: u32,
    pub upload_id: T,
    pub part_bytes: B,
}

/// The end of an upload: the parts make up the file.
#[derive(Debug)]
pub struct UpAuthAndCommitRequest<T, L> {
    pub md5s: L,
    pub callback: Callback<T>,
    pub bucket: T,
    pub obj_key: T,
    pub upload_id: T,
    pub auth_info: T,
    pub task_id: T,
    pub upload_url: T,
}

impl View for Callback<String> {
    type V = Callback<Seq<char>>;

    open spec fn view(&self) -> Callback<Seq<char>> {
        Callback { callback_url: self.callback_url@, callback_body: self.callback_body@ }
    }
}

impl View for Target<String> {
    type V = Target<Seq<char>>;

    open spec fn view(&self) -> Target<Seq<char>> {
        Target {
            upload_id: self.upload_id@,
            upload_url: self.upload_url@,
            task_id: self.task_id@,
            bucket: self.bucket@,
            obj_key: self.obj_key@,
            mime_type: self.mime_type@,
            auth_info: self.auth_info@,
        }
    }
}

impl View for PreUpload<String> {
    type V = PreUpload<Seq<char>>;

    open spec fn view(&self) -> PreUpload<Seq<char>> {
        PreUpload {
            finish: self.finish,
            auth_info: self.auth_info@,
            callback: self.callback@,
            task_id: self.task_id@,
            upload_url: self.upload_url@,
            bucket: self.bucket@,
            obj_key: self.obj_key@,
            format_type: self.format_type@,
            fid: self.fid@,
            upload_id: opt_text(self.upload_id),
            part_size: self.part_size,
        }
    }
}

impl View for UpPartMethodRequest<String, Vec<u8>> {
    type V = UpPartMethodRequest<Seq<char>, Seq<u8>>;

    open spec fn view(&self) -> UpPartMethodRequest<Seq<char>, Seq<u8>> {
        UpPartMethodRequest {
            auth_key: self.auth_key@,
            mime_type: self.mime_type@,
            utc_time: self.utc_time@,
            bucket: self.bucket@,
            upload_url: self.upload_url@,
            obj_key: self.obj_key@,
            part_number: self.part_number,
            upload_id: self.upload_id@,
            part_bytes: self.part_bytes@,
        }
    }
}

impl View for UpAuthAndCommitRequest<String, Vec<String>> {
    type V = UpAuthAndCommitRequest<Seq<char>, Seq<Seq<char>>>;

    open spec fn view(&self) -> UpAuthAndCommitRequest<Seq<char>, Seq<Seq<char>>> {
        UpAuthAndCommitRequest {
            md5s: texts(self.md5s@),
            callback: self.callback@,
            bucket: self.bucket@,
            obj_key: self.obj_key@,
            upload_id: self.upload_id@,
            auth_info: self.auth_info@,
            task_id: self.task_id@,
            upload_url: self.upload_url@,
        }
    }
}

impl Clone for Callback<String> {
    fn clone(&self) -> (res: Self)
        ensures
            res == *self,
    {
        Callback {
            callback_url: self.callback_url.clone(),
            callback_body: self.callback_body.clone(),
        }
    }
}

impl Clone for Target<String> {
    fn clone(&self) -> (res: Self)
        ensures
            res == *self,
    {
        Target {
            upload_id: self.upload_id.clone(),
            upload_url: self.upload_url.clone(),
            task_id: self.task_id.clone(),
            bucket: self.bucket.clone(),
            obj_key: self.obj_key.clone(),
            mime_type: self.mime_type.clone(),
            auth_info: self.auth_info.clone(),
        }
    }
}

/// The request that ends an upload.
pub open spec fn commit_of(
    target: Target<Seq<char>>,
    callback: Callback<Seq<char>>,
    etags: Seq<Seq<char>>,
) -> UpAuthAndCommitRequest<Seq<char>, Seq<Seq<char>>> {
    UpAuthAndCommitRequest {
        md5s: etags,
        callback,
        bucket: target.bucket,
        obj_key: target.obj_key,
        upload_id: target.upload_id,
        auth_info: target.auth_info,
        task_id: target.task_id,
        upload_url: target.upload_url,
    }
}

/// The request that ends an upload.
pub fn commit_request(target: &Target<String>, callback: Callback<String>, etags: Vec<String>) -> (res:
    UpAuthAndCommitRequest<String, Vec<String>>)
    ensures
        res@ == commit_of(target@, callback@, texts(etags@)),
{
    UpAuthAndCommitRequest {
        md5s: etags,
        callback,
        bucket: target.bucket.clone(),
        obj_key: target.obj_key.clone(),
        upload_id: target.upload_id.clone(),
        auth_info: target.auth_info.clone(),
        task_id: target.task_id.clone(),
        upload_url: target.upload_url.clone(),
    }
}

/// A copy of a list of texts.
pub fn copy_texts(list: &Vec<String>) -> (res: Vec<String>)
    ensures
        res@ == list@,
{
    let mut res: Vec<String> = Vec::new();
    let mut i: usize = 0;
    while i < list.len()
        invariant
            i <= list.len(),
            res@ == list@.take(i as int),
        decreases list.len() - i,
    {
        res.push(list[i].clone());
        assert(list@.take(i + 1) =~= list@.take(i as int).push(list@[i as int]));
        i += 1;
    }
    assert(list@.take(i as int) =~= list@);
    res
}

/// A copy of some bytes.
pub fn copy_bytes(bytes: &Vec<u8>) -> (res: Vec<u8>)
    ensures
        res@ == bytes@,
{
    let mut res: Vec<u8> = Vec::new();
    res.extend_from_slice(bytes.as_slice());
    res
}

/// The request that ends an upload says of it what the drive said of it, and names the tags of
/// the parts in the order in which they are given.
pub proof fn law_commit_says_what_the_drive_said(
    target: Target<Seq<char>>,
    callback: Callback<Seq<char>>,
    etags: Seq<Seq<char>>,
)
    ensures
        ({
            let req = commit_of(target, callback, etags);
            &&& req.md5s == etags
            &&& req.callback.callback_url == callback.callback_url
            &&& req.callback.callback_body == callback.callback_body
            &&& req.bucket == target.bucket
            &&& req.obj_key == target.obj_key
            &&& req.upload_id == target.upload_id
            &&& req.auth_info == target.auth_info
            &&& req.task_id == target.task_id
            &&& req.upload_url == target.upload_url
        }),
{
}

/// What the drive says of an upload, and what is sent to it, is said field by field.
pub proof fn law_requests_and_replies_say_what_they_hold(
    reply: PreUpload<String>,
    part: UpPartMethodRequest<String, Vec<u8>>,
    commit: UpAuthAndCommitRequest<String, Vec<String>>,
    target: Target<String>,
    i: int,
)
    ensures
        reply@.finish == reply.finish,
        reply@.part_size == reply.part_size,
        reply@.auth_info == reply.auth_info@,
        reply@.task_id == reply.task_id@,
        reply@.upload_url == reply.upload_url@,
        reply@.bucket == reply.bucket@,
        reply@.obj_key == reply.obj_key@,
        reply@.format_type == reply.format_type@,
        reply@.fid == reply.fid@,
        reply@.upload_id is Some == reply.upload_id is Some,
        reply.upload_id matches Some(id) ==> reply@.upload_id == Some(id@),
        reply@.callback.callback_url == reply.callback.callback_url@,
        reply@.callback.callback_body == reply.callback.callback_body@,
        part@.auth_key == part.auth_key@,
        part@.mime_type == part.mime_type@,
        part@.utc_time == part.utc_time@,
        part@.bucket == part.bucket@,
        part@.upload_url == part.upload_url@,
        part@.obj_key == part.obj_key@,
        part@.part_number == part.part_number,
        part@.upload_id == part.upload_id@,
        part@.part_bytes == part.part_bytes@,
        commit@.md5s.len() == commit.md5s@.len(),
        0 <= i < commit.md5s@.len() ==> commit@.md5s[i] == commit.md5s@[i]@,
        commit@.callback.callback_url == commit.callback.callback_url@,
        commit@.callback.callback_body == commit.callback.callback_body@,
        commit@.bucket == commit.bucket@,
        commit@.obj_key == commit.obj_key@,
        commit@.upload_id == commit.upload_id@,
        commit@.auth_info == commit.auth_info@,
        commit@.task_id == commit.task_id@,
        commit@.upload_url == commit.upload_url@,
        target@.upload_id == target.upload_id@,
        target@.upload_url == target.upload_url@,
        target@.task_id == target.task_id@,
        target@.bucket == target.bucket@,
        target@.obj_key == target.obj_key@,
        target@.mime_type == target.mime_type@,
        target@.auth_info == target.auth_info@,
{
}

}

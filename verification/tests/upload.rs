use quarkdrive_webdav::chunks::{count_chunks, UploadTask};
use quarkdrive_webdav::download::{ReadAction, SeekFrom};
use quarkdrive_webdav::drive::{Callback, PreUpload, UpPartMethodRequest};
use quarkdrive_webdav::error::FsError;
use quarkdrive_webdav::file::QuarkFile;
use quarkdrive_webdav::part::{Action, Event, TaskEnd, UploadAction, UploadEvent};
use quarkdrive_webdav::upload::{QuarkDavFile, EMPTY_MD5, EMPTY_SHA1};
use quarkdrive_webdav::vfs::QuarkDriveFileSystem;

const NOW: u64 = 784_111_777_000;
const DATE: &str = "Sun, 06 Nov 1994 08:49:37 GMT";

fn file_system() -> QuarkDriveFileSystem {
    QuarkDriveFileSystem::new("/".to_string(), 64, 300).unwrap()
}

fn record(fid: &str, size: u64) -> QuarkFile {
    QuarkFile {
        fid: fid.to_string(),
        file_name: "x.txt".to_string(),
        dir: false,
        file: true,
        size,
        parent_path: Some("/d".to_string()),
        ..QuarkFile::new_root()
    }
}

fn open_file(fs: &mut QuarkDriveFileSystem, fid: &str, size: u64, declared: Option<u64>) -> QuarkDavFile {
    fs.add_uploading_file("/d", record("", 0));
    let mut file =
        QuarkDavFile::new(record(fid, size), "parent".to_string(), "/d".to_string(), 0, None);
    file.upload_state.declared_size = declared;
    file.upload_state.streaming = declared.is_some();
    file
}

fn announced(part_size: u64) -> Event {
    UploadEvent::Announced(Some(reply(part_size)))
}

fn reply(part_size: u64) -> PreUpload<String> {
    PreUpload {
        finish: false,
        auth_info: "info".to_string(),
        callback: Callback { callback_url: "url".to_string(), callback_body: "body".to_string() },
        task_id: "task".to_string(),
        upload_url: "http://store.example".to_string(),
        bucket: "bucket".to_string(),
        obj_key: "key".to_string(),
        format_type: "text/plain".to_string(),
        fid: "new".to_string(),
        upload_id: Some("upload".to_string()),
        part_size,
    }
}

fn finished_already() -> Event {
    UploadEvent::Announced(Some(PreUpload { finish: true, ..reply(4) }))
}

fn tag(s: &str) -> Event {
    UploadEvent::Etag(Some(Some(s.to_string())))
}

fn done(action: Action) -> Result<(), FsError> {
    match action {
        UploadAction::Done(outcome) => outcome,
        _ => panic!("an outcome was expected"),
    }
}

// Takes a part from the request for its signature to the request that sends it.
fn signed(
    file: &mut QuarkDavFile,
    fs: &mut QuarkDriveFileSystem,
    action: Action,
) -> UpPartMethodRequest<String, Vec<u8>> {
    match action {
        UploadAction::PartAuthMeta { mime_type, utc_time, bucket, obj_key, upload_id, .. } => {
            assert_eq!((mime_type.as_str(), utc_time.as_str()), ("text/plain", DATE));
            assert_eq!((bucket.as_str(), obj_key.as_str(), upload_id.as_str()), ("bucket", "key", "upload"));
        }
        _ => panic!("a part was expected"),
    }
    match file.step(fs, UploadEvent::Meta(Some("meta".to_string())), NOW) {
        UploadAction::Auth { auth_info, auth_meta, task_id } => {
            assert_eq!((auth_info.as_str(), auth_meta.as_str(), task_id.as_str()), ("info", "meta", "task"))
        }
        _ => panic!(),
    }
    match file.step(fs, UploadEvent::Key(Some("signature".to_string())), NOW) {
        UploadAction::UpPart(req) => {
            assert_eq!((req.auth_key.as_str(), req.upload_url.as_str()), ("signature", "store.example"));
            assert_eq!((req.mime_type.as_str(), req.utc_time.as_str()), ("text/plain", DATE));
            assert_eq!((req.bucket.as_str(), req.obj_key.as_str(), req.upload_id.as_str()), ("bucket", "key", "upload"));
            req
        }
        _ => panic!(),
    }
}

// Takes a flush from the removal of the staged file to its outcome.
fn settled(file: &mut QuarkDavFile, fs: &mut QuarkDriveFileSystem, action: Action, staged: &str) {
    match action {
        UploadAction::RemoveTemp { path } => assert_eq!(path, staged),
        _ => panic!("the staged file was expected to go"),
    }
    match file.step(fs, UploadEvent::TempRemoved, NOW) {
        UploadAction::Settle { parent_dir, parent_path, file_name } => {
            assert_eq!((parent_dir.as_str(), parent_path.as_str(), file_name.as_str()), ("/d", "/d", "x.txt"))
        }
        _ => panic!("the file was expected to be looked for"),
    }
    assert_eq!(done(file.step(fs, UploadEvent::Settled, NOW)), Ok(()));
    assert!(!file.upload_state.is_finished && !file.upload_state.streaming);
}

fn failed(file: &mut QuarkDavFile, fs: &mut QuarkDriveFileSystem, action: Action) -> FsError {
    assert!(matches!(action, UploadAction::RemoveTemp { .. }));
    fs.dir_cache.insert("/d".to_string(), vec![]);
    let e = done(file.step(fs, UploadEvent::TempRemoved, NOW)).unwrap_err();
    assert!(fs.dir_cache.get("/d").is_none());
    assert!(fs.list_uploading_files("/d").is_empty());
    e
}

#[test]
fn a_file_is_sent_as_it_arrives() {
    let mut fs = file_system();
    let mut file = open_file(&mut fs, "", 0, Some(11));
    match file.write_buf(&fs, b"hel".to_vec(), NOW) {
        UploadAction::UpPre { file_name, size, parent_fid } => {
            assert_eq!((file_name.as_str(), size, parent_fid.as_str()), ("x.txt", 11, "parent"))
        }
        _ => panic!(),
    }
    assert_eq!(done(file.step(&mut fs, announced(4), NOW)), Ok(()));
    assert_eq!(file.metadata().fid, "new");
    let action = file.write_buf(&fs, b"lo worl".to_vec(), NOW);
    let part = signed(&mut file, &mut fs, action);
    assert_eq!((part.part_number, part.part_bytes.as_slice()), (1, &b"hell"[..]));
    let action = file.step(&mut fs, tag("e1"), NOW);
    let part = signed(&mut file, &mut fs, action);
    assert_eq!((part.part_number, part.part_bytes.as_slice()), (2, &b"o wo"[..]));
    assert_eq!(done(file.step(&mut fs, tag("e2"), NOW)), Ok(()));
    assert_eq!(done(file.write_buf(&fs, b"d".to_vec(), NOW)), Ok(()));
    let action = file.flush(NOW);
    let part = signed(&mut file, &mut fs, action);
    assert_eq!((part.part_number, part.part_bytes.as_slice()), (3, &b"rld"[..]));
    match file.step(&mut fs, tag("e3"), NOW) {
        UploadAction::UpHash { md5, sha1, task_id } => {
            assert_eq!(md5, "5eb63bbbe01eeed093cb22bb8f5acdc3");
            assert_eq!(sha1, "2aae6c35c94fcfb415dbe95f408b9ce91ee846ed");
            assert_eq!(task_id, "task");
        }
        _ => panic!(),
    }
    match file.step(&mut fs, UploadEvent::Hashed(Some(false)), NOW) {
        UploadAction::Commit(req) => {
            assert_eq!(req.md5s, vec!["e1", "e2", "e3"]);
            assert_eq!(req.callback.callback_url, "url");
            assert_eq!((req.bucket.as_str(), req.obj_key.as_str(), req.upload_id.as_str()), ("bucket", "key", "upload"));
            assert_eq!((req.auth_info.as_str(), req.task_id.as_str(), req.upload_url.as_str()), ("info", "task", "store.example"));
        }
        _ => panic!(),
    }
    match file.step(&mut fs, UploadEvent::Committed(true), NOW) {
        UploadAction::Finish { obj_key, task_id } => {
            assert_eq!((obj_key.as_str(), task_id.as_str()), ("key", "task"))
        }
        _ => panic!(),
    }
    let action = file.step(&mut fs, UploadEvent::Finished(true), NOW);
    settled(&mut file, &mut fs, action, "");
    // The placeholder stands until the file is listed.
    assert_eq!(fs.list_uploading_files("/d").len(), 1);
}

#[test]
fn a_file_of_the_same_size_is_kept_if_that_is_enough() {
    let mut fs = file_system();
    fs.set_skip_upload_same_size(true);
    let mut file = open_file(&mut fs, "old", 3, Some(3));
    assert_eq!(done(file.write_buf(&fs, b"abc".to_vec(), NOW)), Ok(()));
    assert!(file.upload_state.is_finished);
    assert_eq!(done(file.write_buf(&fs, b"abc".to_vec(), NOW)), Ok(()));
    let action = file.flush(NOW);
    settled(&mut file, &mut fs, action, "");
}

#[test]
fn an_old_file_goes_before_a_new_one_is_sent() {
    let mut fs = file_system();
    let mut file = open_file(&mut fs, "old", 3, Some(3));
    match file.write_buf(&fs, b"abc".to_vec(), NOW) {
        UploadAction::RemoveFile { fid, trash } => assert_eq!((fid.as_str(), trash), ("old", true)),
        _ => panic!(),
    }
    let action = file.step(&mut fs, UploadEvent::Removed, NOW);
    assert!(matches!(action, UploadAction::UpPre { size: 3, .. }));
    // The drive has the content already.
    assert_eq!(done(file.step(&mut fs, finished_already(), NOW)), Ok(()));
    assert!(file.upload_state.is_finished);
}

#[test]
fn a_stream_fails_as_it_should() {
    let failure = Err(FsError::GeneralFailure);
    let mut fs = file_system();
    let mut file = open_file(&mut fs, "", 0, Some(4));
    file.write_buf(&fs, b"a".to_vec(), NOW);
    assert_eq!(done(file.step(&mut fs, UploadEvent::Announced(None), NOW)), failure);
    let mut file = open_file(&mut fs, "", 0, Some(4));
    file.write_buf(&fs, b"a".to_vec(), NOW);
    let no_id = UploadEvent::Announced(Some(PreUpload { upload_id: None, ..reply(4) }));
    assert_eq!(done(file.step(&mut fs, no_id, NOW)), failure);
    let mut file = open_file(&mut fs, "", 0, Some(4));
    file.write_buf(&fs, b"a".to_vec(), NOW);
    assert_eq!(done(file.step(&mut fs, announced(0), NOW)), failure);
    for refusal in [UploadEvent::Etag(None), UploadEvent::Etag(Some(None))] {
        let mut file = open_file(&mut fs, "", 0, Some(4));
        file.write_buf(&fs, b"abcd".to_vec(), NOW);
        let action = file.step(&mut fs, announced(4), NOW);
        signed(&mut file, &mut fs, action);
        assert_eq!(done(file.step(&mut fs, refusal, NOW)), failure);
    }
    let mut file = open_file(&mut fs, "", 0, Some(4));
    file.write_buf(&fs, b"abcd".to_vec(), NOW);
    file.step(&mut fs, announced(4), NOW);
    assert_eq!(done(file.step(&mut fs, UploadEvent::Meta(None), NOW)), failure);
    let mut file = open_file(&mut fs, "", 0, Some(4));
    file.upload_state.declared_size = None;
    assert_eq!(done(file.write_buf(&fs, b"abcd".to_vec(), NOW)), failure);
}

#[test]
fn a_stream_that_fails_at_its_end_is_cleared_away() {
    for at in 0..4 {
        let mut fs = file_system();
        let mut file = open_file(&mut fs, "", 0, Some(2));
        file.write_buf(&fs, b"ab".to_vec(), NOW);
        assert_eq!(done(file.step(&mut fs, announced(4), NOW)), Ok(()));
        let action = file.flush(NOW);
        signed(&mut file, &mut fs, action);
        let mut events = vec![
            UploadEvent::Etag(None),
            UploadEvent::Hashed(None),
            UploadEvent::Committed(false),
            UploadEvent::Finished(false),
        ];
        let good = vec![tag("e"), UploadEvent::Hashed(Some(false)), UploadEvent::Committed(true)];
        for event in good.into_iter().take(at) {
            file.step(&mut fs, event, NOW);
        }
        let action = file.step(&mut fs, events.remove(at), NOW);
        assert_eq!(failed(&mut file, &mut fs, action), FsError::GeneralFailure);
    }
}

#[test]
fn the_store_may_have_the_object_already() {
    let mut fs = file_system();
    let mut file = open_file(&mut fs, "", 0, Some(9));
    file.write_buf(&fs, b"abcdefghi".to_vec(), NOW);
    let action = file.step(&mut fs, announced(4), NOW);
    signed(&mut file, &mut fs, action);
    assert_eq!(done(file.step(&mut fs, tag("finish"), NOW)), Ok(()));
    assert!(file.upload_state.is_finished);
    let action = file.flush(NOW);
    settled(&mut file, &mut fs, action, "");
    // The same, found out by the last part, or by the digests.
    for event in [tag("finish"), tag("e")] {
        let early = matches!(&event, UploadEvent::Etag(Some(Some(e))) if e == "finish");
        let mut file = open_file(&mut fs, "", 0, Some(2));
        file.write_buf(&fs, b"ab".to_vec(), NOW);
        file.step(&mut fs, announced(4), NOW);
        let action = file.flush(NOW);
        signed(&mut file, &mut fs, action);
        let mut action = file.step(&mut fs, event, NOW);
        if !early {
            action = file.step(&mut fs, UploadEvent::Hashed(Some(true)), NOW);
        }
        settled(&mut file, &mut fs, action, "");
    }
}

#[test]
fn nothing_written_means_nothing_flushed() {
    let mut fs = file_system();
    let mut file = open_file(&mut fs, "", 0, Some(0));
    assert_eq!(done(file.flush(NOW)), Ok(()));
    let mut file = open_file(&mut fs, "", 0, None);
    assert_eq!(done(file.flush(NOW)), Ok(()));
    assert_eq!(file.upload_state.flush_count, 1);
}

// Stages `bytes` in two writes and returns the path.
fn stage(file: &mut QuarkDavFile, fs: &mut QuarkDriveFileSystem, first: &[u8], second: &[u8]) {
    for bytes in [first, second] {
        match file.write_buf(fs, bytes.to_vec(), NOW) {
            UploadAction::AppendTemp { path, bytes: sent } => {
                assert_eq!(path, "/tmp/784111777000_x.txt");
                assert_eq!(sent, bytes);
            }
            _ => panic!(),
        }
        assert_eq!(done(file.step(fs, UploadEvent::TempWritten(true), NOW)), Ok(()));
    }
}

#[test]
fn a_staged_file_is_sent_by_a_task() {
    let mut fs = file_system();
    let mut file = open_file(&mut fs, "", 0, None);
    stage(&mut file, &mut fs, b"hello ", b"world");
    assert!(matches!(file.flush(NOW), UploadAction::UpPre { size: 11, .. }));
    match file.step(&mut fs, announced(4), NOW) {
        UploadAction::UpHash { md5, sha1, .. } => {
            assert_eq!(md5, "5eb63bbbe01eeed093cb22bb8f5acdc3");
            assert_eq!(sha1, "2aae6c35c94fcfb415dbe95f408b9ce91ee846ed");
        }
        _ => panic!(),
    }
    let (task, wait) = match file.step(&mut fs, UploadEvent::Hashed(Some(false)), NOW) {
        UploadAction::Spawn { task, wait } => (task, wait),
        _ => panic!(),
    };
    assert_eq!(wait, 280);
    // The staged file belongs to the task now.
    assert_eq!(file.upload_state.temp_file_path, "");
    run_task(task);
    let action = file.step(&mut fs, UploadEvent::TaskEnded(TaskEnd::Ended(Ok(()))), NOW);
    assert_eq!(done(action), Ok(()));
    assert_eq!(file.upload_state.size, 0);
}

fn run_task(task: UploadTask<String, Vec<u8>, Vec<String>>) {
    let content = b"hello world";
    let mut at = 0;
    let mut sent: Vec<u8> = Vec::new();
    match task.start() {
        UploadAction::OpenTemp { path } => assert_eq!(path, "/tmp/784111777000_x.txt"),
        _ => panic!(),
    }
    let mut event = UploadEvent::TempOpened(true);
    let mut task = task;
    let mut seen = Vec::new();
    loop {
        let (next, action) = task.step(event, NOW);
        task = next;
        event = match action {
            UploadAction::ReadTemp { len } => {
                let from = at;
                at += len as usize;
                UploadEvent::TempRead(Some(content[from..at].to_vec()))
            }
            UploadAction::PartAuthMeta { part_number, .. } => {
                seen.push(part_number);
                UploadEvent::Meta(Some("meta".to_string()))
            }
            UploadAction::Auth { .. } => UploadEvent::Key(Some("signature".to_string())),
            UploadAction::UpPart(req) => {
                sent.extend_from_slice(&req.part_bytes);
                tag(&format!("e{}", req.part_number))
            }
            UploadAction::Commit(req) => {
                assert_eq!(req.md5s, vec!["e1", "e2", "e3"]);
                UploadEvent::Committed(true)
            }
            UploadAction::Finish { .. } => UploadEvent::Finished(true),
            UploadAction::RemoveTemp { path } => {
                assert_eq!(path, "/tmp/784111777000_x.txt");
                UploadEvent::TempRemoved
            }
            UploadAction::Settle { file_name, .. } => {
                assert_eq!(file_name, "x.txt");
                UploadEvent::Settled
            }
            UploadAction::Done(outcome) => {
                assert_eq!(outcome, Ok(()));
                break;
            }
            _ => panic!(),
        };
    }
    assert_eq!(seen, vec![1, 2, 3]);
    assert_eq!(sent, content);
}

fn spawned(file: &mut QuarkDavFile, fs: &mut QuarkDriveFileSystem) -> UploadTask<String, Vec<u8>, Vec<String>> {
    stage(file, fs, b"hello ", b"world");
    file.flush(NOW);
    file.step(fs, announced(4), NOW);
    match file.step(fs, UploadEvent::Hashed(Some(false)), NOW) {
        UploadAction::Spawn { task, .. } => task,
        _ => panic!(),
    }
}

#[test]
fn a_task_fails_or_ends_early() {
    let mut fs = file_system();
    let mut file = open_file(&mut fs, "", 0, None);
    let (_, action) = spawned(&mut file, &mut fs).step(UploadEvent::TempOpened(false), NOW);
    assert_eq!(done(action), Err(FsError::GeneralFailure));
    let mut file = open_file(&mut fs, "", 0, None);
    let (task, _) = spawned(&mut file, &mut fs).step(UploadEvent::TempOpened(true), NOW);
    let (_, action) = task.step(UploadEvent::TempRead(None), NOW);
    assert_eq!(done(action), Err(FsError::GeneralFailure));
    let mut file = open_file(&mut fs, "", 0, None);
    let (task, _) = spawned(&mut file, &mut fs).step(UploadEvent::TempOpened(true), NOW);
    let (task, _) = task.step(UploadEvent::TempRead(Some(b"hell".to_vec())), NOW);
    let (task, _) = task.step(UploadEvent::Meta(Some("m".to_string())), NOW);
    let (task, _) = task.step(UploadEvent::Key(Some("k".to_string())), NOW);
    let (_, action) = task.step(tag("finish"), NOW);
    assert!(matches!(action, UploadAction::RemoveTemp { .. }));
}

#[test]
fn the_client_need_not_wait_for_the_task() {
    let mut fs = file_system();
    fs.set_upload_wait_timeout(0);
    let mut file = open_file(&mut fs, "", 0, None);
    spawned(&mut file, &mut fs);
    let action = file.step(&mut fs, UploadEvent::TaskEnded(TaskEnd::StillRunning), NOW);
    assert_eq!(done(action), Ok(()));
    assert_eq!(fs.list_uploading_files("/d").len(), 1);
    for (end, e) in [
        (TaskEnd::Lost, FsError::GeneralFailure),
        (TaskEnd::Ended(Err(FsError::NotFound)), FsError::NotFound),
    ] {
        let mut fs = file_system();
        let mut file = open_file(&mut fs, "", 0, None);
        spawned(&mut file, &mut fs);
        let action = file.step(&mut fs, UploadEvent::TaskEnded(end), NOW);
        assert_eq!(failed(&mut file, &mut fs, action), e);
    }
}

#[test]
fn the_same_content_is_not_sent_again() {
    let mut fs = file_system();
    let mut file = open_file(&mut fs, "old", 3, None);
    stage(&mut file, &mut fs, b"hello ", b"world");
    match file.flush(NOW) {
        UploadAction::GetFileMd5 { fid } => assert_eq!(fid, "old"),
        _ => panic!(),
    }
    let same = UploadEvent::CloudMd5(Some(Some("5EB63BBBE01EEED093CB22BB8F5ACDC3".to_string())));
    let action = file.step(&mut fs, same, NOW);
    settled(&mut file, &mut fs, action, "/tmp/784111777000_x.txt");
}

#[test]
fn other_content_replaces_the_old_file() {
    for (known, size, skip, removed) in [
        (Some(Some("0".to_string())), 11, false, true),
        (Some(None), 3, true, true),
        (None, 3, true, true),
        (None, 11, true, false),
    ] {
        let mut fs = file_system();
        fs.set_skip_upload_same_size(skip).set_no_trash(true);
        let mut file = open_file(&mut fs, "old", size, None);
        stage(&mut file, &mut fs, b"hello ", b"world");
        file.flush(NOW);
        let action = file.step(&mut fs, UploadEvent::CloudMd5(known), NOW);
        if !removed {
            settled(&mut file, &mut fs, action, "/tmp/784111777000_x.txt");
            continue;
        }
        match action {
            UploadAction::RemoveFile { fid, trash } => assert_eq!((fid.as_str(), trash), ("old", false)),
            _ => panic!(),
        }
        let action = file.step(&mut fs, UploadEvent::Removed, NOW);
        assert!(matches!(action, UploadAction::UpPre { size: 11, .. }));
        let action = file.step(&mut fs, finished_already(), NOW);
        settled(&mut file, &mut fs, action, "/tmp/784111777000_x.txt");
    }
}

#[test]
fn a_staged_file_fails_as_it_should() {
    let mut fs = file_system();
    let mut file = open_file(&mut fs, "", 0, None);
    file.write_buf(&fs, b"ab".to_vec(), NOW);
    let action = file.step(&mut fs, UploadEvent::TempWritten(false), NOW);
    assert_eq!(done(action), Err(FsError::GeneralFailure));
    let no_id = UploadEvent::Announced(Some(PreUpload { upload_id: None, ..reply(4) }));
    for event in [UploadEvent::Announced(None), no_id] {
        let mut fs = file_system();
        let mut file = open_file(&mut fs, "", 0, None);
        stage(&mut file, &mut fs, b"a", b"b");
        file.flush(NOW);
        let action = file.step(&mut fs, event, NOW);
        assert_eq!(failed(&mut file, &mut fs, action), FsError::GeneralFailure);
    }
    let mut fs = file_system();
    let mut file = open_file(&mut fs, "", 0, None);
    stage(&mut file, &mut fs, b"a", b"b");
    file.flush(NOW);
    file.step(&mut fs, announced(4), NOW);
    let action = file.step(&mut fs, UploadEvent::Hashed(None), NOW);
    assert_eq!(failed(&mut file, &mut fs, action), FsError::GeneralFailure);
}

#[test]
fn an_empty_file_is_sent() {
    let mut fs = file_system();
    fs.set_temp_dir("/var/cache/quarkdrive".to_string());
    let mut file = open_file(&mut fs, "", 0, None);
    assert!(matches!(file.upload_mini_byte_file(), UploadAction::UpPre { size: 0, .. }));
    match file.step(&mut fs, announced(4), NOW) {
        UploadAction::UpHash { md5, sha1, .. } => {
            assert_eq!((md5.as_str(), sha1.as_str()), (EMPTY_MD5, EMPTY_SHA1))
        }
        _ => panic!(),
    }
    match file.step(&mut fs, UploadEvent::Hashed(Some(false)), NOW) {
        UploadAction::MakeTemp { path } => assert_eq!(path, "/var/cache/quarkdrive/784111777000_x.txt"),
        _ => panic!(),
    }
    let action = file.step(&mut fs, UploadEvent::TempWritten(true), NOW);
    assert!(matches!(action, UploadAction::OpenTemp { .. }));
    let action = file.step(&mut fs, UploadEvent::TempOpened(true), NOW);
    assert!(matches!(action, UploadAction::ReadTemp { len: 0 }));
    let action = file.step(&mut fs, UploadEvent::TempRead(Some(vec![])), NOW);
    let part = signed(&mut file, &mut fs, action);
    assert_eq!((part.part_number, part.part_bytes.len()), (1, 0));
    let action = file.step(&mut fs, tag("e"), NOW);
    assert!(matches!(action, UploadAction::Commit(_)));
    let action = file.step(&mut fs, UploadEvent::Committed(true), NOW);
    assert!(matches!(action, UploadAction::Finish { .. }));
    let action = file.step(&mut fs, UploadEvent::Finished(true), NOW);
    settled(&mut file, &mut fs, action, "/var/cache/quarkdrive/784111777000_x.txt");
    // The digests of nothing are what they are said to be.
    fs.set_temp_dir("/tmp".to_string());
    let mut file = open_file(&mut fs, "", 0, None);
    stage(&mut file, &mut fs, b"", b"");
    file.flush(NOW);
    match file.step(&mut fs, announced(4), NOW) {
        UploadAction::UpHash { md5, sha1, .. } => {
            assert_eq!((md5.as_str(), sha1.as_str()), (EMPTY_MD5, EMPTY_SHA1))
        }
        _ => panic!(),
    }
}

#[test]
fn an_empty_file_fails_as_it_should() {
    let mut fs = file_system();
    let mut file = open_file(&mut fs, "old", 0, None);
    assert!(matches!(file.upload_mini_byte_file(), UploadAction::GetFileMd5 { .. }));
    let same = UploadEvent::CloudMd5(Some(Some(EMPTY_MD5.to_string())));
    let action = file.step(&mut fs, same, NOW);
    settled(&mut file, &mut fs, action, "");
    let mut file = open_file(&mut fs, "", 0, None);
    file.upload_mini_byte_file();
    let action = file.step(&mut fs, UploadEvent::Announced(None), NOW);
    assert_eq!(done(action), Err(FsError::GeneralFailure));
    let mut file = open_file(&mut fs, "", 0, None);
    file.upload_mini_byte_file();
    file.step(&mut fs, announced(4), NOW);
    file.step(&mut fs, UploadEvent::Hashed(Some(false)), NOW);
    let action = file.step(&mut fs, UploadEvent::TempWritten(false), NOW);
    assert_eq!(done(action), Err(FsError::GeneralFailure));
}

#[test]
fn limits_bind_only_where_they_are_reached() {
    let mut fs = file_system();
    let mut file = open_file(&mut fs, "", 0, None);
    file.upload_state.part_number = u32::MAX;
    assert_eq!(done(file.flush(NOW)), Ok(()));
    assert_eq!(file.upload_state.flush_count, 1);
    let mut file = open_file(&mut fs, "", 0, Some(9));
    file.upload_state.flush_count = u32::MAX;
    assert_eq!(done(file.flush(NOW)), Ok(()));
    assert_eq!(file.upload_state.flush_count, u32::MAX);
    let mut file = open_file(&mut fs, "", 0, None);
    file.file.parent_path = None;
    assert!(matches!(file.upload_mini_byte_file(), UploadAction::UpPre { size: 0, .. }));
    let action = file.step(&mut fs, UploadEvent::Announced(None), NOW);
    assert_eq!(done(action), Err(FsError::GeneralFailure));
}

#[test]
fn schemes_are_cut_off_upload_urls() {
    for (url, expected) in [
        ("https://store.example/x", "store.example/x"),
        ("http://store.example", "store.example"),
        ("store.example", "store.example"),
        ("ftp://store.example", "ftp://store.example"),
    ] {
        let mut fs = file_system();
        let mut file = open_file(&mut fs, "", 0, Some(9));
        file.write_buf(&fs, b"a".to_vec(), NOW);
        let r = PreUpload {
            upload_url: url.to_string(),
            format_type: String::new(),
            ..reply(4)
        };
        file.step(&mut fs, UploadEvent::Announced(Some(r)), NOW);
        assert_eq!(file.upload_state.target.upload_url, expected);
        assert_eq!(file.upload_state.target.mime_type, "application/octet-stream");
    }
}

#[test]
fn parts_are_counted() {
    assert_eq!(count_chunks(0, 4), 0);
    assert_eq!(count_chunks(1, 4), 1);
    assert_eq!(count_chunks(4, 4), 1);
    assert_eq!(count_chunks(11, 4), 3);
    assert_eq!(count_chunks(u64::MAX, 1), u64::MAX);
    assert_eq!(count_chunks(u64::MAX, 2), u64::MAX / 2 + 1);
}

#[test]
fn an_abandoned_upload_leaves_nothing_behind() {
    let mut fs = file_system();
    let mut file = open_file(&mut fs, "", 0, None);
    stage(&mut file, &mut fs, b"a", b"b");
    assert_eq!(file.abandon(&mut fs).as_deref(), Some("/tmp/784111777000_x.txt"));
    assert!(fs.list_uploading_files("/d").is_empty());
    assert_eq!(file.abandon(&mut fs), None);
    let mut file = open_file(&mut fs, "", 0, Some(2));
    assert_eq!(file.abandon(&mut fs), None);
    assert_eq!(fs.list_uploading_files("/d").len(), 1);
    file.write_buf(&fs, b"a".to_vec(), NOW);
    assert_eq!(file.abandon(&mut fs), None);
    assert!(fs.list_uploading_files("/d").is_empty());
}

#[test]
fn room_is_told() {
    let mut fs = file_system();
    let mut file = open_file(&mut fs, "", 0, None);
    assert!(file.can_take(1 << 40));
    assert!(!file.can_take(usize::MAX));
    file.upload_state.size = u64::MAX - 1;
    assert!(file.can_take(1));
    assert!(!file.can_take(2));
}

#[test]
fn positions_are_sought() {
    let mut fs = file_system();
    let mut file = open_file(&mut fs, "f", 100, None);
    assert_eq!(file.seek(SeekFrom::Start(7)), 7);
    assert_eq!(file.seek(SeekFrom::Current(5)), 12);
    assert_eq!(file.seek(SeekFrom::Current(-2)), 10);
    assert_eq!(file.seek(SeekFrom::End(-1)), 99);
    assert_eq!(file.seek(SeekFrom::End(3)), 103);
    assert_eq!(file.seek(SeekFrom::End(-101)), u64::MAX);
    assert_eq!(file.current_pos, u64::MAX);
}

#[test]
fn a_file_is_read_from_its_url() {
    let mut fs = file_system();
    let mut file = open_file(&mut fs, "f", 100, None);
    assert!(matches!(file.read_bytes(10, 0), ReadAction::GetDownloadUrl { fid } if fid == "f"));
    let url = "https://example.com/file?Expires=1000";
    match file.with_download_url(url.to_string(), 10) {
        ReadAction::Download { url: u, pos, count } => assert_eq!((u.as_str(), pos, count), (url, 0, 10)),
        _ => panic!(),
    }
    file.was_read(10);
    match file.read_bytes(5, 939) {
        ReadAction::Download { url: u, pos, count } => assert_eq!((u.as_str(), pos, count), (url, 10, 5)),
        _ => panic!(),
    }
    assert!(matches!(file.read_bytes(5, 940), ReadAction::GetDownloadUrl { .. }));
    assert!(matches!(
        file.with_download_url(String::new(), 5),
        ReadAction::Failed(FsError::NotFound)
    ));
    assert!(matches!(file.read_bytes(5, 0), ReadAction::Failed(FsError::NotFound)));
    assert_eq!(file.redirect_url().as_deref(), Ok("f"));
    let file = open_file(&mut fs, "", 0, None);
    assert!(matches!(file.read_bytes(5, 0), ReadAction::Failed(FsError::NotFound)));
    assert_eq!(file.redirect_url(), Err(FsError::NotFound));
}

// Writes the pieces to a file that is sent as it arrives, and returns the parts that were sent.
fn parts_of(pieces: &[&[u8]], part_size: u64) -> Vec<Vec<u8>> {
    let mut fs = file_system();
    let mut file = open_file(&mut fs, "", 0, Some(11));
    let mut parts = Vec::new();
    let mut announcements = 0;
    for piece in pieces {
        let mut action = file.write_buf(&fs, piece.to_vec(), NOW);
        loop {
            let event = match action {
                UploadAction::Done(outcome) => {
                    assert_eq!(outcome, Ok(()));
                    break;
                }
                UploadAction::UpPre { .. } => {
                    announcements += 1;
                    announced(part_size)
                }
                UploadAction::PartAuthMeta { .. } => UploadEvent::Meta(Some("m".to_string())),
                UploadAction::Auth { .. } => UploadEvent::Key(Some("k".to_string())),
                UploadAction::UpPart(req) => {
                    parts.push(req.part_bytes);
                    tag("e")
                }
                _ => panic!(),
            };
            action = file.step(&mut fs, event, NOW);
        }
        assert!((file.upload_state.part_buf.len() as u64) < part_size);
    }
    assert_eq!(announcements, 1);
    parts
}

#[test]
fn cutting_into_writes_changes_no_part() {
    let whole = parts_of(&[b"hello world"], 4);
    assert_eq!(whole, vec![b"hell".to_vec(), b"o wo".to_vec()]);
    assert_eq!(parts_of(&[b"h", b"", b"ello wor", b"ld"], 4), whole);
    assert_eq!(parts_of(&[b"hello wo", b"rld"], 4), whole);
    assert!(parts_of(&[b"hello world"], 12).is_empty());
}

#[test]
fn a_flush_of_nothing_leaves_the_file_as_it_was_opened() {
    let mut fs = file_system();
    let mut file = open_file(&mut fs, "", 0, Some(3));
    assert_eq!(done(file.flush(NOW)), Ok(()));
    assert!(file.upload_state.streaming && file.upload_state.declared_size == Some(3));
    assert!(matches!(file.write_buf(&fs, b"abc".to_vec(), NOW), UploadAction::UpPre { size: 3, .. }));
    assert_eq!(fs.list_uploading_files("/d").len(), 1);
    // After an upload has ended, there is nothing to flush either.
    let mut file = open_file(&mut fs, "", 0, None);
    spawned(&mut file, &mut fs);
    file.step(&mut fs, UploadEvent::TaskEnded(TaskEnd::Ended(Ok(()))), NOW);
    assert_eq!(done(file.flush(NOW)), Ok(()));
}

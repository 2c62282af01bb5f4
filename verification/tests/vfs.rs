use quarkdrive_webdav::error::FsError;
use quarkdrive_webdav::file::QuarkFile;
use quarkdrive_webdav::fill::{Fill, FillAction, Start};
use quarkdrive_webdav::open::{OpenAction, OpenOptions};
use quarkdrive_webdav::ops::{Op, OpAction, OpEvent};
use quarkdrive_webdav::settle::SettleAction;
use quarkdrive_webdav::vfs::{last_segment, lookup, Lookup, QuarkDriveFileSystem};

fn fs_below(root: &str) -> QuarkDriveFileSystem {
    QuarkDriveFileSystem::new(root.to_string(), 64, 300).unwrap()
}

fn record(name: &str, fid: &str, dir: bool) -> QuarkFile {
    QuarkFile {
        fid: fid.to_string(),
        file_name: name.to_string(),
        dir,
        file: !dir,
        ..QuarkFile::new_root()
    }
}

fn names(files: &[QuarkFile]) -> Vec<&str> {
    files.iter().map(|f| f.file_name.as_str()).collect()
}

#[test]
fn a_new_file_system_has_the_default_settings() {
    let fs = fs_below("media");
    assert_eq!(fs.root, "/media");
    assert_eq!(fs.upload_buffer_size, 16 * 1024 * 1024);
    assert_eq!(fs.upload_wait_timeout, 280);
    assert_eq!(fs.temp_dir, "/tmp");
    assert!(!fs.no_trash && !fs.read_only && !fs.skip_upload_same_size && !fs.prefer_http_download);
    assert_eq!(fs_below("/media/").root, "/media/");
}

#[test]
fn settings_are_set_in_a_chain() {
    let mut fs = fs_below("/");
    fs.set_no_trash(true)
        .set_read_only(true)
        .set_upload_buffer_size(7)
        .set_skip_upload_same_size(true)
        .set_prefer_http_download(true)
        .set_upload_wait_timeout(0)
        .set_temp_dir("/var/tmp".to_string());
    assert!(fs.no_trash && fs.read_only && fs.skip_upload_same_size && fs.prefer_http_download);
    assert_eq!((fs.upload_buffer_size, fs.upload_wait_timeout), (7, 0));
    assert_eq!(fs.temp_dir, "/var/tmp");
}

#[test]
fn request_paths_are_seen_from_the_root() {
    let top = fs_below("/");
    assert_eq!(top.normalize_dav_path("/a/b/"), "/a/b");
    assert_eq!(top.normalize_dav_path("/"), "/");
    let below = fs_below("/media");
    assert_eq!(below.normalize_dav_path("/"), "/media");
    assert_eq!(below.normalize_dav_path("/a/"), "/media/a");
    assert_eq!(below.normalize_dav_path("/media/a"), "/media/a");
    assert_eq!(below.normalize_dav_path("/mediathek"), "/media/mediathek");
    assert_eq!(below.normalize_dav_path(""), "/media");
}

#[test]
fn the_name_of_a_request_is_its_last_segment() {
    assert_eq!(last_segment("/a/b/").as_deref(), Some("b"));
    assert_eq!(last_segment("//a").as_deref(), Some("a"));
    assert_eq!(last_segment("/"), None);
    assert_eq!(last_segment(""), None);
}

#[test]
fn a_lookup_goes_to_the_directory() {
    assert!(matches!(lookup("/"), Lookup::Top));
    assert!(matches!(lookup("/a/.."), Lookup::Nowhere));
    match lookup("/a/b") {
        Lookup::Within(dir) => assert_eq!(dir, "/a"),
        _ => panic!(),
    }
}

#[test]
fn a_lookup_finds_the_first_record_of_the_name() {
    let fs = fs_below("/");
    let listing = || Some(vec![record("x", "1", false), record("y", "2", false), record("y", "3", true)]);
    assert_eq!(fs.find_in_cache("/a/y", listing()).unwrap().unwrap().fid, "2");
    assert!(fs.find_in_cache("/a/z", listing()).unwrap().is_none());
    assert!(fs.find_in_cache("/a/z", None).unwrap().is_none());
    assert_eq!(fs.find_in_cache("/", None).unwrap().unwrap().fid, "0");
    assert_eq!(fs.find_in_cache("/a/..", listing()).unwrap_err(), FsError::NotFound);
}

#[test]
fn placeholders_are_kept_by_directory() {
    let mut fs = fs_below("/");
    for name in ["a", "b", "a", "c"] {
        fs.add_uploading_file("/d", record(name, "", false));
    }
    fs.add_uploading_file("/e", record("a", "", false));
    assert_eq!(names(&fs.list_uploading_files("/d")), vec!["a", "b", "a", "c"]);
    fs.remove_uploading_file("/d", "a");
    // The last one takes the place of the first of the name.
    assert_eq!(names(&fs.list_uploading_files("/d")), vec!["c", "b", "a"]);
    fs.remove_uploading_file("/d", "a");
    assert_eq!(names(&fs.list_uploading_files("/d")), vec!["c", "b"]);
    fs.remove_uploading_file("/d", "a");
    fs.remove_uploading_file("/x", "a");
    assert_eq!(names(&fs.list_uploading_files("/d")), vec!["c", "b"]);
    assert_eq!(names(&fs.list_uploading_files("/e")), vec!["a"]);
    assert!(fs.list_uploading_files("/x").is_empty());
}

#[test]
fn metadata_comes_from_the_listing_or_else_from_a_placeholder() {
    let mut fs = fs_below("/");
    fs.add_uploading_file("/d", record("new", "p", false));
    let listing = || Some(vec![record("old", "1", false)]);
    assert_eq!(fs.metadata("/d/old", listing()).unwrap().fid, "1");
    assert_eq!(fs.metadata("/d/new", listing()).unwrap().fid, "p");
    assert_eq!(fs.metadata("/d/new", None).unwrap().fid, "p");
    let listed = Some(vec![record("new", "2", false)]);
    assert_eq!(fs.metadata("/d/new", listed).unwrap().fid, "2");
    assert_eq!(fs.metadata("/d/none", listing()).unwrap_err(), FsError::NotFound);
    assert_eq!(fs.metadata("/d/..", listing()).unwrap_err(), FsError::NotFound);
    assert_eq!(fs.metadata("/", None).unwrap().file_name, "/");
}

#[test]
fn metadata_of_zero_is_metadata_of_the_top() {
    let fs = fs_below("/");
    assert_eq!(fs.metadata_path("0"), "/");
    assert_eq!(fs.metadata_path("/0"), "/0");
    let below = fs_below("/media");
    assert_eq!(below.metadata(&below.metadata_path("/"), None).unwrap().file_name, "/");
}

#[test]
fn directories_are_listed_or_missing() {
    let fs = fs_below("/");
    assert_eq!(names(&fs.read_dir(Some(vec![record("x", "1", false)])).unwrap()), vec!["x"]);
    assert_eq!(fs.read_dir(None).unwrap_err(), FsError::NotFound);
}

#[test]
fn checksums_are_the_only_property() {
    let fs = fs_below("/");
    let ns = || Some("http://owncloud.org/ns".to_string());
    assert!(fs.is_checksums_prop(ns(), "checksums"));
    assert!(!fs.is_checksums_prop(ns(), "size"));
    assert!(!fs.is_checksums_prop(Some("DAV:".to_string()), "checksums"));
    assert!(!fs.is_checksums_prop(None, "checksums"));
    let mut file = record("x", "1", false);
    assert_eq!(fs.get_prop(true, Ok(Some(file.clone()))).unwrap_err(), FsError::NotImplemented);
    file.content_hash = Some("abc".to_string());
    let expected = r#"<?xml version="1.0"?>
                        <oc:checksums xmlns:d="DAV:" xmlns:nc="http://nextcloud.org/ns" xmlns:oc="http://owncloud.org/ns">
                            <oc:checksum>sha1:abc</oc:checksum>
                        </oc:checksums>
                    "#;
    assert_eq!(fs.get_prop(true, Ok(Some(file.clone()))).unwrap(), expected);
    assert_eq!(fs.get_prop(false, Ok(Some(file))).unwrap_err(), FsError::NotImplemented);
    assert_eq!(fs.get_prop(true, Ok(None)).unwrap_err(), FsError::NotFound);
    assert_eq!(fs.get_prop(true, Err(FsError::Forbidden)).unwrap_err(), FsError::Forbidden);
}

#[test]
fn small_requests_are_answered() {
    let fs = fs_below("/");
    assert_eq!(fs.get_quota(Some((3, 10))), Ok((3, Some(10))));
    assert_eq!(fs.get_quota(None), Err(FsError::GeneralFailure));
    assert_eq!(fs.copy(), Err(FsError::NotImplemented));
    assert_eq!(fs.get_file_md5_for_path(Ok(Some(record("x", "f1", false)))).as_deref(), Some("f1"));
    assert_eq!(fs.get_file_md5_for_path(Ok(Some(record("x", "", false)))), None);
    assert_eq!(fs.get_file_md5_for_path(Ok(None)), None);
    assert_eq!(fs.get_file_md5_for_path(Err(FsError::NotFound)), None);
}

// Settling.

#[test]
fn an_upload_settles_when_it_is_listed() {
    let mut fs = fs_below("/");
    fs.add_uploading_file("/d", record("new", "", false));
    fs.dir_cache.insert("/d".to_string(), vec![record("old", "1", false)]);
    let (mut settle, action) = fs.settle_upload("/d", "/d", "new");
    assert!(matches!(action, SettleAction::Sleep(2)));
    assert!(fs.dir_cache.get("/d").is_none());
    fs.dir_cache.insert("/d".to_string(), vec![record("old", "1", false)]);
    let action = settle.looked(&mut fs, Some(vec![record("old", "1", false)]));
    assert!(matches!(action, SettleAction::Sleep(2)));
    assert!(fs.dir_cache.get("/d").is_none());
    assert_eq!(names(&fs.list_uploading_files("/d")), vec!["new"]);
    let listed = Some(vec![record("old", "1", false), record("new", "2", false)]);
    assert!(matches!(settle.looked(&mut fs, listed), SettleAction::Done));
    assert!(fs.list_uploading_files("/d").is_empty());
}

#[test]
fn an_upload_is_looked_for_until_it_is_listed() {
    let mut fs = fs_below("/");
    fs.add_uploading_file("/d", record("new", "", false));
    let (mut settle, first) = fs.settle_upload("/d", "/d", "new");
    let mut waited = Vec::new();
    let mut action = first;
    for _ in 0..8 {
        match action {
            SettleAction::Sleep(secs) => waited.push(secs),
            SettleAction::Done => panic!("the file is not listed yet"),
        }
        action = settle.looked(&mut fs, None);
        assert_eq!(names(&fs.list_uploading_files("/d")), vec!["new"]);
    }
    assert_eq!(waited, vec![2, 2, 3, 5, 8, 8, 8, 8]);
    let listed = Some(vec![record("new", "1", false)]);
    assert!(matches!(settle.looked(&mut fs, listed), SettleAction::Done));
    assert!(fs.list_uploading_files("/d").is_empty());
}

// Changes to the tree.

fn find(action: &OpAction<String>) -> &str {
    match action {
        OpAction::Find(path) => path,
        _ => panic!("a lookup was expected"),
    }
}

fn outcome(action: OpAction<String>) -> Result<(), FsError> {
    match action {
        OpAction::Done(outcome) => outcome,
        _ => panic!("an outcome was expected"),
    }
}

fn found(file: QuarkFile) -> OpEvent<QuarkFile> {
    OpEvent::Found(Ok(Some(file)))
}

fn missing() -> OpEvent<QuarkFile> {
    OpEvent::Found(Ok(None))
}

#[test]
fn a_directory_is_made_and_its_listings_refreshed() {
    let mut fs = fs_below("/");
    let (op, action) = fs.create_dir("/a/new/");
    assert_eq!(find(&action), "/a");
    let (op, action) = op.step(&mut fs, found(record("a", "f1", true)));
    assert_eq!(find(&action), "/a/new");
    fs.dir_cache.insert("/a".to_string(), vec![]);
    let (op, action) = op.step(&mut fs, missing());
    match action {
        OpAction::CreateFolder { parent_fid, name } => {
            assert_eq!((parent_fid.as_str(), name.as_str()), ("f1", "new"))
        }
        _ => panic!(),
    }
    assert!(fs.dir_cache.get("/a").is_none());
    fs.dir_cache.insert("/a".to_string(), vec![]);
    fs.dir_cache.insert("/a/new".to_string(), vec![]);
    let (op, action) = op.step(&mut fs, OpEvent::Replied(true));
    assert!(matches!(action, OpAction::Sleep(1)));
    assert!(fs.dir_cache.get("/a").is_some());
    let (_, action) = op.step(&mut fs, OpEvent::Slept);
    assert_eq!(outcome(action), Ok(()));
    assert!(fs.dir_cache.get("/a").is_none() && fs.dir_cache.get("/a/new").is_none());
}

#[test]
fn making_a_directory_fails_as_it_should() {
    let mut fs = fs_below("/");
    assert_eq!(outcome(fs.create_dir("/").1), Err(FsError::NotFound));
    let start = |fs: &QuarkDriveFileSystem| fs.create_dir("/a/new").0;
    let op = start(&fs);
    assert_eq!(outcome(op.step(&mut fs, missing()).1), Err(FsError::NotFound));
    let op = start(&fs);
    let event = OpEvent::Found(Err(FsError::NotFound));
    assert_eq!(outcome(op.step(&mut fs, event).1), Err(FsError::NotFound));
    let op = start(&fs);
    assert_eq!(outcome(op.step(&mut fs, found(record("a", "f", false))).1), Err(FsError::Forbidden));
    let (op, _) = start(&fs).step(&mut fs, found(record("a", "f", true)));
    assert_eq!(outcome(op.step(&mut fs, found(record("new", "g", true))).1), Err(FsError::Exists));
    let (op, _) = start(&fs).step(&mut fs, found(record("a", "f", true)));
    let (op, _) = op.step(&mut fs, missing());
    assert_eq!(outcome(op.step(&mut fs, OpEvent::Replied(false)).1), Err(FsError::GeneralFailure));
}

#[test]
fn files_and_directories_are_removed() {
    let mut fs = fs_below("/");
    for (dir, no_trash) in [(true, false), (false, true)] {
        fs.set_no_trash(no_trash);
        fs.dir_cache.insert("/a".to_string(), vec![]);
        fs.dir_cache.insert("/a/x".to_string(), vec![]);
        let (op, action) = if dir { fs.remove_dir("/a/x") } else { fs.remove_file("/a/x") };
        assert_eq!(find(&action), "/a/x");
        let (op, action) = op.step(&mut fs, found(record("x", "f2", dir)));
        match action {
            OpAction::RemoveFile { fid, trash } => assert_eq!((fid.as_str(), trash), ("f2", !no_trash)),
            _ => panic!(),
        }
        let (op, action) = op.step(&mut fs, OpEvent::Replied(true));
        assert!(matches!(action, OpAction::Sleep(1)));
        assert_eq!(outcome(op.step(&mut fs, OpEvent::Slept).1), Ok(()));
        assert!(fs.dir_cache.get("/a").is_none());
        assert_eq!(fs.dir_cache.get("/a/x").is_none(), dir);
    }
    let op = fs.remove_dir("/a/x").0;
    assert_eq!(outcome(op.step(&mut fs, found(record("x", "f", false))).1), Err(FsError::Forbidden));
    let op = fs.remove_file("/a/x").0;
    assert_eq!(outcome(op.step(&mut fs, found(record("x", "f", true))).1), Err(FsError::Forbidden));
    let op = fs.remove_file("/a/x").0;
    assert_eq!(outcome(op.step(&mut fs, missing()).1), Err(FsError::NotFound));
}

#[test]
fn within_one_directory_it_is_a_renaming() {
    let mut fs = fs_below("/");
    let (op, action) = fs.rename("/a/x", "/a/y");
    assert_eq!(find(&action), "/a/x");
    let (op, action) = op.step(&mut fs, found(record("x", "f", true)));
    match action {
        OpAction::RenameFile { fid, name } => assert_eq!((fid.as_str(), name.as_str()), ("f", "y")),
        _ => panic!(),
    }
    let (op, action) = op.step(&mut fs, OpEvent::Replied(true));
    assert!(matches!(action, OpAction::Sleep(1)));
    fs.dir_cache.insert("/a".to_string(), vec![]);
    fs.dir_cache.insert("/a/x".to_string(), vec![]);
    let (op, action) = op.step(&mut fs, OpEvent::Slept);
    assert!(matches!(action, OpAction::Sleep(1)));
    assert!(fs.dir_cache.get("/a").is_none() && fs.dir_cache.get("/a/x").is_some());
    assert_eq!(outcome(op.step(&mut fs, OpEvent::Slept).1), Ok(()));
    assert!(fs.dir_cache.get("/a/x").is_none());
    assert_eq!(outcome(fs.rename("/", "/").1), Err(FsError::Forbidden));
}

#[test]
fn between_directories_it_is_a_move() {
    let mut fs = fs_below("/");
    for (to, renamed) in [("/b/x", false), ("/b/y", true)] {
        let (op, action) = fs.rename("/a/x", to);
        assert_eq!(find(&action), "/a/x");
        let (op, action) = op.step(&mut fs, found(record("x", "f", false)));
        assert_eq!(find(&action), "/b");
        let (op, action) = op.step(&mut fs, found(record("b", "g", true)));
        match action {
            OpAction::MoveFile { fid, to_fid } => assert_eq!((fid.as_str(), to_fid.as_str()), ("f", "g")),
            _ => panic!(),
        }
        let (mut op, mut action) = op.step(&mut fs, OpEvent::Replied(true));
        if renamed {
            match action {
                OpAction::RenameFile { fid, name } => {
                    assert_eq!((fid.as_str(), name.as_str()), ("f", "y"))
                }
                _ => panic!(),
            }
            (op, action) = op.step(&mut fs, OpEvent::Replied(true));
        }
        assert!(matches!(action, OpAction::Sleep(1)));
        fs.dir_cache.insert("/a".to_string(), vec![]);
        fs.dir_cache.insert("/b".to_string(), vec![]);
        let (op, action) = op.step(&mut fs, OpEvent::Slept);
        assert!(matches!(action, OpAction::Sleep(1)));
        assert!(fs.dir_cache.get("/a").is_none() && fs.dir_cache.get("/b").is_none());
        assert_eq!(outcome(op.step(&mut fs, OpEvent::Slept).1), Ok(()));
    }
}

#[test]
fn a_directory_that_moves_leaves_no_listing_behind() {
    let mut fs = fs_below("/");
    let (op, _) = fs.rename("/a/x", "/b/x");
    let (op, _) = op.step(&mut fs, found(record("x", "f", true)));
    let (op, action) = op.step(&mut fs, found(record("b", "g", true)));
    assert!(matches!(action, OpAction::MoveFile { .. }));
    let (op, _) = op.step(&mut fs, OpEvent::Replied(true));
    fs.dir_cache.insert("/a/x".to_string(), vec![]);
    let (op, _) = op.step(&mut fs, OpEvent::Slept);
    assert_eq!(outcome(op.step(&mut fs, OpEvent::Slept).1), Ok(()));
    assert!(fs.dir_cache.get("/a/x").is_none());
}

#[test]
fn a_move_stays_though_the_renaming_after_it_fails() {
    let mut fs = fs_below("/");
    let (op, _) = fs.rename("/a/x", "/b/y");
    let (op, _) = op.step(&mut fs, found(record("x", "f", false)));
    let (op, _) = op.step(&mut fs, found(record("b", "g", true)));
    let (op, action) = op.step(&mut fs, OpEvent::Replied(true));
    assert!(matches!(action, OpAction::RenameFile { .. }));
    let (_, action) = op.step(&mut fs, OpEvent::Replied(false));
    assert_eq!(outcome(action), Err(FsError::GeneralFailure));
}

#[test]
fn nothing_is_changed_in_read_only_mode() {
    let mut fs = fs_below("/");
    fs.set_read_only(true);
    for (op, action) in [
        fs.create_dir("/a"),
        fs.remove_dir("/a"),
        fs.remove_file("/a"),
        fs.rename("/a", "/b"),
    ] {
        assert!(matches!(op, Op::Over));
        assert_eq!(outcome(action), Err(FsError::Forbidden));
    }
}

// Opening.

fn options(write: bool, create: bool, create_new: bool) -> OpenOptions {
    OpenOptions {
        read: !write,
        write,
        append: false,
        truncate: write,
        create,
        create_new,
        size: None,
        checksum: None,
    }
}

fn open_error(
    fs: &mut QuarkDriveFileSystem,
    options: &OpenOptions,
    replies: Vec<Result<Option<QuarkFile>, FsError>>,
) -> FsError {
    let mut action = fs.open("/a/x", options);
    for reply in replies {
        action = match action {
            OpenAction::Find(opening, _) => opening.found(fs, reply, 0),
            _ => panic!("a lookup was expected"),
        };
    }
    match action {
        OpenAction::Failed(e) => e,
        _ => panic!("a failure was expected"),
    }
}

#[test]
fn a_file_that_exists_is_opened() {
    let mut fs = fs_below("/");
    fs.set_prefer_http_download(true);
    let opening = match fs.open("/a/x", &options(false, false, false)) {
        OpenAction::Find(opening, path) => {
            assert_eq!(path, "/a");
            opening
        }
        _ => panic!(),
    };
    let opening = match opening.found(&mut fs, Ok(Some(record("a", "f1", true))), 5) {
        OpenAction::Find(opening, path) => {
            assert_eq!(path, "/a/x");
            opening
        }
        _ => panic!(),
    };
    match opening.found(&mut fs, Ok(Some(record("x", "f2", false))), 5) {
        OpenAction::Opened(file) => {
            assert_eq!(file.metadata().fid, "f2");
            assert_eq!(file.parent_file_id, "f1");
            assert_eq!(file.parent_dir, "/a");
            assert!(file.http_download && !file.upload_state.streaming);
        }
        _ => panic!(),
    }
    assert!(fs.list_uploading_files("/a").is_empty());
}

#[test]
fn a_file_that_is_made_has_a_placeholder() {
    let mut fs = fs_below("/");
    let mut wanted = options(true, true, false);
    wanted.size = Some(9);
    wanted.checksum = Some("SHA1:abc:d".to_string());
    let opening = match fs.open("/a/x/", &wanted) {
        OpenAction::Find(opening, _) => opening,
        _ => panic!(),
    };
    let opening = match opening.found(&mut fs, Ok(Some(record("a", "f1", true))), 5) {
        OpenAction::Find(opening, _) => opening,
        _ => panic!(),
    };
    let file = match opening.found(&mut fs, Ok(None), 5) {
        OpenAction::Opened(file) => file,
        _ => panic!(),
    };
    assert!(file.upload_state.streaming);
    assert_eq!(file.upload_state.declared_size, Some(9));
    assert_eq!(file.upload_state.sha1.as_deref(), Some("abc:d"));
    let waiting = fs.list_uploading_files("/a");
    assert_eq!(names(&waiting), vec!["x"]);
    let p = &waiting[0];
    assert_eq!((p.fid.as_str(), p.pdir_fid.as_str(), p.size, p.status), ("", "f1", 9, 1));
    assert_eq!(p.format_type, "application/octet-stream");
    assert_eq!((p.dir, p.file, p.created_at, p.updated_at), (false, true, 5, 5));
    assert_eq!(p.content_hash.as_deref(), Some("abc:d"));
    assert_eq!(p.parent_path.as_deref(), Some("/a"));
    assert!(fs.metadata("/a/x", None).is_ok());
}

#[test]
fn opening_fails_as_it_should() {
    let mut fs = fs_below("/");
    let dir = || Ok(Some(record("a", "f1", true)));
    let file = || Ok(Some(record("x", "f2", false)));
    let mut append = options(true, true, false);
    append.append = true;
    assert_eq!(open_error(&mut fs, &append, vec![]), FsError::NotImplemented);
    let read = options(false, false, false);
    match fs.open("/", &read) {
        OpenAction::Failed(e) => assert_eq!(e, FsError::NotFound),
        _ => panic!(),
    }
    assert_eq!(open_error(&mut fs, &read, vec![Ok(None)]), FsError::NotFound);
    assert_eq!(open_error(&mut fs, &read, vec![Err(FsError::Forbidden)]), FsError::Forbidden);
    assert_eq!(open_error(&mut fs, &read, vec![dir(), Ok(None)]), FsError::NotFound);
    assert_eq!(open_error(&mut fs, &read, vec![dir(), Err(FsError::NotFound)]), FsError::NotFound);
    let new = options(true, false, true);
    assert_eq!(open_error(&mut fs, &new, vec![dir(), file()]), FsError::Exists);
    fs.set_read_only(true);
    let write = options(true, true, false);
    assert_eq!(open_error(&mut fs, &write, vec![dir(), file()]), FsError::Forbidden);
    assert_eq!(open_error(&mut fs, &write, vec![dir(), Ok(None)]), FsError::Forbidden);
    assert!(fs.list_uploading_files("/a").is_empty());
}

#[test]
fn only_a_sha1_checksum_is_kept() {
    let mut fs = fs_below("/");
    for checksum in ["md5:abc", "sha1", ":abc"] {
        let mut wanted = options(true, true, false);
        wanted.checksum = Some(checksum.to_string());
        let opening = match fs.open("/a/x", &wanted) {
            OpenAction::Find(opening, _) => opening,
            _ => panic!(),
        };
        assert_eq!(opening.sha1, None);
    }
    // A path without a name at its end cannot be made.
    let mut wanted = options(true, true, false);
    wanted.size = Some(1);
    let mut opening = match fs.open("/a/x", &wanted) {
        OpenAction::Find(opening, _) => opening,
        _ => panic!(),
    };
    opening.name = None;
    opening.parent_fid = Some("f1".to_string());
    match opening.found(&mut fs, Ok(None), 0) {
        OpenAction::Failed(e) => assert_eq!(e, FsError::GeneralFailure),
        _ => panic!(),
    }
}

// Filling the cache.

struct Walk {
    fill: Fill,
    pages: Vec<(String, u32)>,
}

// Reads every page that a walk asks for from `drive`, a table of directories by identifier.
fn walk(
    fs: &mut QuarkDriveFileSystem,
    key: &str,
    drive: &dyn Fn(&str, u32) -> Option<(Vec<QuarkFile>, u32)>,
) -> (Option<Vec<QuarkFile>>, Vec<(String, u32)>) {
    let (fill, mut action) = fs.dir_cache.start_fill(key);
    let mut walk = Walk { fill, pages: Vec::new() };
    loop {
        match action {
            FillAction::Answer(files) => return (files, walk.pages),
            FillAction::Lock(_) => panic!("the lock is held already"),
            FillAction::ReadPage { fid, page_no, page_size } => {
                assert_eq!(page_size, 500);
                let page = drive(&fid, page_no);
                walk.pages.push((fid, page_no));
                action = fs.dir_cache.dfs(&mut walk.fill, page);
            }
        }
    }
}

fn tree(fid: &str, page_no: u32) -> Option<(Vec<QuarkFile>, u32)> {
    assert_eq!(page_no, 1);
    let list = match fid {
        "0" => vec![record("a", "fa", true), record("ab", "fab", true), record("f", "ff", false)],
        "fa" => vec![record("x", "fx", false)],
        "fab" => vec![record("c", "fc", true)],
        "fc" => vec![record("deep", "fd", false)],
        _ => return None,
    };
    let total = list.len() as u32;
    Some((list, total))
}

#[test]
fn a_walk_leads_down_from_the_top() {
    let mut fs = fs_below("/");
    let (files, pages) = walk(&mut fs, "/ab/c", &tree);
    let files = files.unwrap();
    assert_eq!(names(&files), vec!["deep"]);
    assert_eq!(files[0].parent_path.as_deref(), Some("/ab/c"));
    // `/a` is a leading part of `/ab/c` as text, so it is read on the way.
    let read: Vec<&str> = pages.iter().map(|(fid, _)| fid.as_str()).collect();
    assert_eq!(read, vec!["0", "fa", "fab", "fc"]);
    assert_eq!(names(&fs.dir_cache.get("/").unwrap()), vec!["a", "ab", "f"]);
    assert_eq!(names(&fs.dir_cache.get("/ab").unwrap()), vec!["c"]);
    // The next walk starts at the deepest directory that is known.
    fs.dir_cache.invalidate("/ab/c");
    let (files, pages) = walk(&mut fs, "/ab/c", &tree);
    assert_eq!(names(&files.unwrap()), vec!["deep"]);
    assert_eq!(pages, vec![("fc".to_string(), 1)]);
    // A listing that is there is not read again.
    let (files, pages) = walk(&mut fs, "/ab/c", &tree);
    assert!(files.is_some() && pages.is_empty());
}

#[test]
fn a_walk_to_nowhere_finds_nothing() {
    let mut fs = fs_below("/");
    assert!(walk(&mut fs, "/none", &tree).0.is_none());
    assert!(walk(&mut fs, "/f", &tree).0.is_none());
    assert!(walk(&mut fs, "relative", &tree).0.is_none());
    assert!(walk(&mut fs, "/", &|_, _| None).0.is_some());
    fs.dir_cache.invalidate("/");
    assert!(walk(&mut fs, "/", &|_, _| None).0.is_none());
}

#[test]
fn a_large_directory_is_read_page_by_page() {
    let mut fs = fs_below("/");
    let page = |page_no: u32, n: usize| -> Vec<QuarkFile> {
        (0..n).map(|i| record(&format!("{page_no}-{i}"), "f", false)).collect()
    };
    let drive = |_: &str, page_no: u32| {
        Some((page(page_no, if page_no == 3 { 7 } else { 500 }), 1007))
    };
    let (files, pages) = walk(&mut fs, "/", &drive);
    assert_eq!((files.unwrap().len(), pages.len()), (1007, 3));
    // No more than twenty pages are read, and none after the last one by the total.
    fs.dir_cache.invalidate("/");
    let (files, pages) = walk(&mut fs, "/", &|_, n| Some((page(n, 500), u32::MAX)));
    assert_eq!((files.unwrap().len(), pages.len()), (10_000, 20));
    fs.dir_cache.invalidate("/");
    let (files, pages) = walk(&mut fs, "/", &|_, n| Some((page(n, 500), 999)));
    assert_eq!((files.unwrap().len(), pages.len()), (1000, 2));
}

#[test]
fn a_listing_that_went_stale_still_answers_the_one_who_read_it() {
    let mut fs = fs_below("/");
    let (mut fill, action) = fs.dir_cache.start_fill("/");
    assert!(matches!(action, FillAction::ReadPage { .. }));
    fs.dir_cache.invalidate("/");
    match fs.dir_cache.dfs(&mut fill, tree("0", 1)) {
        FillAction::Answer(files) => assert_eq!(names(&files.unwrap()), vec!["a", "ab", "f"]),
        _ => panic!(),
    }
    assert!(fs.dir_cache.get("/").is_none());
}

#[test]
fn the_looks_decide_between_an_answer_and_a_read() {
    let mut fs = fs_below("/");
    let cached = || Some(vec![record("x", "1", false)]);
    match fs.dir_cache.first_look("/d", cached()) {
        FillAction::Answer(files) => assert_eq!(names(&files.unwrap()), vec!["x"]),
        _ => panic!(),
    }
    assert_eq!(fs.dir_cache.locks_made(), 0);
    assert!(matches!(fs.dir_cache.first_look("/d", None), FillAction::Lock(0)));
    match fs.dir_cache.second_look("/d", cached(), Start::Root).1 {
        FillAction::Answer(files) => assert_eq!(names(&files.unwrap()), vec!["x"]),
        _ => panic!(),
    }
    match fs.dir_cache.second_look("/d", None, Start::Root).1 {
        FillAction::ReadPage { fid, page_no, .. } => assert_eq!((fid.as_str(), page_no), ("0", 1)),
        _ => panic!(),
    }
    let at = Start::At { file: record("d", "fd", true), path: "/d".to_string() };
    match fs.dir_cache.second_look("/d", None, at).1 {
        FillAction::ReadPage { fid, page_no, .. } => assert_eq!((fid.as_str(), page_no), ("fd", 1)),
        _ => panic!(),
    }
    let file = Start::At { file: record("d", "fd", false), path: "/d".to_string() };
    assert!(matches!(fs.dir_cache.second_look("/d", None, file).1, FillAction::Answer(None)));
    assert!(matches!(fs.dir_cache.second_look("/d", None, Start::Nowhere).1, FillAction::Answer(None)));
}

#[test]
fn eight_callers_share_one_read() {
    let mut fs = fs_below("/");
    fs.dir_cache.insert("/d".to_string(), vec![record("a", "f1", true)]);
    // All of them miss and are sent to one lock, and then take their turns.
    for _ in 0..8 {
        assert!(matches!(fs.dir_cache.get_or_insert("/d/a"), FillAction::Lock(0)));
    }
    let mut reads = 0;
    for _ in 0..8 {
        let drive = |fid: &str, page_no: u32| {
            assert_eq!((fid, page_no), ("f1", 1));
            Some((vec![record("x", "f2", false)], 1))
        };
        let (files, pages) = walk(&mut fs, "/d/a", &drive);
        reads += pages.len();
        assert_eq!(names(&files.unwrap()), vec!["x"]);
    }
    assert_eq!(reads, 1);
}

#[test]
fn normalized_paths_lie_within_the_root() {
    for root in ["/", "/media", "/media/", "/a/b"] {
        let fs = fs_below(root);
        for p in ["/", "/media", "/media/", "/media/x/", "/x", "/a/b/c", "/a/bc", "/./x", "/../x"] {
            let once = fs.normalize_dav_path(p);
            assert!(std::path::Path::new(&once).starts_with(&fs.root), "{root} {p}");
            let twice = fs.normalize_dav_path(&once);
            assert_eq!(std::path::Path::new(&twice), std::path::Path::new(&once), "{root} {p}");
        }
        assert_eq!(
            std::path::Path::new(&fs.normalize_dav_path("/")),
            std::path::Path::new(&fs.root)
        );
    }
}

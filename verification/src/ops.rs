//! Changes to the directory tree: making and removing directories, removing files, renaming
//! and moving.
//!
//! Each of these alternates between the drive and a decision. An [`Op`] is the state of one:
//! it says what to ask the drive for, and goes on with what came back.
use vstd::prelude::*;
use crate::error::FsError;
#[allow(unused_imports)]
use crate::file::{opt_text, FileView, QuarkFile};
#[allow(unused_imports)]
use crate::path::{
    components_of, file_name, file_name_of, lemma_parent_is_shorter, parent, parent_of, same_path,
};
use crate::text::same_text;
use crate::vfs::{last_segment, QuarkDriveFileSystem};
#[allow(unused_imports)]
use crate::vfs::{found_view, normalized, request_name, FsView};

verus! {

/// What to do next; texts are of type `T`.
pub enum OpAction<T> {
    /// Look up the record of this path.
    Find(T),
    CreateFolder { parent_fid: T, name: T },
    RemoveFile { fid: T, trash: bool },
    RenameFile { fid: T, name: T },
    MoveFile { fid: T, to_fid: T },
    /// Wait so many seconds: the drive takes a moment to show a change.
    Sleep(u64),
    /// Nothing more; this is the outcome.
    Done(Result<(), FsError>),
}

/// What came back; records are of type `F`.
pub enum OpEvent<F> {
    /// What a lookup found.
    Found(Result<Option<F>, FsError>),
    /// Whether the drive did what it was asked.
    Replied(bool),
    /// The time is over.
    Slept,
}

/// How far an operation has come; texts are of type `T`.
pub enum Op<T> {
    /// Looking for the directory to make `path` in.
    CreateParent { path: T },
    /// Looking whether there is a `path` already.
    CreateSelf { path: T, parent_fid: T },
    Creating { path: T },
    Created { path: T },
    /// Looking for what to remove: a directory or a file.
    RemoveFind { path: T, dir: bool },
    Removing { path: T, dir: bool },
    Removed { path: T, dir: bool },
    /// Looking for what to rename.
    RenameFind { from: T, to: T, name: T },
    Renaming { from: T, to: T, dir: bool },
    Renamed { from: T, to: T, dir: bool },
    /// Looking for what to move.
    MoveFind { from: T, to: T, rename_to: Option<T> },
    /// Looking for the directory to move it to.
    MoveTarget { from: T, to: T, rename_to: Option<T>, fid: T, dir: bool },
    Moving { from: T, to: T, rename_to: Option<T>, fid: T, dir: bool },
    MoveRenaming { from: T, to: T, dir: bool },
    Moved { from: T, to: T, dir: bool },
    /// Renamed or moved, and waiting once more.
    Last { from: T, to: T, dir: bool },
    Over,
}

impl View for OpAction<String> {
    type V = OpAction<Seq<char>>;

    open spec fn view(&self) -> OpAction<Seq<char>> {
        match *self {
            OpAction::Find(path) => OpAction::Find(path@),
            OpAction::CreateFolder { parent_fid, name } => OpAction::CreateFolder {
                parent_fid: parent_fid@,
                name: name@,
            },
            OpAction::RemoveFile { fid, trash } => OpAction::RemoveFile { fid: fid@, trash },
            OpAction::RenameFile { fid, name } => OpAction::RenameFile { fid: fid@, name: name@ },
            OpAction::MoveFile { fid, to_fid } => OpAction::MoveFile { fid: fid@, to_fid: to_fid@ },
            OpAction::Sleep(secs) => OpAction::Sleep(secs),
            OpAction::Done(outcome) => OpAction::Done(outcome),
        }
    }
}

impl View for OpEvent<QuarkFile> {
    type V = OpEvent<FileView>;

    open spec fn view(&self) -> OpEvent<FileView> {
        match *self {
            OpEvent::Found(found) => OpEvent::Found(found_view(found)),
            OpEvent::Replied(did) => OpEvent::Replied(did),
            OpEvent::Slept => OpEvent::Slept,
        }
    }
}

impl View for Op<String> {
    type V = Op<Seq<char>>;

    open spec fn view(&self) -> Op<Seq<char>> {
        match *self {
            Op::CreateParent { path } => Op::CreateParent { path: path@ },
            Op::CreateSelf { path, parent_fid } => Op::CreateSelf {
                path: path@,
                parent_fid: parent_fid@,
            },
            Op::Creating { path } => Op::Creating { path: path@ },
            Op::Created { path } => Op::Created { path: path@ },
            Op::RemoveFind { path, dir } => Op::RemoveFind { path: path@, dir },
            Op::Removing { path, dir } => Op::Removing { path: path@, dir },
            Op::Removed { path, dir } => Op::Removed { path: path@, dir },
            Op::RenameFind { from, to, name } => Op::RenameFind {
                from: from@,
                to: to@,
                name: name@,
            },
            Op::Renaming { from, to, dir } => Op::Renaming { from: from@, to: to@, dir },
            Op::Renamed { from, to, dir } => Op::Renamed { from: from@, to: to@, dir },
            Op::MoveFind { from, to, rename_to } => Op::MoveFind {
                from: from@,
                to: to@,
                rename_to: opt_text(rename_to),
            },
            Op::MoveTarget { from, to, rename_to, fid, dir } => Op::MoveTarget {
                from: from@,
                to: to@,
                rename_to: opt_text(rename_to),
                fid: fid@,
                dir,
            },
            Op::Moving { from, to, rename_to, fid, dir } => Op::Moving {
                from: from@,
                to: to@,
                rename_to: opt_text(rename_to),
                fid: fid@,
                dir,
            },
            Op::MoveRenaming { from, to, dir } => Op::MoveRenaming { from: from@, to: to@, dir },
            Op::Moved { from, to, dir } => Op::Moved { from: from@, to: to@, dir },
            Op::Last { from, to, dir } => Op::Last { from: from@, to: to@, dir },
            Op::Over => Op::Over,
        }
    }
}

/// The end of an operation.
pub open spec fn over(outcome: Result<(), FsError>) -> (Op<Seq<char>>, OpAction<Seq<char>>) {
    (Op::Over, OpAction::Done(outcome))
}

/// How making the directory `path` begins.
pub open spec fn create_dir_begun(fs: FsView, path: Seq<char>) -> (
    Op<Seq<char>>,
    OpAction<Seq<char>>,
) {
    if fs.read_only {
        over(Err(FsError::Forbidden))
    } else {
        match parent_of(path) {
            None => over(Err(FsError::NotFound)),
            Some(dir) => (Op::CreateParent { path }, OpAction::Find(dir)),
        }
    }
}

/// How removing `path` begins.
pub open spec fn remove_begun(fs: FsView, path: Seq<char>, dir: bool) -> (
    Op<Seq<char>>,
    OpAction<Seq<char>>,
) {
    if fs.read_only {
        over(Err(FsError::Forbidden))
    } else {
        (Op::RemoveFind { path, dir }, OpAction::Find(path))
    }
}

/// Whether two paths lie in the same directory.
pub open spec fn same_parent(a: Seq<char>, b: Seq<char>) -> bool {
    match (parent_of(a), parent_of(b)) {
        (None, None) => true,
        (Some(x), Some(y)) => components_of(x) == components_of(y),
        _ => false,
    }
}

/// The new name that a move to another directory gives, if it differs from the old one.
pub open spec fn changed_name(from: Option<Seq<char>>, to: Option<Seq<char>>) -> Option<
    Seq<char>,
> {
    match (from, to) {
        (Some(f), Some(t)) => if f != t {
            Some(t)
        } else {
            None
        },
        _ => None,
    }
}

/// How renaming or moving begins: within one directory it is a renaming, and otherwise a move.
pub open spec fn rename_begun(
    fs: FsView,
    from: Seq<char>,
    to: Seq<char>,
    rename_to: Option<Seq<char>>,
) -> (Op<Seq<char>>, OpAction<Seq<char>>) {
    if fs.read_only {
        over(Err(FsError::Forbidden))
    } else if same_parent(from, to) {
        match file_name_of(to) {
            Some(name) => (Op::RenameFind { from, to, name }, OpAction::Find(from)),
            None => over(Err(FsError::Forbidden)),
        }
    } else {
        (Op::MoveFind { from, to, rename_to }, OpAction::Find(from))
    }
}

/// How an operation goes on from a lookup that has to find something.
pub open spec fn with_found(
    found: Result<Option<FileView>, FsError>,
    next: spec_fn(FileView) -> (Op<Seq<char>>, OpAction<Seq<char>>),
) -> (Op<Seq<char>>, OpAction<Seq<char>>) {
    match found {
        Err(e) => over(Err(e)),
        Ok(None) => over(Err(FsError::NotFound)),
        Ok(Some(file)) => next(file),
    }
}

/// How an operation goes on after a request to the drive: it fails if the request did.
pub open spec fn if_done(did: bool, next: (Op<Seq<char>>, OpAction<Seq<char>>)) -> (
    Op<Seq<char>>,
    OpAction<Seq<char>>,
) {
    if did {
        next
    } else {
        over(Err(FsError::GeneralFailure))
    }
}

/// How an operation goes on after what it asked for.
pub open spec fn next_op(fs: FsView, op: Op<Seq<char>>, event: OpEvent<FileView>) -> (
    Op<Seq<char>>,
    OpAction<Seq<char>>,
) {
    match (op, event) {
        (Op::CreateParent { path }, OpEvent::Found(found)) => with_found(
            found,
            |dir: FileView|
                if dir.dir {
                    (Op::CreateSelf { path, parent_fid: dir.fid }, OpAction::Find(path))
                } else {
                    over(Err(FsError::Forbidden))
                },
        ),
        (Op::CreateSelf { path, parent_fid }, OpEvent::Found(found)) => match found {
            Err(e) => over(Err(e)),
            Ok(Some(_)) => over(Err(FsError::Exists)),
            Ok(None) => match file_name_of(path) {
                Some(name) => (Op::Creating { path }, OpAction::CreateFolder { parent_fid, name }),
                None => over(Err(FsError::Forbidden)),
            },
        },
        (Op::Creating { path }, OpEvent::Replied(did)) => if_done(
            did,
            (Op::Created { path }, OpAction::Sleep(1)),
        ),
        (Op::RemoveFind { path, dir }, OpEvent::Found(found)) => with_found(
            found,
            |file: FileView|
                if if dir {
                    file.dir
                } else {
                    file.file
                } {
                    (
                        Op::Removing { path, dir },
                        OpAction::RemoveFile { fid: file.fid, trash: !fs.no_trash },
                    )
                } else {
                    over(Err(FsError::Forbidden))
                },
        ),
        (Op::Removing { path, dir }, OpEvent::Replied(did)) => if_done(
            did,
            (Op::Removed { path, dir }, OpAction::Sleep(1)),
        ),
        (Op::RenameFind { from, to, name }, OpEvent::Found(found)) => with_found(
            found,
            |file: FileView|
                (
                    Op::Renaming { from, to, dir: file.dir },
                    OpAction::RenameFile { fid: file.fid, name },
                ),
        ),
        (Op::Renaming { from, to, dir }, OpEvent::Replied(did)) => if_done(
            did,
            (Op::Renamed { from, to, dir }, OpAction::Sleep(1)),
        ),
        (Op::Renamed { from, to, dir }, OpEvent::Slept) => (
            Op::Last { from, to, dir },
            OpAction::Sleep(1),
        ),
        (Op::MoveFind { from, to, rename_to }, OpEvent::Found(found)) => with_found(
            found,
            |file: FileView|
                (
                    Op::MoveTarget { from, to, rename_to, fid: file.fid, dir: file.dir },
                    OpAction::Find(parent_of(to)->0),
                ),
        ),
        (Op::MoveTarget { from, to, rename_to, fid, dir }, OpEvent::Found(found)) => with_found(
            found,
            |target: FileView|
                (
                    Op::Moving { from, to, rename_to, fid, dir },
                    OpAction::MoveFile { fid, to_fid: target.fid },
                ),
        ),
        (Op::Moving { from, to, rename_to, fid, dir }, OpEvent::Replied(did)) => if_done(
            did,
            match rename_to {
                Some(name) => (
                    Op::MoveRenaming { from, to, dir },
                    OpAction::RenameFile { fid, name },
                ),
                None => (Op::Moved { from, to, dir }, OpAction::Sleep(1)),
            },
        ),
        (Op::MoveRenaming { from, to, dir }, OpEvent::Replied(did)) => if_done(
            did,
            (Op::Moved { from, to, dir }, OpAction::Sleep(1)),
        ),
        (Op::Moved { from, to, dir }, OpEvent::Slept) => (
            Op::Last { from, to, dir },
            OpAction::Sleep(1),
        ),
        _ => over(Ok(())),
    }
}

/// What an operation does to the file system on its way: it invalidates the listings that a
/// change may have made stale, before a directory is made and once more when the drive had
/// time to show a change.
pub open spec fn fs_after(fs: FsView, op: Op<Seq<char>>, event: OpEvent<FileView>) -> FsView {
    match (op, event) {
        (Op::CreateSelf { path, .. }, OpEvent::Found(Ok(None))) => if file_name_of(path) is Some {
            fs.bumped_parent(path)
        } else {
            fs
        },
        (Op::Created { path }, OpEvent::Slept) => fs.bumped(path).bumped_parent(path),
        (Op::Removed { path, dir }, OpEvent::Slept) => if dir {
            fs.bumped(path).bumped_parent(path)
        } else {
            fs.bumped_parent(path)
        },
        (Op::Renamed { from, .. }, OpEvent::Slept) => fs.bumped_parent(from),
        (Op::Moved { from, to, .. }, OpEvent::Slept) => fs.bumped_parent(from).bumped_parent(to),
        (Op::Last { from, to, dir }, OpEvent::Slept) => if dir {
            fs.bumped(from).bumped_parent(from).bumped_parent(to)
        } else {
            fs.bumped_parent(from).bumped_parent(to)
        },
        _ => fs,
    }
}

/// Whether an operation waits for such an event. What is moved to another directory has to
/// have a directory to go to.
pub open spec fn awaits(op: Op<Seq<char>>, event: OpEvent<FileView>) -> bool {
    match (op, event) {
        (Op::MoveFind { to, .. }, OpEvent::Found(found)) => found matches Ok(Some(_)) ==> parent_of(
            to,
        ) is Some,
        (Op::CreateParent { .. }, e) => e is Found,
        (Op::CreateSelf { .. }, e) => e is Found,
        (Op::RemoveFind { .. }, e) => e is Found,
        (Op::RenameFind { .. }, e) => e is Found,
        (Op::MoveTarget { .. }, e) => e is Found,
        (Op::Creating { .. }, e) => e is Replied,
        (Op::Removing { .. }, e) => e is Replied,
        (Op::Renaming { .. }, e) => e is Replied,
        (Op::Moving { .. }, e) => e is Replied,
        (Op::MoveRenaming { .. }, e) => e is Replied,
        (Op::Created { .. }, e) => e is Slept,
        (Op::Removed { .. }, e) => e is Slept,
        (Op::Renamed { .. }, e) => e is Slept,
        (Op::Moved { .. }, e) => e is Slept,
        (Op::Last { .. }, e) => e is Slept,
        _ => false,
    }
}

fn failed(e: FsError) -> (res: (Op<String>, OpAction<String>))
    ensures
        (res.0@, res.1@) == over(Err(e)),
{
    (Op::Over, OpAction::Done(Err(e)))
}

fn in_same_directory(a: &str, b: &str) -> (res: bool)
    ensures
        res == same_parent(a@, b@),
{
    match (parent(a), parent(b)) {
        (None, None) => true,
        (Some(x), Some(y)) => same_path(x.as_str(), y.as_str()),
        _ => false,
    }
}

impl QuarkDriveFileSystem {
    /// Begins to make a directory.
    pub fn create_dir(&self, dav_path: &str) -> (res: (Op<String>, OpAction<String>))
        ensures
            (res.0@, res.1@) == create_dir_begun(self@, normalized(self@.root, dav_path@)),
    {
        let path = self.normalize_dav_path(dav_path);
        if self.read_only {
            return failed(FsError::Forbidden);
        }
        match parent(path.as_str()) {
            None => failed(FsError::NotFound),
            Some(dir) => (Op::CreateParent { path }, OpAction::Find(dir)),
        }
    }

    fn remove(&self, dav_path: &str, dir: bool) -> (res: (Op<String>, OpAction<String>))
        ensures
            (res.0@, res.1@) == remove_begun(self@, normalized(self@.root, dav_path@), dir),
    {
        let path = self.normalize_dav_path(dav_path);
        if self.read_only {
            return failed(FsError::Forbidden);
        }
        let wanted = path.clone();
        (Op::RemoveFind { path, dir }, OpAction::Find(wanted))
    }

    /// Begins to remove a directory.
    pub fn remove_dir(&self, dav_path: &str) -> (res: (Op<String>, OpAction<String>))
        ensures
            (res.0@, res.1@) == remove_begun(self@, normalized(self@.root, dav_path@), true),
    {
        self.remove(dav_path, true)
    }

    /// Begins to remove a file.
    pub fn remove_file(&self, dav_path: &str) -> (res: (Op<String>, OpAction<String>))
        ensures
            (res.0@, res.1@) == remove_begun(self@, normalized(self@.root, dav_path@), false),
    {
        self.remove(dav_path, false)
    }

    /// Begins to rename or move.
    pub fn rename(&self, from_dav: &str, to_dav: &str) -> (res: (Op<String>, OpAction<String>))
        ensures
            (res.0@, res.1@) == rename_begun(
                self@,
                normalized(self@.root, from_dav@),
                normalized(self@.root, to_dav@),
                changed_name(request_name(from_dav@), request_name(to_dav@)),
            ),
    {
        let from = self.normalize_dav_path(from_dav);
        let to = self.normalize_dav_path(to_dav);
        if self.read_only {
            return failed(FsError::Forbidden);
        }
        let wanted = from.clone();
        if in_same_directory(from.as_str(), to.as_str()) {
            match file_name(to.as_str()) {
                Some(name) => (Op::RenameFind { from, to, name }, OpAction::Find(wanted)),
                None => failed(FsError::Forbidden),
            }
        } else {
            let rename_to = match (last_segment(from_dav), last_segment(to_dav)) {
                (Some(f), Some(t)) => if same_text(f.as_str(), t.as_str()) {
                    None
                } else {
                    Some(t)
                },
                _ => None,
            };
            (Op::MoveFind { from, to, rename_to }, OpAction::Find(wanted))
        }
    }
}

impl Op<String> {
    /// Goes on with an operation after what it asked for.
    pub fn step(self, fs: &mut QuarkDriveFileSystem, event: OpEvent<QuarkFile>) -> (res: (
        Op<String>,
        OpAction<String>,
    ))
        requires
            awaits(self@, event@),
        ensures
            (res.0@, res.1@) == next_op(old(fs)@, self@, event@),
            final(fs)@ == fs_after(old(fs)@, self@, event@),
            old(fs)@.cache.valid() ==> final(fs)@.cache.valid(),
    {
        match event {
            OpEvent::Found(Err(e)) => failed(e),
            OpEvent::Found(Ok(None)) => match self {
                Op::CreateSelf { path, parent_fid } => match file_name(path.as_str()) {
                    Some(name) => {
                        fs.dir_cache.invalidate_parent(path.as_str());
                        (Op::Creating { path }, OpAction::CreateFolder { parent_fid, name })
                    },
                    None => failed(FsError::Forbidden),
                },
                _ => failed(FsError::NotFound),
            },
            OpEvent::Found(Ok(Some(file))) => match self {
                Op::CreateParent { path } => {
                    if !file.dir {
                        return failed(FsError::Forbidden);
                    }
                    let wanted = path.clone();
                    (Op::CreateSelf { path, parent_fid: file.fid }, OpAction::Find(wanted))
                },
                Op::CreateSelf { .. } => failed(FsError::Exists),
                Op::RemoveFind { path, dir } => {
                    if (dir && !file.dir) || (!dir && !file.file) {
                        return failed(FsError::Forbidden);
                    }
                    let trash = !fs.no_trash;
                    (Op::Removing { path, dir }, OpAction::RemoveFile { fid: file.fid, trash })
                },
                Op::RenameFind { from, to, name } => (
                    Op::Renaming { from, to, dir: file.dir },
                    OpAction::RenameFile { fid: file.fid, name },
                ),
                Op::MoveFind { from, to, rename_to } => match parent(to.as_str()) {
                    Some(target) => (
                        Op::MoveTarget { from, to, rename_to, fid: file.fid, dir: file.dir },
                        OpAction::Find(target),
                    ),
                    None => failed(FsError::NotFound),
                },
                Op::MoveTarget { from, to, rename_to, fid, dir } => {
                    let moved = fid.clone();
                    (
                        Op::Moving { from, to, rename_to, fid, dir },
                        OpAction::MoveFile { fid: moved, to_fid: file.fid },
                    )
                },
                _ => (Op::Over, OpAction::Done(Ok(()))),
            },
            OpEvent::Replied(did) => {
                if !did {
                    return failed(FsError::GeneralFailure);
                }
                match self {
                    Op::Creating { path } => (Op::Created { path }, OpAction::Sleep(1)),
                    Op::Removing { path, dir } => (Op::Removed { path, dir }, OpAction::Sleep(1)),
                    Op::Renaming { from, to, dir } => (
                        Op::Renamed { from, to, dir },
                        OpAction::Sleep(1),
                    ),
                    Op::Moving { from, to, rename_to, fid, dir } => match rename_to {
                        Some(name) => (
                            Op::MoveRenaming { from, to, dir },
                            OpAction::RenameFile { fid, name },
                        ),
                        None => (Op::Moved { from, to, dir }, OpAction::Sleep(1)),
                    },
                    Op::MoveRenaming { from, to, dir } => (
                        Op::Moved { from, to, dir },
                        OpAction::Sleep(1),
                    ),
                    _ => (Op::Over, OpAction::Done(Ok(()))),
                }
            },
            OpEvent::Slept => match self {
                Op::Created { path } => {
                    fs.dir_cache.invalidate(path.as_str());
                    fs.dir_cache.invalidate_parent(path.as_str());
                    (Op::Over, OpAction::Done(Ok(())))
                },
                Op::Removed { path, dir } => {
                    if dir {
                        fs.dir_cache.invalidate(path.as_str());
                    }
                    fs.dir_cache.invalidate_parent(path.as_str());
                    (Op::Over, OpAction::Done(Ok(())))
                },
                Op::Renamed { from, to, dir } => {
                    fs.dir_cache.invalidate_parent(from.as_str());
                    (Op::Last { from, to, dir }, OpAction::Sleep(1))
                },
                Op::Moved { from, to, dir } => {
                    fs.dir_cache.invalidate_parent(from.as_str());
                    fs.dir_cache.invalidate_parent(to.as_str());
                    (Op::Last { from, to, dir }, OpAction::Sleep(1))
                },
                Op::Last { from, to, dir } => {
                    if dir {
                        fs.dir_cache.invalidate(from.as_str());
                    }
                    fs.dir_cache.invalidate_parent(from.as_str());
                    fs.dir_cache.invalidate_parent(to.as_str());
                    (Op::Over, OpAction::Done(Ok(())))
                },
                _ => (Op::Over, OpAction::Done(Ok(()))),
            },
        }
    }
}

/// What a drive does when an operation runs against it: what each lookup finds, and which
/// requests it fulfils.
pub struct Drive {
    pub finds: spec_fn(Seq<char>) -> Result<Option<FileView>, FsError>,
    pub fulfils: spec_fn(OpAction<Seq<char>>) -> bool,
}

impl Drive {
    /// What comes back for an action.
    pub open spec fn reply(self, action: OpAction<Seq<char>>) -> OpEvent<FileView> {
        match action {
            OpAction::Find(path) => OpEvent::Found((self.finds)(path)),
            OpAction::Sleep(_) => OpEvent::Slept,
            _ => OpEvent::Replied((self.fulfils)(action)),
        }
    }
}

/// How many steps an operation has left at most.
pub open spec fn steps_left(op: Op<Seq<char>>) -> nat {
    match op {
        Op::Over => 0,
        Op::Created { .. } => 1,
        Op::Removed { .. } => 1,
        Op::Last { .. } => 1,
        Op::Creating { .. } => 2,
        Op::Removing { .. } => 2,
        Op::Renamed { .. } => 2,
        Op::Moved { .. } => 2,
        Op::CreateSelf { .. } => 3,
        Op::RemoveFind { .. } => 3,
        Op::Renaming { .. } => 3,
        Op::MoveRenaming { .. } => 3,
        Op::CreateParent { .. } => 4,
        Op::RenameFind { .. } => 4,
        Op::Moving { .. } => 4,
        Op::MoveTarget { .. } => 5,
        Op::MoveFind { .. } => 6,
    }
}

/// An operation against a drive, from one action to the end: its outcome, the file system
/// afterwards, and the requests to the drive that were fulfilled on the way, in order.
pub open spec fn run(
    drive: Drive,
    fs: FsView,
    op: Op<Seq<char>>,
    action: OpAction<Seq<char>>,
) -> (Result<(), FsError>, FsView, Seq<OpAction<Seq<char>>>)
    decreases steps_left(op),
{
    match action {
        OpAction::Done(outcome) => (outcome, fs, Seq::empty()),
        _ => {
            let event = drive.reply(action);
            let (op2, action2) = next_op(fs, op, event);
            if steps_left(op2) < steps_left(op) {
                let rest = run(drive, fs_after(fs, op, event), op2, action2);
                if event == OpEvent::<FileView>::Replied(true) {
                    (rest.0, rest.1, seq![action] + rest.2)
                } else {
                    rest
                }
            } else {
                (Err(FsError::GeneralFailure), fs, Seq::empty())
            }
        },
    }
}

/// The outcome of making a directory.
pub open spec fn create_dir_outcome(drive: Drive, fs: FsView, path: Seq<char>) -> Result<
    (),
    FsError,
> {
    if fs.read_only {
        Err(FsError::Forbidden)
    } else {
        match parent_of(path) {
            None => Err(FsError::NotFound),
            Some(dir) => match (drive.finds)(dir) {
                Err(e) => Err(e),
                Ok(None) => Err(FsError::NotFound),
                Ok(Some(parent)) => if !parent.dir {
                    Err(FsError::Forbidden)
                } else {
                    match (drive.finds)(path) {
                        Err(e) => Err(e),
                        Ok(Some(_)) => Err(FsError::Exists),
                        Ok(None) => match file_name_of(path) {
                            None => Err(FsError::Forbidden),
                            Some(name) => if (drive.fulfils)(
                                OpAction::CreateFolder { parent_fid: parent.fid, name },
                            ) {
                                Ok(())
                            } else {
                                Err(FsError::GeneralFailure)
                            },
                        },
                    }
                },
            },
        }
    }
}

/// The outcome of removing a directory or a file.
pub open spec fn remove_outcome(drive: Drive, fs: FsView, path: Seq<char>, dir: bool) -> Result<
    (),
    FsError,
> {
    if fs.read_only {
        Err(FsError::Forbidden)
    } else {
        match (drive.finds)(path) {
            Err(e) => Err(e),
            Ok(None) => Err(FsError::NotFound),
            Ok(Some(file)) => if (dir && !file.dir) || (!dir && !file.file) {
                Err(FsError::Forbidden)
            } else if (drive.fulfils)(
                OpAction::RemoveFile { fid: file.fid, trash: !fs.no_trash },
            ) {
                Ok(())
            } else {
                Err(FsError::GeneralFailure)
            },
        }
    }
}

/// The outcome of renaming within a directory or moving to another one.
pub open spec fn rename_outcome(
    drive: Drive,
    fs: FsView,
    from: Seq<char>,
    to: Seq<char>,
    rename_to: Option<Seq<char>>,
) -> Result<(), FsError> {
    if fs.read_only || (same_parent(from, to) && file_name_of(to) is None) {
        Err(FsError::Forbidden)
    } else {
        match (drive.finds)(from) {
            Err(e) => Err(e),
            Ok(None) => Err(FsError::NotFound),
            Ok(Some(file)) => if same_parent(from, to) {
                if (drive.fulfils)(
                    OpAction::RenameFile { fid: file.fid, name: file_name_of(to)->0 },
                ) {
                    Ok(())
                } else {
                    Err(FsError::GeneralFailure)
                }
            } else {
                match (drive.finds)(parent_of(to)->0) {
                    Err(e) => Err(e),
                    Ok(None) => Err(FsError::NotFound),
                    Ok(Some(target)) => {
                        let moved = (drive.fulfils)(
                            OpAction::MoveFile { fid: file.fid, to_fid: target.fid },
                        );
                        let renamed = rename_to matches Some(name) ==> (drive.fulfils)(
                            OpAction::RenameFile { fid: file.fid, name },
                        );
                        if moved && renamed {
                            Ok(())
                        } else {
                            Err(FsError::GeneralFailure)
                        }
                    },
                }
            },
        }
    }
}

/// Whether no listing that shows `path` itself is cached.
pub open spec fn unlisted(fs: FsView, path: Seq<char>) -> bool {
    parent_of(path) matches Some(dir) ==> !fs.cache.listings.contains_key(dir)
}

/// The identifier of what a lookup found.
pub open spec fn fid_of(found: Result<Option<FileView>, FsError>) -> Seq<char> {
    match found {
        Ok(Some(file)) => file.fid,
        _ => Seq::empty(),
    }
}

/// Whether a lookup found something.
pub open spec fn is_found(found: Result<Option<FileView>, FsError>) -> bool {
    found is Ok && found->Ok_0 is Some
}

/// Whether a lookup found a directory.
pub open spec fn is_dir_found(found: Result<Option<FileView>, FsError>) -> bool {
    match found {
        Ok(Some(file)) => file.dir,
        _ => false,
    }
}

/// Making a directory has this outcome. Where it succeeds, the drive has fulfilled the request to
/// make it and no other, and where it fails, none. It leaves the placeholders alone, and where it
/// succeeds, neither the listing of the new directory nor the one it is in is cached.
pub proof fn law_create_dir(drive: Drive, fs: FsView, path: Seq<char>)
    ensures
        ({
            let begun = create_dir_begun(fs, path);
            let (outcome, after, did) = run(drive, fs, begun.0, begun.1);
            &&& outcome == create_dir_outcome(drive, fs, path)
            &&& after == (FsView { cache: after.cache, ..fs })
            &&& did == if outcome is Ok {
                seq![
                    OpAction::CreateFolder {
                        parent_fid: fid_of((drive.finds)(parent_of(path)->0)),
                        name: file_name_of(path)->0,
                    },
                ]
            } else {
                Seq::empty()
            }
            &&& outcome is Ok ==> unlisted(after, path) && !after.cache.listings.contains_key(path)
        }),
{
    reveal_with_fuel(run, 6);
}

/// Removing a directory or a file has this outcome. Where it succeeds, the drive has fulfilled the
/// request to remove it and no other, and where it fails, none. It leaves the placeholders alone,
/// and where it succeeds, the listing it was in is not cached, and of a directory neither is its
/// own.
pub proof fn law_remove(drive: Drive, fs: FsView, path: Seq<char>, dir: bool)
    ensures
        ({
            let begun = remove_begun(fs, path, dir);
            let (outcome, after, did) = run(drive, fs, begun.0, begun.1);
            &&& outcome == remove_outcome(drive, fs, path, dir)
            &&& after == (FsView { cache: after.cache, ..fs })
            &&& did == if outcome is Ok {
                seq![
                    OpAction::RemoveFile {
                        fid: fid_of((drive.finds)(path)),
                        trash: !fs.no_trash,
                    },
                ]
            } else {
                Seq::empty()
            }
            &&& outcome is Ok ==> unlisted(after, path) && (dir
                ==> !after.cache.listings.contains_key(path))
            &&& outcome is Err ==> after == fs
        }),
{
    reveal_with_fuel(run, 6);
}

/// The requests that renaming or moving has fulfilled in the end. Where a move succeeds and the
/// renaming after it does not, the move stays.
pub open spec fn rename_requests(
    drive: Drive,
    fs: FsView,
    from: Seq<char>,
    to: Seq<char>,
    rename_to: Option<Seq<char>>,
) -> Seq<OpAction<Seq<char>>> {
    let fid = fid_of((drive.finds)(from));
    let target = (drive.finds)(parent_of(to)->0);
    let rename = OpAction::RenameFile { fid, name: file_name_of(to)->0 };
    let moving = OpAction::MoveFile { fid, to_fid: fid_of(target) };
    if rename_outcome(drive, fs, from, to, rename_to) is Ok {
        if same_parent(from, to) {
            seq![rename]
        } else {
            match rename_to {
                Some(name) => seq![moving, OpAction::RenameFile { fid, name }],
                None => seq![moving],
            }
        }
    } else if !fs.read_only && !same_parent(from, to) && is_found((drive.finds)(from))
        && is_found(target) && (drive.fulfils)(moving) {
        seq![moving]
    } else {
        Seq::empty()
    }
}

/// Renaming or moving has this outcome, and has these requests fulfilled. It leaves the
/// placeholders alone, and where it succeeds, neither the listing it was in nor the one it is in
/// now is cached, nor, of a directory, its own under the old path.
#[verifier::rlimit(60)]
pub proof fn law_rename(
    drive: Drive,
    fs: FsView,
    from: Seq<char>,
    to: Seq<char>,
    rename_to: Option<Seq<char>>,
)
    ensures
        ({
            let begun = rename_begun(fs, from, to, rename_to);
            let (outcome, after, did) = run(drive, fs, begun.0, begun.1);
            &&& outcome == rename_outcome(drive, fs, from, to, rename_to)
            &&& after == (FsView { cache: after.cache, ..fs })
            &&& did == rename_requests(drive, fs, from, to, rename_to)
            &&& outcome is Ok ==> unlisted(after, from) && unlisted(after, to)
            &&& outcome is Ok && is_dir_found((drive.finds)(from))
                ==> !after.cache.listings.contains_key(from)
        }),
{
    reveal_with_fuel(run, 8);
    let begun = rename_begun(fs, from, to, rename_to);
    let did = run(drive, fs, begun.0, begun.1).2;
    assert(did =~= rename_requests(drive, fs, from, to, rename_to));
}

/// In read-only mode nothing is asked of the drive and nothing changes: every operation ends
/// at once.
pub proof fn law_read_only_changes_nothing(
    drive: Drive,
    fs: FsView,
    path: Seq<char>,
    to: Seq<char>,
    rename_to: Option<Seq<char>>,
    dir: bool,
)
    requires
        fs.read_only,
    ensures
        create_dir_begun(fs, path) == over(Err(FsError::Forbidden)),
        remove_begun(fs, path, dir) == over(Err(FsError::Forbidden)),
        rename_begun(fs, path, to, rename_to) == over(Err(FsError::Forbidden)),
        run(drive, fs, Op::Over, OpAction::Done(Err(FsError::Forbidden))) == (
            Err::<(), FsError>(FsError::Forbidden),
            fs,
            Seq::<OpAction<Seq<char>>>::empty(),
        ),
{
}

/// Whether the cache has and marks `other` as before.
pub open spec fn untouched(before: FsView, after: FsView, other: Seq<char>) -> bool {
    &&& after.cache.listings.contains_key(other) == before.cache.listings.contains_key(other)
    &&& before.cache.listings.contains_key(other) ==> after.cache.listings[other]
        == before.cache.listings[other]
    &&& after.cache.stamp(other) == before.cache.stamp(other)
}

/// A directory is made exactly if something may be changed, what should hold it is a directory,
/// nothing is there yet, it has a name, and the drive does it: by that name, in that directory.
/// Each failure has its own reason. No listing is touched but its own and the one it is in.
pub proof fn law_create_dir_case_by_case(
    drive: Drive,
    fs: FsView,
    path: Seq<char>,
    other: Seq<char>,
)
    requires
        other != path,
        parent_of(path) != Some(other),
    ensures
        ({
            let begun = create_dir_begun(fs, path);
            let (outcome, after, did) = run(drive, fs, begun.0, begun.1);
            &&& untouched(fs, after, other)
            &&& if fs.read_only {
                outcome == Err::<(), FsError>(FsError::Forbidden) && after == fs
            } else if parent_of(path) is None {
                outcome == Err::<(), FsError>(FsError::NotFound) && after == fs
            } else {
                match ((drive.finds)(parent_of(path)->0), (drive.finds)(path), file_name_of(path)) {
                    (Err(e), _, _) => outcome == Err::<(), FsError>(e) && after == fs,
                    (Ok(None), _, _) => outcome == Err::<(), FsError>(FsError::NotFound) && after
                        == fs,
                    (Ok(Some(up)), there, name) => if !up.dir {
                        outcome == Err::<(), FsError>(FsError::Forbidden) && after == fs
                    } else {
                        match (there, name) {
                            (Err(e), _) => outcome == Err::<(), FsError>(e) && after == fs,
                            (Ok(Some(_)), _) => outcome == Err::<(), FsError>(FsError::Exists)
                                && after == fs,
                            (Ok(None), None) => outcome == Err::<(), FsError>(FsError::Forbidden)
                                && after == fs,
                            (Ok(None), Some(n)) => {
                                let request = OpAction::CreateFolder { parent_fid: up.fid, name: n };
                                if (drive.fulfils)(request) {
                                    outcome == Ok::<(), FsError>(()) && did == seq![request]
                                } else {
                                    outcome == Err::<(), FsError>(FsError::GeneralFailure)
                                        && did.len() == 0
                                }
                            },
                        }
                    },
                }
            }
        }),
{
    reveal_with_fuel(run, 6);
}

/// A file or a directory is removed exactly if something may be changed, it is there, it is of
/// the kind that the request is about, and the drive does it: to the trash, unless there is to
/// be none. Each failure has its own reason. No listing is touched but that of a directory and
/// the one it is in, and none at all on a failure.
pub proof fn law_remove_case_by_case(
    drive: Drive,
    fs: FsView,
    path: Seq<char>,
    dir: bool,
    other: Seq<char>,
)
    requires
        other != path,
        parent_of(path) != Some(other),
    ensures
        ({
            let begun = remove_begun(fs, path, dir);
            let (outcome, after, did) = run(drive, fs, begun.0, begun.1);
            &&& untouched(fs, after, other)
            &&& outcome is Err ==> after == fs && did.len() == 0
            &&& !dir && parent_of(path) != Some(path) ==> untouched(fs, after, path)
            &&& if fs.read_only {
                outcome == Err::<(), FsError>(FsError::Forbidden)
            } else {
                match (drive.finds)(path) {
                    Err(e) => outcome == Err::<(), FsError>(e),
                    Ok(None) => outcome == Err::<(), FsError>(FsError::NotFound),
                    Ok(Some(found)) => {
                        let request = OpAction::RemoveFile { fid: found.fid, trash: !fs.no_trash };
                        &&& dir && !found.dir ==> outcome == Err::<(), FsError>(FsError::Forbidden)
                        &&& !dir && !found.file ==> outcome == Err::<(), FsError>(
                            FsError::Forbidden,
                        )
                        &&& (dir && found.dir) || (!dir && found.file) ==> if (drive.fulfils)(
                            request,
                        ) {
                            outcome == Ok::<(), FsError>(()) && did == seq![request]
                        } else {
                            outcome == Err::<(), FsError>(FsError::GeneralFailure)
                        }
                    },
                }
            }
        }),
{
    reveal_with_fuel(run, 6);
}

/// Within its directory a file or directory is renamed, to the last component of where it is to
/// go. To another directory it is moved, and then renamed if it is to have another name. Either
/// comes about exactly if something may be changed, what is needed is there, and the drive does
/// all of it. Each failure has its own reason. No listing is touched but its own, the one it was
/// in and the one it is to be in.
#[verifier::rlimit(60)]
pub proof fn law_rename_case_by_case(
    drive: Drive,
    fs: FsView,
    from: Seq<char>,
    to: Seq<char>,
    rename_to: Option<Seq<char>>,
    other: Seq<char>,
)
    requires
        other != from,
        parent_of(from) != Some(other),
        parent_of(to) != Some(other),
    ensures
        ({
            let begun = rename_begun(fs, from, to, rename_to);
            let (outcome, after, did) = run(drive, fs, begun.0, begun.1);
            let within = match (parent_of(from), parent_of(to)) {
                (Some(x), Some(y)) => components_of(x) == components_of(y),
                (None, None) => true,
                _ => false,
            };
            &&& untouched(fs, after, other)
            &&& if fs.read_only {
                outcome == Err::<(), FsError>(FsError::Forbidden) && did.len() == 0
            } else if within && file_name_of(to) is None {
                outcome == Err::<(), FsError>(FsError::Forbidden) && did.len() == 0
            } else {
                match (drive.finds)(from) {
                    Err(e) => outcome == Err::<(), FsError>(e) && did.len() == 0,
                    Ok(None) => outcome == Err::<(), FsError>(FsError::NotFound) && did.len() == 0,
                    Ok(Some(found)) => if within {
                        let request = OpAction::RenameFile {
                            fid: found.fid,
                            name: file_name_of(to)->0,
                        };
                        if (drive.fulfils)(request) {
                            outcome == Ok::<(), FsError>(()) && did == seq![request]
                        } else {
                            outcome == Err::<(), FsError>(FsError::GeneralFailure) && did.len()
                                == 0
                        }
                    } else {
                        match (drive.finds)(parent_of(to)->0) {
                            Err(e) => outcome == Err::<(), FsError>(e) && did.len() == 0,
                            Ok(None) => outcome == Err::<(), FsError>(FsError::NotFound)
                                && did.len() == 0,
                            Ok(Some(target)) => {
                                let transfer = OpAction::MoveFile {
                                    fid: found.fid,
                                    to_fid: target.fid,
                                };
                                if !(drive.fulfils)(transfer) {
                                    outcome == Err::<(), FsError>(FsError::GeneralFailure)
                                        && did.len() == 0
                                } else {
                                    match rename_to {
                                        None => outcome == Ok::<(), FsError>(()) && did
                                            == seq![transfer],
                                        Some(name) => {
                                            let request = OpAction::RenameFile {
                                                fid: found.fid,
                                                name,
                                            };
                                            if (drive.fulfils)(request) {
                                                outcome == Ok::<(), FsError>(()) && did
                                                    == seq![transfer, request]
                                            } else {
                                                outcome == Err::<(), FsError>(
                                                    FsError::GeneralFailure,
                                                ) && did == seq![transfer]
                                            }
                                        },
                                    }
                                }
                            },
                        }
                    },
                }
            }
        }),
{
    law_rename(drive, fs, from, to, rename_to);
    lemma_rename_touches(drive, fs, from, to, rename_to, other);
}

#[verifier::rlimit(60)]
proof fn lemma_rename_touches(
    drive: Drive,
    fs: FsView,
    from: Seq<char>,
    to: Seq<char>,
    rename_to: Option<Seq<char>>,
    other: Seq<char>,
)
    requires
        other != from,
        parent_of(from) != Some(other),
        parent_of(to) != Some(other),
    ensures
        ({
            let begun = rename_begun(fs, from, to, rename_to);
            untouched(fs, run(drive, fs, begun.0, begun.1).1, other)
        }),
{
    reveal_with_fuel(run, 8);
}

/// A move gives a new name exactly if both paths end with a name and the two differ.
pub proof fn law_name_changes_only_if_it_differs(
    from: Option<Seq<char>>,
    to: Option<Seq<char>>,
    name: Seq<char>,
)
    ensures
        changed_name(from, to) == Some(name) <==> to == Some(name) && from is Some && from->0
            != name,
{
}

/// The drive is given one second each time that it has to show a change, and no operation waits
/// before the drive has done something.
pub proof fn law_waits_are_of_one_second(
    fs: FsView,
    op: Op<Seq<char>>,
    event: OpEvent<FileView>,
    path: Seq<char>,
    to: Seq<char>,
    dir: bool,
    name: Option<Seq<char>>,
)
    requires
        awaits(op, event),
    ensures
        next_op(fs, op, event).1 matches OpAction::Sleep(secs) ==> secs == 1 && !(event is Found)
            && event != OpEvent::<FileView>::Replied(false),
        next_op(fs, op, event).1 is Done && event == OpEvent::<FileView>::Slept ==> next_op(
            fs,
            op,
            event,
        ).1 == OpAction::<Seq<char>>::Done(Ok(())),
        !(create_dir_begun(fs, path).1 is Sleep),
        !(remove_begun(fs, path, dir).1 is Sleep),
        !(rename_begun(fs, path, to, name).1 is Sleep),
{
}

/// A change that came about moves the markers of the directories whose listings it may have made
/// stale, so that no listing that was being read at the time is kept.
pub proof fn law_change_moves_markers(
    drive: Drive,
    fs: FsView,
    path: Seq<char>,
    to: Seq<char>,
    dir: bool,
    rename_to: Option<Seq<char>>,
    up: Seq<char>,
)
    requires
        parent_of(path) == Some(up),
    ensures
        ({
            let begun = create_dir_begun(fs, path);
            let (outcome, after, _) = run(drive, fs, begun.0, begun.1);
            outcome is Ok ==> after.cache.stamp(up) != fs.cache.stamp(up) && after.cache.stamp(
                path,
            ) != fs.cache.stamp(path)
        }),
        ({
            let begun = remove_begun(fs, path, dir);
            let (outcome, after, _) = run(drive, fs, begun.0, begun.1);
            outcome is Ok ==> after.cache.stamp(up) != fs.cache.stamp(up) && (dir
                ==> after.cache.stamp(path) != fs.cache.stamp(path))
        }),
        ({
            let begun = rename_begun(fs, path, to, rename_to);
            let (outcome, after, _) = run(drive, fs, begun.0, begun.1);
            outcome is Ok ==> {
                &&& after.cache.stamp(up) != fs.cache.stamp(up)
                &&& parent_of(to) matches Some(down) ==> after.cache.stamp(down)
                    != fs.cache.stamp(down)
                &&& is_dir_found((drive.finds)(path)) ==> after.cache.stamp(path)
                    != fs.cache.stamp(path)
            }
        }),
{
    lemma_create_moves(drive, fs, path, up);
    lemma_remove_moves(drive, fs, path, dir, up);
    lemma_rename_moves(drive, fs, path, to, rename_to, up);
}

proof fn lemma_create_moves(drive: Drive, fs: FsView, path: Seq<char>, up: Seq<char>)
    requires
        parent_of(path) == Some(up),
    ensures
        ({
            let begun = create_dir_begun(fs, path);
            let (outcome, after, _) = run(drive, fs, begun.0, begun.1);
            outcome is Ok ==> after.cache.stamp(up) != fs.cache.stamp(up) && after.cache.stamp(
                path,
            ) != fs.cache.stamp(path)
        }),
{
    reveal_with_fuel(run, 6);
    lemma_parent_is_shorter(path);
}

proof fn lemma_remove_moves(drive: Drive, fs: FsView, path: Seq<char>, dir: bool, up: Seq<char>)
    requires
        parent_of(path) == Some(up),
    ensures
        ({
            let begun = remove_begun(fs, path, dir);
            let (outcome, after, _) = run(drive, fs, begun.0, begun.1);
            outcome is Ok ==> after.cache.stamp(up) != fs.cache.stamp(up) && (dir
                ==> after.cache.stamp(path) != fs.cache.stamp(path))
        }),
{
    reveal_with_fuel(run, 6);
    lemma_parent_is_shorter(path);
}

#[verifier::rlimit(60)]
proof fn lemma_rename_moves(
    drive: Drive,
    fs: FsView,
    path: Seq<char>,
    to: Seq<char>,
    rename_to: Option<Seq<char>>,
    up: Seq<char>,
)
    requires
        parent_of(path) == Some(up),
    ensures
        ({
            let begun = rename_begun(fs, path, to, rename_to);
            let (outcome, after, _) = run(drive, fs, begun.0, begun.1);
            outcome is Ok ==> {
                &&& after.cache.stamp(up) != fs.cache.stamp(up)
                &&& parent_of(to) matches Some(down) ==> after.cache.stamp(down)
                    != fs.cache.stamp(down)
                &&& is_dir_found((drive.finds)(path)) ==> after.cache.stamp(path)
                    != fs.cache.stamp(path)
            }
        }),
{
    reveal_with_fuel(run, 8);
    lemma_parent_is_shorter(path);
}

/// An action and an event say what they hold.
pub proof fn law_action_and_event_say_what_they_hold(
    action: OpAction<String>,
    event: OpEvent<QuarkFile>,
)
    ensures
        match action {
            OpAction::Find(path) => action@ == OpAction::Find(path@),
            OpAction::CreateFolder { parent_fid, name } => action@ == (OpAction::CreateFolder {
                parent_fid: parent_fid@,
                name: name@,
            }),
            OpAction::RemoveFile { fid, trash } => action@ == (OpAction::RemoveFile {
                fid: fid@,
                trash,
            }),
            OpAction::RenameFile { fid, name } => action@ == (OpAction::RenameFile {
                fid: fid@,
                name: name@,
            }),
            OpAction::MoveFile { fid, to_fid } => action@ == (OpAction::MoveFile {
                fid: fid@,
                to_fid: to_fid@,
            }),
            OpAction::Sleep(secs) => action@ == OpAction::<Seq<char>>::Sleep(secs),
            OpAction::Done(outcome) => action@ == OpAction::<Seq<char>>::Done(outcome),
        },
        match event {
            OpEvent::Found(Ok(Some(file))) => event@ == OpEvent::Found(Ok(Some(file@))),
            OpEvent::Found(Ok(None)) => event@ == OpEvent::<FileView>::Found(Ok(None)),
            OpEvent::Found(Err(e)) => event@ == OpEvent::<FileView>::Found(Err(e)),
            OpEvent::Replied(did) => event@ == OpEvent::<FileView>::Replied(did),
            OpEvent::Slept => event@ == OpEvent::<FileView>::Slept,
        },
{
}

}

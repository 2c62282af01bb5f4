//! Sending a staged file in parts.
//!
//! The file is read from its beginning, one part after the other. Every part has the size that
//! the drive asked for, except the last one, which has what is left.
use vstd::prelude::*;
use crate::drive::{commit_request, copy_texts, Callback, Target};
#[allow(unused_imports)]
use crate::drive::commit_of;
use crate::error::FsError;
#[allow(unused_imports)]
use crate::clock::{http_date, http_date_of, is_datable};
use crate::part::{PartNext, PartUpload, UploadAction, UploadEvent};
#[allow(unused_imports)]
use crate::part::{part_awaits, part_begun, part_next, part_request};
use crate::text::same_text;
#[allow(unused_imports)]
use crate::text::texts;

verus! {

/// How far sending a staged file has come.
pub enum ChunkStage<T, B> {
    Opening,
    /// Reading the part with this number.
    Reading(u64),
    /// Sending the part with this number.
    Sending(u64, PartUpload<T, B>),
    Committing,
    Finishing,
    Over,
}

/// A staged file that is being sent in parts.
pub struct ChunkUpload<T, B, L> {
    pub target: Target<T>,
    pub callback: Callback<T>,
    pub temp_path: T,
    pub size: u64,
    pub chunk_size: u64,
    pub chunk_count: u64,
    /// The tags of the parts that were sent.
    pub etags: L,
    pub stage: ChunkStage<T, B>,
}

/// How far a task on its own has come.
pub enum TaskStage {
    Sending,
    Cleaning,
    Settling,
    Over,
}

/// A task on its own: it sends a staged file, removes it, and waits until the file is listed.
pub struct UploadTask<T, B, L> {
    pub chunks: ChunkUpload<T, B, L>,
    pub parent_dir: T,
    pub parent_path: T,
    pub file_name: T,
    pub stage: TaskStage,
}

impl View for ChunkStage<String, Vec<u8>> {
    type V = ChunkStage<Seq<char>, Seq<u8>>;

    open spec fn view(&self) -> ChunkStage<Seq<char>, Seq<u8>> {
        match *self {
            ChunkStage::Opening => ChunkStage::Opening,
            ChunkStage::Reading(i) => ChunkStage::Reading(i),
            ChunkStage::Sending(i, part) => ChunkStage::Sending(i, part@),
            ChunkStage::Committing => ChunkStage::Committing,
            ChunkStage::Finishing => ChunkStage::Finishing,
            ChunkStage::Over => ChunkStage::Over,
        }
    }
}

impl View for ChunkUpload<String, Vec<u8>, Vec<String>> {
    type V = ChunkUpload<Seq<char>, Seq<u8>, Seq<Seq<char>>>;

    open spec fn view(&self) -> ChunkUpload<Seq<char>, Seq<u8>, Seq<Seq<char>>> {
        ChunkUpload {
            target: self.target@,
            callback: self.callback@,
            temp_path: self.temp_path@,
            size: self.size,
            chunk_size: self.chunk_size,
            chunk_count: self.chunk_count,
            etags: texts(self.etags@),
            stage: self.stage@,
        }
    }
}

impl View for UploadTask<String, Vec<u8>, Vec<String>> {
    type V = UploadTask<Seq<char>, Seq<u8>, Seq<Seq<char>>>;

    open spec fn view(&self) -> UploadTask<Seq<char>, Seq<u8>, Seq<Seq<char>>> {
        UploadTask {
            chunks: self.chunks@,
            parent_dir: self.parent_dir@,
            parent_path: self.parent_path@,
            file_name: self.file_name@,
            stage: self.stage,
        }
    }
}

/// How many parts a file has.
pub open spec fn chunk_count_of(size: u64, chunk_size: u64) -> int {
    size as int / chunk_size as int + if size as int % chunk_size as int != 0 {
        1int
    } else {
        0int
    }
}

/// A file has at most as many parts as bytes.
pub proof fn lemma_chunk_count_is_small(size: u64, chunk_size: u64)
    requires
        chunk_size > 0,
    ensures
        0 <= chunk_count_of(size, chunk_size) <= size,
{
    let n = size as int;
    let part = chunk_size as int;
    let whole = n / part;
    let rest = n % part;
    assert(0 <= whole && whole + (if rest != 0 {
        1int
    } else {
        0int
    }) <= n) by (nonlinear_arith)
        requires
            part > 0,
            n >= 0,
            whole == n / part,
            rest == n % part,
    ;
}

/// How many parts a file has.
pub fn count_chunks(size: u64, chunk_size: u64) -> (res: u64)
    requires
        chunk_size > 0,
    ensures
        res == chunk_count_of(size, chunk_size),
{
    proof {
        lemma_chunk_count_is_small(size, chunk_size);
    }
    let whole = size / chunk_size;
    if size % chunk_size != 0 {
        whole + 1
    } else {
        whole
    }
}

/// Where the part with the given number begins.
pub open spec fn chunk_start(chunk_size: u64, number: int) -> int {
    (number - 1) * chunk_size
}

impl<T, B, L> ChunkUpload<T, B, L> {
    /// How many bytes the part with the given number has: the last one what is left, at most a
    /// whole part, and every other one a whole part.
    pub open spec fn chunk_len(self, number: int) -> int {
        let left = self.size - chunk_start(self.chunk_size, number);
        if number == self.chunk_count && left < self.chunk_size {
            left
        } else {
            self.chunk_size as int
        }
    }

    /// Whether the file is large enough for all its parts but the last to be whole.
    pub open spec fn fits(self) -> bool {
        self.chunk_count > 0 ==> chunk_start(self.chunk_size, self.chunk_count as int) <= self.size
    }
}

/// What to send after the part before the one with the given number: that part, or if it was
/// the last, the request that ends the upload.
pub open spec fn chunk_or_commit(
    c: ChunkUpload<Seq<char>, Seq<u8>, Seq<Seq<char>>>,
    number: int,
) -> (
    ChunkUpload<Seq<char>, Seq<u8>, Seq<Seq<char>>>,
    UploadAction<Seq<char>, Seq<u8>, Seq<Seq<char>>>,
) {
    if number <= c.chunk_count {
        (
            ChunkUpload { stage: ChunkStage::Reading(number as u64), ..c },
            UploadAction::ReadTemp { len: c.chunk_len(number) as u64 },
        )
    } else {
        (
            ChunkUpload { stage: ChunkStage::Committing, ..c },
            UploadAction::Commit(commit_of(c.target, c.callback, c.etags)),
        )
    }
}

/// The end of sending a staged file.
pub open spec fn chunks_over(
    c: ChunkUpload<Seq<char>, Seq<u8>, Seq<Seq<char>>>,
    outcome: Result<(), FsError>,
) -> (
    ChunkUpload<Seq<char>, Seq<u8>, Seq<Seq<char>>>,
    UploadAction<Seq<char>, Seq<u8>, Seq<Seq<char>>>,
) {
    (ChunkUpload { stage: ChunkStage::Over, ..c }, UploadAction::Done(outcome))
}

/// How sending a staged file goes on. The tag `finish` says that the store has the whole
/// object already.
pub open spec fn chunks_next(
    c: ChunkUpload<Seq<char>, Seq<u8>, Seq<Seq<char>>>,
    event: UploadEvent<Seq<char>, Seq<u8>>,
    now: u64,
) -> (
    ChunkUpload<Seq<char>, Seq<u8>, Seq<Seq<char>>>,
    UploadAction<Seq<char>, Seq<u8>, Seq<Seq<char>>>,
) {
    match (c.stage, event) {
        (ChunkStage::Opening, UploadEvent::TempOpened(true)) => chunk_or_commit(c, 1),
        (ChunkStage::Reading(number), UploadEvent::TempRead(Some(bytes))) => (
            ChunkUpload {
                stage: ChunkStage::Sending(
                    number,
                    PartUpload::Meta {
                        target: c.target,
                        part_number: number as u32,
                        utc_time: http_date_of(now),
                        bytes,
                    },
                ),
                ..c
            },
            part_begun(c.target, number as u32, http_date_of(now)),
        ),
        (ChunkStage::Sending(number, part), e) => match part_next(part, e) {
            PartNext::Ask(p, action) => (
                ChunkUpload { stage: ChunkStage::Sending(number, p), ..c },
                action,
            ),
            PartNext::Tagged(etag) => if etag == "finish"@ {
                chunks_over(c, Ok(()))
            } else {
                chunk_or_commit(ChunkUpload { etags: c.etags.push(etag), ..c }, number + 1)
            },
            _ => chunks_over(c, Err(FsError::GeneralFailure)),
        },
        (ChunkStage::Committing, UploadEvent::Committed(true)) => (
            ChunkUpload { stage: ChunkStage::Finishing, ..c },
            UploadAction::Finish { obj_key: c.target.obj_key, task_id: c.target.task_id },
        ),
        (ChunkStage::Finishing, UploadEvent::Finished(true)) => chunks_over(c, Ok(())),
        _ => chunks_over(c, Err(FsError::GeneralFailure)),
    }
}

/// Whether sending a staged file waits for such an event. The store tags every part of a
/// staged file.
pub open spec fn chunks_await(
    c: ChunkUpload<Seq<char>, Seq<u8>, Seq<Seq<char>>>,
    event: UploadEvent<Seq<char>, Seq<u8>>,
) -> bool {
    match c.stage {
        ChunkStage::Opening => event is TempOpened,
        ChunkStage::Reading(number) => event is TempRead,
        ChunkStage::Sending(_, part) => part_awaits(part, event) && part_next(part, event)
            !is Untagged,
        ChunkStage::Committing => event is Committed,
        ChunkStage::Finishing => event is Finished,
        ChunkStage::Over => false,
    }
}

/// Whether the stage of sending a staged file agrees with what was sent: one tag for each part
/// so far.
pub open spec fn chunks_valid(c: ChunkUpload<Seq<char>, Seq<u8>, Seq<Seq<char>>>) -> bool {
    &&& c.fits()
    &&& match c.stage {
        ChunkStage::Opening => c.etags.len() == 0,
        ChunkStage::Reading(number) => 1 <= number <= c.chunk_count && c.etags.len() == number - 1,
        ChunkStage::Sending(number, _) => 1 <= number <= c.chunk_count && c.etags.len() == number
            - 1,
        ChunkStage::Committing => c.etags.len() == c.chunk_count,
        ChunkStage::Finishing => c.etags.len() == c.chunk_count,
        ChunkStage::Over => true,
    }
}

impl ChunkUpload<String, Vec<u8>, Vec<String>> {
    /// Begins to send a staged file.
    pub fn begin(
        target: Target<String>,
        callback: Callback<String>,
        temp_path: String,
        size: u64,
        chunk_size: u64,
        chunk_count: u64,
    ) -> (res: (Self, UploadAction<String, Vec<u8>, Vec<String>>))
        ensures
            res.0@ == (ChunkUpload {
                target: target@,
                callback: callback@,
                temp_path: temp_path@,
                size,
                chunk_size,
                chunk_count,
                etags: Seq::<Seq<char>>::empty(),
                stage: ChunkStage::<Seq<char>, Seq<u8>>::Opening,
            }),
            res.1@ == (UploadAction::<Seq<char>, Seq<u8>, Seq<Seq<char>>>::OpenTemp {
                path: temp_path@,
            }),
            res.0@.fits() ==> chunks_valid(res.0@),
    {
        let path = temp_path.clone();
        let etags: Vec<String> = Vec::new();
        assert(texts(etags@) =~= Seq::<Seq<char>>::empty());
        let chunks = ChunkUpload {
            target,
            callback,
            temp_path,
            size,
            chunk_size,
            chunk_count,
            etags,
            stage: ChunkStage::Opening,
        };
        (chunks, UploadAction::OpenTemp { path })
    }

    fn commit(self) -> (res: (Self, UploadAction<String, Vec<u8>, Vec<String>>))
        ensures
            (res.0@, res.1@) == chunk_or_commit(self@, self.chunk_count + 1),
    {
        let etags = copy_texts(&self.etags);
        let req = commit_request(&self.target, self.callback.clone(), etags);
        (ChunkUpload { stage: ChunkStage::Committing, ..self }, UploadAction::Commit(req))
    }

    fn read_or_commit(self, number: u64) -> (res: (Self, UploadAction<String, Vec<u8>, Vec<String>>))
        requires
            number >= 1,
            self@.fits(),
        ensures
            (res.0@, res.1@) == chunk_or_commit(self@, number as int),
    {
        if number <= self.chunk_count {
            let len = if number == self.chunk_count {
                assert((number - 1) * self.chunk_size <= self.size);
                let left = self.size - (number - 1) * self.chunk_size;
                if left < self.chunk_size {
                    left
                } else {
                    self.chunk_size
                }
            } else {
                self.chunk_size
            };
            (
                ChunkUpload { stage: ChunkStage::Reading(number), ..self },
                UploadAction::ReadTemp { len },
            )
        } else {
            self.commit()
        }
    }

    fn ended(self, outcome: Result<(), FsError>) -> (res: (
        Self,
        UploadAction<String, Vec<u8>, Vec<String>>,
    ))
        ensures
            (res.0@, res.1@) == chunks_over(self@, outcome),
    {
        (ChunkUpload { stage: ChunkStage::Over, ..self }, UploadAction::Done(outcome))
    }

    /// Goes on with sending a staged file after what was asked for; `now` is the time.
    pub fn step(self, event: UploadEvent<String, Vec<u8>>, now: u64) -> (res: (
        Self,
        UploadAction<String, Vec<u8>, Vec<String>>,
    ))
        requires
            chunks_valid(self@),
            chunks_await(self@, event@),
            is_datable(now),
        ensures
            (res.0@, res.1@) == chunks_next(self@, event@, now),
            chunks_valid(res.0@),
    {
        let ghost before = self@;
        let mut chunks = self;
        let mut stage = ChunkStage::Over;
        std::mem::swap(&mut stage, &mut chunks.stage);
        assert(chunks@ == (ChunkUpload { stage: ChunkStage::Over, ..before }));
        match (stage, event) {
            (ChunkStage::Opening, UploadEvent::TempOpened(true)) => chunks.read_or_commit(1),
            (ChunkStage::Reading(number), UploadEvent::TempRead(Some(bytes))) => {
                let (part, action) = PartUpload::begin(
                    chunks.target.clone(),
                    number as u32,
                    http_date(now),
                    bytes,
                );
                (ChunkUpload { stage: ChunkStage::Sending(number, part), ..chunks }, action)
            },
            (ChunkStage::Sending(number, part), e) => match part.step(e) {
                PartNext::Ask(p, action) => (
                    ChunkUpload { stage: ChunkStage::Sending(number, p), ..chunks },
                    action,
                ),
                PartNext::Tagged(etag) => {
                    if same_text(etag.as_str(), "finish") {
                        return chunks.ended(Ok(()));
                    }
                    let ghost sooner = chunks.etags@;
                    chunks.etags.push(etag);
                    assert(texts(chunks.etags@) =~= texts(sooner).push(etag@));
                    if number < chunks.chunk_count {
                        chunks.read_or_commit(number + 1)
                    } else {
                        chunks.commit()
                    }
                },
                _ => chunks.ended(Err(FsError::GeneralFailure)),
            },
            (ChunkStage::Committing, UploadEvent::Committed(true)) => {
                let obj_key = chunks.target.obj_key.clone();
                let task_id = chunks.target.task_id.clone();
                (
                    ChunkUpload { stage: ChunkStage::Finishing, ..chunks },
                    UploadAction::Finish { obj_key, task_id },
                )
            },
            (ChunkStage::Finishing, UploadEvent::Finished(true)) => chunks.ended(Ok(())),
            _ => chunks.ended(Err(FsError::GeneralFailure)),
        }
    }
}

/// Every step of sending a staged file keeps its stage in agreement with what was sent.
pub proof fn lemma_chunks_stay_valid(
    c: ChunkUpload<Seq<char>, Seq<u8>, Seq<Seq<char>>>,
    event: UploadEvent<Seq<char>, Seq<u8>>,
    now: u64,
)
    requires
        chunks_valid(c),
        chunks_await(c, event),
    ensures
        chunks_valid(chunks_next(c, event, now).0),
{
}

/// How a task on its own goes on.
pub open spec fn task_next(
    t: UploadTask<Seq<char>, Seq<u8>, Seq<Seq<char>>>,
    event: UploadEvent<Seq<char>, Seq<u8>>,
    now: u64,
) -> (
    UploadTask<Seq<char>, Seq<u8>, Seq<Seq<char>>>,
    UploadAction<Seq<char>, Seq<u8>, Seq<Seq<char>>>,
) {
    match t.stage {
        TaskStage::Sending => {
            let (chunks, action) = chunks_next(t.chunks, event, now);
            match action {
                UploadAction::Done(Ok(_)) => (
                    UploadTask { chunks, stage: TaskStage::Cleaning, ..t },
                    UploadAction::RemoveTemp { path: t.chunks.temp_path },
                ),
                UploadAction::Done(Err(e)) => (
                    UploadTask { chunks, stage: TaskStage::Over, ..t },
                    UploadAction::Done(Err(e)),
                ),
                _ => (UploadTask { chunks, ..t }, action),
            }
        },
        TaskStage::Cleaning => (
            UploadTask { stage: TaskStage::Settling, ..t },
            UploadAction::Settle {
                parent_dir: t.parent_dir,
                parent_path: t.parent_path,
                file_name: t.file_name,
            },
        ),
        _ => (UploadTask { stage: TaskStage::Over, ..t }, UploadAction::Done(Ok(()))),
    }
}

/// Whether a task on its own waits for such an event.
pub open spec fn task_awaits(
    t: UploadTask<Seq<char>, Seq<u8>, Seq<Seq<char>>>,
    event: UploadEvent<Seq<char>, Seq<u8>>,
) -> bool {
    match t.stage {
        TaskStage::Sending => chunks_valid(t.chunks) && chunks_await(t.chunks, event),
        TaskStage::Cleaning => event is TempRemoved,
        TaskStage::Settling => event is Settled,
        TaskStage::Over => false,
    }
}

impl UploadTask<String, Vec<u8>, Vec<String>> {
    /// The first thing that a task asks for.
    pub fn start(&self) -> (res: UploadAction<String, Vec<u8>, Vec<String>>)
        ensures
            res@ == (UploadAction::<Seq<char>, Seq<u8>, Seq<Seq<char>>>::OpenTemp {
                path: self@.chunks.temp_path,
            }),
    {
        UploadAction::OpenTemp { path: self.chunks.temp_path.clone() }
    }

    /// Goes on with a task after what was asked for; `now` is the time.
    pub fn step(self, event: UploadEvent<String, Vec<u8>>, now: u64) -> (res: (
        Self,
        UploadAction<String, Vec<u8>, Vec<String>>,
    ))
        requires
            task_awaits(self@, event@),
            is_datable(now),
        ensures
            (res.0@, res.1@) == task_next(self@, event@, now),
            res.0.stage == TaskStage::Sending ==> chunks_valid(res.0@.chunks),
    {
        match self.stage {
            TaskStage::Sending => {
                let UploadTask { chunks, parent_dir, parent_path, file_name, stage: _ } = self;
                let (chunks, action) = chunks.step(event, now);
                match action {
                    UploadAction::Done(Ok(_)) => {
                        let path = chunks.temp_path.clone();
                        let stage = TaskStage::Cleaning;
                        (
                            UploadTask { chunks, parent_dir, parent_path, file_name, stage },
                            UploadAction::RemoveTemp { path },
                        )
                    },
                    UploadAction::Done(Err(e)) => {
                        let stage = TaskStage::Over;
                        (
                            UploadTask { chunks, parent_dir, parent_path, file_name, stage },
                            UploadAction::Done(Err(e)),
                        )
                    },
                    _ => {
                        let stage = TaskStage::Sending;
                        (
                            UploadTask { chunks, parent_dir, parent_path, file_name, stage },
                            action,
                        )
                    },
                }
            },
            TaskStage::Cleaning => {
                let parent_dir = self.parent_dir.clone();
                let parent_path = self.parent_path.clone();
                let file_name = self.file_name.clone();
                (
                    UploadTask { stage: TaskStage::Settling, ..self },
                    UploadAction::Settle { parent_dir, parent_path, file_name },
                )
            },
            _ => (UploadTask { stage: TaskStage::Over, ..self }, UploadAction::Done(Ok(()))),
        }
    }
}

/// The parts of a file follow on one another from its beginning to its end: each begins where
/// the one before ends, none is empty or larger than a whole part, and only the last may be
/// smaller. An empty file has no parts.
pub proof fn law_chunks_cover_the_file(
    c: ChunkUpload<Seq<char>, Seq<u8>, Seq<Seq<char>>>,
    number: int,
)
    requires
        c.chunk_size > 0,
        c.chunk_count == chunk_count_of(c.size, c.chunk_size),
    ensures
        c.fits(),
        c.chunk_count == 0 <==> c.size == 0,
        chunk_start(c.chunk_size, 1) == 0,
        1 <= number <= c.chunk_count ==> 0 < c.chunk_len(number) <= c.chunk_size,
        1 <= number < c.chunk_count ==> c.chunk_len(number) == c.chunk_size && chunk_start(
            c.chunk_size,
            number,
        ) + c.chunk_len(number) == chunk_start(c.chunk_size, number + 1),
        1 <= number == c.chunk_count ==> chunk_start(c.chunk_size, number) + c.chunk_len(number)
            == c.size,
{
    let size = c.size as int;
    let part = c.chunk_size as int;
    let whole = size / part;
    let rest = size % part;
    assert(size == whole * part + rest && 0 <= rest < part) by (nonlinear_arith)
        requires
            part > 0,
            whole == size / part,
            rest == size % part,
    ;
    assert(whole >= 0) by (nonlinear_arith)
        requires
            part > 0,
            size >= 0,
            whole == size / part,
    ;
    assert((whole - 1) * part == whole * part - part) by (nonlinear_arith);
    assert((whole + 1 - 1) * part == whole * part);
    assert((number + 1 - 1) * part == (number - 1) * part + part) by (nonlinear_arith);
    assert(size == 0 ==> whole == 0 && rest == 0) by (nonlinear_arith)
        requires
            size == whole * part + rest,
            part > 0,
            whole >= 0,
            rest >= 0,
    ;
    assert(whole == 0 ==> whole * part == 0) by (nonlinear_arith);
}

/// A part that was read is sent as it was read, under its own number, and its tag is kept
/// behind those of the parts before.
pub proof fn law_each_part_is_sent_as_read(
    c: ChunkUpload<Seq<char>, Seq<u8>, Seq<Seq<char>>>,
    number: u64,
    bytes: Seq<u8>,
    meta: Seq<char>,
    key: Seq<char>,
    etag: Seq<char>,
    now: u64,
    later: u64,
)
    requires
        c.stage == ChunkStage::<Seq<char>, Seq<u8>>::Reading(number),
        etag != "finish"@,
    ensures
        ({
            let read = chunks_next(c, UploadEvent::TempRead(Some(bytes)), now);
            let signed = chunks_next(read.0, UploadEvent::Meta(Some(meta)), later);
            let sent = chunks_next(signed.0, UploadEvent::Key(Some(key)), later);
            let tagged = chunks_next(sent.0, UploadEvent::Etag(Some(Some(etag))), later);
            &&& sent.1 == UploadAction::<Seq<char>, Seq<u8>, Seq<Seq<char>>>::UpPart(
                part_request(c.target, number as u32, http_date_of(now), bytes, key),
            )
            &&& tagged == chunk_or_commit(
                ChunkUpload { etags: c.etags.push(etag), stage: sent.0.stage, ..c },
                number + 1,
            )
        }),
{
}

/// An upload is committed only with one tag for each part, and ended only after it was
/// committed.
pub proof fn law_commit_has_every_tag(
    c: ChunkUpload<Seq<char>, Seq<u8>, Seq<Seq<char>>>,
    event: UploadEvent<Seq<char>, Seq<u8>>,
    now: u64,
)
    requires
        chunks_valid(c),
        chunks_await(c, event),
    ensures
        chunks_next(c, event, now).1 matches UploadAction::Commit(req) ==> req.md5s.len()
            == c.chunk_count,
        chunks_next(c, event, now).1 is Finish ==> event
            == UploadEvent::<Seq<char>, Seq<u8>>::Committed(true),
{
}

/// A task on its own succeeds only when the staged file was sent and removed, and the file was
/// seen in its directory.
pub proof fn law_task_succeeds_only_once_settled(
    t: UploadTask<Seq<char>, Seq<u8>, Seq<Seq<char>>>,
    event: UploadEvent<Seq<char>, Seq<u8>>,
    now: u64,
)
    requires
        task_awaits(t, event),
    ensures
        task_next(t, event, now).1 matches UploadAction::Done(Ok(_)) ==> t.stage
            == TaskStage::Settling && event is Settled,
        task_next(t, event, now).1 is Settle ==> t.stage == TaskStage::Cleaning && event
            is TempRemoved,
        task_next(t, event, now).1 is RemoveTemp ==> chunks_next(t.chunks, event, now).1
            matches UploadAction::Done(Ok(_)),
{
    if let ChunkStage::Sending(_, part) = t.chunks.stage {
        assert(part_next(part, event) matches PartNext::Ask(_, a) ==> !(a is Done) && !(a
            is Settle) && !(a is RemoveTemp));
    }
}

/// Whether sending a staged file reads the part with the given number next: a whole part, or of
/// the last one what is left of the file, if that is less. Nothing else of it changes.
pub open spec fn reads_next(
    c: ChunkUpload<Seq<char>, Seq<u8>, Seq<Seq<char>>>,
    number: int,
    etags: Seq<Seq<char>>,
    next: (
        ChunkUpload<Seq<char>, Seq<u8>, Seq<Seq<char>>>,
        UploadAction<Seq<char>, Seq<u8>, Seq<Seq<char>>>,
    ),
) -> bool {
    let left = c.size - (number - 1) * c.chunk_size;
    &&& next.1 matches UploadAction::ReadTemp { len } && len == (if number == c.chunk_count && left
        < c.chunk_size {
        left
    } else {
        c.chunk_size as int
    })
    &&& next.0.stage matches ChunkStage::Reading(n) && n == number
    &&& next.0 == (ChunkUpload { stage: next.0.stage, etags, ..c })
}

/// Whether sending a staged file ends with the request that puts its parts together, by these
/// tags in this order. Nothing else of it changes.
pub open spec fn commits_next(
    c: ChunkUpload<Seq<char>, Seq<u8>, Seq<Seq<char>>>,
    etags: Seq<Seq<char>>,
    next: (
        ChunkUpload<Seq<char>, Seq<u8>, Seq<Seq<char>>>,
        UploadAction<Seq<char>, Seq<u8>, Seq<Seq<char>>>,
    ),
) -> bool {
    &&& next.1 matches UploadAction::Commit(req) && {
        &&& req.md5s == etags
        &&& req.callback == c.callback
        &&& req.bucket == c.target.bucket
        &&& req.obj_key == c.target.obj_key
        &&& req.upload_id == c.target.upload_id
        &&& req.auth_info == c.target.auth_info
        &&& req.task_id == c.target.task_id
        &&& req.upload_url == c.target.upload_url
    }
    &&& next.0.stage is Committing
    &&& next.0 == (ChunkUpload { stage: next.0.stage, etags, ..c })
}

/// A staged file is opened, and then its parts are read and sent in order: after each tag the
/// next part is read, and after the tag of the last the parts are put together, by all tags in
/// order. The tag `finish` ends it well at once. Then the upload is ended, and that ends it well;
/// whatever fails on the way ends it at once, and not well.
pub proof fn law_chunks_are_sent_in_order(
    c: ChunkUpload<Seq<char>, Seq<u8>, Seq<Seq<char>>>,
    event: UploadEvent<Seq<char>, Seq<u8>>,
    now: u64,
)
    requires
        chunks_valid(c),
        chunks_await(c, event),
    ensures
        ({
            let next = chunks_next(c, event, now);
            let fails = next.1 == UploadAction::<Seq<char>, Seq<u8>, Seq<Seq<char>>>::Done(
                Err(FsError::GeneralFailure),
            ) && next.0 == (ChunkUpload { stage: ChunkStage::Over, ..c });
            let succeeds = next.1 == UploadAction::<Seq<char>, Seq<u8>, Seq<Seq<char>>>::Done(
                Ok(()),
            ) && next.0 == (ChunkUpload { stage: ChunkStage::Over, ..c });
            match c.stage {
                ChunkStage::Opening => if event == UploadEvent::<Seq<char>, Seq<u8>>::TempOpened(
                    true,
                ) {
                    if c.chunk_count > 0 {
                        reads_next(c, 1, c.etags, next)
                    } else {
                        commits_next(c, c.etags, next)
                    }
                } else {
                    fails
                },
                ChunkStage::Reading(number) => match event {
                    UploadEvent::TempRead(Some(read)) => {
                        &&& next.1 is PartAuthMeta
                        &&& next.0 == (ChunkUpload { stage: next.0.stage, ..c })
                        &&& next.0.stage matches ChunkStage::Sending(n, part) && {
                            &&& n == number
                            &&& part matches PartUpload::Meta {
                                target,
                                part_number,
                                utc_time,
                                bytes,
                            } && target == c.target && part_number == number as u32 && utc_time
                                == http_date_of(now) && bytes == read
                        }
                        &&& next.1 == part_begun(c.target, number as u32, http_date_of(now))
                    },
                    _ => fails,
                },
                ChunkStage::Sending(number, part) => match part_next(part, event) {
                    PartNext::Tagged(etag) => if etag == "finish"@ {
                        succeeds
                    } else if number < c.chunk_count {
                        reads_next(c, number + 1, c.etags.push(etag), next)
                    } else {
                        commits_next(c, c.etags.push(etag), next)
                    },
                    PartNext::Ask(p, action) => {
                        &&& next.1 == action
                        &&& next.0.stage matches ChunkStage::Sending(n, q) && n == number && q == p
                        &&& next.0 == (ChunkUpload { stage: next.0.stage, ..c })
                    },
                    _ => fails,
                },
                ChunkStage::Committing => if event == UploadEvent::<Seq<char>, Seq<u8>>::Committed(
                    true,
                ) {
                    &&& next.1 matches UploadAction::Finish { obj_key, task_id } && obj_key
                        == c.target.obj_key && task_id == c.target.task_id
                    &&& next.0.stage is Finishing
                    &&& next.0 == (ChunkUpload { stage: next.0.stage, ..c })
                } else {
                    fails
                },
                ChunkStage::Finishing => if event == UploadEvent::<Seq<char>, Seq<u8>>::Finished(
                    true,
                ) {
                    succeeds
                } else {
                    fails
                },
                ChunkStage::Over => false,
            }
        }),
{
}

/// A file has so many parts that all but the last are whole, and the last is not empty.
pub proof fn law_as_many_parts_as_needed(size: u64, chunk_size: u64)
    requires
        chunk_size > 0,
    ensures
        ({
            let count = chunk_count_of(size, chunk_size);
            &&& count * chunk_size >= size
            &&& (count - 1) * chunk_size < size
            &&& count >= 0
        }),
{
    let n = size as int;
    let part = chunk_size as int;
    let whole = n / part;
    let rest = n % part;
    assert(n == whole * part + rest && 0 <= rest < part && whole >= 0) by (nonlinear_arith)
        requires
            part > 0,
            n >= 0,
            whole == n / part,
            rest == n % part,
    ;
    assert((whole + 1) * part == whole * part + part) by (nonlinear_arith);
    assert((whole - 1) * part == whole * part - part) by (nonlinear_arith);
}

/// A task on its own sends its staged file, then removes that file, then waits until the new one
/// is listed in its directory, and then ends well. Where sending fails, the task ends with that,
/// and removes nothing.
pub proof fn law_task_sends_then_cleans_then_settles(
    t: UploadTask<Seq<char>, Seq<u8>, Seq<Seq<char>>>,
    event: UploadEvent<Seq<char>, Seq<u8>>,
    now: u64,
)
    requires
        task_awaits(t, event),
    ensures
        ({
            let (after, action) = task_next(t, event, now);
            let (chunks, sent) = chunks_next(t.chunks, event, now);
            &&& after.parent_dir == t.parent_dir
            &&& after.parent_path == t.parent_path
            &&& after.file_name == t.file_name
            &&& match t.stage {
                TaskStage::Sending => {
                    &&& after.chunks == chunks
                    &&& match sent {
                        UploadAction::Done(Ok(_)) => after.stage is Cleaning && (action
                            matches UploadAction::RemoveTemp { path } && path
                            == t.chunks.temp_path),
                        UploadAction::Done(Err(e)) => after.stage is Over && action
                            == UploadAction::<Seq<char>, Seq<u8>, Seq<Seq<char>>>::Done(Err(e)),
                        _ => after.stage is Sending && action == sent,
                    }
                },
                TaskStage::Cleaning => after.stage is Settling && (action
                    matches UploadAction::Settle { parent_dir, parent_path, file_name }
                    && parent_dir == t.parent_dir && parent_path == t.parent_path && file_name
                    == t.file_name),
                _ => after.stage is Over && action == UploadAction::<
                    Seq<char>,
                    Seq<u8>,
                    Seq<Seq<char>>,
                >::Done(Ok(())),
            }
        }),
{
}

}

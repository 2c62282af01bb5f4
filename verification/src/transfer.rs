//! What becomes of the bytes of an upload: what is sent, or staged, is what was written.
use vstd::prelude::*;
#[allow(unused_imports)]
use vstd::arithmetic::div_mod::{
    lemma_fundamental_div_mod, lemma_fundamental_div_mod_converse, lemma_mod_add_multiples_vanish,
    lemma_mod_sub_multiples_vanish, lemma_small_mod,
};
#[allow(unused_imports)]
use crate::chunks::{chunk_count_of, ChunkStage};
#[allow(unused_imports)]
use crate::part::{
    part_next, ActionView, EventView, PartNext, PartUpload, UploadAction, UploadEvent,
};
#[allow(unused_imports)]
use crate::plan::{
    law_step_keeps_every_byte, law_write_takes_every_byte, lemma_step_keeps_valid,
};
#[allow(unused_imports)]
use crate::upload::{DavFileView, Phase, UploadView};
#[allow(unused_imports)]
use crate::vfs::FsView;

verus! {

/// What happens to an open file.
pub enum Input {
    /// The client writes bytes.
    Write(Seq<u8>),
    /// The client flushes.
    Flush,
    /// What was asked for comes back.
    Reply(EventView),
}

/// An open file, and what has gone in and out of it since it was opened.
#[verifier::ext_equal]
pub struct Transfer {
    pub file: DavFileView,
    /// What was asked for last.
    pub action: ActionView,
    /// The bytes that the client has written.
    pub written: Seq<u8>,
    /// The bytes of the parts that went to the store, one part behind the other.
    pub sent: Seq<u8>,
    /// The parts that went to the store.
    pub parts: Seq<Seq<u8>>,
    /// How often the upload was announced.
    pub announcements: nat,
    /// The bytes that were appended to the staged file.
    pub staged: Seq<u8>,
}

impl Transfer {
    /// After the file took an input.
    pub open spec fn after(self, fs: FsView, input: Input, now: u64) -> Transfer {
        let (file, action) = match input {
            Input::Write(bytes) => self.file.write_begun(fs, bytes, now),
            Input::Flush => self.file.flush_begun(now),
            Input::Reply(event) => self.file.next(fs, event, now),
        };
        Transfer {
            file,
            action,
            written: match input {
                Input::Write(bytes) => self.written + bytes,
                _ => self.written,
            },
            sent: match action {
                UploadAction::UpPart(req) => if self.file.is_streaming() {
                    self.sent + req.part_bytes
                } else {
                    self.sent
                },
                _ => self.sent,
            },
            parts: match action {
                UploadAction::UpPart(req) => if self.file.is_streaming() {
                    self.parts.push(req.part_bytes)
                } else {
                    self.parts
                },
                _ => self.parts,
            },
            announcements: if action is UpPre {
                self.announcements + 1
            } else {
                self.announcements
            },
            staged: match action {
                UploadAction::AppendTemp { bytes, .. } => self.staged + bytes,
                _ => self.staged,
            },
        }
    }

    /// Whether the file takes such an input now: a client waits for one thing to be done before
    /// it asks for the next.
    pub open spec fn takes(self, input: Input) -> bool {
        match input {
            Input::Write(bytes) => self.file.phase is Idle && self.file.can_take(
                bytes.len() as int,
            ) && self.file.can_send(),
            Input::Flush => self.file.phase is Idle && self.file.can_send(),
            Input::Reply(event) => self.file.awaits(event),
        }
    }

    /// The part that the digests took in and that is not on its way yet.
    pub open spec fn waiting_part(self) -> Seq<u8> {
        match self.file.phase {
            Phase::StreamPart { part, .. } => match part {
                PartUpload::Meta { bytes, .. } => bytes,
                PartUpload::Auth { bytes, .. } => bytes,
                PartUpload::Put => Seq::empty(),
            },
            _ => Seq::empty(),
        }
    }

    /// Whether the upload is under way and nothing of it has failed.
    pub open spec fn goes_well(self) -> bool {
        &&& self.file.is_live()
        &&& !(self.action matches UploadAction::Done(Err(_)))
        &&& !(self.file.phase is Waiting)
        &&& !(self.file.phase is Cleaning)
    }

    /// No byte is lost, doubled or out of its place. Of a file that is sent as it arrives: what
    /// was sent, then the part that waits, then the buffer, then what has just arrived. Of a
    /// file that is staged: what was staged.
    pub open spec fn keeps_every_byte(self) -> bool {
        &&& self.file.valid()
        &&& self.file.all_bytes() == self.written
        &&& self.sent + self.waiting_part() == if self.file.state.streaming {
            self.file.hashed
        } else {
            Seq::empty()
        }
        &&& self.staged == if self.file.state.streaming {
            Seq::empty()
        } else {
            self.written
        }
        &&& !self.file.state.streaming ==> self.file.state.size == self.written.len()
    }
}

/// A file that was just opened for writing, before anything was written.
pub open spec fn untouched(file: DavFileView) -> Transfer {
    Transfer {
        file,
        action: UploadAction::Done(Ok(())),
        written: Seq::empty(),
        sent: Seq::empty(),
        parts: Seq::empty(),
        announcements: 0,
        staged: Seq::empty(),
    }
}

/// From the moment it is opened, whatever the client and the drive do, a file keeps every byte
/// for as long as its upload goes well. This is how it begins.
pub proof fn law_open_file_keeps_every_byte(file: DavFileView)
    requires
        file.valid(),
        file.phase is Idle,
        file.hashed.len() == 0,
        file.state.part_buf.len() == 0,
        file.state.size == 0,
    ensures
        untouched(file).keeps_every_byte(),
{
    assert(file.all_bytes() =~= Seq::<u8>::empty());
    assert(file.hashed =~= Seq::<u8>::empty());
}

/// From the moment it is opened, whatever the client and the drive do, a file keeps every byte
/// for as long as its upload goes well. This is how it goes on.
pub proof fn law_transfer_keeps_every_byte(t: Transfer, fs: FsView, input: Input, now: u64)
    requires
        t.keeps_every_byte(),
        t.goes_well(),
        t.takes(input),
    ensures
        t.after(fs, input, now).goes_well() ==> t.after(fs, input, now).keeps_every_byte(),
{
    let after = t.after(fs, input, now);
    match input {
        Input::Write(bytes) => {
            law_write_takes_every_byte(t.file, fs, bytes, now);
            lemma_write(t, fs, bytes, now);
        },
        Input::Flush => {
            lemma_flush(t, fs, now);
        },
        Input::Reply(event) => {
            law_step_keeps_every_byte(t.file, fs, event, now);
            lemma_step_keeps_valid(t.file, fs, event, now);
            lemma_reply(t, fs, event, now);
        },
    }
}

proof fn lemma_write(t: Transfer, fs: FsView, bytes: Seq<u8>, now: u64)
    requires
        t.keeps_every_byte(),
        t.goes_well(),
        t.takes(Input::Write(bytes)),
        t.file.write_begun(fs, bytes, now).0.all_bytes() == t.file.all_bytes() + bytes
            || !t.after(fs, Input::Write(bytes), now).goes_well(),
    ensures
        t.after(fs, Input::Write(bytes), now).goes_well() ==> t.after(
            fs,
            Input::Write(bytes),
            now,
        ).keeps_every_byte(),
{
    let after = t.after(fs, Input::Write(bytes), now);
    assert(t.sent + t.waiting_part() =~= t.sent);
    assert(after.sent == t.sent);
    if t.file.state.streaming && t.file.state.stream_started {
        let n = t.file.state.chunk_size as int;
        let arrived = t.file.with_arrived(bytes);
        if t.file.state.chunk_size > 0 && arrived.state.part_buf.len() >= n {
            assert(after.waiting_part() == arrived.state.part_buf.take(n));
        } else {
            assert(after.sent + after.waiting_part() =~= after.sent);
        }
    } else {
        assert(after.sent + after.waiting_part() =~= after.sent);
    }
}

proof fn lemma_flush(t: Transfer, fs: FsView, now: u64)
    requires
        t.keeps_every_byte(),
        t.goes_well(),
        t.takes(Input::Flush),
    ensures
        t.after(fs, Input::Flush, now).goes_well() ==> t.after(
            fs,
            Input::Flush,
            now,
        ).keeps_every_byte(),
{
    let after = t.after(fs, Input::Flush, now);
    let held = t.file.state.part_buf;
    assert(t.sent + t.waiting_part() =~= t.sent);
    assert(t.file.all_bytes() =~= t.file.hashed + held);
    if t.file.state.streaming && t.file.state.stream_started && held.len() > 0 {
        assert(held.take(held.len() as int) =~= held);
        assert(after.file.all_bytes() =~= t.file.hashed + held);
        assert(after.waiting_part() == held.take(held.len() as int));
    } else {
        assert(after.file.all_bytes() =~= t.file.hashed + held);
        assert(after.sent + after.waiting_part() =~= after.sent);
    }
}

proof fn lemma_reply(t: Transfer, fs: FsView, event: EventView, now: u64)
    requires
        t.keeps_every_byte(),
        t.goes_well(),
        t.takes(Input::Reply(event)),
        t.after(fs, Input::Reply(event), now).file.valid(),
        t.after(fs, Input::Reply(event), now).goes_well() ==> t.after(
            fs,
            Input::Reply(event),
            now,
        ).file.all_bytes() == t.file.all_bytes(),
    ensures
        t.after(fs, Input::Reply(event), now).goes_well() ==> t.after(
            fs,
            Input::Reply(event),
            now,
        ).keeps_every_byte(),
{
    let after = t.after(fs, Input::Reply(event), now);
    if let Phase::StreamPart { part, flushing } = t.file.phase {
        match part_next(part, event) {
            PartNext::Ask(next, action) => {
                assert(after.sent + after.waiting_part() =~= t.sent + t.waiting_part());
            },
            PartNext::Tagged(_) => {
                assert(t.sent + t.waiting_part() =~= t.sent);
                if after.file.phase is StreamPart {
                    assert(after.sent + after.waiting_part() == after.file.hashed);
                } else {
                    assert(after.sent + after.waiting_part() =~= t.sent);
                }
            },
            _ => {},
        }
    } else {
        assert(t.sent + t.waiting_part() =~= t.sent);
        if !(after.file.phase is StreamPart) {
            assert(after.sent + after.waiting_part() =~= after.sent);
        }
    }
}

/// When the parts of a file that was sent as it arrived are put together, what was sent is what
/// was written.
pub proof fn law_what_is_committed_was_written(t: Transfer, fs: FsView, input: Input, now: u64)
    requires
        t.keeps_every_byte(),
        t.goes_well(),
        t.takes(input),
        t.file.state.streaming,
    ensures
        t.after(fs, input, now).action is Commit && !(t.file.phase is Chunks) ==> t.after(
            fs,
            input,
            now,
        ).sent == t.written,
{
    let after = t.after(fs, input, now);
    if let Phase::StreamPart { part, flushing } = t.file.phase {
        if let Input::Reply(event) = input {
            assert(part_next(part, event) matches PartNext::Ask(_, a) ==> !(a is Commit));
        }
    }
    if t.file.phase is StreamHashing {
        assert(t.file.all_bytes() =~= t.file.hashed);
        assert(t.sent + t.waiting_part() =~= t.sent);
    }
}

/// When a staged file is handed to a task, what was staged is what was written, and the task
/// sends just so many bytes.
pub proof fn law_what_is_spawned_was_written(t: Transfer, fs: FsView, input: Input, now: u64)
    requires
        t.keeps_every_byte(),
        t.goes_well(),
        t.takes(input),
    ensures
        t.after(fs, input, now).action matches UploadAction::Spawn { task, .. } ==> {
            &&& t.staged == t.written
            &&& task.chunks.size == t.written.len()
            &&& task.chunks.chunk_size > 0
            &&& task.chunks.chunk_count == chunk_count_of(
                task.chunks.size,
                task.chunks.chunk_size,
            )
            &&& task.chunks.temp_path == t.file.state.temp_file_path
        },
{
    if let Phase::StreamPart { part, flushing } = t.file.phase {
        if let Input::Reply(event) = input {
            assert(part_next(part, event) matches PartNext::Ask(_, a) ==> !(a is Spawn));
        }
    }
    if let Phase::Chunks(c) = t.file.phase {
        if let ChunkStage::Sending(_, part) = c.stage {
            if let Input::Reply(event) = input {
                assert(part_next(part, event) matches PartNext::Ask(_, a) ==> !(a is Spawn));
            }
        }
    }
}

/// A file that is sent as it arrives is never staged, neither as a whole nor in part.
pub proof fn law_streamed_file_is_never_staged(t: Transfer, fs: FsView, input: Input, now: u64)
    requires
        t.file.valid(),
        t.takes(input),
        t.file.state.streaming,
        !t.file.is_flushing(),
    ensures
        ({
            let after = t.after(fs, input, now);
            &&& !(after.action is AppendTemp)
            &&& !(after.action is MakeTemp)
            &&& !(after.action is Spawn)
            &&& !after.file.is_flushing()
        }),
{
    if let Phase::StreamPart { part, flushing } = t.file.phase {
        if let Input::Reply(event) = input {
            assert(part_next(part, event) matches PartNext::Ask(_, a) ==> !(a is AppendTemp) && !(a
                is MakeTemp) && !(a is Spawn));
        }
    }
}

/// The whole parts of so many bytes each that some bytes begin with.
pub open spec fn whole_parts(bytes: Seq<u8>, size: int) -> Seq<Seq<u8>>
    decreases bytes.len(),
{
    if 0 < size <= bytes.len() {
        seq![bytes.take(size)] + whole_parts(bytes.skip(size), size)
    } else {
        Seq::empty()
    }
}

proof fn lemma_whole_parts_add(a: Seq<u8>, b: Seq<u8>, size: int)
    requires
        size > 0,
        a.len() as int % size == 0,
    ensures
        whole_parts(a + b, size) == whole_parts(a, size) + whole_parts(b, size),
    decreases a.len(),
{
    if a.len() == 0 {
        assert(a + b =~= b);
        assert(whole_parts(a, size) + whole_parts(b, size) =~= whole_parts(b, size));
    } else {
        if a.len() < size {
            lemma_small_mod(a.len(), size as nat);
        }
        lemma_mod_sub_multiples_vanish(a.len() as int, size);
        let rest = a.skip(size);
        assert((a + b).take(size) =~= a.take(size));
        assert((a + b).skip(size) =~= rest + b);
        lemma_whole_parts_add(rest, b, size);
        assert(seq![a.take(size)] + (whole_parts(rest, size) + whole_parts(b, size)) =~= (seq![
            a.take(size),
        ] + whole_parts(rest, size)) + whole_parts(b, size));
    }
}

proof fn lemma_one_more_part(hashed: Seq<u8>, part: Seq<u8>, size: int)
    requires
        size > 0,
        part.len() == size,
        hashed.len() == 0 || hashed.len() as int % size == 0,
    ensures
        whole_parts(hashed + part, size) == whole_parts(hashed, size).push(part),
        (hashed + part).len() as int % size == 0,
{
    if hashed.len() == 0 {
        lemma_small_mod(0, size as nat);
    }
    lemma_whole_parts_add(hashed, part, size);
    assert(part.take(size) =~= part);
    assert(whole_parts(part.skip(size), size) =~= Seq::<Seq<u8>>::empty());
    assert(whole_parts(part, size) =~= seq![part]);
    assert(whole_parts(hashed, size) + seq![part] =~= whole_parts(hashed, size).push(part));
    lemma_mod_add_multiples_vanish(hashed.len() as int, size);
}

impl Transfer {
    /// The part that waits, if there is one.
    pub open spec fn waiting_parts(self) -> Seq<Seq<u8>> {
        match self.file.phase {
            Phase::StreamPart { part, .. } => match part {
                PartUpload::Meta { bytes, .. } => seq![bytes],
                PartUpload::Auth { bytes, .. } => seq![bytes],
                PartUpload::Put => Seq::empty(),
            },
            _ => Seq::empty(),
        }
    }

    /// Of a file that is sent as it arrives and is not flushed yet: only whole parts were sent,
    /// those that the bytes in the digests are cut into; less than a part is held when a write
    /// is done; and the upload was announced once, when the first bytes came.
    pub open spec fn cuts_whole_parts(self) -> bool {
        let size = self.file.state.chunk_size as int;
        let hashed = self.file.hashed;
        &&& self.file.state.streaming
        &&& self.file.state.declared_size is Some
        &&& self.parts + self.waiting_parts() == whole_parts(hashed, size)
        &&& hashed.len() == 0 || (size > 0 && hashed.len() as int % size == 0)
        &&& !self.file.state.stream_started ==> self.file.phase is Idle && hashed.len() == 0
            && self.file.state.part_buf.len() == 0
        &&& self.announcements == if self.file.state.stream_started && !(self.file.phase
            is StreamRemoving) {
            1nat
        } else {
            0nat
        }
        &&& match self.file.phase {
            Phase::Idle => self.file.state.stream_started ==> self.file.state.part_buf.len()
                < size,
            Phase::StreamRemoving(_) => hashed.len() == 0 && self.file.state.part_buf.len() == 0,
            Phase::StreamAnnouncing(_) => hashed.len() == 0 && self.file.state.part_buf.len()
                == 0,
            Phase::StreamPart { flushing, .. } => !flushing && size > 0,
            _ => false,
        }
    }
}

/// A file that is sent as it arrives sends whole parts only, until it is flushed. This is how it
/// begins.
pub proof fn law_open_file_cuts_whole_parts(file: DavFileView)
    requires
        file.nothing_written(),
        file.state.streaming,
        file.state.declared_size is Some,
        file.hashed.len() == 0,
        file.state.part_buf.len() == 0,
    ensures
        untouched(file).cuts_whole_parts(),
{
    assert(untouched(file).parts + untouched(file).waiting_parts() =~= Seq::<Seq<u8>>::empty());
}

proof fn lemma_write_on_cuts(t: Transfer, file: DavFileView, after: Transfer, now: u64)
    requires
        t.file.state.chunk_size > 0 || t.file.hashed.len() == 0,
        file.hashed == t.file.hashed,
        file.state.streaming,
        file.state.stream_started,
        file.state.declared_size is Some,
        t.parts == whole_parts(file.hashed, file.state.chunk_size as int),
        file.hashed.len() == 0 || (file.state.chunk_size > 0 && file.hashed.len() as int
            % file.state.chunk_size as int == 0),
        t.announcements == 1,
        (after.file, after.action) == file.write_on(now),
        after.parts == t.parts,
        after.announcements == t.announcements,
    ensures
        after.goes_well() ==> after.cuts_whole_parts(),
{
    let size = file.state.chunk_size as int;
    if size > 0 && file.state.part_buf.len() >= size {
        let part = file.state.part_buf.take(size);
        lemma_one_more_part(file.hashed, part, size);
        assert(after.waiting_parts() == seq![part]);
        assert(after.parts + seq![part] =~= after.parts.push(part));
    } else {
        assert(after.parts + after.waiting_parts() =~= after.parts);
    }
}

/// A file that is sent as it arrives sends whole parts only, until it is flushed. This is how it
/// goes on.
pub proof fn law_stream_cuts_whole_parts(t: Transfer, fs: FsView, input: Input, now: u64)
    requires
        t.cuts_whole_parts(),
        t.goes_well(),
        t.takes(input),
        !(input is Flush),
    ensures
        t.after(fs, input, now).goes_well() ==> t.after(fs, input, now).cuts_whole_parts(),
{
    let after = t.after(fs, input, now);
    let size = t.file.state.chunk_size as int;
    match input {
        Input::Write(bytes) => {
            assert(t.parts + t.waiting_parts() =~= t.parts);
            if t.file.state.stream_started {
                lemma_write_on_cuts(t, t.file.with_arrived(bytes), after, now);
            } else {
                assert(after.parts + after.waiting_parts() =~= t.parts);
            }
        },
        Input::Flush => {},
        Input::Reply(event) => match (t.file.phase, event) {
            (Phase::StreamRemoving(_), _) => {
                assert(t.parts + t.waiting_parts() =~= t.parts);
                assert(after.parts + after.waiting_parts() =~= t.parts);
            },
            (Phase::StreamAnnouncing(bytes), UploadEvent::Announced(Some(r))) => {
                assert(t.parts + t.waiting_parts() =~= t.parts);
                assert(t.parts =~= Seq::<Seq<u8>>::empty());
                if !r.finish && r.upload_id is Some {
                    let file = t.file.adopted(
                        r,
                        t.file.state.declared_size->0,
                        r.part_size,
                        t.file.state.chunk_count,
                    ).with_arrived(bytes);
                    assert(whole_parts(file.hashed, r.part_size as int) =~= Seq::<
                        Seq<u8>,
                    >::empty());
                    lemma_write_on_cuts(t, file, after, now);
                }
            },
            (Phase::StreamPart { part, flushing }, _) => {
                match part_next(part, event) {
                    PartNext::Ask(next, action) => {
                        assert(after.parts + after.waiting_parts() =~= t.parts
                            + t.waiting_parts());
                    },
                    PartNext::Tagged(etag) => {
                        assert(t.parts + t.waiting_parts() =~= t.parts);
                        if etag != "finish"@ {
                            let kept = DavFileView {
                                state: UploadView {
                                    etags: t.file.state.etags.push(etag),
                                    ..t.file.state
                                },
                                ..t.file
                            };
                            lemma_write_on_cuts(t, kept, after, now);
                        }
                    },
                    _ => {},
                }
            },
            _ => {},
        },
    }
}

/// When a write is done, the parts that were sent are the whole parts of all that was written,
/// and the buffer holds the rest, which is less than a part.
pub proof fn law_parts_are_those_of_the_bytes(t: Transfer)
    requires
        t.keeps_every_byte(),
        t.cuts_whole_parts(),
        t.file.phase is Idle,
    ensures
        t.parts == whole_parts(t.written, t.file.state.chunk_size as int),
        t.sent + t.file.state.part_buf == t.written,
        t.file.state.stream_started ==> t.file.state.part_buf.len() < t.file.state.chunk_size,
        t.file.state.stream_started ==> t.announcements == 1,
{
    let size = t.file.state.chunk_size as int;
    let held = t.file.state.part_buf;
    assert(t.parts + t.waiting_parts() =~= t.parts);
    assert(t.sent + t.waiting_part() =~= t.sent);
    assert(t.file.all_bytes() =~= t.file.hashed + held);
    if t.file.hashed.len() == 0 {
        assert(t.file.hashed + held =~= held);
    } else {
        lemma_whole_parts_add(t.file.hashed, held, size);
        assert(whole_parts(held, size) =~= Seq::<Seq<u8>>::empty());
        assert(t.parts + whole_parts(held, size) =~= t.parts);
    }
}

/// How the bytes of a file are cut into writes changes no part: two files to which the same
/// bytes were written, and whose parts are of the same size, have sent the same parts and hold
/// the same rest.
pub proof fn law_cutting_into_writes_changes_no_part(t: Transfer, u: Transfer)
    requires
        t.keeps_every_byte(),
        t.cuts_whole_parts(),
        t.file.phase is Idle,
        u.keeps_every_byte(),
        u.cuts_whole_parts(),
        u.file.phase is Idle,
        t.written == u.written,
        t.file.state.chunk_size == u.file.state.chunk_size,
    ensures
        t.parts == u.parts,
        t.file.state.part_buf.len() < t.file.state.chunk_size && u.file.state.part_buf.len()
            < u.file.state.chunk_size ==> t.file.state.part_buf == u.file.state.part_buf
            && t.file.hashed == u.file.hashed,
{
    law_parts_are_those_of_the_bytes(t);
    law_parts_are_those_of_the_bytes(u);
    let size = t.file.state.chunk_size as int;
    assert(t.file.all_bytes() =~= t.file.hashed + t.file.state.part_buf);
    assert(u.file.all_bytes() =~= u.file.hashed + u.file.state.part_buf);
    if t.file.state.part_buf.len() < size && u.file.state.part_buf.len() < size {
        lemma_rest_of_division(t.file.hashed.len(), t.file.state.part_buf.len(), size);
        lemma_rest_of_division(u.file.hashed.len(), u.file.state.part_buf.len(), size);
        assert(t.file.state.part_buf.len() == u.file.state.part_buf.len());
        let n = t.file.hashed.len() as int;
        assert(t.file.hashed =~= t.written.take(n));
        assert(u.file.hashed =~= t.written.take(n));
        assert(t.file.state.part_buf =~= t.written.skip(n));
        assert(u.file.state.part_buf =~= t.written.skip(n));
    }
}

proof fn lemma_rest_of_division(whole: nat, rest: nat, size: int)
    requires
        size > 0,
        rest < size,
        whole == 0 || whole as int % size == 0,
    ensures
        (whole + rest) as int % size == rest,
{
    if whole == 0 {
        lemma_small_mod(0, size as nat);
    }
    let count = whole as int / size;
    lemma_fundamental_div_mod(whole as int, size);
    assert(size * count == count * size) by (nonlinear_arith);
    lemma_fundamental_div_mod_converse((whole + rest) as int, size, count, rest as int);
}

/// Whether the drive does what it is asked, and gives parts a size.
pub open spec fn is_good(event: EventView) -> bool {
    match event {
        UploadEvent::Announced(reply) => reply matches Some(r) && (r.finish || (r.upload_id is Some
            && r.part_size > 0)),
        UploadEvent::Meta(m) => m is Some,
        UploadEvent::Key(k) => k is Some,
        UploadEvent::Etag(e) => e matches Some(Some(_)),
        _ => true,
    }
}

/// A write of a file that is sent as it arrives fails only if the drive does.
pub proof fn law_write_fails_only_if_the_drive_does(
    t: Transfer,
    fs: FsView,
    input: Input,
    now: u64,
)
    requires
        t.cuts_whole_parts(),
        t.goes_well(),
        t.takes(input),
        match input {
            Input::Write(_) => true,
            Input::Flush => false,
            Input::Reply(event) => is_good(event),
        },
    ensures
        !(t.after(fs, input, now).action matches UploadAction::Done(Err(_))),
{
    if let (Phase::StreamPart { part, .. }, Input::Reply(event)) = (t.file.phase, input) {
        assert(part_next(part, event) matches PartNext::Ask(_, a) ==> !(a is Done));
    }
}

}

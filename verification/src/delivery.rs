//! A well-formed request, served: every file of it arrives on the disk,
//! whole, under a name of its own, and the answer is success.

use vstd::prelude::*;
use crate::fault::{Verdict, STATUS_OK};
use crate::field::FieldKind;
use crate::naming::{candidate, law_candidates_differ};
use crate::session::{
    no_header, ActionView, EventView, Phase, RecordView, SessionView, MAX_ATTEMPTS,
};
use crate::world::{
    first_free, lemma_last_word_stands, payload, run, serve, total, Part, World,
};

verus! {

/// Among the first names tried for a file, one more than a finite set has
/// members, at least one is outside the set.
proof fn lemma_some_name_outside(name: Seq<char>, taken: Set<Seq<char>>) -> (k: nat)
    requires
        taken.finite(),
    ensures
        k <= taken.len(),
        !taken.contains(candidate(name, k)),
    decreases taken.len(),
{
    let last = candidate(name, taken.len());
    if !taken.contains(last) {
        taken.len()
    } else {
        let rest = taken.remove(last);
        let k = lemma_some_name_outside(name, rest);
        if candidate(name, k) == last {
            law_candidates_differ(name, k, taken.len());
        }
        k
    }
}

/// Where some attempt from `from` on finds its name free, the first such
/// attempt does.
proof fn lemma_first_free_is_free(
    name: Seq<char>,
    files: Map<Seq<char>, Seq<u8>>,
    from: nat,
    k: nat,
)
    requires
        from <= k <= MAX_ATTEMPTS,
        !files.contains_key(candidate(name, k)),
    ensures
        from <= first_free(name, files, from) <= k,
        !files.contains_key(candidate(name, first_free(name, files, from))),
    decreases k - from,
{
    if from < MAX_ATTEMPTS && files.contains_key(candidate(name, from)) {
        lemma_first_free_is_free(name, files, from + 1, k);
    }
}

/// A directory that holds no more files than there are attempts has a free
/// name for every file.
pub proof fn lemma_room_for_one(name: Seq<char>, files: Map<Seq<char>, Seq<u8>>)
    requires
        files.dom().finite(),
        files.dom().len() <= MAX_ATTEMPTS,
    ensures
        first_free(name, files, 0) <= MAX_ATTEMPTS,
        !files.contains_key(candidate(name, first_free(name, files, 0))),
{
    let k = lemma_some_name_outside(name, files.dom());
    lemma_first_free_is_free(name, files, 0, k);
}

/// Creating a file: the session tries name after name until the disk takes
/// one, and that one is the first that is free.
proof fn lemma_create(s: SessionView, w: World, turns: nat) -> (k: nat)
    requires
        s.phase == Phase::Creating,
        s.header.file_name is Some,
        s.attempt <= MAX_ATTEMPTS,
        !w.files.contains_key(
            candidate(
                s.header.file_name->0,
                first_free(s.header.file_name->0, w.files, s.attempt),
            ),
        ),
    ensures
        ({
            let free = first_free(s.header.file_name->0, w.files, s.attempt);
            let name = candidate(s.header.file_name->0, free);
            run(s, ActionView::Create { name: s.target() }, w, k) == run(
                SessionView { phase: Phase::Storing, attempt: free, ..s },
                ActionView::NextChunk,
                World { files: w.files.insert(name, Seq::empty()), open: Some(name), ..w },
                turns,
            )
        }),
    decreases MAX_ATTEMPTS - s.attempt,
{
    let declared = s.header.file_name->0;
    let action = ActionView::Create { name: s.target() };
    if w.files.contains_key(candidate(declared, s.attempt)) {
        let next = SessionView { attempt: s.attempt + 1, ..s };
        assert(w.reply(action) == (w, EventView::NameTaken));
        assert(s.step(EventView::NameTaken) == (
            next,
            ActionView::Create { name: next.target() },
        ));
        let k = lemma_create(next, w, turns);
        assert(run(s, action, w, k + 1) == run(
            next,
            ActionView::Create { name: next.target() },
            w,
            k,
        ));
        k + 1
    } else {
        let name = candidate(declared, s.attempt);
        let made = World { files: w.files.insert(name, Seq::empty()), open: Some(name), ..w };
        assert(w.reply(action) == (made, EventView::Created));
        assert(s.step(EventView::Created) == (
            SessionView { phase: Phase::Storing, ..s },
            ActionView::NextChunk,
        ));
        assert(run(s, action, w, turns + 1) == run(
            SessionView { phase: Phase::Storing, ..s },
            ActionView::NextChunk,
            made,
            turns,
        ));
        turns + 1
    }
}

/// The world after the chunks that are still to come have gone into the
/// open file.
spec fn drained(w: World) -> World
    decreases w.chunks.len(),
{
    if w.chunks.len() == 0 {
        w
    } else {
        drained(
            World {
                chunks: w.chunks.drop_first(),
                pending: w.chunks[0],
                files: w.files.insert(w.open->0, w.files[w.open->0] + w.chunks[0]),
                ..w
            },
        )
    }
}

/// The world after its next part has been stored under `name`.
spec fn part_stored(w: World, ready: bool, name: Seq<char>) -> World {
    World {
        open: None,
        ..drained(
            World {
                parts: w.parts.drop_first(),
                chunks: w.parts[0].chunks,
                directory: w.directory || !ready,
                files: w.files.insert(name, Seq::empty()),
                open: Some(name),
                ..w
            },
        )
    }
}

/// Storing a part: chunk after chunk goes into the open file, in order, and
/// at the end of the part the session asks for the file to be closed.
proof fn lemma_chunks(s: SessionView, w: World, turns: nat) -> (k: nat)
    requires
        s.phase == Phase::Storing,
        w.open is Some,
        w.files.contains_key(w.open->0),
        s.accepted + payload(w.chunks).len() <= s.ceiling,
    ensures
        run(s, ActionView::NextChunk, w, k) == run(
            SessionView {
                phase: Phase::Committing,
                accepted: s.accepted + payload(w.chunks).len(),
                field_bytes: s.field_bytes + payload(w.chunks).len(),
                ..s
            },
            ActionView::Commit,
            drained(w),
            turns,
        ),
        drained(w).files == w.files.insert(w.open->0, w.files[w.open->0] + payload(w.chunks)),
        drained(w).open == w.open,
        drained(w).parts == w.parts,
    decreases w.chunks.len(),
{
    let name = w.open->0;
    if w.chunks.len() == 0 {
        assert(w.reply(ActionView::NextChunk) == (w, EventView::FieldEnd));
        assert(s.step(EventView::FieldEnd) == (
            SessionView { phase: Phase::Committing, ..s },
            ActionView::Commit,
        ));
        assert(run(s, ActionView::NextChunk, w, turns + 1) == run(
            SessionView { phase: Phase::Committing, ..s },
            ActionView::Commit,
            w,
            turns,
        ));
        assert(w.files[name] + payload(w.chunks) =~= w.files[name]);
        assert(w.files.insert(name, w.files[name]) =~= w.files);
        turns + 1
    } else {
        let chunk = w.chunks[0];
        let rest = w.chunks.drop_first();
        let w1 = World { chunks: rest, pending: chunk, ..w };
        let s1 = s.take(chunk.len(), Phase::Writing);
        assert(w.reply(ActionView::NextChunk) == (w1, EventView::Chunk { len: chunk.len() }));
        assert(s.step(EventView::Chunk { len: chunk.len() }) == (s1, ActionView::Write));
        let w2 = World { files: w1.files.insert(name, w1.files[name] + chunk), ..w1 };
        let s2 = SessionView { phase: Phase::Storing, ..s1 };
        assert(w1.reply(ActionView::Write) == (w2, EventView::Written));
        assert(s1.step(EventView::Written) == (s2, ActionView::NextChunk));
        let k = lemma_chunks(s2, w2, turns);
        let end = drained(w2);
        assert(drained(w) == end);
        assert(run(s1, ActionView::Write, w1, k + 1) == run(s2, ActionView::NextChunk, w2, k));
        assert(run(s, ActionView::NextChunk, w, k + 2) == run(s1, ActionView::Write, w1, k + 1));
        assert((w.files[name] + chunk) + payload(rest) =~= w.files[name] + payload(w.chunks));
        assert(end.files =~= w.files.insert(name, w.files[name] + payload(w.chunks)));
        k + 2
    }
}

/// Whether `name` is the name of some attempt at a file declared as
/// `declared`, and the names of all earlier attempts are among `files`: the
/// file got the declared name itself, or else the first name behind a
/// counter that was to be had.
pub open spec fn took_first_free(
    name: Seq<char>,
    declared: Seq<char>,
    files: Map<Seq<char>, Seq<u8>>,
) -> bool {
    exists|attempt: nat|
        name == #[trigger] candidate(declared, attempt) && earlier_taken(declared, attempt, files)
}

/// Whether the names of all attempts before `attempt` are among `files`.
pub open spec fn earlier_taken(
    declared: Seq<char>,
    attempt: nat,
    files: Map<Seq<char>, Seq<u8>>,
) -> bool {
    forall|k: nat| k < attempt ==> files.contains_key(#[trigger] candidate(declared, k))
}

/// Before the first free attempt, every name is taken.
proof fn lemma_before_first_free(name: Seq<char>, files: Map<Seq<char>, Seq<u8>>, from: nat)
    ensures
        forall|k: nat|
            from <= k < first_free(name, files, from) ==> files.contains_key(
                #[trigger] candidate(name, k),
            ),
    decreases MAX_ATTEMPTS - from,
{
    if from < MAX_ATTEMPTS && files.contains_key(candidate(name, from)) {
        lemma_before_first_free(name, files, from + 1);
    }
}

/// Whether the record `r` says of `part` that it is on the disk, whole: in
/// a file that was not there before, under the declared name or the first
/// name behind a counter that was to be had, holding the payload byte for
/// byte.
pub open spec fn stored_whole(
    r: RecordView,
    part: Part,
    before: Map<Seq<char>, Seq<u8>>,
    after: Map<Seq<char>, Seq<u8>>,
) -> bool {
    &&& r.header == part.header
    &&& r.bytes == payload(part.chunks).len()
    &&& r.stored_as is Some
    &&& part.header.file_name is Some
    &&& took_first_free(r.stored_as->0, part.header.file_name->0, after)
    &&& !before.contains_key(r.stored_as->0)
    &&& after.contains_key(r.stored_as->0)
    &&& after[r.stored_as->0] == payload(part.chunks)
}

/// Whether `end`, the session, its last word and the world at the end of a
/// request, show every one of `parts` delivered: the answer is success; the
/// session has recorded, after the records `earlier`, one record for each
/// part, in order; each part is a file of its own on the disk, whole; the
/// files that were there before are untouched; and the directory holds as
/// many files more as the request had parts.
pub open spec fn delivered(
    earlier: Seq<RecordView>,
    parts: Seq<Part>,
    files: Map<Seq<char>, Seq<u8>>,
    end: (SessionView, ActionView, World),
) -> bool {
    let (session, word, world) = end;
    &&& word == ActionView::Respond { status: STATUS_OK }
    &&& session.phase == Phase::Finished(Verdict::Saved)
    &&& world.open is None
    &&& world.parts.len() == 0
    &&& session.received.len() == earlier.len() + parts.len()
    &&& forall|j: int| 0 <= j < earlier.len() ==> #[trigger] session.received[j] == earlier[j]
    &&& forall|j: int|
        earlier.len() <= j < session.received.len() ==> stored_whole(
            #[trigger] session.received[j],
            parts[j - earlier.len()],
            files,
            world.files,
        )
    &&& forall|i: int, j: int|
        earlier.len() <= i < j < session.received.len() ==> (
        #[trigger] session.received[i]).stored_as != (#[trigger] session.received[j]).stored_as
    &&& forall|name: Seq<char>| #[trigger]
        files.contains_key(name) ==> world.files.contains_key(name) && world.files[name]
            == files[name]
    &&& world.files.dom().finite()
    &&& world.files.dom().len() == files.dom().len() + parts.len()
}

/// One part from its headers to its record: the directory is made sure of,
/// the file is created under the first free name, filled and closed.
proof fn lemma_part(s: SessionView, w: World, turns: nat) -> (r: (nat, SessionView, World))
    requires
        s.phase == Phase::AwaitField,
        w.parts.len() > 0,
        w.parts[0].header.kind() == FieldKind::File,
        s.accepted + payload(w.parts[0].chunks).len() <= s.ceiling,
        w.files.dom().finite(),
        w.files.dom().len() <= MAX_ATTEMPTS,
    ensures
        ({
            let part = w.parts[0];
            let declared = part.header.file_name->0;
            let name = candidate(declared, first_free(declared, w.files, 0));
            let body = payload(part.chunks);
            &&& run(s, ActionView::NextField, w, r.0) == run(r.1, ActionView::NextField, r.2, turns)
            &&& r.1 == SessionView {
                phase: Phase::AwaitField,
                directory_ready: true,
                accepted: s.accepted + body.len(),
                header: no_header(),
                attempt: 0,
                field_bytes: 0,
                received: s.received.push(
                    RecordView { header: part.header, stored_as: Some(name), bytes: body.len() },
                ),
                ..s
            }
            &&& !w.files.contains_key(name)
            &&& r.2 == part_stored(w, s.directory_ready, name)
            &&& r.2.files == w.files.insert(name, body)
            &&& r.2.parts == w.parts.drop_first()
            &&& r.2.open is None
        }),
{
    let part = w.parts[0];
    let header = part.header;
    let declared = header.file_name->0;
    let free = first_free(declared, w.files, 0);
    let name = candidate(declared, free);
    let body = payload(part.chunks);
    lemma_room_for_one(declared, w.files);

    // The part arrives.
    let w0 = World { parts: w.parts.drop_first(), chunks: part.chunks, ..w };
    assert(w.reply(ActionView::NextField) == (w0, EventView::Field(header)));
    let named = SessionView { header, attempt: 0, field_bytes: 0, ..s };
    let creating = SessionView { phase: Phase::Creating, directory_ready: true, ..named };
    let wd = if s.directory_ready {
        w0
    } else {
        World { directory: true, ..w0 }
    };

    // The file is created, filled and closed.
    let storing = SessionView { phase: Phase::Storing, attempt: free, ..creating };
    let w3 = World { files: wd.files.insert(name, Seq::empty()), open: Some(name), ..wd };
    let closing = SessionView {
        phase: Phase::Committing,
        accepted: storing.accepted + body.len(),
        field_bytes: storing.field_bytes + body.len(),
        ..storing
    };
    let k3 = lemma_chunks(storing, w3, turns + 1);
    let w4 = drained(w3);
    let k2 = lemma_create(creating, wd, k3);
    let w5 = World { open: None, ..w4 };
    assert(w4.reply(ActionView::Commit) == (w5, EventView::Committed));
    assert(closing.target() == name);
    let done = closing.step(EventView::Committed).0;
    assert(closing.step(EventView::Committed).1 == ActionView::NextField);
    assert(run(closing, ActionView::Commit, w4, turns + 1) == run(
        done,
        ActionView::NextField,
        w5,
        turns,
    ));
    assert(Seq::<u8>::empty() + body =~= body);
    assert(w5.files =~= w.files.insert(name, body));

    // The directory is made sure of before the first file.
    let k1 = if s.directory_ready {
        assert(s.step(EventView::Field(header)) == creating.create()) by {
            assert(named.create() == creating.create());
        }
        assert(creating.create() == (creating, ActionView::Create { name: creating.target() }));
        assert(run(s, ActionView::NextField, w, k2 + 1) == run(
            creating,
            ActionView::Create { name: creating.target() },
            wd,
            k2,
        ));
        k2 + 1
    } else {
        let preparing = SessionView { phase: Phase::Preparing, ..named };
        assert(s.step(EventView::Field(header)) == (preparing, ActionView::EnsureDirectory));
        let found = w0.reply(ActionView::EnsureDirectory).1;
        assert(w0.reply(ActionView::EnsureDirectory).0 == wd);
        assert(found == EventView::DirectoryExists || found == EventView::DirectoryCreated);
        assert(preparing.step(found) == (
            creating,
            ActionView::Create { name: creating.target() },
        ));
        assert(run(preparing, ActionView::EnsureDirectory, w0, k2 + 1) == run(
            creating,
            ActionView::Create { name: creating.target() },
            wd,
            k2,
        ));
        assert(run(s, ActionView::NextField, w, k2 + 2) == run(
            preparing,
            ActionView::EnsureDirectory,
            w0,
            k2 + 1,
        ));
        k2 + 2
    };
    (k1, done, w5)
}

/// Part after part, to the end of the body.
proof fn lemma_parts(s: SessionView, w: World) -> (k: nat)
    requires
        s.phase == Phase::AwaitField,
        forall|i: int|
            0 <= i < w.parts.len() ==> (#[trigger] w.parts[i]).header.kind() == FieldKind::File,
        s.accepted + total(w.parts) <= s.ceiling,
        w.files.dom().finite(),
        w.files.dom().len() + w.parts.len() <= MAX_ATTEMPTS,
        w.open is None,
    ensures
        delivered(s.received, w.parts, w.files, run(s, ActionView::NextField, w, k)),
    decreases w.parts.len(),
{
    if w.parts.len() == 0 {
        assert(w.reply(ActionView::NextField) == (w, EventView::BodyEnd));
        let end = s.step(EventView::BodyEnd);
        assert(end.1 == ActionView::Respond { status: STATUS_OK });
        assert(run(s, ActionView::NextField, w, 1) == run(end.0, end.1, w, 0));
        1
    } else {
        let parts = w.parts;
        let rest = parts.drop_first();
        let (k, next, world) = lemma_part(s, w, 0);
        assert forall|i: int| 0 <= i < rest.len() implies (#[trigger] rest[i]).header.kind()
            == FieldKind::File by {
            assert(rest[i] == parts[i + 1]);
        }
        let k_rest = lemma_parts(next, world);
        let (k_all, _, _) = lemma_part(s, w, k_rest);
        let end = run(s, ActionView::NextField, w, k_all);
        assert(end == run(next, ActionView::NextField, world, k_rest));
        let (session, word, last) = end;
        let earlier = s.received;
        let first = next.received[earlier.len() as int];
        let name = first.stored_as->0;
        assert(world.files.contains_key(name));
        assert forall|n: Seq<char>| #[trigger] w.files.contains_key(n) implies last.files.contains_key(
            n,
        ) && last.files[n] == w.files[n] by {
            assert(world.files.contains_key(n));
        }
        assert(took_first_free(name, parts[0].header.file_name->0, last.files)) by {
            let declared = parts[0].header.file_name->0;
            let free = first_free(declared, w.files, 0);
            lemma_before_first_free(declared, w.files, 0);
            assert(name == candidate(declared, free));
            assert(earlier_taken(declared, free, last.files));
        }
        assert forall|j: int| 0 <= j < earlier.len() implies #[trigger] session.received[j]
            == earlier[j] by {
            assert(session.received[j] == next.received[j]);
        }
        assert forall|j: int| earlier.len() <= j < session.received.len() implies stored_whole(
            #[trigger] session.received[j],
            parts[j - earlier.len()],
            w.files,
            last.files,
        ) by {
            if j == earlier.len() {
                assert(session.received[j] == next.received[j]);
            } else {
                assert(rest[j - next.received.len()] == parts[j - earlier.len()]);
            }
        }
        assert forall|i: int, j: int|
            earlier.len() <= i < j < session.received.len() implies (
        #[trigger] session.received[i]).stored_as != (#[trigger] session.received[j]).stored_as by {
            if i == earlier.len() {
                assert(session.received[i] == next.received[i]);
                assert(stored_whole(
                    session.received[j],
                    rest[j - next.received.len()],
                    world.files,
                    last.files,
                ));
            }
        }
        k_all
    }
}

/// Every request of well-formed parts that each carry a file is saved, part
/// for part: when the sender sends what it announced and the disk does what
/// it is asked, a session that is given a request of `parts.len()` file
/// parts, within its ceiling, ends with the answer 200, and then the disk
/// holds exactly `parts.len()` files more than before, one for each part,
/// each with the part's payload byte for byte, and every earlier file as it
/// was. The number that comes back is the number of turns that it takes;
/// given as many turns or more, the request ends as said.
///
/// The directory must have room: fewer files than names can be tried.
pub proof fn law_well_formed_request_is_saved(
    ceiling: nat,
    declared: Option<nat>,
    parts: Seq<Part>,
    directory: bool,
    files: Map<Seq<char>, Seq<u8>>,
) -> (turns: nat)
    requires
        declared is Some ==> declared->0 <= ceiling,
        forall|i: int|
            0 <= i < parts.len() ==> (#[trigger] parts[i]).header.kind() == FieldKind::File,
        total(parts) <= ceiling,
        files.dom().finite(),
        files.dom().len() + parts.len() <= MAX_ATTEMPTS,
    ensures
        forall|given: nat|
            given >= turns ==> delivered(
                Seq::empty(),
                parts,
                files,
                #[trigger] serve(ceiling, declared, World::before(parts, directory, files), given),
            ),
{
    let world = World::before(parts, directory, files);
    let begun = SessionView::fresh(ceiling).step(EventView::Begin { declared });
    assert(begun.1 == ActionView::NextField);
    let turns = lemma_parts(begun.0, world);
    assert forall|given: nat| given >= turns implies delivered(
        Seq::empty(),
        parts,
        files,
        #[trigger] serve(ceiling, declared, world, given),
    ) by {
        lemma_last_word_stands(begun.0, begun.1, world, turns, given);
    }
    turns
}

} // verus!

//! What a request leaves behind, however it ends: no unfinished file, and
//! no success for more than the ceiling allows.

use vstd::prelude::*;
use crate::fault::{Verdict, STATUS_OK};
use crate::session::{closing, ActionView, EventView, Phase, SessionView, MAX_ATTEMPTS};
use crate::world::{payload, run, serve, total, Part, World};

verus! {

/// Whether `content` is the whole payload of one of `parts`.
pub open spec fn is_whole(parts: Seq<Part>, content: Seq<u8>) -> bool {
    exists|i: int| 0 <= i < parts.len() && content == payload((#[trigger] parts[i]).chunks)
}

/// Whether the disk is in order after a request of `parts` that found the
/// files `before`: no file is open, every file that was there is there
/// unchanged, and every other file holds the whole payload of a part.
pub open spec fn in_order(
    parts: Seq<Part>,
    before: Map<Seq<char>, Seq<u8>>,
    world: World,
) -> bool {
    &&& world.open is None
    &&& forall|name: Seq<char>| #[trigger]
        before.contains_key(name) ==> world.files.contains_key(name) && world.files[name]
            == before[name]
    &&& forall|name: Seq<char>| #[trigger]
        world.files.contains_key(name) ==> before.contains_key(name) || is_whole(
            parts,
            world.files[name],
        )
}

/// What the session asks for in each phase.
spec fn asks(s: SessionView) -> ActionView {
    match s.phase {
        Phase::Fresh => ActionView::NextField,
        Phase::AwaitField => ActionView::NextField,
        Phase::Preparing => ActionView::EnsureDirectory,
        Phase::Creating => ActionView::Create { name: s.target() },
        Phase::Storing => ActionView::NextChunk,
        Phase::Writing => ActionView::Write,
        Phase::Committing => ActionView::Commit,
        Phase::Draining => ActionView::NextChunk,
        Phase::Discarding(_) => ActionView::Discard,
        Phase::Finished(verdict) => closing(verdict),
    }
}

/// The bytes of the request that the session has not been given yet.
spec fn ahead(w: World) -> nat {
    payload(w.chunks).len() + total(w.parts)
}

/// How the session and the world stand to each other at every turn.
spec fn in_step(
    ceiling: nat,
    parts: Seq<Part>,
    before: Map<Seq<char>, Seq<u8>>,
    s: SessionView,
    action: ActionView,
    w: World,
) -> bool {
    let begun = parts.len() - w.parts.len();
    &&& s.within_ceiling()
    &&& s.ceiling == ceiling
    &&& action == asks(s)
    &&& w.parts.len() <= parts.len()
    &&& w.parts == parts.subrange(begun, parts.len() as int)
    &&& forall|name: Seq<char>| #[trigger]
        before.contains_key(name) ==> w.files.contains_key(name) && w.files[name] == before[name]
    &&& forall|name: Seq<char>| #[trigger]
        w.files.contains_key(name) ==> before.contains_key(name) || Some(name) == w.open
            || is_whole(parts, w.files[name])
    &&& w.open is Some ==> !before.contains_key(w.open->0) && w.files.contains_key(w.open->0)
    &&& match s.phase {
        Phase::Fresh => false,
        Phase::AwaitField => w.open is None && w.chunks.len() == 0 && s.accepted + ahead(w)
            == total(parts),
        Phase::Preparing | Phase::Creating | Phase::Draining => w.open is None && s.accepted
            + ahead(w) == total(parts) && begun > 0 && (s.phase != Phase::Draining ==> w.chunks
            == parts[begun - 1].chunks),
        Phase::Storing => w.open is Some && begun > 0 && s.accepted + ahead(w) == total(parts)
            && w.files[w.open->0] + payload(w.chunks) == payload(parts[begun - 1].chunks),
        Phase::Writing => w.open is Some && begun > 0 && s.accepted + ahead(w) == total(parts)
            && w.files[w.open->0] + w.pending + payload(w.chunks) == payload(
            parts[begun - 1].chunks,
        ),
        Phase::Committing => w.open is Some && begun > 0 && w.chunks.len() == 0 && s.accepted
            + ahead(w) == total(parts) && w.files[w.open->0] == payload(parts[begun - 1].chunks),
        Phase::Discarding(_) => true,
        Phase::Finished(verdict) => w.open is None && (verdict == Verdict::Saved ==> s.accepted
            == total(parts)),
    }
}

proof fn lemma_turn_keeps_step(
    ceiling: nat,
    parts: Seq<Part>,
    before: Map<Seq<char>, Seq<u8>>,
    s: SessionView,
    action: ActionView,
    w: World,
)
    requires
        in_step(ceiling, parts, before, s, action, w),
        !action.is_final(),
    ensures
        ({
            let (next_world, event) = w.reply(action);
            let (next, asked) = s.step(event);
            in_step(ceiling, parts, before, next, asked, next_world)
        }),
{
    let (w2, event) = w.reply(action);
    let (s2, a2) = s.step(event);
    let begun = parts.len() - w.parts.len();
    match s.phase {
        Phase::AwaitField => {
            assert(payload(w.chunks).len() == 0);
            if w.parts.len() > 0 {
                assert(w.parts[0] == parts[begun]);
                assert(w2.parts =~= parts.subrange(begun + 1, parts.len() as int));
                assert(total(w.parts) == payload(w.parts[0].chunks).len() + total(
                    w.parts.drop_first(),
                ));
            } else {
                assert(total(w.parts) == 0);
            }
        },
        Phase::Preparing => {},
        Phase::Creating => {
            assert(payload(w.chunks) =~= Seq::<u8>::empty() + payload(w.chunks));
        },
        Phase::Storing => {
            if w.chunks.len() > 0 {
                assert((w.files[w.open->0] + w.chunks[0]) + payload(w.chunks.drop_first())
                    =~= w.files[w.open->0] + payload(w.chunks));
            } else {
                assert(w.files[w.open->0] + payload(w.chunks) =~= w.files[w.open->0]);
            }
        },
        Phase::Writing => {
            assert((w.files[w.open->0] + w.pending) + payload(w.chunks) =~= w.files[w.open->0]
                + w.pending + payload(w.chunks));
        },
        Phase::Committing => {
            assert(is_whole(parts, w.files[w.open->0])) by {
                assert(w.files[w.open->0] == payload(parts[begun - 1].chunks));
            }
        },
        Phase::Draining => {},
        Phase::Discarding(_) => {},
        Phase::Finished(_) => {},
        Phase::Fresh => {},
    }
}

proof fn lemma_run_keeps_step(
    ceiling: nat,
    parts: Seq<Part>,
    before: Map<Seq<char>, Seq<u8>>,
    s: SessionView,
    action: ActionView,
    w: World,
    turns: nat,
)
    requires
        in_step(ceiling, parts, before, s, action, w),
    ensures
        ({
            let (last, word, world) = run(s, action, w, turns);
            in_step(ceiling, parts, before, last, word, world)
        }),
    decreases turns,
{
    if !action.is_final() && turns > 0 {
        lemma_turn_keeps_step(ceiling, parts, before, s, action, w);
        let (w2, event) = w.reply(action);
        let (s2, a2) = s.step(event);
        lemma_run_keeps_step(ceiling, parts, before, s2, a2, w2, (turns - 1) as nat);
    }
}

/// However a request ends, it leaves the disk in order: when the session
/// has said its last word, no file is open, the files that were there are
/// untouched, and every file that the request has added holds the whole
/// payload of one of its parts. A part that was cut short, by the ceiling or
/// by anything else, has no file. And the last word is success only if the
/// whole payload of the request was taken, which never exceeds the ceiling:
/// a request that carries more is not answered with success.
///
/// This holds of every request, well-formed or not, against a sender who
/// sends what it announced and a disk that does what it is asked, after any
/// number of turns.
pub proof fn law_every_request_leaves_the_disk_in_order(
    ceiling: nat,
    declared: Option<nat>,
    parts: Seq<Part>,
    directory: bool,
    files: Map<Seq<char>, Seq<u8>>,
    turns: nat,
)
    ensures
        ({
            let (last, word, world) = serve(
                ceiling,
                declared,
                World::before(parts, directory, files),
                turns,
            );
            &&& word.is_final() ==> in_order(parts, files, world)
            &&& word.is_final() ==> last.phase is Finished && word == closing(last.phase->Finished_0)
            &&& word == (ActionView::Respond { status: STATUS_OK }) ==> total(parts) <= ceiling
                && last.accepted == total(parts)
            &&& total(parts) > ceiling ==> word != (ActionView::Respond { status: STATUS_OK })
            &&& last.accepted <= ceiling
        }),
{
    let w = World::before(parts, directory, files);
    let (s, action) = SessionView::fresh(ceiling).step(EventView::Begin { declared });
    assert(w.parts =~= parts.subrange(0, parts.len() as int));
    assert(payload(w.chunks).len() == 0);
    assert(total(w.parts) == total(parts));
    assert(in_step(ceiling, parts, files, s, action, w));
    lemma_run_keeps_step(ceiling, parts, files, s, action, w, turns);
}

/// The turns that the parts still to come can take at most, with the turn
/// that finds the body at its end.
spec fn turns_for(parts: Seq<Part>) -> nat
    decreases parts.len(),
{
    if parts.len() == 0 {
        1
    } else {
        2 * parts[0].chunks.len() + MAX_ATTEMPTS as nat + 6 + turns_for(parts.drop_first())
    }
}

/// The turns that a request can still take at most.
spec fn turns_left(s: SessionView, w: World) -> int {
    let rest = turns_for(w.parts) as int;
    let chunks = w.chunks.len() as int;
    match s.phase {
        Phase::Fresh => 0,
        Phase::AwaitField => rest,
        Phase::Preparing => rest + 2 * chunks + MAX_ATTEMPTS + 5,
        Phase::Creating => rest + 2 * chunks + (MAX_ATTEMPTS - s.attempt) + 4,
        Phase::Storing => rest + 2 * chunks + 3,
        Phase::Writing => rest + 2 * chunks + 4,
        Phase::Committing => rest + 2,
        Phase::Draining => rest + chunks + 1,
        Phase::Discarding(_) => 1,
        Phase::Finished(_) => 0,
    }
}

/// The session has asked for what its phase asks for, and has not tried
/// more names than it may.
spec fn on_course(s: SessionView, action: ActionView) -> bool {
    &&& s.phase != Phase::Fresh
    &&& action == asks(s)
    &&& s.phase == Phase::Preparing ==> s.attempt == 0
    &&& s.phase == Phase::Creating ==> s.attempt <= MAX_ATTEMPTS
}

proof fn lemma_turn_comes_closer(s: SessionView, action: ActionView, w: World)
    requires
        on_course(s, action),
        !action.is_final(),
    ensures
        ({
            let (next_world, event) = w.reply(action);
            let (next, asked) = s.step(event);
            &&& on_course(next, asked)
            &&& 0 <= turns_left(next, next_world) < turns_left(s, w)
        }),
{
    if s.phase == Phase::AwaitField && w.parts.len() > 0 {
        assert(turns_for(w.parts) == 2 * w.parts[0].chunks.len() + MAX_ATTEMPTS as nat + 6
            + turns_for(w.parts.drop_first()));
    }
}

proof fn lemma_run_ends(s: SessionView, action: ActionView, w: World, turns: nat)
    requires
        on_course(s, action),
        turns >= turns_left(s, w),
    ensures
        run(s, action, w, turns).1.is_final(),
    decreases turns,
{
    if !action.is_final() {
        lemma_turn_comes_closer(s, action, w);
        let (next_world, event) = w.reply(action);
        let (next, asked) = s.step(event);
        lemma_run_ends(next, asked, next_world, (turns - 1) as nat);
    }
}

/// Every request comes to its end: whatever its parts, a session against a
/// sender who sends what it announced and a disk that does what it is asked
/// says its last word within the number of turns that comes back, and then
/// the disk is in order. If the request carries more than the ceiling
/// allows, that last word is not success.
pub proof fn law_every_request_is_answered(
    ceiling: nat,
    declared: Option<nat>,
    parts: Seq<Part>,
    directory: bool,
    files: Map<Seq<char>, Seq<u8>>,
) -> (turns: nat)
    ensures
        forall|given: nat|
            given >= turns ==> ({
                let (last, word, world) = #[trigger] serve(
                    ceiling,
                    declared,
                    World::before(parts, directory, files),
                    given,
                );
                &&& word.is_final()
                &&& in_order(parts, files, world)
                &&& total(parts) > ceiling ==> word != (ActionView::Respond { status: STATUS_OK })
            }),
{
    let w = World::before(parts, directory, files);
    let (s, action) = SessionView::fresh(ceiling).step(EventView::Begin { declared });
    let turns = turns_left(s, w) as nat;
    assert forall|given: nat| given >= turns implies ({
        let (last, word, world) = #[trigger] serve(ceiling, declared, w, given);
        &&& word.is_final()
        &&& in_order(parts, files, world)
        &&& total(parts) > ceiling ==> word != (ActionView::Respond { status: STATUS_OK })
    }) by {
        lemma_run_ends(s, action, w, given);
        law_every_request_leaves_the_disk_in_order(
            ceiling,
            declared,
            parts,
            directory,
            files,
            given,
        );
    }
    turns
}

} // verus!

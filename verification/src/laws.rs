//! What holds of every session, whatever its caller reports.

use vstd::prelude::*;
use crate::fault::{Fault, Verdict, STATUS_OK, STATUS_PAYLOAD_TOO_LARGE};
use crate::session::{closing, ActionView, EventView, Phase, SessionView};

verus! {

/// The session after a run of events, taken in one after the other.
pub open spec fn after(s: SessionView, events: Seq<EventView>) -> SessionView
    decreases events.len(),
{
    if events.len() == 0 {
        s
    } else {
        after(s, events.drop_last()).step(events.last()).0
    }
}

/// What the session asks for in answer to each event of a run.
pub open spec fn asked(s: SessionView, events: Seq<EventView>) -> Seq<ActionView>
    decreases events.len(),
{
    if events.len() == 0 {
        Seq::empty()
    } else {
        asked(s, events.drop_last()).push(
            after(s, events.drop_last()).step(events.last()).1,
        )
    }
}

/// Every event is answered by one action.
pub proof fn law_one_action_per_event(s: SessionView, events: Seq<EventView>)
    ensures
        asked(s, events).len() == events.len(),
    decreases events.len(),
{
    if events.len() > 0 {
        law_one_action_per_event(s, events.drop_last());
    }
}

/// Whether the request is given up for `fault`: its file is being removed,
/// or the session is over with that failure.
pub open spec fn given_up(s: SessionView, fault: Fault) -> bool {
    s.phase == Phase::Discarding(fault) || s.phase == Phase::Finished(Verdict::Failed(fault))
}

/// One event never lifts the bytes taken over the ceiling, and never takes
/// bytes away.
pub proof fn law_step_keeps_ceiling(s: SessionView, event: EventView)
    requires
        s.within_ceiling(),
    ensures
        s.step(event).0.within_ceiling(),
        s.step(event).0.ceiling == s.ceiling,
        s.step(event).0.accepted >= s.accepted,
{
}

/// Whatever is reported to a session, in whatever order, the payload bytes
/// that it has taken never exceed its ceiling.
pub proof fn law_ceiling_holds(s: SessionView, events: Seq<EventView>)
    requires
        s.within_ceiling(),
    ensures
        after(s, events).within_ceiling(),
        after(s, events).ceiling == s.ceiling,
    decreases events.len(),
{
    if events.len() > 0 {
        law_ceiling_holds(s, events.drop_last());
        law_step_keeps_ceiling(after(s, events.drop_last()), events.last());
    }
}

/// From a fresh session on, the bytes taken stay within the ceiling.
pub proof fn law_fresh_session_keeps_ceiling(ceiling: nat, events: Seq<EventView>)
    ensures
        after(SessionView::fresh(ceiling), events).accepted <= ceiling,
{
    law_ceiling_holds(SessionView::fresh(ceiling), events);
}

/// A request that is given up stays given up, for the same reason, whatever
/// is reported afterwards: success is never reported for it, nothing more is
/// read or written for it, and once its unfinished file is dealt with every
/// word of the session is the same last word.
pub proof fn law_failure_is_final(s: SessionView, fault: Fault, events: Seq<EventView>)
    requires
        given_up(s, fault),
    ensures
        given_up(after(s, events), fault),
        after(s, events).phase != Phase::Finished(Verdict::Saved),
        forall|i: int|
            0 <= i < events.len() ==> #[trigger] asked(s, events)[i] == closing(
                Verdict::Failed(fault),
            ),
        events.len() > 0 ==> after(s, events).phase == Phase::Finished(Verdict::Failed(fault)),
    decreases events.len(),
{
    if events.len() > 0 {
        law_failure_is_final(s, fault, events.drop_last());
        law_one_action_per_event(s, events.drop_last());
        let before = after(s, events.drop_last());
        assert(before.step(events.last()).1 == closing(Verdict::Failed(fault)));
        assert forall|i: int| 0 <= i < events.len() implies #[trigger] asked(s, events)[i]
            == closing(Verdict::Failed(fault)) by {
            if i < events.len() - 1 {
                assert(asked(s, events)[i] == asked(s, events.drop_last())[i]);
            }
        }
    }
}

/// The last word on a failed request is never the status of success.
pub proof fn law_failure_never_answers_ok(fault: Fault)
    ensures
        closing(Verdict::Failed(fault)) != (ActionView::Respond { status: STATUS_OK }),
        closing(Verdict::Failed(fault)).is_final(),
{
}

/// A chunk that would lift the request over its ceiling is refused before a
/// byte of it is written: the session takes none of it into its count and
/// asks for no write. Where a file is open for the part, the file is removed
/// first; then, and to whatever is reported from there on, the answer is 413
/// and never success.
pub proof fn law_oversized_chunk_is_refused(s: SessionView, len: nat, events: Seq<EventView>)
    requires
        s.phase == Phase::Storing || s.phase == Phase::Draining,
        s.accepted + len > s.ceiling,
    ensures
        ({
            let (next, action) = s.step(EventView::Chunk { len });
            &&& next.accepted == s.accepted
            &&& next.received == s.received
            &&& given_up(next, Fault::TooLarge)
            &&& s.phase == Phase::Storing ==> action == ActionView::Discard
            &&& s.phase == Phase::Draining ==> action == (ActionView::Respond {
                status: STATUS_PAYLOAD_TOO_LARGE,
            })
            &&& after(next, events).phase != Phase::Finished(Verdict::Saved)
            &&& forall|i: int|
                0 <= i < events.len() ==> #[trigger] asked(next, events)[i] == (
                ActionView::Respond { status: STATUS_PAYLOAD_TOO_LARGE })
        }),
{
    let next = s.step(EventView::Chunk { len }).0;
    law_failure_is_final(next, Fault::TooLarge, events);
}

/// A request that declares a body beyond the ceiling is refused with 413
/// before anything of it is read.
pub proof fn law_oversized_declaration_is_refused(ceiling: nat, declared: nat)
    requires
        declared > ceiling,
    ensures
        SessionView::fresh(ceiling).step(EventView::Begin { declared: Some(declared) }).1 == (
        ActionView::Respond { status: STATUS_PAYLOAD_TOO_LARGE }),
        given_up(
            SessionView::fresh(ceiling).step(EventView::Begin { declared: Some(declared) }).0,
            Fault::TooLarge,
        ),
{
}

/// Success is reported at one point only: between parts, with no file open,
/// when the body ends.
pub proof fn law_saved_only_at_body_end(s: SessionView, event: EventView)
    requires
        s.phase != Phase::Finished(Verdict::Saved),
        s.step(event).0.phase == Phase::Finished(Verdict::Saved),
    ensures
        s.phase == Phase::AwaitField,
        event == EventView::BodyEnd,
        s.step(event).1 == (ActionView::Respond { status: STATUS_OK }),
{
}

/// While a file is open, nothing ends the session but the removal of that
/// file: a request that fails in the middle of a part leaves no unfinished
/// file behind its answer.
pub proof fn law_no_answer_over_an_open_file(s: SessionView, event: EventView)
    requires
        s.phase == Phase::Storing || s.phase == Phase::Writing || s.phase == Phase::Committing,
    ensures
        !s.step(event).1.is_final(),
        !(s.step(event).0.phase is Finished),
        s.step(event).0.phase is Discarding <==> s.step(event).1 == ActionView::Discard,
        s.step(event).0.phase == Phase::AwaitField ==> s.phase == Phase::Committing && event
            == EventView::Committed,
{
}

/// That the destination directory is there already counts exactly as if
/// this request had created it: the session goes on to create its file.
pub proof fn law_existing_directory_is_no_fault(s: SessionView)
    requires
        s.phase == Phase::Preparing,
    ensures
        s.step(EventView::DirectoryExists) == s.step(EventView::DirectoryCreated),
        s.step(EventView::DirectoryExists).0.phase == Phase::Creating,
        s.step(EventView::DirectoryExists).0.directory_ready,
        s.step(EventView::DirectoryExists).1 is Create,
{
}

/// A lost connection in the middle of a part removes the unfinished file and
/// ends the session without an answer, and never with success.
pub proof fn law_lost_connection_is_no_success(s: SessionView, status: u16, reported: EventView)
    requires
        s.phase == Phase::Storing,
        Fault::spec_of_read_status(status) == Fault::Transport,
    ensures
        ({
            let (next, action) = s.step(EventView::ReadFailed { status });
            &&& action == ActionView::Discard
            &&& next.received == s.received
            &&& next.step(reported).1 == ActionView::Hangup
            &&& next.step(reported).0.phase == Phase::Finished(Verdict::Failed(Fault::Transport))
        }),
{
}

} // verus!

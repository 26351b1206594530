//! The other side of a session, as far as it can be told in advance: a
//! sender who sends what it announced, and a disk that does what it is
//! asked. Against this world the session is shown to do its work.

use vstd::prelude::*;
use crate::field::FieldHeaderView;
use crate::naming::candidate;
use crate::session::{ActionView, EventView, SessionView, MAX_ATTEMPTS};

verus! {

/// One part of a request as its sender sends it: the headers, and the
/// payload in the chunks in which it arrives.
pub struct Part {
    pub header: FieldHeaderView,
    pub chunks: Seq<Seq<u8>>,
}

/// The bytes of a payload, from its chunks.
pub open spec fn payload(chunks: Seq<Seq<u8>>) -> Seq<u8>
    decreases chunks.len(),
{
    if chunks.len() == 0 {
        Seq::empty()
    } else {
        chunks[0] + payload(chunks.drop_first())
    }
}

/// The payload bytes of all parts together.
pub open spec fn total(parts: Seq<Part>) -> nat
    decreases parts.len(),
{
    if parts.len() == 0 {
        0
    } else {
        payload(parts[0].chunks).len() + total(parts.drop_first())
    }
}

/// What lies outside the session: the rest of the body, and the disk.
pub struct World {
    /// The parts that have not begun yet.
    pub parts: Seq<Part>,
    /// The chunks of the part in progress that were not delivered yet.
    pub chunks: Seq<Seq<u8>>,
    /// The chunk that was delivered last.
    pub pending: Seq<u8>,
    /// Whether the destination directory is there.
    pub directory: bool,
    /// The files of the destination directory, by name.
    pub files: Map<Seq<char>, Seq<u8>>,
    /// The file that is open for writing.
    pub open: Option<Seq<char>>,
}

impl World {
    /// The world before a request: its body still to come, no file open.
    pub open spec fn before(
        parts: Seq<Part>,
        directory: bool,
        files: Map<Seq<char>, Seq<u8>>,
    ) -> World {
        World {
            parts,
            chunks: Seq::empty(),
            pending: Seq::empty(),
            directory,
            files,
            open: None,
        }
    }

    /// The world after it has done what the session asked, and what it
    /// reports back. The sender delivers part after part and chunk after
    /// chunk; the disk creates a file where the name is free, appends what
    /// it is given, and removes what it is told to.
    pub open spec fn reply(self, action: ActionView) -> (World, EventView) {
        match action {
            ActionView::NextField => {
                if self.parts.len() == 0 {
                    (self, EventView::BodyEnd)
                } else {
                    (
                        World {
                            parts: self.parts.drop_first(),
                            chunks: self.parts[0].chunks,
                            ..self
                        },
                        EventView::Field(self.parts[0].header),
                    )
                }
            },
            ActionView::NextChunk => {
                if self.chunks.len() == 0 {
                    (self, EventView::FieldEnd)
                } else {
                    (
                        World {
                            chunks: self.chunks.drop_first(),
                            pending: self.chunks[0],
                            ..self
                        },
                        EventView::Chunk { len: self.chunks[0].len() },
                    )
                }
            },
            ActionView::EnsureDirectory => {
                if self.directory {
                    (self, EventView::DirectoryExists)
                } else {
                    (World { directory: true, ..self }, EventView::DirectoryCreated)
                }
            },
            ActionView::Create { name } => {
                if self.files.contains_key(name) {
                    (self, EventView::NameTaken)
                } else {
                    (
                        World {
                            files: self.files.insert(name, Seq::empty()),
                            open: Some(name),
                            ..self
                        },
                        EventView::Created,
                    )
                }
            },
            ActionView::Write => match self.open {
                Some(name) => (
                    World {
                        files: self.files.insert(name, self.files[name] + self.pending),
                        ..self
                    },
                    EventView::Written,
                ),
                None => (self, EventView::StorageFailed),
            },
            ActionView::Commit => (World { open: None, ..self }, EventView::Committed),
            ActionView::Discard => match self.open {
                Some(name) => (
                    World { files: self.files.remove(name), open: None, ..self },
                    EventView::Discarded,
                ),
                None => (self, EventView::Discarded),
            },
            ActionView::Respond { status } => (self, EventView::BodyEnd),
            ActionView::Hangup => (self, EventView::BodyEnd),
        }
    }
}

/// The session and the world taking turns, from the moment the session has
/// asked for `action`, until the session says its last word or `turns` have
/// passed: the session, its word and the world at that point.
pub open spec fn run(s: SessionView, action: ActionView, world: World, turns: nat) -> (
    SessionView,
    ActionView,
    World,
)
    decreases turns,
{
    if action.is_final() || turns == 0 {
        (s, action, world)
    } else {
        let (next_world, event) = world.reply(action);
        let (next, asked) = s.step(event);
        run(next, asked, next_world, (turns - 1) as nat)
    }
}

/// Once the session has said its last word, more turns change nothing.
pub proof fn lemma_last_word_stands(
    s: SessionView,
    action: ActionView,
    world: World,
    turns: nat,
    more: nat,
)
    requires
        run(s, action, world, turns).1.is_final(),
        more >= turns,
    ensures
        run(s, action, world, more) == run(s, action, world, turns),
    decreases turns,
{
    if !action.is_final() && turns > 0 {
        let (next_world, event) = world.reply(action);
        let (next, asked) = s.step(event);
        lemma_last_word_stands(next, asked, next_world, (turns - 1) as nat, (more - 1) as nat);
    }
}

/// A request served from its arrival on: the session steps on `Begin`, and
/// from there the two take turns.
pub open spec fn serve(
    ceiling: nat,
    declared: Option<nat>,
    world: World,
    turns: nat,
) -> (SessionView, ActionView, World) {
    let (s, action) = SessionView::fresh(ceiling).step(EventView::Begin { declared });
    run(s, action, world, turns)
}

/// The first attempt from `from` on at which the name for `name` is free
/// among `files`; the last attempt, if none is.
pub open spec fn first_free(name: Seq<char>, files: Map<Seq<char>, Seq<u8>>, from: nat) -> nat
    decreases MAX_ATTEMPTS - from,
{
    if from >= MAX_ATTEMPTS || !files.contains_key(candidate(name, from)) {
        from
    } else {
        first_free(name, files, from + 1)
    }
}

} // verus!

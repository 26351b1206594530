//! One upload, from the first byte of its body to the answer.
//!
//! A session decides and never waits. Its caller reads the body and writes
//! the files: it hands the session what happened, an [`Event`], and gets
//! back what to do next, an [`Action`], until the action is an answer.
//! Parts are taken strictly in the order in which they arrive, and no byte
//! is written for a chunk that would lift the request over its ceiling.

use vstd::prelude::*;
use crate::fault::{Fault, Verdict};
use crate::field::{text_view, FieldHeader, FieldHeaderView, FieldKind};
use crate::naming::{candidate, candidate_name};

verus! {

/// What the caller reports to the session.
#[derive(Clone, Debug, PartialEq, Eq)]
pub enum Event {
    /// The request has arrived. `declared` is the length that it declares
    /// for its body, where it declares one.
    Begin { declared: Option<u64> },
    /// The body holds another part, with these headers.
    Field(FieldHeader),
    /// The part in progress delivered a chunk of `len` bytes.
    Chunk { len: u64 },
    /// The part in progress has ended.
    FieldEnd,
    /// The body has ended.
    BodyEnd,
    /// Reading the body failed; `status` is the status attached to the
    /// failure.
    ReadFailed { status: u16 },
    /// The destination directory was missing and has been created.
    DirectoryCreated,
    /// The destination directory is there already, whoever created it.
    DirectoryExists,
    /// The file was created, and is empty.
    Created,
    /// No file was created: the name is taken.
    NameTaken,
    /// The chunk is in the file.
    Written,
    /// The file is complete and closed.
    Committed,
    /// The unfinished file was dealt with.
    Discarded,
    /// Creating, writing or closing the file failed.
    StorageFailed,
}

/// An [`Event`] as contracts see it.
pub enum EventView {
    Begin { declared: Option<nat> },
    Field(FieldHeaderView),
    Chunk { len: nat },
    FieldEnd,
    BodyEnd,
    ReadFailed { status: u16 },
    DirectoryCreated,
    DirectoryExists,
    Created,
    NameTaken,
    Written,
    Committed,
    Discarded,
    StorageFailed,
}

impl View for Event {
    type V = EventView;

    open spec fn view(&self) -> EventView {
        match *self {
            Event::Begin { declared } => EventView::Begin {
                declared: match declared {
                    Some(n) => Some(n as nat),
                    None => None,
                },
            },
            Event::Field(header) => EventView::Field(header@),
            Event::Chunk { len } => EventView::Chunk { len: len as nat },
            Event::FieldEnd => EventView::FieldEnd,
            Event::BodyEnd => EventView::BodyEnd,
            Event::ReadFailed { status } => EventView::ReadFailed { status },
            Event::DirectoryCreated => EventView::DirectoryCreated,
            Event::DirectoryExists => EventView::DirectoryExists,
            Event::Created => EventView::Created,
            Event::NameTaken => EventView::NameTaken,
            Event::Written => EventView::Written,
            Event::Committed => EventView::Committed,
            Event::Discarded => EventView::Discarded,
            Event::StorageFailed => EventView::StorageFailed,
        }
    }
}

/// What the session asks of its caller.
#[derive(Clone, Debug, PartialEq, Eq)]
pub enum Action {
    /// Read on to the next part of the body, and report `Field`, `BodyEnd`
    /// or `ReadFailed`.
    NextField,
    /// Read the next chunk of the part in progress, and report `Chunk`,
    /// `FieldEnd` or `ReadFailed`.
    NextChunk,
    /// Create the destination directory unless it is there, and report
    /// `DirectoryCreated`, `DirectoryExists` or `StorageFailed`.
    EnsureDirectory,
    /// Create an empty file of this name in the destination directory,
    /// failing if the name is taken, and report `Created`, `NameTaken` or
    /// `StorageFailed`.
    Create { name: String },
    /// Append the chunk reported last to the file, and report `Written` or
    /// `StorageFailed`.
    Write,
    /// Flush and close the file, and report `Committed` or `StorageFailed`.
    Commit,
    /// Close and remove the unfinished file, and report `Discarded`.
    Discard,
    /// Answer the request with this status. The session is over.
    Respond { status: u16 },
    /// Drop the request without an answer. The session is over.
    Hangup,
}

/// An [`Action`] as contracts see it.
pub enum ActionView {
    NextField,
    NextChunk,
    EnsureDirectory,
    Create { name: Seq<char> },
    Write,
    Commit,
    Discard,
    Respond { status: u16 },
    Hangup,
}

impl View for Action {
    type V = ActionView;

    open spec fn view(&self) -> ActionView {
        match *self {
            Action::NextField => ActionView::NextField,
            Action::NextChunk => ActionView::NextChunk,
            Action::EnsureDirectory => ActionView::EnsureDirectory,
            Action::Create { name } => ActionView::Create { name: name@ },
            Action::Write => ActionView::Write,
            Action::Commit => ActionView::Commit,
            Action::Discard => ActionView::Discard,
            Action::Respond { status } => ActionView::Respond { status },
            Action::Hangup => ActionView::Hangup,
        }
    }
}

impl ActionView {
    /// Whether the action ends the session.
    pub open spec fn is_final(self) -> bool {
        self is Respond || self is Hangup
    }
}

/// Where a session stands: what it asked for last, and so what it waits
/// for.
#[derive(Clone, Copy, Debug, PartialEq, Eq, Structural)]
pub enum Phase {
    /// Nothing was asked yet.
    Fresh,
    /// Between parts.
    AwaitField,
    /// The destination directory is being made sure of.
    Preparing,
    /// A file for the part in progress is being created.
    Creating,
    /// A file is open, and the next chunk for it is being read.
    Storing,
    /// A file is open, and a chunk is being written to it.
    Writing,
    /// The file of the part in progress is being closed.
    Committing,
    /// A plain form field is being read past.
    Draining,
    /// The request is given up, and the unfinished file is being removed.
    Discarding(Fault),
    /// The session is over.
    Finished(Verdict),
}

/// What the session notes of each part that it has consumed to its end.
#[derive(Clone, Debug, PartialEq, Eq)]
pub struct FieldRecord {
    /// What the part declared.
    pub header: FieldHeader,
    /// The name of the file that holds the payload; `None` where nothing
    /// was stored.
    pub stored_as: Option<String>,
    /// The length of the payload.
    pub bytes: u64,
}

/// A [`FieldRecord`] as contracts see it.
pub struct RecordView {
    pub header: FieldHeaderView,
    pub stored_as: Option<Seq<char>>,
    pub bytes: nat,
}

impl View for FieldRecord {
    type V = RecordView;

    open spec fn view(&self) -> RecordView {
        RecordView {
            header: self.header@,
            stored_as: text_view(self.stored_as),
            bytes: self.bytes as nat,
        }
    }
}

/// The views of a list of records, in order.
pub open spec fn record_views(records: Seq<FieldRecord>) -> Seq<RecordView> {
    records.map_values(|r: FieldRecord| r@)
}

/// The number of the last attempt at a name for one file. Where that name
/// is taken too, the file is given up.
pub const MAX_ATTEMPTS: u32 = 0xffff_ffff;

/// The header of no part: nothing declared.
pub open spec fn no_header() -> FieldHeaderView {
    FieldHeaderView { name: None, file_name: None, content_type: None }
}

/// The action that ends a session: an answer with the status that belongs
/// to the way it ended, or a silent end where nobody is left to answer.
pub open spec fn closing(verdict: Verdict) -> ActionView {
    match verdict.spec_status() {
        Some(status) => ActionView::Respond { status },
        None => ActionView::Hangup,
    }
}

/// A session as contracts see it.
pub struct SessionView {
    /// The most payload bytes that the request may carry.
    pub ceiling: nat,
    /// The payload bytes taken so far, over all parts.
    pub accepted: nat,
    /// Where the session stands.
    pub phase: Phase,
    /// Whether the destination directory is known to be there.
    pub directory_ready: bool,
    /// The headers of the part in progress.
    pub header: FieldHeaderView,
    /// How many names were taken before the one in use.
    pub attempt: nat,
    /// The payload bytes taken of the part in progress.
    pub field_bytes: nat,
    /// The parts consumed to their end, in order of arrival.
    pub received: Seq<RecordView>,
}

impl SessionView {
    /// A session that has seen nothing yet.
    pub open spec fn fresh(ceiling: nat) -> SessionView {
        SessionView {
            ceiling,
            accepted: 0,
            phase: Phase::Fresh,
            directory_ready: false,
            header: no_header(),
            attempt: 0,
            field_bytes: 0,
            received: Seq::empty(),
        }
    }

    /// The counters never run ahead of each other: a part holds no more than
    /// the request, and the request no more than its ceiling.
    pub open spec fn within_ceiling(self) -> bool {
        self.field_bytes <= self.accepted <= self.ceiling
    }

    /// The name under which the part in progress is stored.
    pub open spec fn target(self) -> Seq<char> {
        match self.header.file_name {
            Some(file_name) => candidate(file_name, self.attempt),
            None => Seq::empty(),
        }
    }

    /// The session ends, with no file open.
    pub open spec fn finish(self, verdict: Verdict) -> (SessionView, ActionView) {
        (SessionView { phase: Phase::Finished(verdict), ..self }, closing(verdict))
    }

    /// The request is given up while a file is open: the file goes first.
    pub open spec fn abandon(self, fault: Fault) -> (SessionView, ActionView) {
        (SessionView { phase: Phase::Discarding(fault), ..self }, ActionView::Discard)
    }

    /// The part in progress has been consumed to its end: it is recorded,
    /// and the next part is asked for.
    pub open spec fn complete(self, stored_as: Option<Seq<char>>) -> (SessionView, ActionView) {
        (
            SessionView {
                phase: Phase::AwaitField,
                header: no_header(),
                attempt: 0,
                field_bytes: 0,
                received: self.received.push(
                    RecordView { header: self.header, stored_as, bytes: self.field_bytes },
                ),
                ..self
            },
            ActionView::NextField,
        )
    }

    /// A file is asked for, under the name of the attempt that the session
    /// stands at.
    pub open spec fn create(self) -> (SessionView, ActionView) {
        (SessionView { phase: Phase::Creating, ..self }, ActionView::Create { name: self.target() })
    }

    /// A chunk of `len` bytes is taken into the count.
    pub open spec fn take(self, len: nat, phase: Phase) -> SessionView {
        SessionView {
            accepted: self.accepted + len,
            field_bytes: self.field_bytes + len,
            phase,
            ..self
        }
    }

    /// What the session does before anything has happened.
    pub open spec fn on_fresh(self, event: EventView) -> (SessionView, ActionView) {
        match event {
            EventView::Begin { declared } => {
                if declared is Some && declared->0 > self.ceiling {
                    self.finish(Verdict::Failed(Fault::TooLarge))
                } else {
                    (SessionView { phase: Phase::AwaitField, ..self }, ActionView::NextField)
                }
            },
            _ => self.finish(Verdict::Failed(Fault::Storage)),
        }
    }

    /// What the session does between parts.
    pub open spec fn on_await_field(self, event: EventView) -> (SessionView, ActionView) {
        match event {
            EventView::Field(header) => match header.kind() {
                FieldKind::Malformed => self.finish(Verdict::Failed(Fault::Malformed)),
                FieldKind::Plain => (
                    SessionView {
                        phase: Phase::Draining,
                        header,
                        attempt: 0,
                        field_bytes: 0,
                        ..self
                    },
                    ActionView::NextChunk,
                ),
                FieldKind::File => {
                    let next = SessionView { header, attempt: 0, field_bytes: 0, ..self };
                    if self.directory_ready {
                        next.create()
                    } else {
                        (SessionView { phase: Phase::Preparing, ..next }, ActionView::EnsureDirectory)
                    }
                },
            },
            EventView::BodyEnd => self.finish(Verdict::Saved),
            EventView::ReadFailed { status } => self.finish(
                Verdict::Failed(Fault::spec_of_read_status(status)),
            ),
            _ => self.finish(Verdict::Failed(Fault::Storage)),
        }
    }

    /// What the session does while the directory is being made sure of. That
    /// the directory was there already is no failure: it may have come from
    /// an earlier run or from another request at the same moment.
    pub open spec fn on_preparing(self, event: EventView) -> (SessionView, ActionView) {
        match event {
            EventView::DirectoryCreated | EventView::DirectoryExists => SessionView {
                directory_ready: true,
                ..self
            }.create(),
            _ => self.finish(Verdict::Failed(Fault::Storage)),
        }
    }

    /// What the session does while a file is being created.
    pub open spec fn on_creating(self, event: EventView) -> (SessionView, ActionView) {
        match event {
            EventView::Created => (
                SessionView { phase: Phase::Storing, ..self },
                ActionView::NextChunk,
            ),
            EventView::NameTaken => {
                if self.attempt < MAX_ATTEMPTS {
                    SessionView { attempt: self.attempt + 1, ..self }.create()
                } else {
                    self.finish(Verdict::Failed(Fault::Storage))
                }
            },
            _ => self.finish(Verdict::Failed(Fault::Storage)),
        }
    }

    /// What the session does while it reads a part into its file.
    pub open spec fn on_storing(self, event: EventView) -> (SessionView, ActionView) {
        match event {
            EventView::Chunk { len } => {
                if self.accepted + len > self.ceiling {
                    self.abandon(Fault::TooLarge)
                } else {
                    (self.take(len, Phase::Writing), ActionView::Write)
                }
            },
            EventView::FieldEnd => (
                SessionView { phase: Phase::Committing, ..self },
                ActionView::Commit,
            ),
            EventView::ReadFailed { status } => self.abandon(Fault::spec_of_read_status(status)),
            _ => self.abandon(Fault::Storage),
        }
    }

    /// What the session does while a chunk is being written.
    pub open spec fn on_writing(self, event: EventView) -> (SessionView, ActionView) {
        match event {
            EventView::Written => (
                SessionView { phase: Phase::Storing, ..self },
                ActionView::NextChunk,
            ),
            _ => self.abandon(Fault::Storage),
        }
    }

    /// What the session does while a file is being closed.
    pub open spec fn on_committing(self, event: EventView) -> (SessionView, ActionView) {
        match event {
            EventView::Committed => self.complete(Some(self.target())),
            _ => self.abandon(Fault::Storage),
        }
    }

    /// What the session does while it reads past a plain form field.
    pub open spec fn on_draining(self, event: EventView) -> (SessionView, ActionView) {
        match event {
            EventView::Chunk { len } => {
                if self.accepted + len > self.ceiling {
                    self.finish(Verdict::Failed(Fault::TooLarge))
                } else {
                    (self.take(len, Phase::Draining), ActionView::NextChunk)
                }
            },
            EventView::FieldEnd => self.complete(None),
            EventView::ReadFailed { status } => self.finish(
                Verdict::Failed(Fault::spec_of_read_status(status)),
            ),
            _ => self.finish(Verdict::Failed(Fault::Storage)),
        }
    }

    /// The session after `event`, and what it asks for next.
    ///
    /// An event that does not answer what was asked last ends the request
    /// as a failure of the server. A session that is over stays as it is,
    /// and repeats its last word.
    pub open spec fn step(self, event: EventView) -> (SessionView, ActionView) {
        match self.phase {
            Phase::Fresh => self.on_fresh(event),
            Phase::AwaitField => self.on_await_field(event),
            Phase::Preparing => self.on_preparing(event),
            Phase::Creating => self.on_creating(event),
            Phase::Storing => self.on_storing(event),
            Phase::Writing => self.on_writing(event),
            Phase::Committing => self.on_committing(event),
            Phase::Draining => self.on_draining(event),
            Phase::Discarding(fault) => self.finish(Verdict::Failed(fault)),
            Phase::Finished(verdict) => (self, closing(verdict)),
        }
    }
}

/// One upload in progress.
pub struct UploadSession {
    ceiling: u64,
    accepted: u64,
    phase: Phase,
    directory_ready: bool,
    header: FieldHeader,
    attempt: u32,
    field_bytes: u64,
    received: Vec<FieldRecord>,
}

impl View for UploadSession {
    type V = SessionView;

    closed spec fn view(&self) -> SessionView {
        SessionView {
            ceiling: self.ceiling as nat,
            accepted: self.accepted as nat,
            phase: self.phase,
            directory_ready: self.directory_ready,
            header: self.header@,
            attempt: self.attempt as nat,
            field_bytes: self.field_bytes as nat,
            received: record_views(self.received@),
        }
    }
}

fn empty_header() -> (header: FieldHeader)
    ensures
        header@ == no_header(),
{
    FieldHeader { name: None, file_name: None, content_type: None }
}

fn closing_action(verdict: Verdict) -> (action: Action)
    ensures
        action@ == closing(verdict),
{
    match verdict.status() {
        Some(status) => Action::Respond { status },
        None => Action::Hangup,
    }
}

impl UploadSession {
    #[verifier::type_invariant]
    spec fn counters_in_order(self) -> bool {
        self.field_bytes <= self.accepted <= self.ceiling
    }

    /// A session for a request that may carry `ceiling` payload bytes.
    pub fn new(ceiling: u64) -> (session: UploadSession)
        ensures
            session@ == SessionView::fresh(ceiling as nat),
    {
        let session = UploadSession {
            ceiling,
            accepted: 0,
            phase: Phase::Fresh,
            directory_ready: false,
            header: empty_header(),
            attempt: 0,
            field_bytes: 0,
            received: Vec::new(),
        };
        assert(record_views(session.received@) =~= Seq::empty());
        session
    }

    /// The most payload bytes that the request may carry.
    pub fn ceiling(&self) -> (ceiling: u64)
        ensures
            ceiling == self@.ceiling,
    {
        self.ceiling
    }

    /// The payload bytes taken so far. They never exceed the ceiling.
    pub fn accepted(&self) -> (accepted: u64)
        ensures
            accepted == self@.accepted,
            accepted <= self@.ceiling,
    {
        proof {
            use_type_invariant(self);
        }
        self.accepted
    }

    /// Where the session stands.
    pub fn phase(&self) -> (phase: Phase)
        ensures
            phase == self@.phase,
    {
        self.phase
    }

    /// How the request ended; `None` while the session is not over.
    pub fn verdict(&self) -> (verdict: Option<Verdict>)
        ensures
            verdict == match self@.phase {
                Phase::Finished(v) => Some(v),
                _ => None,
            },
    {
        match self.phase {
            Phase::Finished(v) => Some(v),
            _ => None,
        }
    }

    /// The parts consumed to their end, in order of arrival.
    pub fn received(&self) -> (records: &Vec<FieldRecord>)
        ensures
            record_views(records@) == self@.received,
    {
        &self.received
    }

    fn finish(self, verdict: Verdict) -> (out: (UploadSession, Action))
        ensures
            (out.0@, out.1@) == self@.finish(verdict),
    {
        proof {
            use_type_invariant(&self);
        }
        (UploadSession { phase: Phase::Finished(verdict), ..self }, closing_action(verdict))
    }

    fn abandon(self, fault: Fault) -> (out: (UploadSession, Action))
        ensures
            (out.0@, out.1@) == self@.abandon(fault),
    {
        proof {
            use_type_invariant(&self);
        }
        (UploadSession { phase: Phase::Discarding(fault), ..self }, Action::Discard)
    }

    fn advance(self, phase: Phase, action: Action) -> (out: (UploadSession, Action))
        ensures
            out.0@ == (SessionView { phase, ..self@ }),
            out.1 == action,
    {
        proof {
            use_type_invariant(&self);
        }
        (UploadSession { phase, ..self }, action)
    }

    fn target(&self) -> (name: String)
        ensures
            name@ == self@.target(),
    {
        match &self.header.file_name {
            Some(file_name) => candidate_name(file_name.as_str(), self.attempt),
            None => String::new(),
        }
    }

    fn create(self) -> (out: (UploadSession, Action))
        ensures
            (out.0@, out.1@) == self@.create(),
    {
        proof {
            use_type_invariant(&self);
        }
        let name = self.target();
        (UploadSession { phase: Phase::Creating, ..self }, Action::Create { name })
    }

    fn complete(self, stored_as: Option<String>) -> (out: (UploadSession, Action))
        ensures
            (out.0@, out.1@) == self@.complete(text_view(stored_as)),
    {
        proof {
            use_type_invariant(&self);
        }
        let ghost before = self@;
        let UploadSession {
            ceiling,
            accepted,
            phase: _,
            directory_ready,
            header,
            attempt: _,
            field_bytes,
            received,
        } = self;
        let mut received = received;
        let ghost earlier = received@;
        let record = FieldRecord { header, stored_as, bytes: field_bytes };
        received.push(record);
        proof {
            assert(record_views(received@) =~= record_views(earlier).push(record@));
        }
        (
            UploadSession {
                ceiling,
                accepted,
                phase: Phase::AwaitField,
                directory_ready,
                header: empty_header(),
                attempt: 0,
                field_bytes: 0,
                received,
            },
            Action::NextField,
        )
    }

    /// Whether `len` more bytes would lift the request over its ceiling.
    fn overflows(&self, len: u64) -> (over: bool)
        ensures
            over == (self@.accepted + len > self@.ceiling),
    {
        proof {
            use_type_invariant(self);
        }
        len > self.ceiling - self.accepted
    }

    fn take(self, len: u64, phase: Phase) -> (next: UploadSession)
        requires
            self@.accepted + len <= self@.ceiling,
        ensures
            next@ == self@.take(len as nat, phase),
    {
        proof {
            use_type_invariant(&self);
        }
        UploadSession {
            accepted: self.accepted + len,
            field_bytes: self.field_bytes + len,
            phase,
            ..self
        }
    }

    fn on_fresh(self, event: Event) -> (out: (UploadSession, Action))
        ensures
            (out.0@, out.1@) == self@.on_fresh(event@),
    {
        match event {
            Event::Begin { declared } => {
                let over = match declared {
                    Some(n) => n > self.ceiling,
                    None => false,
                };
                if over {
                    self.finish(Verdict::Failed(Fault::TooLarge))
                } else {
                    self.advance(Phase::AwaitField, Action::NextField)
                }
            },
            _ => self.finish(Verdict::Failed(Fault::Storage)),
        }
    }

    fn on_await_field(self, event: Event) -> (out: (UploadSession, Action))
        ensures
            (out.0@, out.1@) == self@.on_await_field(event@),
    {
        proof {
            use_type_invariant(&self);
        }
        match event {
            Event::Field(header) => match header.kind() {
                FieldKind::Malformed => self.finish(Verdict::Failed(Fault::Malformed)),
                FieldKind::Plain => (
                    UploadSession {
                        phase: Phase::Draining,
                        header,
                        attempt: 0,
                        field_bytes: 0,
                        ..self
                    },
                    Action::NextChunk,
                ),
                FieldKind::File => {
                    let ready = self.directory_ready;
                    let next = UploadSession { header, attempt: 0, field_bytes: 0, ..self };
                    if ready {
                        next.create()
                    } else {
                        next.advance(Phase::Preparing, Action::EnsureDirectory)
                    }
                },
            },
            Event::BodyEnd => self.finish(Verdict::Saved),
            Event::ReadFailed { status } => self.finish(
                Verdict::Failed(Fault::of_read_status(status)),
            ),
            _ => self.finish(Verdict::Failed(Fault::Storage)),
        }
    }

    fn on_preparing(self, event: Event) -> (out: (UploadSession, Action))
        ensures
            (out.0@, out.1@) == self@.on_preparing(event@),
    {
        proof {
            use_type_invariant(&self);
        }
        match event {
            Event::DirectoryCreated | Event::DirectoryExists => {
                UploadSession { directory_ready: true, ..self }.create()
            },
            _ => self.finish(Verdict::Failed(Fault::Storage)),
        }
    }

    fn on_creating(self, event: Event) -> (out: (UploadSession, Action))
        ensures
            (out.0@, out.1@) == self@.on_creating(event@),
    {
        proof {
            use_type_invariant(&self);
        }
        match event {
            Event::Created => self.advance(Phase::Storing, Action::NextChunk),
            Event::NameTaken => {
                if self.attempt < MAX_ATTEMPTS {
                    UploadSession { attempt: self.attempt + 1, ..self }.create()
                } else {
                    self.finish(Verdict::Failed(Fault::Storage))
                }
            },
            _ => self.finish(Verdict::Failed(Fault::Storage)),
        }
    }

    fn on_storing(self, event: Event) -> (out: (UploadSession, Action))
        ensures
            (out.0@, out.1@) == self@.on_storing(event@),
    {
        match event {
            Event::Chunk { len } => {
                if self.overflows(len) {
                    self.abandon(Fault::TooLarge)
                } else {
                    (self.take(len, Phase::Writing), Action::Write)
                }
            },
            Event::FieldEnd => self.advance(Phase::Committing, Action::Commit),
            Event::ReadFailed { status } => self.abandon(Fault::of_read_status(status)),
            _ => self.abandon(Fault::Storage),
        }
    }

    fn on_writing(self, event: Event) -> (out: (UploadSession, Action))
        ensures
            (out.0@, out.1@) == self@.on_writing(event@),
    {
        match event {
            Event::Written => self.advance(Phase::Storing, Action::NextChunk),
            _ => self.abandon(Fault::Storage),
        }
    }

    fn on_committing(self, event: Event) -> (out: (UploadSession, Action))
        ensures
            (out.0@, out.1@) == self@.on_committing(event@),
    {
        match event {
            Event::Committed => {
                let stored_as = self.target();
                self.complete(Some(stored_as))
            },
            _ => self.abandon(Fault::Storage),
        }
    }

    fn on_draining(self, event: Event) -> (out: (UploadSession, Action))
        ensures
            (out.0@, out.1@) == self@.on_draining(event@),
    {
        match event {
            Event::Chunk { len } => {
                if self.overflows(len) {
                    self.finish(Verdict::Failed(Fault::TooLarge))
                } else {
                    (self.take(len, Phase::Draining), Action::NextChunk)
                }
            },
            Event::FieldEnd => self.complete(None),
            Event::ReadFailed { status } => self.finish(
                Verdict::Failed(Fault::of_read_status(status)),
            ),
            _ => self.finish(Verdict::Failed(Fault::Storage)),
        }
    }

    /// Takes `event` in, and says what to do next.
    ///
    /// The session that comes back and the action are exactly those of
    /// [`SessionView::step`]. Whatever the events, the bytes taken stay
    /// within the ceiling.
    pub fn step(self, event: Event) -> (out: (UploadSession, Action))
        ensures
            (out.0@, out.1@) == self@.step(event@),
            out.0@.within_ceiling(),
    {
        let out = match self.phase {
            Phase::Fresh => self.on_fresh(event),
            Phase::AwaitField => self.on_await_field(event),
            Phase::Preparing => self.on_preparing(event),
            Phase::Creating => self.on_creating(event),
            Phase::Storing => self.on_storing(event),
            Phase::Writing => self.on_writing(event),
            Phase::Committing => self.on_committing(event),
            Phase::Draining => self.on_draining(event),
            Phase::Discarding(fault) => self.finish(Verdict::Failed(fault)),
            Phase::Finished(verdict) => {
                let action = closing_action(verdict);
                (self, action)
            },
        };
        proof {
            use_type_invariant(&out.0);
        }
        out
    }
}

} // verus!

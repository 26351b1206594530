use std::collections::BTreeMap;

use send_file_core::fault::{Fault, Verdict};
use send_file_core::field::FieldHeader;
use send_file_core::limits::BODY_CEILING;
use send_file_core::session::{Action, Event, Phase, UploadSession};

/// What the sender puts on the wire, in order.
enum Wire {
    Field(FieldHeader),
    Chunk(Vec<u8>),
    FieldEnd,
    BodyEnd,
    Broken(u16),
}

/// A destination directory held in memory.
struct Disk {
    directory: bool,
    files: BTreeMap<String, Vec<u8>>,
    open: Option<String>,
    full: bool,
}

impl Disk {
    fn empty() -> Disk {
        Disk { directory: false, files: BTreeMap::new(), open: None, full: false }
    }
}

fn header(name: Option<&str>, file_name: Option<&str>, content_type: Option<&str>) -> FieldHeader {
    FieldHeader {
        name: name.map(String::from),
        file_name: file_name.map(String::from),
        content_type: content_type.map(String::from),
    }
}

fn file_part(file_name: &str, chunks: &[&[u8]]) -> Vec<Wire> {
    let mut wire = vec![Wire::Field(header(Some("file"), Some(file_name), Some("text/plain")))];
    for chunk in chunks {
        wire.push(Wire::Chunk(chunk.to_vec()));
    }
    wire.push(Wire::FieldEnd);
    wire
}

/// Runs a session against the wire and the disk until it says its last word.
fn drive(
    ceiling: u64,
    declared: Option<u64>,
    wire: Vec<Wire>,
    disk: &mut Disk,
) -> (UploadSession, Action, Vec<Action>) {
    let mut wire = wire.into_iter();
    let mut session = UploadSession::new(ceiling);
    let mut pending: Vec<u8> = Vec::new();
    let mut asked = Vec::new();
    let mut event = Event::Begin { declared };
    loop {
        let (next, action) = session.step(event);
        session = next;
        asked.push(action.clone());
        assert!(session.accepted() <= session.ceiling());
        event = match action {
            Action::NextField | Action::NextChunk => match wire.next() {
                Some(Wire::Field(header)) => Event::Field(header),
                Some(Wire::Chunk(bytes)) => {
                    let len = bytes.len() as u64;
                    pending = bytes;
                    Event::Chunk { len }
                }
                Some(Wire::FieldEnd) => Event::FieldEnd,
                Some(Wire::BodyEnd) | None => Event::BodyEnd,
                Some(Wire::Broken(status)) => Event::ReadFailed { status },
            },
            Action::EnsureDirectory => {
                if disk.directory {
                    Event::DirectoryExists
                } else {
                    disk.directory = true;
                    Event::DirectoryCreated
                }
            }
            Action::Create { name } => {
                assert!(disk.directory);
                if disk.files.contains_key(&name) {
                    Event::NameTaken
                } else {
                    disk.files.insert(name.clone(), Vec::new());
                    disk.open = Some(name);
                    Event::Created
                }
            }
            Action::Write => {
                if disk.full {
                    Event::StorageFailed
                } else {
                    let name = disk.open.clone().unwrap();
                    disk.files.get_mut(&name).unwrap().extend_from_slice(&pending);
                    Event::Written
                }
            }
            Action::Commit => {
                disk.open = None;
                Event::Committed
            }
            Action::Discard => {
                let name = disk.open.take().unwrap();
                disk.files.remove(&name);
                Event::Discarded
            }
            Action::Respond { .. } | Action::Hangup => return (session, action, asked),
        };
    }
}

#[test]
fn one_file_is_stored_under_its_name() {
    let mut disk = Disk::empty();
    let wire = vec![
        Wire::Field(header(Some("file"), Some("report.pdf"), Some("application/pdf"))),
        Wire::Chunk(b"hello".to_vec()),
        Wire::FieldEnd,
        Wire::BodyEnd,
    ];
    let (session, last, asked) = drive(BODY_CEILING, None, wire, &mut disk);
    assert_eq!(last, Action::Respond { status: 200 });
    assert_eq!(session.verdict(), Some(Verdict::Saved));
    assert_eq!(disk.files.len(), 1);
    assert_eq!(disk.files.get("report.pdf"), Some(&b"hello".to_vec()));
    assert_eq!(disk.open, None);
    assert_eq!(
        asked,
        vec![
            Action::NextField,
            Action::EnsureDirectory,
            Action::Create { name: "report.pdf".to_string() },
            Action::NextChunk,
            Action::Write,
            Action::NextChunk,
            Action::Commit,
            Action::NextField,
            Action::Respond { status: 200 },
        ]
    );
    let records = session.received();
    assert_eq!(records.len(), 1);
    assert_eq!(records[0].header.name.as_deref(), Some("file"));
    assert_eq!(records[0].header.file_name.as_deref(), Some("report.pdf"));
    assert_eq!(records[0].header.content_type.as_deref(), Some("application/pdf"));
    assert_eq!(records[0].stored_as.as_deref(), Some("report.pdf"));
    assert_eq!(records[0].bytes, 5);
    assert_eq!(session.accepted(), 5);
}

#[test]
fn every_file_part_becomes_a_file_of_its_own() {
    let mut disk = Disk::empty();
    disk.directory = true;
    disk.files.insert("old.txt".to_string(), b"kept".to_vec());
    let mut wire = Vec::new();
    wire.extend(file_part("a.txt", &[b"first ", b"file"]));
    wire.extend(file_part("a.txt", &[b"second"]));
    wire.extend(file_part("b.txt", &[]));
    wire.push(Wire::BodyEnd);
    let (session, last, _) = drive(1000, Some(900), wire, &mut disk);
    assert_eq!(last, Action::Respond { status: 200 });
    assert_eq!(disk.files.len(), 4);
    assert_eq!(disk.files["old.txt"], b"kept".to_vec());
    assert_eq!(disk.files["a.txt"], b"first file".to_vec());
    assert_eq!(disk.files["1-a.txt"], b"second".to_vec());
    assert_eq!(disk.files["b.txt"], Vec::<u8>::new());
    let stored: Vec<Option<&str>> =
        session.received().iter().map(|r| r.stored_as.as_deref()).collect();
    assert_eq!(stored, vec![Some("a.txt"), Some("1-a.txt"), Some("b.txt")]);
    let sizes: Vec<u64> = session.received().iter().map(|r| r.bytes).collect();
    assert_eq!(sizes, vec![10, 6, 0]);
    assert_eq!(session.accepted(), 16);
}

#[test]
fn a_taken_name_is_tried_again_behind_a_counter() {
    let mut disk = Disk::empty();
    disk.directory = true;
    disk.files.insert("photo.jpg".to_string(), b"0".to_vec());
    disk.files.insert("1-photo.jpg".to_string(), b"1".to_vec());
    let mut wire = file_part("photo.jpg", &[b"new"]);
    wire.push(Wire::BodyEnd);
    let (session, last, asked) = drive(100, None, wire, &mut disk);
    assert_eq!(last, Action::Respond { status: 200 });
    assert_eq!(
        &asked[..5],
        &[
            Action::NextField,
            Action::EnsureDirectory,
            Action::Create { name: "photo.jpg".to_string() },
            Action::Create { name: "1-photo.jpg".to_string() },
            Action::Create { name: "2-photo.jpg".to_string() },
        ]
    );
    assert_eq!(disk.files["photo.jpg"], b"0".to_vec());
    assert_eq!(disk.files["1-photo.jpg"], b"1".to_vec());
    assert_eq!(disk.files["2-photo.jpg"], b"new".to_vec());
    assert_eq!(session.received()[0].stored_as.as_deref(), Some("2-photo.jpg"));
}

#[test]
fn a_part_without_a_file_name_is_read_past_and_recorded() {
    let mut disk = Disk::empty();
    let wire = vec![
        Wire::Field(header(Some("comment"), None, None)),
        Wire::Chunk(b"just text".to_vec()),
        Wire::FieldEnd,
        Wire::BodyEnd,
    ];
    let (session, last, asked) = drive(100, None, wire, &mut disk);
    assert_eq!(last, Action::Respond { status: 200 });
    assert!(disk.files.is_empty());
    assert!(!disk.directory);
    assert_eq!(
        asked,
        vec![
            Action::NextField,
            Action::NextChunk,
            Action::NextChunk,
            Action::NextField,
            Action::Respond { status: 200 },
        ]
    );
    let records = session.received();
    assert_eq!(records.len(), 1);
    assert_eq!(records[0].header.name.as_deref(), Some("comment"));
    assert_eq!(records[0].stored_as, None);
    assert_eq!(records[0].bytes, 9);
    assert_eq!(session.accepted(), 9);
}

#[test]
fn a_form_field_between_files_does_not_disturb_them() {
    let mut disk = Disk::empty();
    let mut wire = file_part("a.bin", &[b"aa"]);
    wire.push(Wire::Field(header(Some("note"), None, Some("text/plain"))));
    wire.push(Wire::Chunk(b"n".to_vec()));
    wire.push(Wire::FieldEnd);
    wire.extend(file_part("b.bin", &[b"bbb"]));
    wire.push(Wire::BodyEnd);
    let (session, last, _) = drive(6, None, wire, &mut disk);
    assert_eq!(last, Action::Respond { status: 200 });
    assert_eq!(disk.files.len(), 2);
    assert_eq!(disk.files["a.bin"], b"aa".to_vec());
    assert_eq!(disk.files["b.bin"], b"bbb".to_vec());
    assert_eq!(session.received().len(), 3);
    assert_eq!(session.accepted(), 6);
}

#[test]
fn an_empty_body_is_a_success_without_files() {
    let mut disk = Disk::empty();
    let (session, last, asked) = drive(10, None, vec![Wire::BodyEnd], &mut disk);
    assert_eq!(last, Action::Respond { status: 200 });
    assert_eq!(asked, vec![Action::NextField, Action::Respond { status: 200 }]);
    assert!(disk.files.is_empty());
    assert!(session.received().is_empty());
}

#[test]
fn a_part_without_a_name_is_a_bad_request() {
    let mut disk = Disk::empty();
    let wire = vec![
        Wire::Field(header(None, Some("x.txt"), Some("text/plain"))),
        Wire::Chunk(b"x".to_vec()),
        Wire::FieldEnd,
        Wire::BodyEnd,
    ];
    let (session, last, asked) = drive(100, None, wire, &mut disk);
    assert_eq!(last, Action::Respond { status: 400 });
    assert_eq!(asked, vec![Action::NextField, Action::Respond { status: 400 }]);
    assert_eq!(session.verdict(), Some(Verdict::Failed(Fault::Malformed)));
    assert!(disk.files.is_empty());
}

#[test]
fn a_file_without_a_content_type_is_a_bad_request() {
    let mut disk = Disk::empty();
    let wire = vec![Wire::Field(header(Some("file"), Some("x.txt"), None)), Wire::BodyEnd];
    let (_, last, _) = drive(100, None, wire, &mut disk);
    assert_eq!(last, Action::Respond { status: 400 });
    assert!(disk.files.is_empty());
}

#[test]
fn a_file_name_that_leaves_the_directory_is_a_bad_request() {
    for bad in ["../escape.txt", "a/b.txt", "a\\b.txt", "..", ".", "", "nul\0.txt"] {
        let mut disk = Disk::empty();
        let wire = vec![Wire::Field(header(Some("file"), Some(bad), Some("text/plain")))];
        let (session, last, asked) = drive(100, None, wire, &mut disk);
        assert_eq!(last, Action::Respond { status: 400 }, "{:?}", bad);
        assert_eq!(asked.len(), 2);
        assert_eq!(session.verdict(), Some(Verdict::Failed(Fault::Malformed)));
        assert!(disk.files.is_empty());
    }
}

#[test]
fn a_broken_body_between_parts_is_a_bad_request() {
    let mut disk = Disk::empty();
    let mut wire = file_part("a.txt", &[b"a"]);
    wire.push(Wire::Broken(400));
    let (session, last, _) = drive(100, None, wire, &mut disk);
    assert_eq!(last, Action::Respond { status: 400 });
    assert_eq!(session.verdict(), Some(Verdict::Failed(Fault::Malformed)));
    // The part that was complete stays; it is whole.
    assert_eq!(disk.files["a.txt"], b"a".to_vec());
    assert_eq!(session.received().len(), 1);
}

#[test]
fn a_chunk_over_the_ceiling_is_refused_and_its_file_removed() {
    let mut disk = Disk::empty();
    let wire = vec![
        Wire::Field(header(Some("file"), Some("big.bin"), Some("application/octet-stream"))),
        Wire::Chunk(vec![1; 6]),
        Wire::Chunk(vec![2; 5]),
        Wire::Chunk(vec![3; 1]),
        Wire::FieldEnd,
        Wire::BodyEnd,
    ];
    let (session, last, asked) = drive(10, None, wire, &mut disk);
    assert_eq!(last, Action::Respond { status: 413 });
    assert_eq!(session.verdict(), Some(Verdict::Failed(Fault::TooLarge)));
    assert_eq!(session.accepted(), 6);
    assert!(disk.files.is_empty());
    assert_eq!(disk.open, None);
    assert_eq!(
        asked,
        vec![
            Action::NextField,
            Action::EnsureDirectory,
            Action::Create { name: "big.bin".to_string() },
            Action::NextChunk,
            Action::Write,
            Action::NextChunk,
            Action::Discard,
            Action::Respond { status: 413 },
        ]
    );
    assert!(session.received().is_empty());
}

#[test]
fn a_request_may_fill_its_ceiling_to_the_last_byte() {
    let mut disk = Disk::empty();
    let mut wire = file_part("full.bin", &[&[7; 4], &[8; 6]]);
    wire.push(Wire::BodyEnd);
    let (session, last, _) = drive(10, Some(10), wire, &mut disk);
    assert_eq!(last, Action::Respond { status: 200 });
    assert_eq!(session.accepted(), 10);
    assert_eq!(disk.files["full.bin"].len(), 10);
}

#[test]
fn the_ceiling_counts_over_all_parts() {
    let mut disk = Disk::empty();
    let mut wire = file_part("a.bin", &[&[1; 6]]);
    wire.push(Wire::Field(header(Some("note"), None, None)));
    wire.push(Wire::Chunk(vec![2; 3]));
    wire.push(Wire::FieldEnd);
    wire.extend(file_part("b.bin", &[&[3; 2]]));
    wire.push(Wire::BodyEnd);
    let (session, last, _) = drive(10, None, wire, &mut disk);
    assert_eq!(last, Action::Respond { status: 413 });
    assert_eq!(session.accepted(), 9);
    // The earlier file is whole and stays; the one in progress is gone.
    assert_eq!(disk.files.len(), 1);
    assert_eq!(disk.files["a.bin"], vec![1; 6]);
    assert_eq!(session.received().len(), 2);
}

#[test]
fn a_form_field_over_the_ceiling_is_refused() {
    let mut disk = Disk::empty();
    let wire = vec![
        Wire::Field(header(Some("note"), None, None)),
        Wire::Chunk(vec![0; 11]),
        Wire::FieldEnd,
        Wire::BodyEnd,
    ];
    let (session, last, asked) = drive(10, None, wire, &mut disk);
    assert_eq!(last, Action::Respond { status: 413 });
    assert_eq!(asked, vec![Action::NextField, Action::NextChunk, Action::Respond { status: 413 }]);
    assert_eq!(session.accepted(), 0);
}

#[test]
fn a_declared_length_over_the_ceiling_is_refused_unread() {
    let mut disk = Disk::empty();
    let mut wire = file_part("a.txt", &[b"a"]);
    wire.push(Wire::BodyEnd);
    let (session, last, asked) = drive(BODY_CEILING, Some(BODY_CEILING + 1), wire, &mut disk);
    assert_eq!(last, Action::Respond { status: 413 });
    assert_eq!(asked, vec![Action::Respond { status: 413 }]);
    assert_eq!(session.verdict(), Some(Verdict::Failed(Fault::TooLarge)));
    assert!(disk.files.is_empty());

    let mut disk = Disk::empty();
    let (_, last, _) = drive(BODY_CEILING, Some(BODY_CEILING), vec![Wire::BodyEnd], &mut disk);
    assert_eq!(last, Action::Respond { status: 200 });
}

#[test]
fn the_body_limit_reported_by_the_reader_is_answered_with_413() {
    let mut disk = Disk::empty();
    let wire = vec![
        Wire::Field(header(Some("file"), Some("a.bin"), Some("application/octet-stream"))),
        Wire::Chunk(vec![0; 3]),
        Wire::Broken(413),
    ];
    let (session, last, asked) = drive(100, None, wire, &mut disk);
    assert_eq!(last, Action::Respond { status: 413 });
    assert_eq!(asked[asked.len() - 2], Action::Discard);
    assert_eq!(session.verdict(), Some(Verdict::Failed(Fault::TooLarge)));
    assert!(disk.files.is_empty());
}

#[test]
fn a_lost_connection_removes_the_unfinished_file_and_reports_no_success() {
    let mut disk = Disk::empty();
    let wire = vec![
        Wire::Field(header(Some("file"), Some("movie.mkv"), Some("video/x-matroska"))),
        Wire::Chunk(vec![9; 1024 * 1024]),
        Wire::Broken(500),
    ];
    let declared = 2 * 1024 * 1024 * 1024;
    let (session, last, asked) = drive(BODY_CEILING, Some(declared), wire, &mut disk);
    assert_eq!(last, Action::Hangup);
    assert_eq!(session.verdict(), Some(Verdict::Failed(Fault::Transport)));
    assert_eq!(session.verdict().unwrap().status(), None);
    assert!(!session.verdict().unwrap().is_success());
    assert_eq!(session.accepted(), 1024 * 1024);
    assert!(disk.files.is_empty());
    assert_eq!(disk.open, None);
    assert_eq!(
        asked,
        vec![
            Action::NextField,
            Action::EnsureDirectory,
            Action::Create { name: "movie.mkv".to_string() },
            Action::NextChunk,
            Action::Write,
            Action::NextChunk,
            Action::Discard,
            Action::Hangup,
        ]
    );
    assert!(session.received().is_empty());
}

#[test]
fn a_body_that_ends_in_the_middle_of_a_part_is_a_bad_request() {
    let mut disk = Disk::empty();
    let wire = vec![
        Wire::Field(header(Some("file"), Some("cut.bin"), Some("application/octet-stream"))),
        Wire::Chunk(vec![1; 8]),
        Wire::Broken(400),
    ];
    let (_, last, _) = drive(100, None, wire, &mut disk);
    assert_eq!(last, Action::Respond { status: 400 });
    assert!(disk.files.is_empty());
}

#[test]
fn a_failed_write_removes_the_file_and_is_a_server_error() {
    let mut disk = Disk::empty();
    disk.full = true;
    let mut wire = file_part("a.txt", &[b"abc"]);
    wire.push(Wire::BodyEnd);
    let (session, last, asked) = drive(100, None, wire, &mut disk);
    assert_eq!(last, Action::Respond { status: 500 });
    assert_eq!(session.verdict(), Some(Verdict::Failed(Fault::Storage)));
    assert_eq!(asked[asked.len() - 2], Action::Discard);
    assert!(disk.files.is_empty());
}

fn begun(ceiling: u64) -> UploadSession {
    let (session, action) = UploadSession::new(ceiling).step(Event::Begin { declared: None });
    assert_eq!(action, Action::NextField);
    assert_eq!(session.phase(), Phase::AwaitField);
    session
}

fn storing(ceiling: u64) -> UploadSession {
    let session = begun(ceiling);
    let (session, action) =
        session.step(Event::Field(header(Some("f"), Some("a.txt"), Some("text/plain"))));
    assert_eq!(action, Action::EnsureDirectory);
    assert_eq!(session.phase(), Phase::Preparing);
    let (session, action) = session.step(Event::DirectoryCreated);
    assert_eq!(action, Action::Create { name: "a.txt".to_string() });
    assert_eq!(session.phase(), Phase::Creating);
    let (session, action) = session.step(Event::Created);
    assert_eq!(action, Action::NextChunk);
    assert_eq!(session.phase(), Phase::Storing);
    session
}

#[test]
fn a_fresh_session_has_taken_nothing() {
    let session = UploadSession::new(42);
    assert_eq!(session.ceiling(), 42);
    assert_eq!(session.accepted(), 0);
    assert_eq!(session.phase(), Phase::Fresh);
    assert_eq!(session.verdict(), None);
    assert!(session.received().is_empty());
}

#[test]
fn a_directory_that_is_there_already_is_no_failure() {
    let session = begun(100);
    let (session, _) =
        session.step(Event::Field(header(Some("f"), Some("a.txt"), Some("text/plain"))));
    let (session, action) = session.step(Event::DirectoryExists);
    assert_eq!(action, Action::Create { name: "a.txt".to_string() });
    assert_eq!(session.phase(), Phase::Creating);
}

#[test]
fn the_directory_is_made_sure_of_once_per_request() {
    let mut disk = Disk::empty();
    let mut wire = file_part("a.txt", &[b"a"]);
    wire.extend(file_part("b.txt", &[b"b"]));
    wire.push(Wire::BodyEnd);
    let (_, _, asked) = drive(100, None, wire, &mut disk);
    let times = asked.iter().filter(|a| **a == Action::EnsureDirectory).count();
    assert_eq!(times, 1);
}

#[test]
fn a_directory_that_cannot_be_made_is_a_server_error() {
    let session = begun(100);
    let (session, _) =
        session.step(Event::Field(header(Some("f"), Some("a.txt"), Some("text/plain"))));
    let (session, action) = session.step(Event::StorageFailed);
    assert_eq!(action, Action::Respond { status: 500 });
    assert_eq!(session.verdict(), Some(Verdict::Failed(Fault::Storage)));
}

#[test]
fn a_file_that_cannot_be_created_is_a_server_error() {
    let session = begun(100);
    let (session, _) =
        session.step(Event::Field(header(Some("f"), Some("a.txt"), Some("text/plain"))));
    let (session, _) = session.step(Event::DirectoryExists);
    let (session, action) = session.step(Event::StorageFailed);
    assert_eq!(action, Action::Respond { status: 500 });
    assert_eq!(session.phase(), Phase::Finished(Verdict::Failed(Fault::Storage)));
}

#[test]
fn a_failed_close_removes_the_file() {
    let session = storing(100);
    let (session, action) = session.step(Event::FieldEnd);
    assert_eq!(action, Action::Commit);
    assert_eq!(session.phase(), Phase::Committing);
    let (session, action) = session.step(Event::StorageFailed);
    assert_eq!(action, Action::Discard);
    assert_eq!(session.phase(), Phase::Discarding(Fault::Storage));
    let (session, action) = session.step(Event::Discarded);
    assert_eq!(action, Action::Respond { status: 500 });
    assert!(session.received().is_empty());
}

#[test]
fn an_event_out_of_turn_ends_the_request_as_a_server_error() {
    let (session, action) = UploadSession::new(10).step(Event::BodyEnd);
    assert_eq!(action, Action::Respond { status: 500 });
    assert_eq!(session.verdict(), Some(Verdict::Failed(Fault::Storage)));

    let (_, action) = begun(10).step(Event::Chunk { len: 1 });
    assert_eq!(action, Action::Respond { status: 500 });

    let (session, action) = storing(10).step(Event::Created);
    assert_eq!(action, Action::Discard);
    assert_eq!(session.phase(), Phase::Discarding(Fault::Storage));
}

#[test]
fn a_session_that_is_over_repeats_its_last_word() {
    let (session, action) = begun(10).step(Event::BodyEnd);
    assert_eq!(action, Action::Respond { status: 200 });
    let (session, action) = session.step(Event::Chunk { len: 5 });
    assert_eq!(action, Action::Respond { status: 200 });
    let (session, action) = session.step(Event::Field(header(Some("f"), None, None)));
    assert_eq!(action, Action::Respond { status: 200 });
    assert_eq!(session.verdict(), Some(Verdict::Saved));
    assert_eq!(session.accepted(), 0);

    let (session, _) = begun(10).step(Event::ReadFailed { status: 400 });
    let (session, action) = session.step(Event::BodyEnd);
    assert_eq!(action, Action::Respond { status: 400 });
    assert_eq!(session.verdict(), Some(Verdict::Failed(Fault::Malformed)));
}

#[test]
fn a_request_given_up_never_reports_success() {
    let session = storing(4);
    let (mut session, action) = session.step(Event::Chunk { len: 5 });
    assert_eq!(action, Action::Discard);
    for event in [
        Event::Discarded,
        Event::BodyEnd,
        Event::Written,
        Event::Committed,
        Event::Begin { declared: None },
        Event::FieldEnd,
    ] {
        let (next, action) = session.step(event);
        assert_eq!(action, Action::Respond { status: 413 });
        assert_eq!(next.verdict(), Some(Verdict::Failed(Fault::TooLarge)));
        session = next;
    }
}

#[test]
fn chunk_lengths_near_the_largest_number_do_not_wrap() {
    let session = storing(u64::MAX);
    let (session, action) = session.step(Event::Chunk { len: u64::MAX - 1 });
    assert_eq!(action, Action::Write);
    let (session, _) = session.step(Event::Written);
    let (session, action) = session.step(Event::Chunk { len: 2 });
    assert_eq!(action, Action::Discard);
    assert_eq!(session.accepted(), u64::MAX - 1);
    let session = storing(u64::MAX);
    let (session, action) = session.step(Event::Chunk { len: u64::MAX });
    assert_eq!(action, Action::Write);
    assert_eq!(session.accepted(), u64::MAX);
}

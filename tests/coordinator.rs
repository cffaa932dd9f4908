use s3_gateway::chunker::{ChunkRange, CHUNK_SIZE};
use s3_gateway::error::UploadError;
use s3_gateway::front::{transfer_status, upload_option, UploadOption};
use s3_gateway::parts::{completed_part, copy_parts, record_part, CompletedPart};
use s3_gateway::session::{Action, Coordinator, Event, Phase};

const MIB: usize = 1_048_576;

fn id() -> String {
    "upload-17".to_string()
}

fn tag(n: usize) -> Option<String> {
    Some(format!("etag-{n}"))
}

fn numbers(parts: &[CompletedPart]) -> Vec<usize> {
    parts.iter().map(|p| p.part_number).collect()
}

fn opened(total: usize) -> (Coordinator, Action) {
    let (mut c, a) = Coordinator::begin(total, CHUNK_SIZE);
    assert!(matches!(a, Action::CreateSession));
    let a = c.step(Event::SessionCreated(Some(id())));
    (c, a)
}

#[test]
fn twelve_mib_commits_three_sorted_parts() {
    let (mut c, mut a) = opened(12 * MIB);
    let expected = [
        ChunkRange { part_number: 1, start: 0, end: 5 * MIB },
        ChunkRange { part_number: 2, start: 5 * MIB, end: 10 * MIB },
        ChunkRange { part_number: 3, start: 10 * MIB, end: 12 * MIB },
    ];
    for want in expected {
        match a {
            Action::UploadPart { upload_id, range } => {
                assert_eq!(upload_id, id());
                assert_eq!(range, want);
            }
            other => panic!("expected a part upload, got {other:?}"),
        }
        a = c.step(Event::PartUploaded(tag(want.part_number)));
    }
    match a {
        Action::Commit { upload_id, parts } => {
            assert_eq!(upload_id, id());
            assert_eq!(numbers(&parts), vec![1, 2, 3]);
            assert_eq!(parts[1].e_tag, "etag-2");
        }
        other => panic!("expected a commit, got {other:?}"),
    }
    assert_eq!(c.phase(), Phase::Committing);
    assert!(matches!(c.step(Event::CommitAccepted), Action::Complete));
    assert_eq!(c.phase(), Phase::Committed);
    assert!(matches!(c.step(Event::PartFailed), Action::Complete));
}

#[test]
fn three_mib_never_opens_a_session() {
    let (c, a) = Coordinator::begin(3 * MIB, CHUNK_SIZE);
    assert!(matches!(a, Action::Fail(UploadError::NotEligibleForMultipart)));
    assert_eq!(c.phase(), Phase::Failed(UploadError::NotEligibleForMultipart));
}

#[test]
fn five_mib_is_one_part() {
    let (mut c, a) = opened(5 * MIB);
    assert_eq!(c.chunk_count(), 1);
    match a {
        Action::UploadPart { range, .. } => {
            assert_eq!(range, ChunkRange { part_number: 1, start: 0, end: 5 * MIB })
        }
        other => panic!("expected a part upload, got {other:?}"),
    }
    match c.step(Event::PartUploaded(tag(1))) {
        Action::Commit { parts, .. } => assert_eq!(numbers(&parts), vec![1]),
        other => panic!("expected a commit, got {other:?}"),
    }
}

#[test]
fn failed_second_part_aborts_without_commit() {
    let (mut c, _) = opened(12 * MIB);
    let a = c.step(Event::PartUploaded(tag(1)));
    assert!(matches!(a, Action::UploadPart { .. }));
    match c.step(Event::PartFailed) {
        Action::Abort { upload_id, error } => {
            assert_eq!(upload_id, id());
            assert_eq!(error, UploadError::PartTransferError);
        }
        other => panic!("expected an abort, got {other:?}"),
    }
    assert_eq!(c.phase(), Phase::Failed(UploadError::PartTransferError));
    assert_eq!(numbers(c.parts()), vec![1]);
    let later = c.step(Event::PartUploaded(tag(3)));
    assert!(matches!(later, Action::Fail(UploadError::PartTransferError)));
}

#[test]
fn missing_tag_is_a_protocol_violation() {
    let (mut c, _) = opened(12 * MIB);
    match c.step(Event::PartUploaded(None)) {
        Action::Abort { error, .. } => assert_eq!(error, UploadError::ProtocolViolation),
        other => panic!("expected an abort, got {other:?}"),
    }
    assert!(c.parts().is_empty());
}

#[test]
fn rejected_session_fails_without_abort() {
    let (mut c, _) = Coordinator::begin(12 * MIB, CHUNK_SIZE);
    assert!(matches!(c.step(Event::SessionRejected), Action::Fail(UploadError::SessionInitError)));
}

#[test]
fn session_without_identifier_fails() {
    let (mut c, _) = Coordinator::begin(12 * MIB, CHUNK_SIZE);
    assert!(matches!(c.step(Event::SessionCreated(None)), Action::Fail(UploadError::ProtocolViolation)));
}

#[test]
fn rejected_commit_aborts() {
    let (mut c, _) = opened(6 * MIB);
    c.step(Event::PartUploaded(tag(1)));
    assert!(matches!(c.step(Event::PartUploaded(tag(2))), Action::Commit { .. }));
    match c.step(Event::CommitRejected) {
        Action::Abort { error, .. } => assert_eq!(error, UploadError::CommitError),
        other => panic!("expected an abort, got {other:?}"),
    }
}

#[test]
fn out_of_place_answer_ends_the_session() {
    let (mut c, _) = opened(12 * MIB);
    match c.step(Event::CommitAccepted) {
        Action::Abort { error, .. } => assert_eq!(error, UploadError::ProtocolViolation),
        other => panic!("expected an abort, got {other:?}"),
    }
}

#[test]
fn same_part_twice_keeps_last_upload() {
    let mut once: Vec<CompletedPart> = Vec::new();
    let mut twice: Vec<CompletedPart> = Vec::new();
    for n in [1usize, 3] {
        record_part(&mut once, completed_part(n, tag(n)).unwrap());
        record_part(&mut twice, completed_part(n, tag(n)).unwrap());
    }
    record_part(&mut twice, completed_part(2, Some("stale".to_string())).unwrap());
    record_part(&mut twice, completed_part(2, tag(2)).unwrap());
    record_part(&mut once, completed_part(2, tag(2)).unwrap());
    assert_eq!(numbers(&once), vec![1, 2, 3]);
    assert_eq!(numbers(&twice), vec![1, 2, 3]);
    let tags = |ps: &[CompletedPart]| ps.iter().map(|p| p.e_tag.clone()).collect::<Vec<_>>();
    assert_eq!(tags(&once), tags(&twice));
    assert_eq!(twice[1].e_tag, "etag-2");
}

#[test]
fn record_part_inserts_in_order() {
    let mut ps: Vec<CompletedPart> = Vec::new();
    for n in [4usize, 1, 3, 2] {
        record_part(&mut ps, completed_part(n, tag(n)).unwrap());
    }
    assert_eq!(numbers(&ps), vec![1, 2, 3, 4]);
    let copy = copy_parts(&ps);
    assert_eq!(numbers(&copy), vec![1, 2, 3, 4]);
    assert_eq!(copy[3].e_tag, "etag-4");
}

#[test]
fn completed_part_needs_a_tag() {
    assert!(matches!(completed_part(2, None), Err(UploadError::ProtocolViolation)));
    let p = completed_part(2, Some("abc".to_string())).unwrap();
    assert_eq!((p.part_number, p.e_tag.as_str()), (2, "abc"));
}

#[test]
fn upload_options() {
    assert_eq!(upload_option(&"multi".to_string()), Some(UploadOption::Multipart));
    assert_eq!(upload_option(&"default".to_string()), Some(UploadOption::SingleShot));
    assert_eq!(upload_option(&"other".to_string()), None);
    assert_eq!(upload_option(&"".to_string()), None);
}

#[test]
fn statuses() {
    assert_eq!(transfer_status(&Ok(())), 200);
    assert_eq!(transfer_status(&Err(UploadError::ChunkTooSmall)), 400);
}

use vstd::prelude::*;
use crate::chunker::{chunk_count, chunk_range, lemma_chunks_tile_source, spec_chunk_count, ChunkRange};
use crate::error::UploadError;
use crate::parts::{
    completed_part,
    copy_parts,
    lemma_recorded_after_all,
    numbered_from_one,
    parts_view,
    record_part,
    CompletedPart,
};

verus! {

broadcast use vstd::seq_lib::group_seq_properties;

/// Where a multipart session stands.
#[derive(Clone, Copy, Debug, PartialEq, Eq, Structural)]
pub enum Phase {
    /// No session has been opened with the backend yet.
    Uninitiated,
    /// The session is open and the part after the accepted ones is in transfer.
    PartsInFlight,
    /// Every part was accepted and the part list was sent for commit.
    Committing,
    /// The backend committed the object.
    Committed,
    /// The session ended without an object, for the reason given.
    Failed(UploadError),
}

/// What the backend answered to the last action.
#[derive(Debug)]
pub enum Event {
    /// The session was opened; carries the identifier the backend issued, if any.
    SessionCreated(Option<String>),
    /// The backend refused to open a session.
    SessionRejected,
    /// The part in transfer was accepted; carries its integrity tag, if any.
    PartUploaded(Option<String>),
    /// The part in transfer failed.
    PartFailed,
    /// The backend committed the object.
    CommitAccepted,
    /// The backend refused the part list.
    CommitRejected,
}

/// What the caller is to do next.
#[derive(Debug)]
pub enum Action {
    /// Open a multipart session for the target key.
    CreateSession,
    /// Transfer the bytes of `range` as part `range.part_number` of the session.
    UploadPart { upload_id: String, range: ChunkRange },
    /// Commit the session with this part list.
    Commit { upload_id: String, parts: Vec<CompletedPart> },
    /// Release the session on the backend, then report `error`.
    Abort { upload_id: String, error: UploadError },
    /// The object is stored.
    Complete,
    /// The transfer failed with `error`; there is no session to release.
    Fail(UploadError),
}

/// The state of a coordinator, as plain values.
pub struct CoordinatorView {
    pub total: nat,
    pub size: nat,
    pub count: nat,
    pub phase: Phase,
    pub upload_id: Option<Seq<char>>,
    pub parts: Seq<(nat, Seq<char>)>,
}

impl CoordinatorView {
    /// Holds of every coordinator: `begin` makes only such ones and `step`
    /// keeps it. The count is the source's chunk count; while the session runs, the
    /// accepted parts are numbered `1..=k` with `k` below the count, and once
    /// all are in they are numbered exactly `1..=count`.
    pub open spec fn wf(self) -> bool {
        &&& self.size > 0
        &&& self.total >= self.size ==> self.count == spec_chunk_count(self.total, self.size)
        &&& self.total >= self.size ==> self.count >= 1
        &&& self.total < self.size ==> self.count == 0
        &&& self.phase == Phase::Uninitiated ==> {
            &&& self.total >= self.size
            &&& self.upload_id is None
            &&& self.parts.len() == 0
        }
        &&& self.phase == Phase::PartsInFlight ==> {
            &&& self.upload_id is Some
            &&& self.parts.len() < self.count
            &&& numbered_from_one(self.parts, self.parts.len())
        }
        &&& (self.phase == Phase::Committing || self.phase == Phase::Committed) ==> {
            &&& self.upload_id is Some
            &&& numbered_from_one(self.parts, self.count)
        }
    }
}

/// The session ended with `error` and nothing else changed; an open session
/// is released, and without one the failure is reported as it is.
pub open spec fn ended(o: CoordinatorView, f: CoordinatorView, a: Action, error: UploadError) -> bool {
    &&& f == (CoordinatorView { phase: Phase::Failed(error), ..o })
    &&& o.upload_id is None ==> a == Action::Fail(error)
    &&& o.upload_id is Some ==> a is Abort && a->Abort_error == error && a->Abort_upload_id@
        == o.upload_id->Some_0
}

/// Drives one multipart transfer: which backend call comes next, given what
/// the backend answered to the last one.
pub struct Coordinator {
    total_size: usize,
    chunk_size: usize,
    chunk_count: usize,
    phase: Phase,
    upload_id: Option<String>,
    parts: Vec<CompletedPart>,
}

impl View for Coordinator {
    type V = CoordinatorView;

    closed spec fn view(&self) -> CoordinatorView {
        CoordinatorView {
            total: self.total_size as nat,
            size: self.chunk_size as nat,
            count: self.chunk_count as nat,
            phase: self.phase,
            upload_id: match self.upload_id {
                Some(s) => Some(s@),
                None => None,
            },
            parts: parts_view(self.parts@),
        }
    }
}

impl Coordinator {
    /// Starts a transfer of a `total_size`-byte source in chunks of
    /// `chunk_size` bytes. A source smaller than one chunk is not eligible,
    /// and then no session is opened at all.
    pub fn begin(total_size: usize, chunk_size: usize) -> (r: (Coordinator, Action))
        requires
            chunk_size > 0,
        ensures
            r.0@.wf(),
            r.0@.total == total_size,
            r.0@.size == chunk_size,
            total_size < chunk_size ==> r.0@.phase == Phase::Failed(
                UploadError::NotEligibleForMultipart,
            ) && r.1 == Action::Fail(UploadError::NotEligibleForMultipart),
            total_size >= chunk_size ==> r.0@.phase == Phase::Uninitiated && r.1
                == Action::CreateSession,
    {
        match chunk_count(total_size, chunk_size) {
            Ok(n) => {
                proof {
                    lemma_chunks_tile_source(total_size as nat, chunk_size as nat);
                }
                let c = Coordinator {
                    total_size,
                    chunk_size,
                    chunk_count: n,
                    phase: Phase::Uninitiated,
                    upload_id: None,
                    parts: Vec::new(),
                };
                (c, Action::CreateSession)
            },
            Err(_) => {
                let c = Coordinator {
                    total_size,
                    chunk_size,
                    chunk_count: 0,
                    phase: Phase::Failed(UploadError::NotEligibleForMultipart),
                    upload_id: None,
                    parts: Vec::new(),
                };
                (c, Action::Fail(UploadError::NotEligibleForMultipart))
            },
        }
    }

    pub fn phase(&self) -> (r: Phase)
        ensures
            r == self@.phase,
    {
        self.phase
    }

    pub fn parts(&self) -> (r: &Vec<CompletedPart>)
        ensures
            parts_view(r@) == self@.parts,
    {
        &self.parts
    }

    pub fn chunk_count(&self) -> (r: usize)
        ensures
            r == self@.count,
    {
        self.chunk_count
    }

    /// Takes the backend's answer to the last action and returns the next
    /// action. Parts go one at a time, in order, each recorded under its
    /// sequence number with the tag the backend returned; once all are in,
    /// the session is committed with parts numbered exactly `1..=count`. Any
    /// failure, a refused commit or an answer that does not fit the phase ends
    /// the session, and an open session is then released rather than
    /// committed. A finished coordinator stays as it is and repeats its
    /// outcome.
    pub fn step(&mut self, ev: Event) -> (a: Action)
        requires
            old(self)@.wf(),
        ensures
            final(self)@.wf(),
            final(self)@.total == old(self)@.total,
            final(self)@.size == old(self)@.size,
            final(self)@.count == old(self)@.count,
            a is Commit ==> numbered_from_one(parts_view(a->Commit_parts@), old(self)@.count),
            old(self)@.phase == Phase::Committed ==> final(self)@ == old(self)@ && a
                == Action::Complete,
            old(self)@.phase is Failed ==> final(self)@ == old(self)@ && a == Action::Fail(
                old(self)@.phase->Failed_0,
            ),
            old(self)@.phase == Phase::Uninitiated ==> match ev {
                Event::SessionCreated(Some(id)) => {
                    &&& final(self)@ == (CoordinatorView {
                        phase: Phase::PartsInFlight,
                        upload_id: Some(id@),
                        ..old(self)@
                    })
                    &&& a is UploadPart
                    &&& a->UploadPart_upload_id == id
                    &&& a->UploadPart_range.is_chunk(old(self)@.total, old(self)@.size, 0)
                },
                Event::SessionRejected => ended(
                    old(self)@,
                    final(self)@,
                    a,
                    UploadError::SessionInitError,
                ),
                _ => ended(old(self)@, final(self)@, a, UploadError::ProtocolViolation),
            },
            old(self)@.phase == Phase::PartsInFlight ==> match ev {
                Event::PartUploaded(Some(tag)) => {
                    let k = old(self)@.parts.len();
                    &&& final(self)@.upload_id == old(self)@.upload_id
                    &&& final(self)@.parts == old(self)@.parts.push((k + 1, tag@))
                    &&& k + 1 < old(self)@.count ==> {
                        &&& final(self)@.phase == Phase::PartsInFlight
                        &&& a is UploadPart
                        &&& a->UploadPart_upload_id@ == old(self)@.upload_id->Some_0
                        &&& a->UploadPart_range.is_chunk(
                            old(self)@.total,
                            old(self)@.size,
                            k + 1,
                        )
                    }
                    &&& k + 1 == old(self)@.count ==> {
                        &&& final(self)@.phase == Phase::Committing
                        &&& a is Commit
                        &&& a->Commit_upload_id@ == old(self)@.upload_id->Some_0
                        &&& parts_view(a->Commit_parts@) == final(self)@.parts
                    }
                },
                Event::PartFailed => ended(
                    old(self)@,
                    final(self)@,
                    a,
                    UploadError::PartTransferError,
                ),
                _ => ended(old(self)@, final(self)@, a, UploadError::ProtocolViolation),
            },
            old(self)@.phase == Phase::Committing ==> match ev {
                Event::CommitAccepted => final(self)@ == (CoordinatorView {
                    phase: Phase::Committed,
                    ..old(self)@
                }) && a == Action::Complete,
                Event::CommitRejected => ended(
                    old(self)@,
                    final(self)@,
                    a,
                    UploadError::CommitError,
                ),
                _ => ended(old(self)@, final(self)@, a, UploadError::ProtocolViolation),
            },
    {
        match self.phase {
            Phase::Uninitiated => match ev {
                Event::SessionCreated(Some(id)) => {
                    let range = chunk_range(self.total_size, self.chunk_size, 1);
                    self.upload_id = Some(id.clone());
                    self.phase = Phase::PartsInFlight;
                    Action::UploadPart { upload_id: id, range }
                },
                Event::SessionRejected => self.fail(UploadError::SessionInitError),
                _ => self.fail(UploadError::ProtocolViolation),
            },
            Phase::PartsInFlight => match ev {
                Event::PartUploaded(tag) => {
                    let k = self.parts.len();
                    match completed_part(k + 1, tag) {
                        Ok(part) => {
                            let ghost before = parts_view(self.parts@);
                            proof {
                                lemma_recorded_after_all(before, part@);
                            }
                            record_part(&mut self.parts, part);
                            let id = match &self.upload_id {
                                Some(id) => id.clone(),
                                None => String::new(),
                            };
                            if k + 1 < self.chunk_count {
                                let range = chunk_range(self.total_size, self.chunk_size, k + 2);
                                Action::UploadPart { upload_id: id, range }
                            } else {
                                self.phase = Phase::Committing;
                                Action::Commit { upload_id: id, parts: copy_parts(&self.parts) }
                            }
                        },
                        Err(e) => self.fail(e),
                    }
                },
                Event::PartFailed => self.fail(UploadError::PartTransferError),
                _ => self.fail(UploadError::ProtocolViolation),
            },
            Phase::Committing => match ev {
                Event::CommitAccepted => {
                    self.phase = Phase::Committed;
                    Action::Complete
                },
                Event::CommitRejected => self.fail(UploadError::CommitError),
                _ => self.fail(UploadError::ProtocolViolation),
            },
            Phase::Committed => Action::Complete,
            Phase::Failed(e) => Action::Fail(e),
        }
    }

    /// Ends the session with `error`: the session is released if one was
    /// opened.
    fn fail(&mut self, error: UploadError) -> (a: Action)
        requires
            old(self)@.wf(),
        ensures
            ended(old(self)@, final(self)@, a, error),
    {
        self.phase = Phase::Failed(error);
        match &self.upload_id {
            Some(id) => Action::Abort { upload_id: id.clone(), error },
            None => Action::Fail(error),
        }
    }
}

} // verus!

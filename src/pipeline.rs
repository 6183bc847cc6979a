//! The run that fills one archive: acquire a sink, fetch each entry in turn,
//! stream its chunks into the archive, close the archive and the sink.
//!
//! The decisions stand here as a state machine. Whoever drives it performs
//! each returned `Step` (announce its report, write its bytes to the sink,
//! carry out its command) and hands back what happened as an `Event`.
use vstd::prelude::*;

use crate::archive::{archive_image, directory, sections, ArchiveSession, EncodeError};
use crate::checksum::{crc_of_chunks, flatten};
use crate::layout::{data_descriptor, local_header, DATA_DESCRIPTOR_LEN, END_RECORD_LEN, LOCAL_HEADER_LEN, MAX_U16, MAX_U32};
use vstd::utf8::encode_utf8;

verus! {

/// One archive member: its path inside the archive and where its bytes come from.
pub struct EntryRequest {
    pub name: String,
    pub url: String,
}

impl EntryRequest {
    pub fn new(name: String, url: String) -> (r: EntryRequest)
        ensures
            r.name@ == name@,
            r.url@ == url@,
    {
        EntryRequest { name, url }
    }
}

/// The bytes that name an entry in the archive: its path in UTF-8.
pub open spec fn name_bytes(r: EntryRequest) -> Seq<u8> {
    encode_utf8(r.name@)
}

pub open spec fn request_names(rs: Seq<EntryRequest>) -> Seq<Seq<u8>> {
    rs.map_values(|r: EntryRequest| name_bytes(r))
}

pub open spec fn request_labels(rs: Seq<EntryRequest>) -> Seq<Seq<char>> {
    rs.map_values(|r: EntryRequest| r.name@)
}

/// Why a run stopped without an archive.
pub enum PipelineError {
    /// The sink could not be obtained.
    Acquire { cause: String },
    /// The request for an entry's bytes failed.
    Fetch { name: String, url: String, cause: String },
    /// The body of an entry failed part way.
    Body { name: String, url: String, cause: String },
    /// The sink refused the header or a chunk of an entry.
    EntryWrite { name: String, cause: String },
    /// The sink refused the data descriptor of an entry.
    EntryClose { name: String, cause: String },
    /// An entry would not fit the format's fields.
    EntryLimit { name: String, error: EncodeError },
    /// The central directory would not fit the format's fields.
    ArchiveLimit,
    /// The sink refused the central directory.
    ArchiveWrite { cause: String },
    /// The sink could not be closed: the file is probably incomplete.
    SinkClose { cause: String },
}

/// How a run ended.
pub enum Outcome {
    Success { filename: String },
    Cancelled,
    Failed { error: PipelineError },
}

/// Where a run stands.
#[derive(Debug, Clone, Copy, PartialEq, Eq, Structural)]
pub enum Phase {
    Idle,
    Acquiring,
    Fetching,
    Streaming,
    EntryDone,
    Closing,
    Done,
    Cancelled,
    Failed,
}

/// What happened when the last step was carried out.
pub enum Event {
    /// A sink was obtained; `filename` is the name the user chose.
    Acquired { filename: String },
    /// The user dismissed the save dialog.
    NoSelection,
    AcquireFailed { cause: String },
    /// The response for the current entry arrived.
    Fetched,
    FetchFailed { cause: String },
    /// The next chunk of the current entry's body.
    Chunk { bytes: Vec<u8> },
    /// The current entry's body is exhausted.
    BodyEnd,
    BodyFailed { cause: String },
    /// The report and the bytes of the last step went out.
    Continue,
    /// The sink refused the bytes of the last step.
    WriteFailed { cause: String },
    SinkClosed,
    SinkCloseFailed { cause: String },
}

/// What to do after the bytes of a step are written.
pub enum Command {
    /// Obtain a sink, suggesting `suggested` as its name.
    Acquire { suggested: String },
    /// Request `url`.
    Fetch { url: String },
    /// Wait for the next chunk of the current body.
    ReadChunk,
    /// Come back with `Event::Continue`.
    Continue,
    /// Flush and close the sink.
    CloseSink,
    /// The run is over; see `Pipeline::outcome`.
    Stop,
}

/// One step of a run: first its progress report, which names an entry whose
/// data descriptor went out in an earlier step, then bytes for the sink,
/// then a command.
pub struct Step {
    pub write: Vec<u8>,
    pub report: Option<String>,
    pub next: Command,
}

pub struct Pipeline {
    requests: Vec<EntryRequest>,
    suggested: String,
    filename: String,
    index: usize,
    phase: Phase,
    session: ArchiveSession,
    outcome: Option<Outcome>,
    reported: Ghost<Seq<Seq<char>>>,
    fetches: Ghost<nat>,
}

/// Whether the central directory of all entries still fits in the archive's 32-bit offsets.
pub open spec fn directory_fits(p: Pipeline) -> bool {
    p.written().len() + directory(
        request_names(p.requests()),
        p.bodies(),
        p.requests().len() as int,
    ).len() + END_RECORD_LEN <= MAX_U32
}

/// The step that stops a run.
pub open spec fn is_stop(s: Step) -> bool {
    s.write@.len() == 0 && s.report is None && s.next is Stop
}

/// What a step on `e` in a run at `p` leads to: the run `q` and the step `s`.
pub open spec fn transition(p: Pipeline, e: Event, q: Pipeline, s: Step) -> bool {
    let n = p.requests().len();
    let i = p.index();
    let req = p.requests()[i];
    let base = q.requests() == p.requests() && q.reported() == p.reported() && q.fetches() == p.fetches();
    let chunks_kept = q.bodies() == p.bodies() && q.open_chunks() == p.open_chunks();
    let same = base && chunks_kept;
    match p.spec_phase() {
        Phase::Acquiring => match e {
            Event::Acquired { filename } => q.requests() == p.requests() && q.filename() == filename@
                && q.reported() == p.reported() && chunks_kept && s.report is None && if n == 0 {
                &&& q.spec_phase() == Phase::Closing
                &&& s.write@ == archive_image(Seq::empty(), Seq::empty())
                &&& q.written() == s.write@
                &&& s.next is CloseSink
                &&& q.fetches() == 0
            } else {
                &&& q.spec_phase() == Phase::Fetching
                &&& q.index() == 0
                &&& s.write@.len() == 0
                &&& q.written() == p.written()
                &&& s.next matches Command::Fetch { url } && url@ == p.requests()[0].url@
                &&& q.fetches() == 1
            },
            Event::NoSelection => same && q.spec_phase() == Phase::Cancelled && is_stop(s)
                && (q.outcome() matches Some(Outcome::Cancelled)),
            Event::AcquireFailed { cause } => same && q.spec_phase() == Phase::Failed && is_stop(s) && q.written() == p.written()
                && (q.outcome() matches Some(Outcome::Failed { error: PipelineError::Acquire { cause: c } })
                && c@ == cause@),
            _ => false,
        },
        Phase::Fetching => match e {
            Event::Fetched => base && q.bodies() == p.bodies() && q.index() == i && s.report is None && if name_bytes(req).len() <= MAX_U16
                && p.written().len() + LOCAL_HEADER_LEN + name_bytes(req).len() <= MAX_U32
                && i < MAX_U16 {
                &&& q.spec_phase() == Phase::Streaming
                &&& s.write@ == local_header(name_bytes(req))
                &&& s.write@.len() == LOCAL_HEADER_LEN + name_bytes(req).len()
                &&& q.written() == p.written() + s.write@
                &&& q.open_chunks() == Seq::<Seq<u8>>::empty()
                &&& s.next is ReadChunk
            } else {
                &&& q.spec_phase() == Phase::Failed
                &&& q.written() == p.written()
                &&& chunks_kept
                &&& is_stop(s)
                &&& q.outcome() matches Some(Outcome::Failed { error: PipelineError::EntryLimit { name, error } })
                &&& name@ == req.name@
            },
            Event::FetchFailed { cause } => same && q.spec_phase() == Phase::Failed && is_stop(s) && q.written() == p.written()
                && (q.outcome() matches Some(Outcome::Failed { error: PipelineError::Fetch { name, url, cause: c } })
                && name@ == req.name@ && url@ == req.url@ && c@ == cause@),
            _ => false,
        },
        Phase::Streaming => match e {
            Event::Chunk { bytes } => base && q.bodies() == p.bodies() && q.index() == i && s.report is None
                && if p.written().len() + bytes@.len() <= MAX_U32 {
                &&& q.spec_phase() == Phase::Streaming
                &&& s.write@ == bytes@
                &&& q.written() == p.written() + bytes@
                &&& q.open_chunks() == if bytes@.len() == 0 {
                    p.open_chunks()
                } else {
                    p.open_chunks().push(bytes@)
                }
                &&& s.next is ReadChunk
            } else {
                &&& q.spec_phase() == Phase::Failed
                &&& q.written() == p.written()
                &&& chunks_kept
                &&& is_stop(s)
                &&& q.outcome() matches Some(Outcome::Failed { error: PipelineError::EntryLimit { name, error } })
                &&& name@ == req.name@ && error == EncodeError::ArchiveTooLarge
            },
            Event::BodyEnd => base && q.index() == i && s.report is None
                && if p.written().len() + DATA_DESCRIPTOR_LEN <= MAX_U32 {
                &&& q.spec_phase() == Phase::EntryDone
                &&& s.write@ == data_descriptor(
                    crc_of_chunks(p.open_chunks()),
                    flatten(p.open_chunks()).len() as u32,
                )
                &&& s.write@.len() == DATA_DESCRIPTOR_LEN
                &&& q.written() == p.written() + s.write@
                &&& q.bodies() == p.bodies().push(p.open_chunks())
                &&& q.open_chunks() == Seq::<Seq<u8>>::empty()
                &&& s.next is Continue
            } else {
                &&& q.spec_phase() == Phase::Failed
                &&& q.written() == p.written()
                &&& chunks_kept
                &&& is_stop(s)
                &&& q.outcome() matches Some(Outcome::Failed { error: PipelineError::EntryLimit { name, error } })
                &&& name@ == req.name@ && error == EncodeError::ArchiveTooLarge
            },
            Event::BodyFailed { cause } => same && q.spec_phase() == Phase::Failed && is_stop(s) && q.written() == p.written()
                && (q.outcome() matches Some(Outcome::Failed { error: PipelineError::Body { name, url, cause: c } })
                && name@ == req.name@ && url@ == req.url@ && c@ == cause@),
            Event::WriteFailed { cause } => same && q.spec_phase() == Phase::Failed && is_stop(s) && q.written() == p.written()
                && (q.outcome() matches Some(Outcome::Failed { error: PipelineError::EntryWrite { name, cause: c } })
                && name@ == req.name@ && c@ == cause@),
            _ => false,
        },
        Phase::EntryDone => match e {
            Event::Continue => {
                &&& q.requests() == p.requests()
                &&& chunks_kept
                &&& q.fetches() == if i + 1 < n { p.fetches() + 1 } else { p.fetches() }
                &&& s.report matches Some(r) && r@ == req.name@
                &&& q.reported() == p.reported().push(req.name@)
                &&& if i + 1 < n {
                    &&& q.spec_phase() == Phase::Fetching
                    &&& q.index() == i + 1
                    &&& s.write@.len() == 0
                    &&& q.written() == p.written()
                    &&& s.next matches Command::Fetch { url } && url@ == p.requests()[i + 1].url@
                } else if directory_fits(p) {
                    &&& q.spec_phase() == Phase::Closing
                    &&& q.index() == n
                    &&& q.written() == p.written() + s.write@
                    &&& q.written() == archive_image(request_names(p.requests()), p.bodies())
                    &&& s.next is CloseSink
                } else {
                    &&& q.spec_phase() == Phase::Failed
                    &&& q.written() == p.written()
                    &&& s.write@.len() == 0
                    &&& s.next is Stop
                    &&& q.outcome() matches Some(Outcome::Failed { error: PipelineError::ArchiveLimit })
                }
            },
            Event::WriteFailed { cause } => same && q.spec_phase() == Phase::Failed && is_stop(s) && q.written() == p.written()
                && (q.outcome() matches Some(Outcome::Failed { error: PipelineError::EntryClose { name, cause: c } })
                && name@ == req.name@ && c@ == cause@),
            _ => false,
        },
        Phase::Closing => match e {
            Event::WriteFailed { cause } => same && q.spec_phase() == Phase::Failed && is_stop(s) && q.written() == p.written()
                && (q.outcome() matches Some(Outcome::Failed { error: PipelineError::ArchiveWrite { cause: c } })
                && c@ == cause@),
            Event::SinkClosed => same && q.spec_phase() == Phase::Done && is_stop(s)
                && q.written() == p.written()
                && (q.outcome() matches Some(Outcome::Success { filename }) && filename@ == p.filename()),
            Event::SinkCloseFailed { cause } => same && q.spec_phase() == Phase::Failed && is_stop(s) && q.written() == p.written()
                && (q.outcome() matches Some(Outcome::Failed { error: PipelineError::SinkClose { cause: c } })
                && c@ == cause@),
            _ => false,
        },
        _ => false,
    }
}

/// Whether a run at `phase` takes `e` as its next event.
pub open spec fn expects(phase: Phase, e: Event) -> bool {
    match phase {
        Phase::Acquiring => e is Acquired || e is NoSelection || e is AcquireFailed,
        Phase::Fetching => e is Fetched || e is FetchFailed,
        Phase::Streaming => e is Chunk || e is BodyEnd || e is BodyFailed || e is WriteFailed,
        Phase::EntryDone => e is Continue || e is WriteFailed,
        Phase::Closing => e is WriteFailed || e is SinkClosed || e is SinkCloseFailed,
        _ => false,
    }
}

impl Pipeline {
    pub closed spec fn requests(&self) -> Seq<EntryRequest> {
        self.requests@
    }

    pub closed spec fn spec_phase(&self) -> Phase {
        self.phase
    }

    /// The entry being fetched, streamed or closed.
    pub closed spec fn index(&self) -> int {
        self.index as int
    }

    /// The name first offered for the sink.
    pub closed spec fn suggested(&self) -> Seq<char> {
        self.suggested@
    }

    pub closed spec fn filename(&self) -> Seq<char> {
        self.filename@
    }

    /// Every byte handed to the sink so far, in order.
    pub closed spec fn written(&self) -> Seq<u8> {
        self.session.emitted()
    }

    /// Chunks of each entry closed so far, as they arrived.
    pub closed spec fn bodies(&self) -> Seq<Seq<Seq<u8>>> {
        self.session.bodies()
    }

    /// Chunks of the entry being streamed.
    pub closed spec fn open_chunks(&self) -> Seq<Seq<u8>> {
        self.session.open_chunks()
    }

    /// Names of the entries whose completion has been reported, in order.
    pub closed spec fn reported(&self) -> Seq<Seq<char>> {
        self.reported@
    }

    /// How many fetches the run has asked for.
    pub closed spec fn fetches(&self) -> nat {
        self.fetches@
    }

    pub closed spec fn outcome(&self) -> Option<Outcome> {
        self.outcome
    }

    /// Entries `0..k` are closed and nothing more has been written.
    closed spec fn closed_through(&self, k: int) -> bool {
        &&& self.session.names() == request_names(self.requests@).take(k)
        &&& !self.session.entry_open()
        &&& !self.session.is_finished()
    }

    pub closed spec fn wf(&self) -> bool {
        let n = self.requests@.len();
        let i = self.index as int;
        let labels = request_labels(self.requests@);
        &&& self.session.wf()
        &&& i <= n
        &&& match self.phase {
            Phase::Idle | Phase::Acquiring => {
                &&& i == 0
                &&& self.closed_through(0)
                &&& self.session.emitted() == Seq::<u8>::empty()
                &&& self.fetches@ == 0
                &&& self.reported@ == Seq::<Seq<char>>::empty()
                &&& self.outcome is None
            },
            Phase::Fetching => {
                &&& i < n
                &&& self.closed_through(i)
                &&& self.fetches@ == i + 1
                &&& self.reported@ == labels.take(i)
                &&& self.outcome is None
            },
            Phase::Streaming => {
                &&& i < n
                &&& self.session.names() == request_names(self.requests@).take(i)
                &&& self.session.entry_open()
                &&& self.session.open_name() == name_bytes(self.requests@[i])
                &&& !self.session.is_finished()
                &&& self.fetches@ == i + 1
                &&& self.reported@ == labels.take(i)
                &&& self.outcome is None
            },
            Phase::EntryDone => {
                &&& i < n
                &&& self.closed_through(i + 1)
                &&& self.fetches@ == i + 1
                &&& self.reported@ == labels.take(i)
                &&& self.outcome is None
            },
            Phase::Closing | Phase::Done => {
                &&& i == n
                &&& self.session.names() == request_names(self.requests@)
                &&& self.session.is_finished()
                &&& self.fetches@ == n
                &&& self.reported@ == labels
                &&& if self.phase == Phase::Done {
                    self.outcome matches Some(Outcome::Success { filename }) && filename@
                        == self.filename@
                } else {
                    self.outcome is None
                }
            },
            Phase::Cancelled => {
                &&& self.fetches@ == 0
                &&& self.session.emitted() == Seq::<u8>::empty()
                &&& self.session.names() == Seq::<Seq<u8>>::empty()
                &&& self.outcome matches Some(Outcome::Cancelled)
            },
            Phase::Failed => {
                &&& self.outcome matches Some(Outcome::Failed { error })
                &&& error matches PipelineError::Fetch { name, url, .. } ==> {
                    &&& i < n
                    &&& self.closed_through(i)
                    &&& self.fetches@ == i + 1
                    &&& self.reported@ == labels.take(i)
                    &&& name@ == self.requests@[i].name@
                    &&& url@ == self.requests@[i].url@
                }
            },
        }
    }
    /// A run over `requests`, in their order, into a sink first offered
    /// under the name `suggested`. Nothing happens until `start`.
    pub fn new(suggested: String, requests: Vec<EntryRequest>) -> (p: Pipeline)
        ensures
            p.wf(),
            p.spec_phase() == Phase::Idle,
            p.requests() == requests@,
            p.written() == Seq::<u8>::empty(),
            p.bodies() == Seq::<Seq<Seq<u8>>>::empty(),
            p.open_chunks() == Seq::<Seq<u8>>::empty(),
            p.fetches() == 0,
            p.reported() == Seq::<Seq<char>>::empty(),
            p.outcome() is None,
    {
        let session = ArchiveSession::new();
        proof {
            session.lemma_emitted();
        }
        let p = Pipeline {
            requests,
            suggested,
            filename: String::new(),
            index: 0,
            phase: Phase::Idle,
            session,
            outcome: None,
            reported: Ghost(Seq::empty()),
            fetches: Ghost(0),
        };
        assert(request_names(p.requests@).take(0) =~= Seq::<Seq<u8>>::empty());
        p
    }

    pub fn phase(&self) -> (r: Phase)
        ensures
            r == self.spec_phase(),
    {
        self.phase
    }

    /// How the run ended, once it has.
    pub fn result(&self) -> (r: &Option<Outcome>)
        ensures
            *r == self.outcome(),
    {
        &self.outcome
    }

    /// Whether `step` takes `e` now.
    pub fn accepts(&self, e: &Event) -> (r: bool)
        ensures
            r == expects(self.spec_phase(), *e),
    {
        match self.phase {
            Phase::Acquiring => match e {
                Event::Acquired { .. } | Event::NoSelection | Event::AcquireFailed { .. } => true,
                _ => false,
            },
            Phase::Fetching => match e {
                Event::Fetched | Event::FetchFailed { .. } => true,
                _ => false,
            },
            Phase::Streaming => match e {
                Event::Chunk { .. } | Event::BodyEnd | Event::BodyFailed { .. } | Event::WriteFailed {
                    ..
                } => true,
                _ => false,
            },
            Phase::EntryDone => match e {
                Event::Continue | Event::WriteFailed { .. } => true,
                _ => false,
            },
            Phase::Closing => match e {
                Event::WriteFailed { .. } | Event::SinkClosed | Event::SinkCloseFailed { .. } => true,
                _ => false,
            },
            _ => false,
        }
    }

    /// First step of a run: ask for a sink.
    pub fn start(&mut self) -> (r: Step)
        requires
            old(self).wf(),
            old(self).spec_phase() == Phase::Idle,
        ensures
            final(self).wf(),
            final(self).spec_phase() == Phase::Acquiring,
            final(self).requests() == old(self).requests(),
            final(self).written() == old(self).written(),
            final(self).bodies() == old(self).bodies(),
            final(self).open_chunks() == old(self).open_chunks(),
            final(self).fetches() == 0,
            r.write@.len() == 0,
            r.report is None,
            r.next matches Command::Acquire { suggested } && suggested@ == old(self).suggested(),
    {
        self.phase = Phase::Acquiring;
        Step { write: Vec::new(), report: None, next: Command::Acquire { suggested: self.suggested.clone() } }
    }

    /// Ends the run with `error`.
    fn fail(&mut self, error: PipelineError) -> (r: Step)
        requires
            old(self).wf(),
            old(self).outcome is None,
            error matches PipelineError::Fetch { name, url, .. } ==> old(self).spec_phase() == Phase::Fetching
                && name@ == old(self).requests()[old(self).index()].name@
                && url@ == old(self).requests()[old(self).index()].url@,
        ensures
            final(self).wf(),
            final(self).spec_phase() == Phase::Failed,
            final(self).outcome() == Some(Outcome::Failed { error }),
            final(self).requests() == old(self).requests(),
            final(self).reported() == old(self).reported(),
            final(self).fetches() == old(self).fetches(),
            final(self).written() == old(self).written(),
            final(self).bodies() == old(self).bodies(),
            final(self).open_chunks() == old(self).open_chunks(),
            final(self).index() == old(self).index(),
            is_stop(r),
    {
        self.phase = Phase::Failed;
        self.outcome = Some(Outcome::Failed { error });
        Step { write: Vec::new(), report: None, next: Command::Stop }
    }

    /// With entries `0..index` closed: fetch the next one, or write the
    /// central directory when none is left.
    fn advance(&mut self) -> (r: Step)
        requires
            old(self).session.wf(),
            old(self).index <= old(self).requests@.len(),
            old(self).closed_through(old(self).index as int),
            old(self).fetches@ == old(self).index,
            old(self).reported@ == request_labels(old(self).requests@).take(old(self).index as int),
            old(self).outcome is None,
        ensures
            final(self).wf(),
            final(self).requests() == old(self).requests(),
            final(self).reported() == old(self).reported(),
            final(self).filename() == old(self).filename(),
            final(self).bodies() == old(self).bodies(),
            final(self).open_chunks() == old(self).open_chunks(),
            r.report is None,
            old(self).index < old(self).requests@.len() ==> {
                &&& final(self).spec_phase() == Phase::Fetching
                &&& final(self).index() == old(self).index()
                &&& final(self).fetches() == old(self).fetches() + 1
                &&& final(self).written() == old(self).written()
                &&& r.write@.len() == 0
                &&& r.next matches Command::Fetch { url } && url@ == old(self).requests()[old(
                    self,
                ).index()].url@
            },
            old(self).index == old(self).requests@.len() ==> {
                &&& final(self).fetches() == old(self).fetches()
                &&& final(self).index() == old(self).index()
                &&& if directory_fits(*old(self)) {
                    &&& final(self).spec_phase() == Phase::Closing
                    &&& final(self).written() == old(self).written() + r.write@
                    &&& final(self).written() == archive_image(
                        request_names(old(self).requests()),
                        old(self).bodies(),
                    )
                    &&& r.next is CloseSink
                } else {
                    &&& final(self).spec_phase() == Phase::Failed
                    &&& final(self).written() == old(self).written()
                    &&& is_stop(r)
                    &&& final(self).outcome() matches Some(
                        Outcome::Failed { error: PipelineError::ArchiveLimit },
                    )
                }
            },
    {
        let ghost names = self.session.names();
        proof {
            self.session.lemma_emitted();
        }
        if self.index < self.requests.len() {
            self.phase = Phase::Fetching;
            self.fetches = Ghost(self.fetches@ + 1);
            let url = self.requests[self.index].url.clone();
            Step { write: Vec::new(), report: None, next: Command::Fetch { url } }
        } else {
            assert(names =~= request_names(self.requests@));
            assert(request_labels(self.requests@).take(self.index as int) =~= request_labels(
                self.requests@,
            ));
            match self.session.finish() {
                Ok(trailer) => {
                    self.phase = Phase::Closing;
                    Step { write: trailer, report: None, next: Command::CloseSink }
                },
                Err(_) => {
                    self.phase = Phase::Failed;
                    self.outcome = Some(Outcome::Failed { error: PipelineError::ArchiveLimit });
                    Step { write: Vec::new(), report: None, next: Command::Stop }
                },
            }
        }
    }
    /// Takes what happened on the last step and returns the next one.
    pub fn step(&mut self, e: Event) -> (r: Step)
        requires
            old(self).wf(),
            expects(old(self).spec_phase(), e),
        ensures
            final(self).wf(),
            transition(*old(self), e, *final(self), r),
    {
        match self.phase {
            Phase::Acquiring => self.on_acquiring(e),
            Phase::Fetching => self.on_fetching(e),
            Phase::Streaming => self.on_streaming(e),
            Phase::EntryDone => self.on_entry_done(e),
            _ => self.on_closing(e),
        }
    }

    fn on_acquiring(&mut self, e: Event) -> (r: Step)
        requires
            old(self).wf(),
            old(self).spec_phase() == Phase::Acquiring,
            expects(old(self).spec_phase(), e),
        ensures
            final(self).wf(),
            transition(*old(self), e, *final(self), r),
    {
        match e {
            Event::Acquired { filename } => {
                self.filename = filename;
                proof {
                    self.session.lemma_emitted();
                    assert(request_labels(self.requests@).take(0) =~= Seq::<Seq<char>>::empty());
                }
                let ghost bodies = self.session.bodies();
                let r = self.advance();
                proof {
                    if self.requests@.len() == 0 {
                        assert(Seq::<u8>::empty() + r.write@ =~= r.write@);
                        assert(bodies =~= Seq::<Seq<Seq<u8>>>::empty());
                        assert(request_names(self.requests@) =~= Seq::<Seq<u8>>::empty());
                    }
                }
                r
            },
            Event::NoSelection => {
                assert(request_names(self.requests@).take(0) =~= Seq::<Seq<u8>>::empty());
                self.phase = Phase::Cancelled;
                self.outcome = Some(Outcome::Cancelled);
                Step { write: Vec::new(), report: None, next: Command::Stop }
            },
            Event::AcquireFailed { cause } => self.fail(PipelineError::Acquire { cause }),
            _ => Step { write: Vec::new(), report: None, next: Command::Stop },
        }
    }

    fn on_fetching(&mut self, e: Event) -> (r: Step)
        requires
            old(self).wf(),
            old(self).spec_phase() == Phase::Fetching,
            expects(old(self).spec_phase(), e),
        ensures
            final(self).wf(),
            transition(*old(self), e, *final(self), r),
    {
        let i = self.index;
        match e {
            Event::Fetched => {
                proof {
                    self.session.lemma_emitted();
                }
                let ghost rn = request_names(self.requests@);
                let name = self.requests[i].name.as_str().as_bytes();
                assert(name@ == rn[i as int]);
                match self.session.begin_entry(name) {
                    Ok(header) => {
                        self.phase = Phase::Streaming;
                        Step { write: header, report: None, next: Command::ReadChunk }
                    },
                    Err(error) => {
                        let name = self.requests[i].name.clone();
                        self.fail(PipelineError::EntryLimit { name, error })
                    },
                }
            },
            Event::FetchFailed { cause } => {
                let name = self.requests[i].name.clone();
                let url = self.requests[i].url.clone();
                self.fail(PipelineError::Fetch { name, url, cause })
            },
            _ => Step { write: Vec::new(), report: None, next: Command::Stop },
        }
    }

    fn on_streaming(&mut self, e: Event) -> (r: Step)
        requires
            old(self).wf(),
            old(self).spec_phase() == Phase::Streaming,
            expects(old(self).spec_phase(), e),
        ensures
            final(self).wf(),
            transition(*old(self), e, *final(self), r),
    {
        let i = self.index;
        match e {
            Event::Chunk { bytes } => {
                match self.session.write(bytes.as_slice()) {
                    Ok(()) => Step { write: bytes, report: None, next: Command::ReadChunk },
                    Err(error) => {
                        let name = self.requests[i].name.clone();
                        self.fail(PipelineError::EntryLimit { name, error })
                    },
                }
            },
            Event::BodyEnd => {
                let ghost rn = request_names(self.requests@);
                match self.session.close_entry() {
                    Ok(descriptor) => {
                        self.phase = Phase::EntryDone;
                        assert(self.session.names() =~= rn.take(i + 1));
                        Step { write: descriptor, report: None, next: Command::Continue }
                    },
                    Err(error) => {
                        let name = self.requests[i].name.clone();
                        self.fail(PipelineError::EntryLimit { name, error })
                    },
                }
            },
            Event::BodyFailed { cause } => {
                let name = self.requests[i].name.clone();
                let url = self.requests[i].url.clone();
                self.fail(PipelineError::Body { name, url, cause })
            },
            Event::WriteFailed { cause } => {
                let name = self.requests[i].name.clone();
                self.fail(PipelineError::EntryWrite { name, cause })
            },
            _ => Step { write: Vec::new(), report: None, next: Command::Stop },
        }
    }

    fn on_entry_done(&mut self, e: Event) -> (r: Step)
        requires
            old(self).wf(),
            old(self).spec_phase() == Phase::EntryDone,
            expects(old(self).spec_phase(), e),
        ensures
            final(self).wf(),
            transition(*old(self), e, *final(self), r),
    {
        let i = self.index;
        match e {
            Event::Continue => {
                let n = self.requests.len();
                assert(i < n);
                let name = self.requests[i].name.clone();
                let ghost labels = request_labels(self.requests@);
                self.reported = Ghost(self.reported@.push(name@));
                assert(self.reported@ =~= labels.take(i + 1));
                self.index = i + 1;
                let mut r = self.advance();
                r.report = Some(name);
                r
            },
            Event::WriteFailed { cause } => {
                let name = self.requests[i].name.clone();
                self.fail(PipelineError::EntryClose { name, cause })
            },
            _ => Step { write: Vec::new(), report: None, next: Command::Stop },
        }
    }

    fn on_closing(&mut self, e: Event) -> (r: Step)
        requires
            old(self).wf(),
            old(self).spec_phase() == Phase::Closing,
            expects(old(self).spec_phase(), e),
        ensures
            final(self).wf(),
            transition(*old(self), e, *final(self), r),
    {
        match e {
            Event::WriteFailed { cause } => self.fail(PipelineError::ArchiveWrite { cause }),
            Event::SinkClosed => {
                self.phase = Phase::Done;
                self.outcome = Some(Outcome::Success { filename: self.filename.clone() });
                Step { write: Vec::new(), report: None, next: Command::Stop }
            },
            Event::SinkCloseFailed { cause } => self.fail(PipelineError::SinkClose { cause }),
            _ => Step { write: Vec::new(), report: None, next: Command::Stop },
        }
    }
    /// A run that succeeded reported every entry, once each, in the order
    /// of the requests.
    pub proof fn lemma_success_reports_every_entry(&self)
        requires
            self.wf(),
            self.spec_phase() == Phase::Done,
        ensures
            self.reported() == request_labels(self.requests()),
            self.reported().len() == self.requests().len(),
            self.outcome() matches Some(Outcome::Success { filename }) && filename@
                == self.filename(),
    {
    }

    /// A run that succeeded wrote exactly the archive of its entries: one
    /// section per request in order, then a central directory whose records
    /// carry the names of the requests in order and the CRC-32 and size of
    /// the bytes that arrived for each.
    pub proof fn lemma_success_writes_archive(&self)
        requires
            self.wf(),
            self.spec_phase() == Phase::Done,
        ensures
            self.bodies().len() == self.requests().len(),
            self.written() == archive_image(request_names(self.requests()), self.bodies()),
    {
        self.session.lemma_emitted();
    }

    /// A run whose user dismissed the save dialog stops without an archive
    /// and without any fetch.
    pub proof fn lemma_cancel_is_quiet(&self)
        requires
            self.wf(),
            self.spec_phase() == Phase::Cancelled,
        ensures
            self.outcome() matches Some(Outcome::Cancelled),
            self.fetches() == 0,
            self.written() == Seq::<u8>::empty(),
    {
    }

    /// A run stopped by a failed fetch names the entry it was fetching, and
    /// has written the sections of the earlier entries and no central directory.
    pub proof fn lemma_fetch_failure_stops_at_entry(&self)
        requires
            self.wf(),
            self.spec_phase() == Phase::Failed,
            self.outcome() matches Some(Outcome::Failed { error: PipelineError::Fetch { .. } }),
        ensures
            0 <= self.index() < self.requests().len(),
            self.fetches() == self.index() + 1,
            self.outcome() matches Some(
                Outcome::Failed { error: PipelineError::Fetch { name, url, .. } },
            ) && name@ == self.requests()[self.index()].name@ && url@ == self.requests()[self.index()].url@,
            self.reported() == request_labels(self.requests()).take(self.index()),
            self.bodies().len() == self.index(),
            self.written() == sections(
                request_names(self.requests()),
                self.bodies(),
                self.index(),
            ),
    {
        self.session.lemma_emitted();
        let rn = request_names(self.requests@);
        crate::archive::lemma_prefix_agree(
            self.session.names(),
            self.session.bodies(),
            rn,
            self.session.bodies(),
            self.index(),
        );
    }

    /// A run has an outcome exactly when it has stopped.
    pub proof fn lemma_outcome_only_when_stopped(&self)
        requires
            self.wf(),
        ensures
            self.outcome() is Some <==> (self.spec_phase() == Phase::Done || self.spec_phase()
                == Phase::Cancelled || self.spec_phase() == Phase::Failed),
    {
    }

    /// While entry `index` is being fetched, streamed or closed, exactly the
    /// earlier entries have been reported, in order, and exactly one fetch
    /// per entry up to this one has been asked for.
    pub proof fn lemma_reports_trail_entries(&self)
        requires
            self.wf(),
            self.spec_phase() == Phase::Fetching || self.spec_phase() == Phase::Streaming
                || self.spec_phase() == Phase::EntryDone,
        ensures
            0 <= self.index() < self.requests().len(),
            self.reported() == request_labels(self.requests()).take(self.index()),
            self.fetches() == self.index() + 1,
            self.outcome() is None,
    {
    }

    /// Two successful runs over requests with the same names, whose entries
    /// received the same chunks, wrote the same bytes.
    pub proof fn lemma_runs_are_deterministic(&self, other: &Pipeline)
        requires
            self.wf(),
            other.wf(),
            self.spec_phase() == Phase::Done,
            other.spec_phase() == Phase::Done,
            request_names(self.requests()) == request_names(other.requests()),
            self.bodies() == other.bodies(),
        ensures
            self.written() == other.written(),
    {
        self.lemma_success_writes_archive();
        other.lemma_success_writes_archive();
    }
}

} // verus!

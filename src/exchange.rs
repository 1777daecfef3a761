//! The exchange coordinator: one channel, chosen once, opened once, and an
//! `exchange_apdu` that sends a command and receives its response.
//!
//! The coordinator decides and the program around it performs the I/O. An
//! [`Exchange`] names the next [`Action`] (a write, a read), and the program
//! reports what happened as an [`Event`] until the action is `Finished`.
use vstd::prelude::*;
use crate::error::TransportError;
use crate::hid::{
    encode_reports, encoded, flushed, flushed_payload_bytes, pushed, response_view, split_status,
    reassembly_wf, views, ReassemblyView, Reassembler, MAX_MESSAGE_LEN,
};
use crate::socket::{be32_value, encode_frame, frame, read_length, MAX_FRAME_PAYLOAD};

verus! {

/// Default bound, in milliseconds, on the wait for each continuation report.
pub const DEFAULT_REPORT_TIMEOUT_MS: u32 = 1000;

/// The channel to the device.
#[derive(Clone, Copy, Debug, PartialEq, Eq, Structural)]
pub enum BackendType {
    /// TCP link to a software emulator.
    Speculos,
    /// USB HID link to a device.
    Hid,
}

impl BackendType {
    /// Name of the channel kind.
    pub fn as_str(&self) -> (r: &'static str)
        ensures
            *self == BackendType::Speculos ==> r@ == "speculos"@,
            *self == BackendType::Hid ==> r@ == "hid"@,
    {
        proof {
            reveal_strlit("speculos");
            reveal_strlit("hid");
        }
        match self {
            BackendType::Speculos => "speculos",
            BackendType::Hid => "hid",
        }
    }
}

impl AsRef<str> for BackendType {
    fn as_ref(&self) -> &str {
        self.as_str()
    }
}

/// Life cycle of a coordinator.
#[derive(Clone, Copy, Debug, PartialEq, Eq, Structural)]
pub enum CommState {
    /// Created; the channel has not been opened yet.
    Unopened,
    /// Opened; exchanges may run.
    Ready,
    /// Shut down.
    Closed,
}

/// Abstract state of a coordinator.
pub struct CommView {
    pub backend: BackendType,
    pub state: CommState,
    /// Whether opening acquired the device or socket handle.
    pub attached: bool,
    pub report_timeout_ms: u32,
}

/// Owns the one channel of the program and runs exchanges over it.
pub struct Comm {
    backend: BackendType,
    state: CommState,
    attached: bool,
    report_timeout_ms: u32,
}

impl View for Comm {
    type V = CommView;

    closed spec fn view(&self) -> CommView {
        CommView {
            backend: self.backend,
            state: self.state,
            attached: self.attached,
            report_timeout_ms: self.report_timeout_ms,
        }
    }
}

/// Step of an exchange.
#[derive(Clone, Copy, Debug, PartialEq, Eq, Structural)]
pub enum Stage {
    /// Writing the command's reports or frame.
    Sending,
    /// HID: waiting, without bound, for the first response report.
    FirstReport,
    /// HID: waiting, with a bound, for a continuation report.
    NextReport,
    /// Socket: reading the four-byte length of the response body.
    Length,
    /// Socket: reading the response body.
    Body,
    /// Socket: reading the two-byte status word.
    Status,
    /// The exchange has its outcome.
    Done,
}

/// What the program must do next for an exchange.
#[derive(Debug)]
pub enum Action {
    /// Write these bytes as one unit: one HID report or one socket frame.
    Write(Vec<u8>),
    /// Read one HID report: without bound (`None`) or within the given
    /// number of milliseconds.
    ReadReport(Option<u32>),
    /// Read exactly this many bytes from the socket.
    ReadExact(usize),
    /// The exchange is over; `Exchange::into_outcome` gives its result.
    Finished,
}

/// What happened when the program performed an action.
#[derive(Debug)]
pub enum Event {
    /// The write went through.
    Written,
    /// The write failed.
    WriteFailed,
    /// The read delivered these bytes.
    Received(Vec<u8>),
    /// The stream ended before the requested bytes arrived.
    EndOfStream,
    /// The bounded wait expired with nothing read.
    TimedOut,
    /// The read failed.
    ReadFailed,
}

/// Contents of an exchange outcome.
pub open spec fn outcome_view(r: Result<(Vec<u8>, [u8; 2]), TransportError>) -> Result<
    (Seq<u8>, Seq<u8>),
    TransportError,
> {
    match r {
        Ok(resp) => Ok(response_view(resp)),
        Err(e) => Err(e),
    }
}

/// Abstract state of an exchange.
pub struct ExchangeView {
    pub backend: BackendType,
    /// Length of the command.
    pub apdu_len: nat,
    /// The writes that carry the command, in order.
    pub frames: Seq<Seq<u8>>,
    /// How many of them went through.
    pub sent: nat,
    pub stage: Stage,
    pub report_timeout_ms: u32,
    /// HID: the reassembly of the response.
    pub reassembly: ReassemblyView,
    /// Socket: the declared length of the response body.
    pub body_len: nat,
    /// Socket: the response body once read.
    pub body: Seq<u8>,
    /// The outcome, once the stage is `Done`.
    pub outcome: Option<Result<(Seq<u8>, Seq<u8>), TransportError>>,
}

/// One command/response exchange in progress.
pub struct Exchange {
    backend: BackendType,
    apdu_len: usize,
    frames: Vec<Vec<u8>>,
    sent: usize,
    stage: Stage,
    report_timeout_ms: u32,
    reassembly: Reassembler,
    body_len: usize,
    body: Vec<u8>,
    outcome: Option<Result<(Vec<u8>, [u8; 2]), TransportError>>,
}

impl View for Exchange {
    type V = ExchangeView;

    closed spec fn view(&self) -> ExchangeView {
        ExchangeView {
            backend: self.backend,
            apdu_len: self.apdu_len as nat,
            frames: views(self.frames@),
            sent: self.sent as nat,
            stage: self.stage,
            report_timeout_ms: self.report_timeout_ms,
            reassembly: self.reassembly@,
            body_len: self.body_len as nat,
            body: self.body@,
            outcome: match self.outcome {
                Some(r) => Some(outcome_view(r)),
                None => None,
            },
        }
    }
}

/// The stage that follows the last write on a channel.
pub open spec fn receive_stage(backend: BackendType) -> Stage {
    match backend {
        BackendType::Hid => Stage::FirstReport,
        BackendType::Speculos => Stage::Length,
    }
}

/// Payload bytes flushed before a failed write: for HID those carried by the
/// reports that went through; a socket frame is one write, so none.
pub open spec fn written_before_failure(v: ExchangeView) -> nat {
    match v.backend {
        BackendType::Hid => flushed(v.apdu_len, v.sent),
        BackendType::Speculos => 0,
    }
}

/// The exchange ended with `outcome`.
pub open spec fn finished(
    v: ExchangeView,
    outcome: Result<(Seq<u8>, Seq<u8>), TransportError>,
) -> ExchangeView {
    ExchangeView { stage: Stage::Done, outcome: Some(outcome), ..v }
}

/// How an exchange moves on when `e` happens. An event that does not answer
/// the current action leaves it as it is.
pub open spec fn advanced(v: ExchangeView, e: Event) -> ExchangeView {
    match v.stage {
        Stage::Sending => match e {
            Event::Written => if v.sent + 1 >= v.frames.len() {
                ExchangeView { sent: v.sent + 1, stage: receive_stage(v.backend), ..v }
            } else {
                ExchangeView { sent: v.sent + 1, ..v }
            },
            Event::WriteFailed => finished(
                v,
                Err(TransportError::WriteFailed { written: written_before_failure(v) as usize }),
            ),
            _ => v,
        },
        Stage::FirstReport | Stage::NextReport => match e {
            Event::Received(b) => match pushed(v.reassembly, b@) {
                Ok(rv) => if rv.received.len() == rv.total {
                    finished(ExchangeView { reassembly: rv, ..v }, Ok(split_status(rv.received)))
                } else {
                    ExchangeView { reassembly: rv, stage: Stage::NextReport, ..v }
                },
                Err(err) => finished(v, Err(err)),
            },
            Event::EndOfStream => finished(v, Err(TransportError::ShortRead)),
            Event::TimedOut => finished(v, Err(TransportError::Timeout)),
            Event::ReadFailed => finished(v, Err(TransportError::ReadFailed)),
            _ => v,
        },
        Stage::Length | Stage::Body | Stage::Status => match e {
            Event::Received(b) => if v.stage == Stage::Length {
                if b@.len() != 4 {
                    finished(v, Err(TransportError::ShortRead))
                } else {
                    ExchangeView { body_len: be32_value(b@), stage: Stage::Body, ..v }
                }
            } else if v.stage == Stage::Body {
                if b@.len() != v.body_len {
                    finished(v, Err(TransportError::ShortRead))
                } else {
                    ExchangeView { body: b@, stage: Stage::Status, ..v }
                }
            } else {
                if b@.len() != 2 {
                    finished(v, Err(TransportError::ShortRead))
                } else {
                    finished(v, Ok((v.body, b@)))
                }
            },
            Event::EndOfStream => finished(v, Err(TransportError::ShortRead)),
            Event::TimedOut => finished(v, Err(TransportError::Timeout)),
            Event::ReadFailed => finished(v, Err(TransportError::ReadFailed)),
            _ => v,
        },
        Stage::Done => v,
    }
}

/// An exchange state that the coordinator can reach.
pub open spec fn exchange_wf(v: ExchangeView) -> bool {
    &&& v.frames.len() >= 1
    &&& v.sent <= v.frames.len()
    &&& (v.stage == Stage::Sending ==> v.sent < v.frames.len())
    &&& reassembly_wf(v.reassembly)
    &&& (v.backend == BackendType::Hid ==> v.apdu_len <= MAX_MESSAGE_LEN && (v.stage
        == Stage::Sending || v.stage == Stage::FirstReport || v.stage == Stage::NextReport
        || v.stage == Stage::Done))
    &&& (v.backend == BackendType::Speculos ==> (v.stage == Stage::Sending || v.stage
        == Stage::Length || v.stage == Stage::Body || v.stage == Stage::Status || v.stage
        == Stage::Done))
    &&& (v.stage == Stage::Sending || v.stage == Stage::FirstReport ==> !v.reassembly.started)
    &&& (v.stage == Stage::NextReport ==> v.reassembly.started && v.reassembly.received.len()
        < v.reassembly.total)
    &&& (v.stage == Stage::Done <==> v.outcome is Some)
}

/// A copy of a byte vector.
fn copy_bytes(v: &Vec<u8>) -> (r: Vec<u8>)
    ensures
        r@ == v@,
{
    let r = v.clone();
    assert(r@ =~= v@);
    r
}

impl Exchange {
    /// The exchange is in a state that the coordinator can reach.
    pub open spec fn wf(&self) -> bool {
        exchange_wf(self@)
    }

    /// Where the exchange stands.
    pub fn stage(&self) -> (r: Stage)
        ensures
            r == self@.stage,
    {
        self.stage
    }

    /// What the program must do next.
    pub fn action(&self) -> (r: Action)
        requires
            self.wf(),
        ensures
            match r {
                Action::Write(b) => self@.stage == Stage::Sending && b@ == self@.frames[self@.sent as int],
                Action::ReadReport(t) => (self@.stage == Stage::FirstReport && t is None) || (
                self@.stage == Stage::NextReport && t == Some(self@.report_timeout_ms)),
                Action::ReadExact(n) => (self@.stage == Stage::Length && n == 4) || (self@.stage
                    == Stage::Body && n == self@.body_len) || (self@.stage == Stage::Status && n
                    == 2),
                Action::Finished => self@.stage == Stage::Done,
            },
    {
        match self.stage {
            Stage::Sending => Action::Write(copy_bytes(&self.frames[self.sent])),
            Stage::FirstReport => Action::ReadReport(None),
            Stage::NextReport => Action::ReadReport(Some(self.report_timeout_ms)),
            Stage::Length => Action::ReadExact(4),
            Stage::Body => Action::ReadExact(self.body_len),
            Stage::Status => Action::ReadExact(2),
            Stage::Done => Action::Finished,
        }
    }

    fn finish(&mut self, outcome: Result<(Vec<u8>, [u8; 2]), TransportError>)
        ensures
            final(self)@ == finished(old(self)@, outcome_view(outcome)),
    {
        self.stage = Stage::Done;
        self.outcome = Some(outcome);
    }

    /// Takes in what happened when the program performed the current action.
    pub fn advance(&mut self, event: Event)
        requires
            old(self).wf(),
        ensures
            final(self).wf(),
            final(self)@ == advanced(old(self)@, event),
    {
        assert(self@.frames.len() == self.frames@.len());
        match self.stage {
            Stage::Sending => match event {
                Event::Written => {
                    assert(self.sent < self.frames.len());
                    self.sent = self.sent + 1;
                    if self.sent >= self.frames.len() {
                        self.stage = match self.backend {
                            BackendType::Hid => Stage::FirstReport,
                            BackendType::Speculos => Stage::Length,
                        };
                    }
                },
                Event::WriteFailed => {
                    let written: usize = match self.backend {
                        BackendType::Hid => flushed_payload_bytes(self.apdu_len, self.sent),
                        BackendType::Speculos => 0,
                    };
                    self.finish(Err(TransportError::WriteFailed { written }));
                },
                _ => {},
            },
            Stage::FirstReport | Stage::NextReport => match event {
                Event::Received(b) => match self.reassembly.push_report(b.as_slice()) {
                    Ok(()) => {
                        if self.reassembly.is_complete() {
                            let resp = self.reassembly.finish();
                            self.finish(Ok(resp));
                        } else {
                            self.stage = Stage::NextReport;
                        }
                    },
                    Err(e) => self.finish(Err(e)),
                },
                Event::EndOfStream => self.finish(Err(TransportError::ShortRead)),
                Event::TimedOut => self.finish(Err(TransportError::Timeout)),
                Event::ReadFailed => self.finish(Err(TransportError::ReadFailed)),
                _ => {},
            },
            Stage::Length | Stage::Body | Stage::Status => match event {
                Event::Received(b) => {
                    if self.stage == Stage::Length {
                        if b.len() != 4 {
                            self.finish(Err(TransportError::ShortRead));
                        } else {
                            self.body_len = read_length(b.as_slice()) as usize;
                            self.stage = Stage::Body;
                        }
                    } else if self.stage == Stage::Body {
                        if b.len() != self.body_len {
                            self.finish(Err(TransportError::ShortRead));
                        } else {
                            self.body = b;
                            self.stage = Stage::Status;
                        }
                    } else {
                        if b.len() != 2 {
                            self.finish(Err(TransportError::ShortRead));
                        } else {
                            let sw: [u8; 2] = [b[0], b[1]];
                            let body = copy_bytes(&self.body);
                            proof {
                                assert(sw@ =~= b@);
                            }
                            self.finish(Ok((body, sw)));
                        }
                    }
                },
                Event::EndOfStream => self.finish(Err(TransportError::ShortRead)),
                Event::TimedOut => self.finish(Err(TransportError::Timeout)),
                Event::ReadFailed => self.finish(Err(TransportError::ReadFailed)),
                _ => {},
            },
            Stage::Done => {},
        }
    }

    /// The result of a finished exchange: the response body and status
    /// word, or why it failed.
    pub fn into_outcome(self) -> (r: Result<(Vec<u8>, [u8; 2]), TransportError>)
        requires
            self.wf(),
            self@.stage == Stage::Done,
        ensures
            self@.outcome == Some(outcome_view(r)),
    {
        self.outcome.unwrap()
    }
}

/// The exchange after the events `events`, in order.
pub open spec fn run(v: ExchangeView, events: Seq<Event>) -> ExchangeView
    decreases events.len(),
{
    if events.len() == 0 {
        v
    } else {
        run(advanced(v, events[0]), events.drop_first())
    }
}

/// Whether a command of `len` bytes fits the length prefix of the channel.
pub open spec fn fits(backend: BackendType, len: nat) -> bool {
    match backend {
        BackendType::Hid => len <= MAX_MESSAGE_LEN,
        BackendType::Speculos => len <= MAX_FRAME_PAYLOAD,
    }
}

/// The writes that carry a command: its HID reports, or one socket frame.
pub open spec fn command_frames(backend: BackendType, apdu: Seq<u8>) -> Seq<Seq<u8>> {
    match backend {
        BackendType::Hid => encoded(apdu),
        BackendType::Speculos => seq![frame(apdu)],
    }
}

/// The error of an exchange on a channel whose handle is absent.
pub open spec fn no_handle(backend: BackendType) -> TransportError {
    match backend {
        BackendType::Hid => TransportError::DeviceNotFound,
        BackendType::Speculos => TransportError::ConnectFailed,
    }
}

/// An exchange of `apdu` that has done nothing yet.
pub open spec fn fresh_exchange(c: CommView, apdu: Seq<u8>) -> ExchangeView {
    ExchangeView {
        backend: c.backend,
        apdu_len: apdu.len(),
        frames: command_frames(c.backend, apdu),
        sent: 0,
        stage: Stage::Sending,
        report_timeout_ms: c.report_timeout_ms,
        reassembly: ReassemblyView { started: false, total: 0, received: Seq::empty() },
        body_len: 0,
        body: Seq::empty(),
        outcome: None,
    }
}

impl Comm {
    /// A coordinator for the given channel, not yet opened.
    pub fn create(backend: BackendType) -> (r: Comm)
        ensures
            r@ == (CommView {
                backend,
                state: CommState::Unopened,
                attached: false,
                report_timeout_ms: DEFAULT_REPORT_TIMEOUT_MS,
            }),
    {
        Comm {
            backend,
            state: CommState::Unopened,
            attached: false,
            report_timeout_ms: DEFAULT_REPORT_TIMEOUT_MS,
        }
    }

    /// Records the outcome of opening the channel. An absent device or
    /// connection is no error here: it is kept, and each exchange reports it.
    pub fn record_open(&mut self, acquired: bool)
        requires
            old(self)@.state == CommState::Unopened,
        ensures
            final(self)@ == (CommView { state: CommState::Ready, attached: acquired, ..old(self)@ }),
    {
        self.state = CommState::Ready;
        self.attached = acquired;
    }

    /// Shuts the coordinator down and lets the handle go. Closing twice
    /// changes nothing more.
    pub fn close(&mut self)
        ensures
            final(self)@ == (CommView { state: CommState::Closed, attached: false, ..old(self)@ }),
    {
        self.state = CommState::Closed;
        self.attached = false;
    }

    /// Sets the bound on the wait for each continuation report.
    pub fn set_report_timeout(&mut self, ms: u32)
        ensures
            final(self)@ == (CommView { report_timeout_ms: ms, ..old(self)@ }),
    {
        self.report_timeout_ms = ms;
    }

    /// The channel of the coordinator.
    pub fn backend(&self) -> (r: BackendType)
        ensures
            r == self@.backend,
    {
        self.backend
    }

    /// Where the coordinator stands in its life cycle.
    pub fn state(&self) -> (r: CommState)
        ensures
            r == self@.state,
    {
        self.state
    }

    /// Whether opening acquired the handle.
    pub fn is_attached(&self) -> (r: bool)
        ensures
            r == self@.attached,
    {
        self.attached
    }

    /// Starts the exchange of one command: its writes come first, then the
    /// reads of the response. Without a handle it fails with the channel's
    /// "no device" error; a command too long for the channel's length prefix
    /// fails with `PayloadTooLong`.
    pub fn exchange_apdu(&self, apdu: &[u8]) -> (r: Result<Exchange, TransportError>)
        requires
            self@.state == CommState::Ready,
        ensures
            match r {
                Ok(ex) => self@.attached && fits(self@.backend, apdu@.len()) && ex.wf() && ex@
                    == fresh_exchange(self@, apdu@),
                Err(e) => if !self@.attached {
                    e == no_handle(self@.backend)
                } else {
                    !fits(self@.backend, apdu@.len()) && e == TransportError::PayloadTooLong
                },
            },
    {
        if !self.attached {
            return Err(
                match self.backend {
                    BackendType::Hid => TransportError::DeviceNotFound,
                    BackendType::Speculos => TransportError::ConnectFailed,
                },
            );
        }
        let frames: Vec<Vec<u8>> = match self.backend {
            BackendType::Hid => encode_reports(apdu)?,
            BackendType::Speculos => {
                let f = encode_frame(apdu)?;
                let mut v: Vec<Vec<u8>> = Vec::new();
                v.push(f);
                proof {
                    assert(views(v@) =~= seq![frame(apdu@)]);
                }
                v
            },
        };
        let ex = Exchange {
            backend: self.backend,
            apdu_len: apdu.len(),
            frames,
            sent: 0,
            stage: Stage::Sending,
            report_timeout_ms: self.report_timeout_ms,
            reassembly: Reassembler::new(),
            body_len: 0,
            body: Vec::new(),
            outcome: None,
        };
        Ok(ex)
    }
}

} // verus!

//! The IPC client's decisions. Sockets, threads and timers live with the
//! caller; it reports what happened on the wire, and these state machines
//! say what happens next.

use vstd::prelude::*;
use crate::envelope::{envelope_bytes, envelope_decoding, lemma_envelope_round_trip, Envelope, EnvelopeModel};
use crate::messages::{wx_msg_decoding, WxMsg};
use crate::protocol::{
    disable_receiving_request, enable_receiving_request, reply_bytes, reply_status, status_of,
    IpcError, FUNC_DISABLE_RECV_TXT, FUNC_ENABLE_RECV_TXT, REQ_FLAG, RSP_WXMSG,
};
use crate::messages::uint_wire;
use crate::wire::{fields_bytes, parse_fields, valid_fields, CodecError, Field, FieldValue, WireField, WireValue};

verus! {

/// How a send on the command channel ended.
pub enum SendOutcome {
    Sent,
    TimedOut,
    Closed,
}

/// How a receive on the command channel ended.
pub enum ReceiveOutcome {
    Received(Vec<u8>),
    TimedOut,
    Closed,
}

/// The command channel: open or not, and whether a call is in flight. At
/// most one call is in flight at a time; callers take turns.
#[derive(Clone, Copy, Debug, PartialEq, Eq, Structural)]
pub struct CommandChannel {
    pub open: bool,
    pub in_flight: bool,
}

/// The result a reply's bytes give a call.
pub open spec fn reply_result(b: Seq<u8>) -> Result<EnvelopeModel, IpcError> {
    match envelope_decoding(b) {
        Some(m) => Ok(m),
        None => if parse_fields(b) is None {
            Err(IpcError::Codec(CodecError::Malformed))
        } else {
            Err(IpcError::Codec(CodecError::Unexpected))
        },
    }
}

pub open spec fn result_view(r: Result<Envelope, IpcError>) -> Result<EnvelopeModel, IpcError> {
    match r {
        Ok(e) => Ok(e@),
        Err(x) => Err(x),
    }
}

impl CommandChannel {
    /// A channel that has just been dialled.
    pub fn connected() -> (r: CommandChannel)
        ensures
            r.open && !r.in_flight,
    {
        CommandChannel { open: true, in_flight: false }
    }

    /// A channel that is not open.
    pub fn disconnected() -> (r: CommandChannel)
        ensures
            !r.open && !r.in_flight,
    {
        CommandChannel { open: false, in_flight: false }
    }

    /// Starts a call: the bytes to send, or `NotConnected` at once when the
    /// channel is closed.
    pub fn begin_call(&mut self, req: &Envelope) -> (r: Result<Vec<u8>, IpcError>)
        requires
            !old(self).in_flight,
            req@.wf(),
        ensures
            !old(self).open ==> r == Err::<Vec<u8>, IpcError>(IpcError::NotConnected) && *final(self) == *old(self),
            old(self).open ==> (r matches Ok(b) && b@ == envelope_bytes(req@)),
            old(self).open ==> final(self).open && final(self).in_flight,
    {
        if !self.open {
            return Err(IpcError::NotConnected);
        }
        self.in_flight = true;
        Ok(req.encode())
    }

    /// Takes the outcome of the send: `None` where the call goes on to
    /// receive.
    pub fn after_send(&mut self, outcome: SendOutcome) -> (r: Option<IpcError>)
        requires
            old(self).in_flight,
        ensures
            match outcome {
                SendOutcome::Sent => r is None && *final(self) == *old(self),
                SendOutcome::TimedOut => r == Some(IpcError::Timeout) && !final(self).in_flight
                    && final(self).open == old(self).open,
                SendOutcome::Closed => r == Some(IpcError::NotConnected) && !final(self).in_flight
                    && !final(self).open,
            },
    {
        match outcome {
            SendOutcome::Sent => None,
            SendOutcome::TimedOut => {
                self.in_flight = false;
                Some(IpcError::Timeout)
            },
            SendOutcome::Closed => {
                self.in_flight = false;
                self.open = false;
                Some(IpcError::NotConnected)
            },
        }
    }

    /// Takes the outcome of the receive and ends the call.
    pub fn after_receive(&mut self, outcome: ReceiveOutcome) -> (r: Result<Envelope, IpcError>)
        requires
            old(self).in_flight,
        ensures
            !final(self).in_flight,
            match outcome {
                ReceiveOutcome::Received(b) => result_view(r) == reply_result(b@) && final(self).open == old(self).open,
                ReceiveOutcome::TimedOut => r == Err::<Envelope, IpcError>(IpcError::Timeout)
                    && final(self).open == old(self).open,
                ReceiveOutcome::Closed => r == Err::<Envelope, IpcError>(IpcError::NotConnected)
                    && !final(self).open,
            },
    {
        self.in_flight = false;
        match outcome {
            ReceiveOutcome::Received(b) => match Envelope::decode(b.as_slice()) {
                Ok(e) => Ok(e),
                Err(e) => Err(IpcError::Codec(e)),
            },
            ReceiveOutcome::TimedOut => Err(IpcError::Timeout),
            ReceiveOutcome::Closed => {
                self.open = false;
                Err(IpcError::NotConnected)
            },
        }
    }

    /// Shuts the channel down: `true` when it was open, so the agent is to
    /// be stopped now; `false` when it was closed already, so shutting down
    /// again does nothing.
    pub fn begin_shutdown(&mut self) -> (r: bool)
        ensures
            r == old(self).open,
            !final(self).open && !final(self).in_flight,
    {
        let was_open = self.open;
        self.open = false;
        self.in_flight = false;
        was_open
    }

    /// Closes the channel; a call in flight ends with it. Closing twice is
    /// harmless.
    pub fn close(&mut self)
        ensures
            !final(self).open && !final(self).in_flight,
    {
        self.open = false;
        self.in_flight = false;
    }
}

/// Whether inbound events are being received.
#[derive(Clone, Copy, Debug, PartialEq, Eq, Structural)]
pub enum ListeningState {
    Disabled,
    Enabling,
    Listening,
    Disabling,
}

/// The receiving lifecycle: its state, and how many listener loops have
/// been started so far.
#[derive(Clone, Copy, Debug, PartialEq, Eq, Structural)]
pub struct ListenControl {
    pub state: ListeningState,
    pub loops_started: u64,
}

/// The first step of enabling.
pub enum EnableStep {
    /// Already receiving: the answer is `true` and nothing is sent.
    AlreadyListening,
    /// Send this request and hand the reply to `finish_enable`.
    Send(Envelope),
}

/// What the reply to the enable request means.
#[derive(Clone, Copy, Debug)]
pub enum EnableDecision {
    /// The agent agreed: open the streaming channel, then call
    /// `stream_opened`.
    OpenStream,
    /// Receiving stays off; this is the answer.
    Refused(Result<bool, IpcError>),
}

/// The first step of disabling.
pub enum DisableStep {
    /// Already off: the answer is status 0 and nothing is sent.
    AlreadyDisabled,
    /// Send this request, close the streaming channel whatever happens, and
    /// hand the reply to `finish_disable`.
    Send(Envelope),
}

/// The decision on the enable reply.
pub open spec fn enable_decision(reply: Result<EnvelopeModel, IpcError>) -> EnableDecision {
    match reply {
        Ok(m) => match reply_status(m) {
            Some(s) => if s == 0 {
                EnableDecision::OpenStream
            } else {
                EnableDecision::Refused(Ok(false))
            },
            None => EnableDecision::Refused(Err(IpcError::UnexpectedResponse)),
        },
        Err(e) => EnableDecision::Refused(Err(e)),
    }
}

/// The answer to a disable request.
pub open spec fn disable_result(reply: Result<EnvelopeModel, IpcError>) -> Result<i32, IpcError> {
    match reply {
        Ok(m) => match reply_status(m) {
            Some(s) => Ok(s),
            None => Err(IpcError::UnexpectedResponse),
        },
        Err(e) => Err(e),
    }
}

impl ListenControl {
    pub fn new() -> (r: ListenControl)
        ensures
            r.state == ListeningState::Disabled,
            r.loops_started == 0,
    {
        ListenControl { state: ListeningState::Disabled, loops_started: 0 }
    }

    pub fn is_listening(&self) -> (r: bool)
        ensures
            r == (self.state == ListeningState::Listening),
    {
        self.state == ListeningState::Listening
    }

    /// Starts enabling: nothing to do when already receiving.
    pub fn begin_enable(&mut self) -> (r: EnableStep)
        requires
            old(self).state == ListeningState::Disabled || old(self).state
                == ListeningState::Listening,
        ensures
            old(self).state == ListeningState::Listening ==> r is AlreadyListening && *final(self)
                == *old(self),
            old(self).state == ListeningState::Disabled ==> (r matches EnableStep::Send(e) && e@
                == (EnvelopeModel {
                function: FUNC_ENABLE_RECV_TXT,
                payload: Some(uint_wire(REQ_FLAG, 1)),
            })),
            old(self).state == ListeningState::Disabled ==> final(self).state
                == ListeningState::Enabling && final(self).loops_started == old(self).loops_started,
    {
        if self.state == ListeningState::Listening {
            return EnableStep::AlreadyListening;
        }
        self.state = ListeningState::Enabling;
        EnableStep::Send(enable_receiving_request())
    }

    /// Reads the reply to the enable request: status 0 goes on to open the
    /// stream; anything else leaves receiving off.
    pub fn finish_enable(&mut self, reply: &Result<Envelope, IpcError>) -> (r: EnableDecision)
        requires
            old(self).state == ListeningState::Enabling,
        ensures
            r == enable_decision(result_view(*reply)),
            final(self).loops_started == old(self).loops_started,
            r is OpenStream ==> final(self).state == ListeningState::Enabling,
            r is Refused ==> final(self).state == ListeningState::Disabled,
    {
        match reply {
            Ok(e) => match status_of(e) {
                Ok(s) => {
                    if s == 0 {
                        EnableDecision::OpenStream
                    } else {
                        self.state = ListeningState::Disabled;
                        EnableDecision::Refused(Ok(false))
                    }
                },
                Err(_) => {
                    self.state = ListeningState::Disabled;
                    EnableDecision::Refused(Err(IpcError::UnexpectedResponse))
                },
            },
            Err(x) => {
                self.state = ListeningState::Disabled;
                EnableDecision::Refused(Err(*x))
            },
        }
    }

    /// Records whether the streaming channel opened: if so, receiving is on
    /// and one listener loop is started.
    pub fn stream_opened(&mut self, opened: bool) -> (r: Result<bool, IpcError>)
        requires
            old(self).state == ListeningState::Enabling,
            old(self).loops_started < u64::MAX,
        ensures
            opened ==> r == Ok::<bool, IpcError>(true) && final(self).state
                == ListeningState::Listening && final(self).loops_started == old(self).loops_started + 1,
            !opened ==> r == Err::<bool, IpcError>(IpcError::NotConnected) && final(self).state
                == ListeningState::Disabled && final(self).loops_started == old(self).loops_started,
    {
        if opened {
            self.state = ListeningState::Listening;
            self.loops_started = self.loops_started + 1;
            Ok(true)
        } else {
            self.state = ListeningState::Disabled;
            Err(IpcError::NotConnected)
        }
    }

    /// Starts disabling: nothing to do when already off.
    pub fn begin_disable(&mut self) -> (r: DisableStep)
        requires
            old(self).state == ListeningState::Disabled || old(self).state
                == ListeningState::Listening,
        ensures
            old(self).state == ListeningState::Disabled ==> r is AlreadyDisabled && *final(self)
                == *old(self),
            old(self).state == ListeningState::Listening ==> (r matches DisableStep::Send(e) && e@
                == (EnvelopeModel { function: FUNC_DISABLE_RECV_TXT, payload: None })),
            old(self).state == ListeningState::Listening ==> final(self).state
                == ListeningState::Disabling && final(self).loops_started == old(self).loops_started,
    {
        if self.state == ListeningState::Disabled {
            return DisableStep::AlreadyDisabled;
        }
        self.state = ListeningState::Disabling;
        DisableStep::Send(disable_receiving_request())
    }

    /// Reads the reply to the disable request. Receiving is off afterwards
    /// whatever the reply was.
    pub fn finish_disable(&mut self, reply: &Result<Envelope, IpcError>) -> (r: Result<i32, IpcError>)
        requires
            old(self).state == ListeningState::Disabling,
        ensures
            r == disable_result(result_view(*reply)),
            final(self).state == ListeningState::Disabled,
            final(self).loops_started == old(self).loops_started,
    {
        self.state = ListeningState::Disabled;
        match reply {
            Ok(e) => status_of(e),
            Err(x) => Err(*x),
        }
    }
}

/// What the streaming channel produced.
pub enum StreamEvent {
    Frame(Vec<u8>),
    TimedOut,
    Failed,
}

/// What the listener loop does next.
pub enum ListenerStep {
    /// Queue this event and keep listening.
    Deliver(WxMsg),
    /// Nothing arrived in time; keep listening.
    KeepWaiting,
    /// End the loop and disable receiving.
    Stop,
}

/// The chat event a stream frame carries, if it is one.
pub open spec fn frame_event(b: Seq<u8>) -> Option<crate::messages::WxMsgModel> {
    match envelope_decoding(b) {
        Some(m) => match reply_bytes(m, RSP_WXMSG) {
            Some(mb) => wx_msg_decoding(mb),
            None => None,
        },
        None => None,
    }
}

/// One turn of the listener loop: a frame that carries a chat event is
/// delivered; a timeout is no error; anything else ends the loop.
pub fn listener_step(ev: StreamEvent) -> (r: ListenerStep)
    ensures
        match ev {
            StreamEvent::Frame(b) => match frame_event(b@) {
                Some(w) => r matches ListenerStep::Deliver(x) && x@ == w,
                None => r is Stop,
            },
            StreamEvent::TimedOut => r is KeepWaiting,
            StreamEvent::Failed => r is Stop,
        },
{
    match ev {
        StreamEvent::Frame(b) => {
            let env = match Envelope::decode(b.as_slice()) {
                Ok(e) => e,
                Err(_) => {
                    return ListenerStep::Stop;
                },
            };
            match &env.payload {
                Some(p) => {
                    if p.number != RSP_WXMSG {
                        return ListenerStep::Stop;
                    }
                    match &p.value {
                        FieldValue::Bytes(mb) => match WxMsg::decode(mb.as_slice()) {
                            Ok(m) => ListenerStep::Deliver(m),
                            Err(_) => ListenerStep::Stop,
                        },
                        FieldValue::Varint(_) => ListenerStep::Stop,
                    }
                },
                None => ListenerStep::Stop,
            }
        },
        StreamEvent::TimedOut => ListenerStep::KeepWaiting,
        StreamEvent::Failed => ListenerStep::Stop,
    }
}

/// The envelope the agent pushes on the streaming channel for a chat event.
pub open spec fn chat_frame(m: WxMsg) -> EnvelopeModel {
    EnvelopeModel {
        function: 0,
        payload: Some(WireField { number: RSP_WXMSG, value: WireValue::Bytes(fields_bytes(m.wire())) }),
    }
}

/// Encodes the streaming frame that carries a chat event.
pub fn encode_chat_frame(m: &WxMsg) -> (r: Vec<u8>)
    ensures
        r@ == envelope_bytes(chat_frame(*m)),
{
    let body = m.encode();
    let _ = body.len();
    let env = Envelope {
        function: 0,
        payload: Some(Field { number: RSP_WXMSG, value: FieldValue::Bytes(body) }),
    };
    assert(env@ == chat_frame(*m));
    env.encode()
}

/// A chat event pushed on the streaming channel reaches the listener loop
/// unchanged: the frame's event is the event encoded.
pub proof fn lemma_chat_frame_round_trip(m: WxMsg)
    requires
        valid_fields(m.wire()),
        fields_bytes(m.wire()).len() <= u64::MAX,
    ensures
        frame_event(envelope_bytes(chat_frame(m))) == Some(m@),
{
    lemma_envelope_round_trip(chat_frame(m));
    m.lemma_round_trip();
}

/// Whether the task that drains the event queue keeps going: until
/// receiving is off and the queue is empty.
pub fn drain_continues(state: ListeningState, queue_empty: bool) -> (r: bool)
    ensures
        r == (state == ListeningState::Listening || !queue_empty),
{
    state == ListeningState::Listening || !queue_empty
}

/// What the login watcher does next.
#[derive(Clone, Copy, Debug, PartialEq, Eq, Structural)]
pub enum LoginPoll {
    /// Ask again after the poll interval.
    Wait,
    /// Logged in and not receiving yet: enable receiving.
    Enable,
    /// Nothing left to do.
    Done,
    /// The check itself failed: stop watching.
    Abort,
}

/// The watcher's decision on a login check.
pub fn login_poll_step(logged_in: Result<bool, IpcError>, listening: bool) -> (r: LoginPoll)
    ensures
        match logged_in {
            Ok(true) => r == if listening { LoginPoll::Done } else { LoginPoll::Enable },
            Ok(false) => r == LoginPoll::Wait,
            Err(_) => r == LoginPoll::Abort,
        },
{
    match logged_in {
        Ok(true) => if listening {
            LoginPoll::Done
        } else {
            LoginPoll::Enable
        },
        Ok(false) => LoginPoll::Wait,
        Err(_) => LoginPoll::Abort,
    }
}

/// The watcher's decision after an attempt to enable receiving: done once
/// it is on, else try again after the interval.
pub fn login_enable_step(enabled: Result<bool, IpcError>) -> (r: LoginPoll)
    ensures
        r == if enabled == Ok::<bool, IpcError>(true) { LoginPoll::Done } else { LoginPoll::Wait },
{
    match enabled {
        Ok(true) => LoginPoll::Done,
        _ => LoginPoll::Wait,
    }
}

/// One whole `enableReceiving`, as its steps compose: the answer and the
/// state after it, given the agent's reply (when a request is sent) and
/// whether the streaming channel opens.
pub open spec fn enable_receiving(
    s: ListenControl,
    reply: Result<EnvelopeModel, IpcError>,
    stream_opens: bool,
) -> (Result<bool, IpcError>, ListenControl) {
    if s.state == ListeningState::Listening {
        (Ok(true), s)
    } else {
        match enable_decision(reply) {
            EnableDecision::OpenStream => if stream_opens {
                (
                    Ok(true),
                    ListenControl {
                        state: ListeningState::Listening,
                        loops_started: (s.loops_started + 1) as u64,
                    },
                )
            } else {
                (Err(IpcError::NotConnected), ListenControl { state: ListeningState::Disabled, ..s })
            },
            EnableDecision::Refused(r) => (r, ListenControl { state: ListeningState::Disabled, ..s }),
        }
    }
}

/// Enabling twice in a row answers `true` both times and starts exactly one
/// listener loop; the second call sends nothing, whatever it would be told.
pub proof fn lemma_enable_twice_starts_one_loop(
    s: ListenControl,
    reply: EnvelopeModel,
    second_reply: Result<EnvelopeModel, IpcError>,
    second_opens: bool,
)
    requires
        s.state == ListeningState::Disabled,
        s.loops_started < u64::MAX,
        reply_status(reply) == Some(0i32),
    ensures
        ({
            let (r1, s1) = enable_receiving(s, Ok(reply), true);
            let (r2, s2) = enable_receiving(s1, second_reply, second_opens);
            &&& r1 == Ok::<bool, IpcError>(true)
            &&& r2 == Ok::<bool, IpcError>(true)
            &&& s2 == s1
            &&& s2.state == ListeningState::Listening
            &&& s2.loops_started == s.loops_started + 1
        }),
{
}

/// One step that a caller takes on the command channel.
pub enum ChannelOp {
    /// A call writes its request.
    Begin,
    /// The send went through; the call waits for the reply.
    Sent,
    /// The call ends (a reply, a timeout, or a closed channel).
    End,
}

/// The channel after a step, where the step is allowed: a call begins only
/// when none is in flight, and only a call in flight goes on or ends.
pub open spec fn channel_step(c: CommandChannel, op: ChannelOp) -> Option<CommandChannel> {
    match op {
        ChannelOp::Begin => if !c.in_flight {
            Some(CommandChannel { in_flight: c.open, ..c })
        } else {
            None
        },
        ChannelOp::Sent => if c.in_flight {
            Some(c)
        } else {
            None
        },
        ChannelOp::End => if c.in_flight {
            Some(CommandChannel { in_flight: false, ..c })
        } else {
            None
        },
    }
}

/// The channel after a sequence of steps, where every step is allowed.
pub open spec fn channel_run(c: CommandChannel, ops: Seq<ChannelOp>) -> Option<CommandChannel>
    decreases ops.len(),
{
    if ops.len() == 0 {
        Some(c)
    } else {
        match channel_run(c, ops.drop_last()) {
            Some(d) => channel_step(d, ops.last()),
            None => None,
        }
    }
}

/// Requests written to an open channel.
pub open spec fn writes(c: CommandChannel, ops: Seq<ChannelOp>) -> int
    decreases ops.len(),
{
    if ops.len() == 0 {
        0
    } else {
        writes(c, ops.drop_last()) + match (channel_run(c, ops.drop_last()), ops.last()) {
            (Some(d), ChannelOp::Begin) => if d.open { 1int } else { 0 },
            _ => 0,
        }
    }
}

/// Calls that ended.
pub open spec fn ends(ops: Seq<ChannelOp>) -> int
    decreases ops.len(),
{
    if ops.len() == 0 {
        0
    } else {
        ends(ops.drop_last()) + if ops.last() is End { 1int } else { 0 }
    }
}

proof fn lemma_run_counts(c: CommandChannel, ops: Seq<ChannelOp>)
    requires
        !c.in_flight,
        channel_run(c, ops) is Some,
    ensures
        writes(c, ops) - ends(ops) == if channel_run(c, ops)->0.in_flight { 1int } else { 0 },
    decreases ops.len(),
{
    if ops.len() > 0 {
        lemma_run_counts(c, ops.drop_last());
    }
}

proof fn lemma_run_prefix(c: CommandChannel, ops: Seq<ChannelOp>, k: int)
    requires
        0 <= k <= ops.len(),
        channel_run(c, ops) is Some,
    ensures
        channel_run(c, ops.take(k)) is Some,
    decreases ops.len() - k,
{
    if k < ops.len() {
        lemma_run_prefix(c, ops, k + 1);
        assert(ops.take(k + 1).drop_last() =~= ops.take(k));
    } else {
        assert(ops.take(k) =~= ops);
    }
}

/// Calls on the command channel never interleave: at every point of any
/// allowed sequence of steps from an idle channel, the requests written
/// outnumber the calls ended by at most one.
pub proof fn lemma_calls_never_interleave(c: CommandChannel, ops: Seq<ChannelOp>, k: int)
    requires
        !c.in_flight,
        channel_run(c, ops) is Some,
        0 <= k <= ops.len(),
    ensures
        0 <= writes(c, ops.take(k)) - ends(ops.take(k)) <= 1,
{
    lemma_run_prefix(c, ops, k);
    lemma_run_counts(c, ops.take(k));
}

} // verus!

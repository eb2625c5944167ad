use wcfrust::client::{
    drain_continues, listener_step, login_enable_step, login_poll_step, CommandChannel,
    DisableStep, EnableDecision, EnableStep, ListenControl, ListenerStep, ListeningState, LoginPoll,
    ReceiveOutcome, SendOutcome, StreamEvent,
};
use wcfrust::client::encode_chat_frame;
use wcfrust::envelope::Envelope;
use wcfrust::messages::WxMsg;
use wcfrust::messages::{int32_to_wire, text_field, uint_field};
use wcfrust::protocol::{is_login_request, IpcError, RSP_STATUS, RSP_WXMSG};
use wcfrust::wire::{encode_fields, CodecError, Field, FieldValue};

fn status_reply(status: i32) -> Envelope {
    Envelope {
        function: 0,
        payload: Some(Field { number: RSP_STATUS, value: FieldValue::Varint(int32_to_wire(status)) }),
    }
}

#[test]
fn call_while_disconnected_fails_at_once() {
    let mut ch = CommandChannel::disconnected();
    let r = ch.begin_call(&is_login_request());
    assert_eq!(r, Err(IpcError::NotConnected));
    assert!(!ch.in_flight);
}

#[test]
fn receive_timeout_after_send_is_timeout() {
    let mut ch = CommandChannel::connected();
    let bytes = ch.begin_call(&is_login_request()).unwrap();
    assert_eq!(bytes, vec![0x08, 0x01]);
    assert!(ch.in_flight);
    assert_eq!(ch.after_send(SendOutcome::Sent), None);
    let r = ch.after_receive(ReceiveOutcome::TimedOut);
    assert!(matches!(r, Err(IpcError::Timeout)));
    assert!(ch.open && !ch.in_flight);
}

#[test]
fn send_timeout_is_timeout() {
    let mut ch = CommandChannel::connected();
    ch.begin_call(&is_login_request()).unwrap();
    assert_eq!(ch.after_send(SendOutcome::TimedOut), Some(IpcError::Timeout));
    assert!(ch.open && !ch.in_flight);
}

#[test]
fn lost_connection_stays_not_connected() {
    let mut ch = CommandChannel::connected();
    ch.begin_call(&is_login_request()).unwrap();
    assert!(matches!(ch.after_receive(ReceiveOutcome::Closed), Err(IpcError::NotConnected)));
    assert_eq!(ch.begin_call(&is_login_request()), Err(IpcError::NotConnected));
    assert_eq!(ch.begin_call(&is_login_request()), Err(IpcError::NotConnected));
}

#[test]
fn closed_on_send_is_not_connected() {
    let mut ch = CommandChannel::connected();
    ch.begin_call(&is_login_request()).unwrap();
    assert_eq!(ch.after_send(SendOutcome::Closed), Some(IpcError::NotConnected));
    assert!(!ch.open);
}

#[test]
fn calls_take_turns() {
    let mut ch = CommandChannel::connected();
    for s in [1, 0, 1] {
        let bytes = ch.begin_call(&is_login_request()).unwrap();
        assert!(!bytes.is_empty());
        assert!(ch.in_flight);
        ch.after_send(SendOutcome::Sent);
        let reply = ch.after_receive(ReceiveOutcome::Received(status_reply(s).encode())).unwrap();
        assert!(!ch.in_flight);
        assert_eq!(wcfrust::protocol::status_of(&reply), Ok(s));
    }
    assert!(ch.begin_shutdown());
    assert!(!ch.begin_shutdown());
    ch.close();
    assert!(!ch.open);
}

#[test]
fn garbled_reply_is_codec_error() {
    let mut ch = CommandChannel::connected();
    ch.begin_call(&is_login_request()).unwrap();
    ch.after_send(SendOutcome::Sent);
    let r = ch.after_receive(ReceiveOutcome::Received(vec![0x08]));
    assert!(matches!(r, Err(IpcError::Codec(CodecError::Malformed))));
}

#[test]
fn enable_twice_starts_one_loop() {
    let mut lc = ListenControl::new();
    let req = match lc.begin_enable() {
        EnableStep::Send(e) => e,
        EnableStep::AlreadyListening => panic!("was not listening"),
    };
    assert_eq!(req.encode(), vec![0x08, 0x30, 0x68, 0x01]);
    assert_eq!(lc.state, ListeningState::Enabling);
    assert!(matches!(lc.finish_enable(&Ok(status_reply(0))), EnableDecision::OpenStream));
    assert_eq!(lc.stream_opened(true), Ok(true));
    assert_eq!(lc.loops_started, 1);
    assert!(lc.is_listening());
    assert!(matches!(lc.begin_enable(), EnableStep::AlreadyListening));
    assert_eq!(lc.loops_started, 1);
    assert_eq!(lc.state, ListeningState::Listening);
}

#[test]
fn enable_refused_leaves_disabled() {
    let mut lc = ListenControl::new();
    lc.begin_enable();
    assert!(matches!(lc.finish_enable(&Ok(status_reply(-3))), EnableDecision::Refused(Ok(false))));
    assert_eq!(lc.state, ListeningState::Disabled);
    lc.begin_enable();
    let d = lc.finish_enable(&Err(IpcError::Timeout));
    assert!(matches!(d, EnableDecision::Refused(Err(IpcError::Timeout))));
    assert_eq!(lc.state, ListeningState::Disabled);
    lc.begin_enable();
    let odd = Envelope { function: 0, payload: Some(text_field(3, "x")) };
    let d = lc.finish_enable(&Ok(odd));
    assert!(matches!(d, EnableDecision::Refused(Err(IpcError::UnexpectedResponse))));
    assert_eq!(lc.loops_started, 0);
}

#[test]
fn stream_that_fails_to_open_leaves_disabled() {
    let mut lc = ListenControl::new();
    lc.begin_enable();
    lc.finish_enable(&Ok(status_reply(0)));
    assert_eq!(lc.stream_opened(false), Err(IpcError::NotConnected));
    assert_eq!(lc.state, ListeningState::Disabled);
    assert_eq!(lc.loops_started, 0);
}

#[test]
fn disable_lifecycle() {
    let mut lc = ListenControl::new();
    assert!(matches!(lc.begin_disable(), DisableStep::AlreadyDisabled));
    lc.begin_enable();
    lc.finish_enable(&Ok(status_reply(0)));
    lc.stream_opened(true).unwrap();
    match lc.begin_disable() {
        DisableStep::Send(e) => assert_eq!(e.encode(), vec![0x08, 0x40]),
        DisableStep::AlreadyDisabled => panic!("was listening"),
    }
    assert_eq!(lc.state, ListeningState::Disabling);
    assert_eq!(lc.finish_disable(&Err(IpcError::Timeout)), Err(IpcError::Timeout));
    assert_eq!(lc.state, ListeningState::Disabled);
    lc.begin_enable();
    lc.finish_enable(&Ok(status_reply(0)));
    lc.stream_opened(true).unwrap();
    lc.begin_disable();
    assert_eq!(lc.finish_disable(&Ok(status_reply(7))), Ok(7));
    assert_eq!(lc.loops_started, 2);
}

fn event_frame() -> Vec<u8> {
    let msg = encode_fields(&vec![uint_field(3, 9), uint_field(4, 1), text_field(7, "ping")]);
    Envelope { function: 0, payload: Some(Field { number: RSP_WXMSG, value: FieldValue::Bytes(msg) }) }
        .encode()
}

#[test]
fn listener_delivers_events() {
    match listener_step(StreamEvent::Frame(event_frame())) {
        ListenerStep::Deliver(m) => {
            assert_eq!(m.id, 9);
            assert_eq!(m.content, "ping");
        }
        _ => panic!("event not delivered"),
    }
}

#[test]
fn listener_waits_on_timeout_and_stops_otherwise() {
    assert!(matches!(listener_step(StreamEvent::TimedOut), ListenerStep::KeepWaiting));
    assert!(matches!(listener_step(StreamEvent::Failed), ListenerStep::Stop));
    assert!(matches!(listener_step(StreamEvent::Frame(vec![0xff])), ListenerStep::Stop));
    let status = status_reply(0).encode();
    assert!(matches!(listener_step(StreamEvent::Frame(status)), ListenerStep::Stop));
}

#[test]
fn drain_runs_until_off_and_empty() {
    assert!(drain_continues(ListeningState::Listening, true));
    assert!(drain_continues(ListeningState::Disabled, false));
    assert!(!drain_continues(ListeningState::Disabled, true));
}

#[test]
fn login_watcher_decisions() {
    assert_eq!(login_poll_step(Ok(false), false), LoginPoll::Wait);
    assert_eq!(login_poll_step(Ok(true), false), LoginPoll::Enable);
    assert_eq!(login_poll_step(Ok(true), true), LoginPoll::Done);
    assert_eq!(login_poll_step(Err(IpcError::Timeout), false), LoginPoll::Abort);
    assert_eq!(login_enable_step(Ok(true)), LoginPoll::Done);
    assert_eq!(login_enable_step(Ok(false)), LoginPoll::Wait);
    assert_eq!(login_enable_step(Err(IpcError::NotConnected)), LoginPoll::Wait);
}

#[test]
fn chat_frame_round_trips_through_listener() {
    let m = WxMsg {
        is_self: true,
        is_group: false,
        id: u64::MAX,
        msg_type: 49,
        ts: u32::MAX,
        roomid: "room@chatroom".to_string(),
        content: "链接 link".to_string(),
        sender: "wxid_s".to_string(),
        sign: "sig".to_string(),
        thumb: "t.jpg".to_string(),
        extra: "e.dat".to_string(),
        xml: "<msgsource/>".to_string(),
    };
    match listener_step(StreamEvent::Frame(encode_chat_frame(&m))) {
        ListenerStep::Deliver(d) => {
            assert!(d.is_self && !d.is_group);
            assert_eq!((d.id, d.msg_type, d.ts), (m.id, m.msg_type, m.ts));
            assert_eq!(
                (d.roomid, d.content, d.sender, d.sign, d.thumb, d.extra, d.xml),
                (m.roomid, m.content, m.sender, m.sign, m.thumb, m.extra, m.xml)
            );
        }
        _ => panic!("event lost"),
    }
}

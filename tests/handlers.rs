use wcfrust::handlers::{
    ConsoleLogMessageHandler, Effect, Event, EventHandler, EventMessageHandler, HandlerContext,
    HttpMessageHandler, LogMessageHandler, SocketIOMessageHandler, WechatConfig,
};
use wcfrust::messages::WxMsg;
use wcfrust::text::{contains, in_comma_list, starts_with, text_eq};

fn msg(msg_type: u32, content: &str, xml: &str) -> WxMsg {
    WxMsg {
        is_self: false,
        is_group: true,
        id: 1,
        msg_type,
        ts: 0,
        roomid: "room@chatroom".to_string(),
        content: content.to_string(),
        sender: "wxid_sender".to_string(),
        sign: String::new(),
        thumb: String::new(),
        extra: String::new(),
        xml: xml.to_string(),
    }
}

fn config(urls: &[&str], filter: Option<&str>, show: bool) -> WechatConfig {
    WechatConfig {
        cburl: urls.iter().map(|u| u.to_string()).collect(),
        http_server_port: 10010,
        wsurl: String::new(),
        file_dir: String::new(),
        front_msg_show: show,
        msg_filter_regexp: filter.map(|f| f.to_string()),
    }
}

fn posts(effects: &[Effect]) -> Vec<String> {
    effects
        .iter()
        .map(|e| match e {
            Effect::PostJson(u) => u.clone(),
            _ => panic!("not a post"),
        })
        .collect()
}

#[test]
fn forwards_to_http_endpoints_only() {
    let h = HttpMessageHandler { id: "h".to_string() };
    let c = config(&["http://a", "ftp://b", "https://c"], None, false);
    let e = h.decide(&Event::ClientMessage(msg(1, "hi", "")), &c);
    assert_eq!(posts(&e), vec!["http://a".to_string(), "https://c".to_string()]);
}

#[test]
fn text_filter_applies_to_text_only() {
    let h = HttpMessageHandler { id: "h".to_string() };
    let c = config(&["http://a"], Some("^hello"), false);
    assert_eq!(h.decide(&Event::ClientMessage(msg(1, "hello world", "")), &c).len(), 1);
    assert_eq!(h.decide(&Event::ClientMessage(msg(1, "say hello", "")), &c).len(), 0);
    assert_eq!(h.decide(&Event::ClientMessage(msg(3, "say hello", "")), &c).len(), 1);
}

#[test]
fn broken_filter_forwards_no_text() {
    let h = HttpMessageHandler { id: "h".to_string() };
    let c = config(&["http://a"], Some("("), false);
    assert_eq!(h.decide(&Event::ClientMessage(msg(1, "(", "")), &c).len(), 0);
}

#[test]
fn lifecycle_events_are_not_forwarded() {
    let mut h = HttpMessageHandler { id: "h".to_string() };
    let ctx = HandlerContext { config: config(&["http://a"], None, true), self_wxid: String::new() };
    assert!(h.handle(&Event::StartUp, &ctx).is_empty());
    assert!(h.decide(&Event::ClientMessage(msg(1, "x", "")), &config(&[], None, true)).is_empty());
}

const MENTION_XML: &str = "<msgsource><atuserlist>wxid_a,wxid_me</atuserlist></msgsource>";

#[test]
fn replies_when_keyword_and_mention() {
    let h = EventMessageHandler { id: "e".to_string() };
    let e = h.decide(&Event::ClientMessage(msg(1, "有关键词的消息", MENTION_XML)), "wxid_me");
    assert_eq!(e.len(), 1);
    match &e[0] {
        Effect::SendText(t) => {
            assert_eq!(t.msg, "@wxid_sender  事件推送有人at我");
            assert_eq!(t.receiver, "room@chatroom");
            assert_eq!(t.aters, "wxid_sender");
        }
        _ => panic!("no reply"),
    }
}

#[test]
fn no_reply_without_mention_or_keyword() {
    let h = EventMessageHandler { id: "e".to_string() };
    assert!(h.decide(&Event::ClientMessage(msg(1, "有关键词", MENTION_XML)), "wxid_other").is_empty());
    assert!(h.decide(&Event::ClientMessage(msg(1, "plain", MENTION_XML)), "wxid_me").is_empty());
    assert!(h.decide(&Event::ClientMessage(msg(3, "关键词", MENTION_XML)), "wxid_me").is_empty());
    assert!(h.decide(&Event::ClientMessage(msg(1, "关键词", "<msgsource/>")), "wxid_me").is_empty());
    assert!(h.decide(&Event::ClientMessage(msg(1, "关键词", "not xml <")), "wxid_me").is_empty());
}

#[test]
fn mention_list_membership() {
    assert!(EventMessageHandler::mentions_me(Some("a,b,c".to_string()), "b"));
    assert!(!EventMessageHandler::mentions_me(Some("ab,c".to_string()), "b"));
    assert!(!EventMessageHandler::mentions_me(None, "b"));
    assert!(in_comma_list("a,,c", ""));
    assert!(in_comma_list("", ""));
    assert!(!in_comma_list("abc", "ab"));
}

#[test]
fn log_and_console_and_relay() {
    let l = LogMessageHandler { id: "l".to_string() };
    let ev = Event::ClientMessage(msg(1, "x", ""));
    assert!(matches!(&l.decide(&ev, &config(&[], None, true))[..], [Effect::LogEvent(id)] if id == "l"));
    assert!(l.decide(&ev, &config(&[], None, false)).is_empty());
    let c = ConsoleLogMessageHandler { id: "c".to_string() };
    assert!(matches!(&c.decide(&ev)[..], [Effect::PrintEvent(id)] if id == "c"));
    assert!(c.decide(&Event::Shutdown).is_empty());
    let s = SocketIOMessageHandler { id: "s".to_string() };
    assert!(matches!(&s.decide(&ev)[..], [Effect::Relay]));
    assert!(s.decide(&Event::StartUp).is_empty());
}

#[test]
fn text_helpers() {
    assert!(contains("a关键词b", "关键词"));
    assert!(contains("abc", ""));
    assert!(!contains("ab", "abc"));
    assert!(!contains("abd", "bc"));
    assert!(starts_with("https://x", "http"));
    assert!(!starts_with("htt", "http"));
    assert!(text_eq("RoomData", "RoomData"));
    assert!(!text_eq("RoomData", "RoomDat"));
}

#[test]
fn responder_handle_replies_like_decide() {
    let mut h = EventMessageHandler { id: "e".to_string() };
    let ctx = HandlerContext { config: config(&[], None, false), self_wxid: "wxid_me".to_string() };
    let e = h.handle(&Event::ClientMessage(msg(1, "关键词", MENTION_XML)), &ctx);
    assert!(matches!(&e[..], [Effect::SendText(t)] if t.msg == "@wxid_sender  事件推送有人at我"));
    assert!(h.handle(&Event::Shutdown, &ctx).is_empty());
}

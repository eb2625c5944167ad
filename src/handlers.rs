//! Events on the bus, and the consumers that attach to it. A consumer
//! decides what to do with an event; the effects it asks for (logging,
//! forwarding, replying) are carried out by whoever runs it.

use vstd::prelude::*;
use vstd::string::StringExecFns;
use crate::messages::{TextMsg, WxMsg, WxMsgModel};
use crate::text::{contains, contains_text, comma_pieces, in_comma_list, starts_with};

verus! {

/// An event on a bus.
#[derive(Clone)]
pub enum Event {
    /// An inbound chat event.
    ClientMessage(WxMsg),
    /// The services are to start.
    StartUp,
    /// The services are to stop.
    Shutdown,
}

/// Settings that consumers read.
#[derive(Clone)]
pub struct WechatConfig {
    /// Endpoints that receive every forwarded event.
    pub cburl: Vec<String>,
    pub http_server_port: u16,
    /// The pub/sub relay's address; empty for none.
    pub wsurl: String,
    pub file_dir: String,
    /// Whether events are shown in the application log.
    pub front_msg_show: bool,
    /// A pattern that text messages must match to be forwarded.
    pub msg_filter_regexp: Option<String>,
}

/// What a consumer needs besides the event.
pub struct HandlerContext {
    pub config: WechatConfig,
    /// The logged-in account's id.
    pub self_wxid: String,
}

/// Something a consumer asks to be done about the event it was given.
pub enum Effect {
    /// Show the event in the application log, naming the consumer.
    LogEvent(String),
    /// Print the event to the console, naming the consumer.
    PrintEvent(String),
    /// Post the event as JSON to this endpoint.
    PostJson(String),
    /// Pass the event on to the pub/sub relay.
    Relay,
    /// Send this text message through the client.
    SendText(TextMsg),
}

/// A consumer attached to a bus.
pub trait EventHandler {
    /// The effects that the event calls for.
    fn handle(&mut self, event: &Event, ctx: &HandlerContext) -> Vec<Effect>;
}

/// The type code of a text message.
pub const TEXT_MESSAGE: u32 = 1;

/// Prints every chat event to the console.
pub struct ConsoleLogMessageHandler {
    pub id: String,
}

/// One print, naming the consumer, for a chat event; nothing otherwise.
pub open spec fn console_effects(id: Seq<char>, event: Event, r: Seq<Effect>) -> bool {
    &&& event is ClientMessage ==> r.len() == 1 && (r[0] matches Effect::PrintEvent(h) && h@ == id)
    &&& !(event is ClientMessage) ==> r.len() == 0
}

impl ConsoleLogMessageHandler {
    pub fn decide(&self, event: &Event) -> (r: Vec<Effect>)
        ensures
            console_effects(self.id@, *event, r@),
    {
        let mut out: Vec<Effect> = Vec::new();
        if let Event::ClientMessage(_) = event {
            out.push(Effect::PrintEvent(self.id.clone()));
        }
        out
    }
}

impl EventHandler for ConsoleLogMessageHandler {
    fn handle(&mut self, event: &Event, ctx: &HandlerContext) -> (r: Vec<Effect>)
        ensures
            console_effects(old(self).id@, *event, r@),
            final(self).id@ == old(self).id@,
    {
        self.decide(event)
    }
}

/// Shows chat events in the application log when the settings ask for it.
pub struct LogMessageHandler {
    pub id: String,
}

/// One log line, naming the consumer, for a chat event when the settings
/// show events; nothing otherwise.
pub open spec fn log_effects(id: Seq<char>, event: Event, config: WechatConfig, r: Seq<Effect>) -> bool {
    &&& (event is ClientMessage && config.front_msg_show) ==> r.len() == 1 && (
    r[0] matches Effect::LogEvent(h) && h@ == id)
    &&& !(event is ClientMessage && config.front_msg_show) ==> r.len() == 0
}

impl LogMessageHandler {
    pub fn decide(&self, event: &Event, config: &WechatConfig) -> (r: Vec<Effect>)
        ensures
            log_effects(self.id@, *event, *config, r@),
    {
        let mut out: Vec<Effect> = Vec::new();
        if let Event::ClientMessage(_) = event {
            if config.front_msg_show {
                out.push(Effect::LogEvent(self.id.clone()));
            }
        }
        out
    }
}

impl EventHandler for LogMessageHandler {
    fn handle(&mut self, event: &Event, ctx: &HandlerContext) -> (r: Vec<Effect>)
        ensures
            log_effects(old(self).id@, *event, ctx.config, r@),
            final(self).id@ == old(self).id@,
    {
        self.decide(event, &ctx.config)
    }
}

/// Passes every chat event on to the pub/sub relay.
pub struct SocketIOMessageHandler {
    pub id: String,
}

/// One relay for a chat event; nothing otherwise.
pub open spec fn relay_effects(event: Event, r: Seq<Effect>) -> bool {
    &&& event is ClientMessage ==> r.len() == 1 && r[0] is Relay
    &&& !(event is ClientMessage) ==> r.len() == 0
}

impl SocketIOMessageHandler {
    pub fn decide(&self, event: &Event) -> (r: Vec<Effect>)
        ensures
            relay_effects(*event, r@),
    {
        let mut out: Vec<Effect> = Vec::new();
        if let Event::ClientMessage(_) = event {
            out.push(Effect::Relay);
        }
        out
    }
}

impl EventHandler for SocketIOMessageHandler {
    fn handle(&mut self, event: &Event, ctx: &HandlerContext) -> (r: Vec<Effect>)
        ensures
            relay_effects(*event, r@),
            final(self).id@ == old(self).id@,
    {
        self.decide(event)
    }
}

/// Whether a pattern compiles under `regex::Regex::new`.
pub uninterp spec fn regex_compiles(pattern: Seq<char>) -> bool;

/// Whether a compiled pattern matches somewhere in the text, as
/// `regex::Regex::is_match` says.
pub uninterp spec fn regex_finds(pattern: Seq<char>, text: Seq<char>) -> bool;

/// Relies on regex::Regex::new and regex::Regex::is_match: compiling
/// depends on the pattern alone, and matching on the pattern and the text.
#[verifier::external_body]
fn regex_match(pattern: &str, text: &str) -> (r: Option<bool>)
    ensures
        r is Some <==> regex_compiles(pattern@),
        r matches Some(b) ==> b == regex_finds(pattern@, text@),
{
    match regex::Regex::new(pattern) {
        Ok(re) => Some(re.is_match(text)),
        Err(_) => None,
    }
}

/// Whether a chat event passes the forwarding filter: only text messages
/// are filtered; a pattern that does not compile lets none through.
pub open spec fn passes_filter(msg: WxMsgModel, filter: Option<Seq<char>>) -> bool {
    if msg.msg_type == TEXT_MESSAGE {
        match filter {
            Some(p) => regex_compiles(p) && regex_finds(p, msg.content),
            None => true,
        }
    } else {
        true
    }
}

/// Whether an endpoint looks like an HTTP address.
pub open spec fn is_http_url(u: Seq<char>) -> bool {
    4 <= u.len() && u.take(4) == "http"@
}

/// The endpoints of `urls` that look like HTTP addresses, in order.
pub open spec fn http_targets(urls: Seq<Seq<char>>) -> Seq<Seq<char>>
    decreases urls.len(),
{
    if urls.len() == 0 {
        Seq::empty()
    } else if is_http_url(urls.last()) {
        http_targets(urls.drop_last()).push(urls.last())
    } else {
        http_targets(urls.drop_last())
    }
}

pub open spec fn post_targets(effects: Seq<Effect>) -> Seq<Seq<char>> {
    effects.map_values(|e: Effect| match e {
        Effect::PostJson(u) => u@,
        _ => Seq::empty(),
    })
}

pub open spec fn opt_text(o: Option<String>) -> Option<Seq<char>> {
    match o {
        Some(s) => Some(s@),
        None => None,
    }
}

/// Only posts: one to each configured HTTP endpoint, in list order, for a
/// chat event that passes the filter; nothing otherwise.
pub open spec fn http_effects(event: Event, config: WechatConfig, r: Seq<Effect>) -> bool {
    &&& forall|i: int| 0 <= i < r.len() ==> #[trigger] r[i] is PostJson
    &&& match event {
        Event::ClientMessage(m) => if passes_filter(m@, opt_text(config.msg_filter_regexp)) {
            post_targets(r) == http_targets(config.cburl@.map_values(|s: String| s@))
        } else {
            r.len() == 0
        },
        _ => r.len() == 0,
    }
}

/// Forwards chat events to the configured HTTP endpoints.
pub struct HttpMessageHandler {
    pub id: String,
}

impl HttpMessageHandler {
    /// One post per configured HTTP endpoint, for a chat event that passes
    /// the filter; nothing otherwise.
    pub fn decide(&self, event: &Event, config: &WechatConfig) -> (r: Vec<Effect>)
        ensures
            http_effects(*event, *config, r@),
    {
        let mut out: Vec<Effect> = Vec::new();
        let m = match event {
            Event::ClientMessage(m) => m,
            _ => {
                return out;
            },
        };
        if m.msg_type == TEXT_MESSAGE {
            match &config.msg_filter_regexp {
                Some(p) => match regex_match(p.as_str(), m.content.as_str()) {
                    Some(true) => {},
                    _ => {
                        return out;
                    },
                },
                None => {},
            }
        }
        let ghost urls = config.cburl@.map_values(|s: String| s@);
        let mut i: usize = 0;
        assert(post_targets(out@) =~= http_targets(urls.take(0)));
        while i < config.cburl.len()
            invariant
                i <= config.cburl@.len(),
                urls == config.cburl@.map_values(|s: String| s@),
                forall|j: int| 0 <= j < out@.len() ==> #[trigger] out@[j] is PostJson,
                post_targets(out@) == http_targets(urls.take(i as int)),
            decreases config.cburl@.len() - i,
        {
            proof {
                reveal_strlit("http");
            }
            assert(urls.take(i + 1).drop_last() =~= urls.take(i as int));
            assert(urls.take(i + 1).last() == config.cburl@[i as int]@);
            let u = &config.cburl[i];
            if starts_with(u.as_str(), "http") {
                let ghost before = post_targets(out@);
                out.push(Effect::PostJson(u.clone()));
                assert(post_targets(out@) =~= before.push(u@));
            }
            i = i + 1;
        }
        assert(urls.take(i as int) =~= urls);
        out
    }
}

impl EventHandler for HttpMessageHandler {
    fn handle(&mut self, event: &Event, ctx: &HandlerContext) -> (r: Vec<Effect>)
        ensures
            http_effects(*event, ctx.config, r@),
            final(self).id@ == old(self).id@,
    {
        self.decide(event, &ctx.config)
    }
}

/// The text at `outer.inner` of the JSON that
/// `quickxml_to_serde::xml_string_to_json` makes of an XML document; `None`
/// where the XML does not parse or holds no text there.
pub uninterp spec fn xml_text_at(xml: Seq<char>, outer: Seq<char>, inner: Seq<char>) -> Option<Seq<char>>;

/// Relies on quickxml_to_serde::xml_string_to_json with its default
/// settings, and on serde_json's `Value::get` and `Value::as_str` to pick
/// the text at `outer.inner`: the result is a function of its arguments.
#[verifier::external_body]
fn xml_text(xml: &str, outer: &str, inner: &str) -> (r: Option<String>)
    ensures
        opt_text(r) == xml_text_at(xml@, outer@, inner@),
{
    let config = quickxml_to_serde::Config::new_with_defaults();
    let json = quickxml_to_serde::xml_string_to_json(xml.to_string(), &config).ok()?;
    json.get(outer)?.get(inner)?.as_str().map(|s| s.to_string())
}

/// The comma-separated ids a message mentions: its XML's
/// `msgsource.atuserlist` text.
pub open spec fn mention_list(xml: Seq<char>) -> Option<Seq<char>> {
    xml_text_at(xml, "msgsource"@, "atuserlist"@)
}

/// The word that a text message must hold to draw a reply.
pub open spec fn trigger_word() -> Seq<char> {
    "关键词"@
}

/// The reply text to a message that mentions the account.
pub open spec fn reply_text(sender: Seq<char>) -> Seq<char> {
    "@"@ + sender + "  事件推送有人at我"@
}

/// Whether a mention list names the account.
pub open spec fn mentions_account(list: Option<Seq<char>>, self_wxid: Seq<char>) -> bool {
    match list {
        Some(l) => comma_pieces(l).contains(self_wxid),
        None => false,
    }
}

/// One reply to a text message that holds the trigger word and mentions
/// the account; nothing otherwise.
pub open spec fn reply_effects(event: Event, self_wxid: Seq<char>, r: Seq<Effect>) -> bool {
    match event {
        Event::ClientMessage(m) => if m.msg_type == TEXT_MESSAGE && contains_text(
            m.content@,
            trigger_word(),
        ) && mentions_account(mention_list(m.xml@), self_wxid) {
            r.len() == 1 && (r[0] matches Effect::SendText(t) && t.msg@ == reply_text(m.sender@)
                && t.receiver@ == m.roomid@ && t.aters@ == m.sender@)
        } else {
            r.len() == 0
        },
        _ => r.len() == 0,
    }
}

/// Replies to text messages that hold the trigger word and mention the
/// account.
pub struct EventMessageHandler {
    pub id: String,
}

impl EventMessageHandler {
    /// Whether the message mentions the account, given the message's
    /// mention list (comma-separated ids).
    pub fn mentions_me(list: Option<String>, self_wxid: &str) -> (r: bool)
        ensures
            r == mentions_account(opt_text(list), self_wxid@),
    {
        match list {
            Some(l) => in_comma_list(l.as_str(), self_wxid),
            None => false,
        }
    }

    /// A reply to a text message that holds the trigger word and mentions
    /// the account; nothing otherwise.
    pub fn decide(&self, event: &Event, self_wxid: &str) -> (r: Vec<Effect>)
        ensures
            reply_effects(*event, self_wxid@, r@),
    {
        let mut out: Vec<Effect> = Vec::new();
        let m = match event {
            Event::ClientMessage(m) => m,
            _ => {
                return out;
            },
        };
        if m.msg_type != TEXT_MESSAGE || !contains(m.content.as_str(), "关键词") {
            return out;
        }
        let list = xml_text(m.xml.as_str(), "msgsource", "atuserlist");
        if !Self::mentions_me(list, self_wxid) {
            return out;
        }
        let text = String::from_str("@").concat(m.sender.as_str()).concat("  事件推送有人at我");
        let reply = TextMsg { msg: text, receiver: m.roomid.clone(), aters: m.sender.clone() };
        out.push(Effect::SendText(reply));
        out
    }
}

impl EventHandler for EventMessageHandler {
    fn handle(&mut self, event: &Event, ctx: &HandlerContext) -> (r: Vec<Effect>)
        ensures
            reply_effects(*event, ctx.self_wxid@, r@),
            final(self).id@ == old(self).id@,
    {
        self.decide(event, ctx.self_wxid.as_str())
    }
}

} // verus!

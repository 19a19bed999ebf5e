//! The proxy between a client and the browser of its session: it passes messages on,
//! and disguises the pages that the client works with.
use vstd::prelude::*;
use crate::cdp;
use crate::cdp::CommandView;
use crate::json;
use crate::json::Json;
use crate::json::JsonView;
use crate::json::Message;
use crate::text;

verus! {

/// The number of the first command that the proxy itself sends.
pub const EIGER_CDP_ID_START: u64 = 9_000_000_000;

/// How many milliseconds a message of the client waits behind commands of the proxy.
pub const CLIENT_PAUSE_MILLIS: u64 = 50;

/// How many milliseconds a message of the browser waits behind commands of the proxy.
pub const UPSTREAM_PAUSE_MILLIS: u64 = 200;

/// A message of the client, or to it.
#[derive(Clone, Debug)]
pub enum ClientMessage {
    Text(String),
    Binary(Vec<u8>),
    Ping(Vec<u8>),
    Pong(Vec<u8>),
    Close,
}

/// A message of the browser, or to it.
#[derive(Clone, Debug)]
pub enum UpstreamMessage {
    Text(String),
    Binary(Vec<u8>),
    Ping(Vec<u8>),
    Pong(Vec<u8>),
    Close,
    /// A bare frame.
    Frame,
}

/// The message to the browser that a message of the client is passed on as.
pub open spec fn to_upstream(message: ClientMessage) -> UpstreamMessage {
    match message {
        ClientMessage::Text(content) => UpstreamMessage::Text(content),
        ClientMessage::Binary(content) => UpstreamMessage::Binary(content),
        ClientMessage::Ping(content) => UpstreamMessage::Ping(content),
        ClientMessage::Pong(content) => UpstreamMessage::Pong(content),
        ClientMessage::Close => UpstreamMessage::Close,
    }
}

/// The message to the client that a message of the browser is passed on as; a bare
/// frame is not passed on.
pub open spec fn to_client(message: UpstreamMessage) -> Option<ClientMessage> {
    match message {
        UpstreamMessage::Text(content) => Some(ClientMessage::Text(content)),
        UpstreamMessage::Binary(content) => Some(ClientMessage::Binary(content)),
        UpstreamMessage::Ping(content) => Some(ClientMessage::Ping(content)),
        UpstreamMessage::Pong(content) => Some(ClientMessage::Pong(content)),
        UpstreamMessage::Close => Some(ClientMessage::Close),
        UpstreamMessage::Frame => None,
    }
}

/// Whether a command shows the client a document.
pub open spec fn shows_page(method: Seq<char>) -> bool {
    ||| method == "Page.navigate"@
    ||| method == "Page.reload"@
    ||| method == "Page.printToPDF"@
    ||| method == "Page.captureScreenshot"@
}

/// The session that is to be disguised before a message of the client is passed on.
pub open spec fn client_session(body: JsonView) -> Option<Seq<char>> {
    match json::member_text(body, "method"@) {
        Some(method) => if shows_page(method) {
            json::member_text(body, "sessionId"@)
        } else {
            None
        },
        None => None,
    }
}

/// The session that a message of the client wants disguised; a message that is no
/// JSON text wants none.
pub open spec fn message_session(message: ClientMessage) -> Option<Seq<char>> {
    match message {
        ClientMessage::Text(source) => match json::json_value(source@) {
            Ok(body) => client_session(body),
            Err(_) => None,
        },
        _ => None,
    }
}

/// Whether a message answers a command of the proxy.
pub open spec fn is_own_answer(body: JsonView) -> bool {
    match cdp::message_id(body) {
        Some(id) => id >= EIGER_CDP_ID_START,
        None => false,
    }
}

/// The session that a message of the browser has begun with a page or an iframe.
pub open spec fn attached_session(body: JsonView) -> Option<Seq<char>> {
    if json::member_text(body, "method"@) == Some("Target.attachedToTarget"@) {
        match json::member(body, "params"@) {
            Some(params) => match json::member_text(params, "sessionId"@) {
                Some(session_id) => if cdp::shows_documents(cdp::target_type(params)) {
                    Some(session_id)
                } else {
                    None
                },
                None => None,
            },
            None => None,
        }
    } else {
        None
    }
}

/// What disguises a session, where there is one to be disguised.
pub open spec fn injection(enabled: bool, session: Option<Seq<char>>) -> Seq<CommandView> {
    match session {
        Some(session_id) => if enabled {
            cdp::proxy_disguise(session_id, cdp::baseline_sources())
        } else {
            Seq::empty()
        },
        None => Seq::empty(),
    }
}

/// The message to the browser that a message of the client is passed on as.
pub fn axum_to_upstream_message(message: ClientMessage) -> (res: UpstreamMessage)
    ensures
        res == to_upstream(message),
{
    match message {
        ClientMessage::Text(content) => UpstreamMessage::Text(content),
        ClientMessage::Binary(content) => UpstreamMessage::Binary(content),
        ClientMessage::Ping(content) => UpstreamMessage::Ping(content),
        ClientMessage::Pong(content) => UpstreamMessage::Pong(content),
        ClientMessage::Close => UpstreamMessage::Close,
    }
}

/// The session that the body of a message of the client wants disguised.
pub fn requested_session(body: &Json) -> (res: Option<String>)
    ensures
        text::opt_text(res) == client_session(body@),
{
    let method = match body.get_str("method") {
        Some(method) => method,
        None => return None,
    };
    let shows = text::str_eq(method, "Page.navigate") || text::str_eq(method, "Page.reload")
        || text::str_eq(method, "Page.printToPDF") || text::str_eq(method, "Page.captureScreenshot");
    if !shows {
        return None;
    }
    match body.get_str("sessionId") {
        Some(session_id) => Some(session_id.to_owned()),
        None => None,
    }
}

/// The session that a message of the client wants disguised.
pub fn client_message_stealth_session(message: &ClientMessage) -> (res: Option<String>)
    ensures
        text::opt_text(res) == message_session(*message),
{
    match message {
        ClientMessage::Text(source) => match json::parse(source.as_str()) {
            Ok(body) => requested_session(&body),
            Err(_) => None,
        },
        _ => None,
    }
}

/// Whether a message answers a command of the proxy.
pub fn is_eiger_cdp_response(body: &Json) -> (res: bool)
    ensures
        res == is_own_answer(body@),
{
    match body.get("id") {
        Some(found) => match found.as_u64() {
            Some(id) => id >= EIGER_CDP_ID_START,
            None => false,
        },
        None => false,
    }
}

/// The session that a message of the browser has begun with a page or an iframe.
pub fn inject_stealth_from_proxy_event(body: &Json) -> (res: Option<String>)
    ensures
        text::opt_text(res) == attached_session(body@),
{
    match body.get_str("method") {
        Some(method) => if !text::str_eq(method, "Target.attachedToTarget") {
            return None;
        },
        None => return None,
    }
    let params = match body.get("params") {
        Some(params) => params,
        None => return None,
    };
    match params.get_str("sessionId") {
        Some(session_id) => if cdp::is_document(cdp::event_target_type(params)) {
            Some(session_id.to_owned())
        } else {
            None
        },
        None => None,
    }
}

/// The commands that disguise the page that a message of the client is about to show.
pub open spec fn client_commands(enabled: bool, message: ClientMessage) -> Seq<CommandView> {
    injection(enabled, message_session(message))
}

/// What the proxy does with a message of the client: it sends some texts to the
/// browser, pauses where it sent any, and passes the message on.
#[derive(Debug)]
pub struct ClientStep {
    pub inject: Vec<String>,
    pub forward: UpstreamMessage,
}

/// What the proxy does with a message of the browser: it reports the error of a
/// command of its own, sends some texts to the browser, pauses where it sent any,
/// and passes the message on.
#[derive(Debug)]
pub struct UpstreamStep {
    pub error: Option<String>,
    pub inject: Vec<String>,
    pub forward: Option<ClientMessage>,
}

/// What a message of the browser comes down to: an error to report, what to send,
/// and the message for the client.
#[verifier::ext_equal]
pub struct UpstreamView {
    pub error: Option<Seq<char>>,
    pub inject: Seq<CommandView>,
    pub forward: Option<ClientMessage>,
}

/// What a message of the browser comes down to that cannot be read: it is passed on,
/// but for bare frames.
pub open spec fn passed_view(message: UpstreamMessage) -> UpstreamView {
    UpstreamView { error: None, inject: Seq::empty(), forward: to_client(message) }
}

/// What a message of the browser comes down to that reads as `body`, with the error
/// text `error`: an answer to the proxy itself goes no further; everything else is
/// passed on.
pub open spec fn read_view(
    enabled: bool,
    message: UpstreamMessage,
    body: JsonView,
    error: Option<Seq<char>>,
) -> UpstreamView {
    if is_own_answer(body) {
        UpstreamView { error, inject: Seq::empty(), forward: None }
    } else {
        UpstreamView { inject: injection(enabled, attached_session(body)), ..passed_view(message) }
    }
}

/// What a message of the browser comes down to.
pub open spec fn upstream_view(enabled: bool, message: UpstreamMessage) -> UpstreamView {
    match message {
        UpstreamMessage::Text(source) => match json::json_value(source@) {
            Ok(body) => read_view(enabled, message, body, json::error_text(body)),
            Err(_) => passed_view(message),
        },
        _ => passed_view(message),
    }
}

/// The proxy of one client.
#[derive(Debug)]
pub struct Proxy {
    next_id: u64,
    stealth_enabled: bool,
}

impl Proxy {
    /// The number of the next command of the proxy.
    pub closed spec fn id(self) -> int {
        self.next_id as int
    }

    /// Whether pages are disguised.
    pub closed spec fn disguises(self) -> bool {
        self.stealth_enabled
    }

    /// A proxy that has sent nothing.
    pub fn new(stealth_enabled: bool) -> (res: Proxy)
        ensures
            res.id() == EIGER_CDP_ID_START,
            res.disguises() == stealth_enabled,
    {
        Proxy { next_id: EIGER_CDP_ID_START, stealth_enabled }
    }

    /// The texts that disguise a session, where there is one to be disguised.
    pub fn send_stealth_commands(&mut self, session: Option<String>) -> (res: Vec<String>)
        ensures
            final(self).disguises() == old(self).disguises(),
            ({
                let commands = injection(old(self).disguises(), text::opt_text(session));
                let messages = cdp::requests(commands, old(self).id());
                &&& text::texts(res@) == cdp::message_texts(messages)
                &&& cdp::read_back(text::texts(res@), messages)
                &&& final(self).id() == cdp::id_at(old(self).id(), commands.len() as int)
            }),
    {
        if self.stealth_enabled {
            match session {
                Some(session_id) => {
                    let commands = cdp::proxy_disguise_commands(session_id.as_str());
                    return cdp::number_commands(commands, &mut self.next_id);
                },
                None => {},
            }
        }
        let none: Vec<String> = Vec::new();
        assert(text::texts(none@) =~= cdp::message_texts(
            cdp::requests(Seq::<CommandView>::empty(), self.id()),
        ));
        none
    }

    /// What to do with a message of the client.
    pub fn on_client(&mut self, message: ClientMessage) -> (res: ClientStep)
        ensures
            final(self).disguises() == old(self).disguises(),
            res.forward == to_upstream(message),
            ({
                let commands = client_commands(old(self).disguises(), message);
                let messages = cdp::requests(commands, old(self).id());
                &&& text::texts(res.inject@) == cdp::message_texts(messages)
                &&& cdp::read_back(text::texts(res.inject@), messages)
                &&& final(self).id() == cdp::id_at(old(self).id(), commands.len() as int)
            }),
    {
        let session = client_message_stealth_session(&message);
        let inject = self.send_stealth_commands(session);
        ClientStep { inject, forward: axum_to_upstream_message(message) }
    }

    /// What to do with a message of the browser, by what was read in it.
    pub fn on_upstream(&mut self, message: UpstreamMessage, parsed: Option<Message>) -> (res:
        UpstreamStep)
        ensures
            final(self).disguises() == old(self).disguises(),
            ({
                let view = match parsed {
                    Some(read) => read_view(
                        old(self).disguises(),
                        message,
                        read.body@,
                        text::opt_text(read.error),
                    ),
                    None => passed_view(message),
                };
                let messages = cdp::requests(view.inject, old(self).id());
                &&& text::opt_text(res.error) == view.error
                &&& res.forward == view.forward
                &&& text::texts(res.inject@) == cdp::message_texts(messages)
                &&& cdp::read_back(text::texts(res.inject@), messages)
                &&& final(self).id() == cdp::id_at(old(self).id(), view.inject.len() as int)
            }),
    {
        let mut session: Option<String> = None;
        let mut own = false;
        let mut error: Option<String> = None;
        match parsed {
            Some(read) => if is_eiger_cdp_response(&read.body) {
                own = true;
                error = read.error;
            } else {
                session = inject_stealth_from_proxy_event(&read.body);
            },
            None => {},
        }
        let inject = self.send_stealth_commands(session);
        let forward = if own {
            None
        } else {
            match message {
                UpstreamMessage::Text(content) => Some(ClientMessage::Text(content)),
                UpstreamMessage::Binary(content) => Some(ClientMessage::Binary(content)),
                UpstreamMessage::Ping(content) => Some(ClientMessage::Ping(content)),
                UpstreamMessage::Pong(content) => Some(ClientMessage::Pong(content)),
                UpstreamMessage::Close => Some(ClientMessage::Close),
                UpstreamMessage::Frame => None,
            }
        };
        UpstreamStep { error, inject, forward }
    }

    /// What to do with a message of the browser.
    pub fn upstream_to_axum_message(&mut self, message: UpstreamMessage) -> (res: UpstreamStep)
        ensures
            final(self).disguises() == old(self).disguises(),
            ({
                let view = upstream_view(old(self).disguises(), message);
                let messages = cdp::requests(view.inject, old(self).id());
                &&& text::opt_text(res.error) == view.error
                &&& res.forward == view.forward
                &&& text::texts(res.inject@) == cdp::message_texts(messages)
                &&& cdp::read_back(text::texts(res.inject@), messages)
                &&& final(self).id() == cdp::id_at(old(self).id(), view.inject.len() as int)
            }),
    {
        let parsed = match &message {
            UpstreamMessage::Text(source) => match json::parse_message(source.as_str()) {
                Ok(read) => Some(read),
                Err(_) => None,
            },
            _ => None,
        };
        self.on_upstream(message, parsed)
    }
}

/// The answers to what the proxy itself sends never reach the client: whatever number
/// a command of the proxy has, until the numbers run out, a message that answers
/// it goes no further.
pub proof fn law_own_answers_stay_hidden(
    enabled: bool,
    source: String,
    body: JsonView,
    sent_before: int,
)
    requires
        json::json_value(source@) == Ok::<JsonView, Seq<char>>(body),
        0 <= sent_before <= u64::MAX - EIGER_CDP_ID_START,
        cdp::message_id(body) == Some(cdp::id_at(EIGER_CDP_ID_START as int, sent_before)),
    ensures
        upstream_view(enabled, UpstreamMessage::Text(source)).forward is None,
{
}

/// Everything else that the browser says reaches the client as it is: whatever a message
/// holds, it goes no further only where it has a number that the proxy itself uses.
pub proof fn law_other_messages_pass(enabled: bool, message: UpstreamMessage)
    requires
        !(message is Frame),
        message matches UpstreamMessage::Text(source) ==> match json::json_value(source@) {
            Ok(JsonView::Object(members)) => !(members.contains_key("id"@)
                && members["id"@] is Integer && 9_000_000_000 <= members["id"@]->Integer_0
                <= u64::MAX),
            _ => true,
        },
    ensures
        upstream_view(enabled, message).forward == to_client(message),
        upstream_view(enabled, message).forward is Some,
        upstream_view(enabled, message).error is None,
        message matches UpstreamMessage::Text(content) ==> upstream_view(
            enabled,
            message,
        ).forward == Some(ClientMessage::Text(content)),
{
}

/// A message with a number that the proxy itself uses goes no further and has nothing
/// sent; the error that it reports, if any, is told.
pub proof fn law_own_answers_are_taken_in(
    enabled: bool,
    source: String,
    members: Map<Seq<char>, JsonView>,
    id: int,
)
    requires
        json::json_value(source@) == Ok::<JsonView, Seq<char>>(JsonView::Object(members)),
        json::has(members, "id"@, JsonView::Integer(id)),
        9_000_000_000 <= id <= u64::MAX,
    ensures
        ({
            let view = upstream_view(enabled, UpstreamMessage::Text(source));
            &&& view.forward is None
            &&& view.inject.len() == 0
            &&& view.error == if members.contains_key("error"@) {
                Some(json::json_text(members["error"@]))
            } else {
                None
            }
        }),
{
}

/// A message of any kind is passed on as one of the same kind with the same content, both
/// ways; only a bare frame of the browser is not.
pub proof fn law_kinds_are_kept(content: String, bytes: Vec<u8>)
    ensures
        to_upstream(ClientMessage::Text(content)) == UpstreamMessage::Text(content),
        to_upstream(ClientMessage::Binary(bytes)) == UpstreamMessage::Binary(bytes),
        to_upstream(ClientMessage::Ping(bytes)) == UpstreamMessage::Ping(bytes),
        to_upstream(ClientMessage::Pong(bytes)) == UpstreamMessage::Pong(bytes),
        to_upstream(ClientMessage::Close) == UpstreamMessage::Close,
        to_client(UpstreamMessage::Text(content)) == Some(ClientMessage::Text(content)),
        to_client(UpstreamMessage::Binary(bytes)) == Some(ClientMessage::Binary(bytes)),
        to_client(UpstreamMessage::Ping(bytes)) == Some(ClientMessage::Ping(bytes)),
        to_client(UpstreamMessage::Pong(bytes)) == Some(ClientMessage::Pong(bytes)),
        to_client(UpstreamMessage::Close) == Some(ClientMessage::Close),
        to_client(UpstreamMessage::Frame) is None,
{
}

/// Messages of the browser that are no text have nothing sent.
pub proof fn law_only_texts_are_read(enabled: bool, message: UpstreamMessage)
    requires
        !(message is Text),
    ensures
        upstream_view(enabled, message).inject.len() == 0,
        upstream_view(enabled, message).error is None,
        upstream_view(enabled, message).forward == to_client(message),
        !(message is Frame) ==> upstream_view(enabled, message).forward is Some,
{
}

/// A session that the browser begins with a page or an iframe is disguised, whatever else
/// the message holds.
pub proof fn law_attached_pages_are_disguised(
    source: String,
    members: Map<Seq<char>, JsonView>,
    params: Map<Seq<char>, JsonView>,
    info: Map<Seq<char>, JsonView>,
    session_id: Seq<char>,
    kind: Seq<char>,
)
    requires
        json::json_value(source@) == Ok::<JsonView, Seq<char>>(JsonView::Object(members)),
        !(members.contains_key("id"@) && members["id"@] is Integer && 9_000_000_000
            <= members["id"@]->Integer_0 <= u64::MAX),
        json::has(members, "method"@, JsonView::Text("Target.attachedToTarget"@)),
        json::has(members, "params"@, JsonView::Object(params)),
        json::has(params, "sessionId"@, JsonView::Text(session_id)),
        json::has(params, "targetInfo"@, JsonView::Object(info)),
        json::has(info, "type"@, JsonView::Text(kind)),
        kind == "page"@ || kind == "iframe"@,
    ensures
        upstream_view(true, UpstreamMessage::Text(source)).inject == injection(
            true,
            Some(session_id),
        ),
        upstream_view(true, UpstreamMessage::Text(source)).inject.len() == 3,
        attached_session(JsonView::Object(members)) == Some(session_id),
{
    reveal_with_fuel(cdp::proxy_disguise, 3);
}

/// A message has a session disguised only where it tells that the browser has begun this
/// session with a page or an iframe.
pub proof fn law_only_attached_pages_are_disguised(body: JsonView)
    ensures
        attached_session(body) is Some ==> {
            let members = body->Object_0;
            let params = members["params"@]->Object_0;
            let info = params["targetInfo"@]->Object_0;
            &&& body is Object
            &&& json::has(members, "method"@, JsonView::Text("Target.attachedToTarget"@))
            &&& members.contains_key("params"@) && members["params"@] is Object
            &&& json::has(
                params,
                "sessionId"@,
                JsonView::Text(attached_session(body)->Some_0),
            )
            &&& params.contains_key("targetInfo"@) && params["targetInfo"@] is Object
            &&& json::has(info, "type"@, JsonView::Text("page"@)) || json::has(
                info,
                "type"@,
                JsonView::Text("iframe"@),
            )
        },
{
}

/// A session is disguised by three commands to it: page events on, the script for
/// documents to come, and the script for the present one.
pub proof fn law_injection_is_the_disguise(session_id: Seq<char>)
    ensures
        ({
            let commands = injection(true, Some(session_id));
            let script = crate::stealth::BASELINE_SCRIPT@;
            &&& commands.len() == 3
            &&& forall|i: int|
                0 <= i < 3 ==> (#[trigger] commands[i]).session_id == Some(session_id)
                    && commands[i].params is Object
            &&& commands[0].method == "Page.enable"@
            &&& commands[1].method == "Page.addScriptToEvaluateOnNewDocument"@
            &&& json::has(commands[1].params->Object_0, "source"@, JsonView::Text(script))
            &&& json::has(commands[1].params->Object_0, "runImmediately"@, JsonView::Bool(true))
            &&& commands[2].method == "Runtime.evaluate"@
            &&& json::has(commands[2].params->Object_0, "expression"@, JsonView::Text(script))
        }),
        injection(true, None).len() == 0,
{
    reveal_with_fuel(cdp::proxy_disguise, 3);
    reveal_strlit("source");
    reveal_strlit("runImmediately");
    assert("source"@.len() != "runImmediately"@.len());
}

/// A message of the client has its session disguised just where it is a command that
/// shows a document: one that navigates, reloads, prints or takes a picture.
pub proof fn law_shown_pages_are_disguised(
    message: ClientMessage,
    members: Map<Seq<char>, JsonView>,
    session_id: Seq<char>,
)
    requires
        message matches ClientMessage::Text(source) && json::json_value(source@) == Ok::<
            JsonView,
            Seq<char>,
        >(JsonView::Object(members)),
    ensures
        message_session(message) == Some(session_id) <==> {
            &&& json::has(members, "sessionId"@, JsonView::Text(session_id))
            &&& {
                ||| json::has(members, "method"@, JsonView::Text("Page.navigate"@))
                ||| json::has(members, "method"@, JsonView::Text("Page.reload"@))
                ||| json::has(members, "method"@, JsonView::Text("Page.printToPDF"@))
                ||| json::has(members, "method"@, JsonView::Text("Page.captureScreenshot"@))
            }
        },
{
}

/// A message of the client that is no JSON object has nothing disguised.
pub proof fn law_other_client_messages_ask_nothing(message: ClientMessage)
    requires
        message matches ClientMessage::Text(source) ==> !(json::json_value(source@) matches Ok(
            JsonView::Object(_),
        )),
    ensures
        message_session(message) is None,
{
}

/// Where pages are not disguised, the proxy sends nothing of its own.
pub proof fn law_plain_proxy_adds_nothing(session: Option<Seq<char>>)
    ensures
        injection(false, session).len() == 0,
{
}

/// What is passed on to the browser and handed back unchanged is the same message.
pub proof fn law_messages_survive_both_ways(message: ClientMessage)
    ensures
        to_client(to_upstream(message)) == Some(message),
{
}

/// A page is disguised before the client shows it, in its own session; other messages of
/// the client, and those of a proxy that does not disguise, bring no commands.
pub proof fn law_clients_see_disguised_pages(
    enabled: bool,
    message: ClientMessage,
    members: Map<Seq<char>, JsonView>,
    session_id: Seq<char>,
)
    requires
        message matches ClientMessage::Text(source) && json::json_value(source@) == Ok::<
            JsonView,
            Seq<char>,
        >(JsonView::Object(members)),
    ensures
        ({
            let shows = json::has(members, "method"@, JsonView::Text("Page.navigate"@))
                || json::has(members, "method"@, JsonView::Text("Page.reload"@)) || json::has(
                members,
                "method"@,
                JsonView::Text("Page.printToPDF"@),
            ) || json::has(members, "method"@, JsonView::Text("Page.captureScreenshot"@));
            let commands = client_commands(enabled, message);
            &&& enabled && shows && json::has(members, "sessionId"@, JsonView::Text(session_id))
                ==> commands.len() == 3 && (forall|i: int|
                0 <= i < 3 ==> (#[trigger] commands[i]).session_id == Some(session_id))
                && commands[0].method == "Page.enable"@ && commands[1].method
                == "Page.addScriptToEvaluateOnNewDocument"@ && commands[2].method
                == "Runtime.evaluate"@
            &&& !enabled || !shows || !(members.contains_key("sessionId"@)
                && members["sessionId"@] is Text) ==> commands.len() == 0
        }),
{
    law_shown_pages_are_disguised(message, members, session_id);
    law_injection_is_the_disguise(session_id);
    if message_session(message) is Some {
        law_shown_pages_are_disguised(message, members, message_session(message)->Some_0);
    }
}

/// Commands are put before a message of the browser only where it tells of a page or an
/// iframe that the client is attached to, and only by a proxy that disguises.
pub proof fn law_browsers_bring_few_commands(enabled: bool, message: UpstreamMessage)
    requires
        upstream_view(enabled, message).inject.len() > 0,
    ensures
        enabled,
        message matches UpstreamMessage::Text(source) && json::json_value(source@) matches Ok(body)
            && attached_session(body) is Some,
        CLIENT_PAUSE_MILLIS == 50 && UPSTREAM_PAUSE_MILLIS == 200,
{
}

}

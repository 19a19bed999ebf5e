//! Commands of the Chrome DevTools Protocol, the answers to them, and the
//! controller that disguises every page of a browser.
use vstd::prelude::*;
use crate::json;
use crate::json::Json;
use crate::json::JsonView;
use crate::json::Message;
use crate::stealth;
use crate::text;

verus! {

/// A command, before it has a number.
#[derive(Debug)]
pub struct Command {
    pub session_id: Option<String>,
    pub method: &'static str,
    pub params: Json,
}

/// What a command says.
#[verifier::ext_equal]
pub struct CommandView {
    pub session_id: Option<Seq<char>>,
    pub method: Seq<char>,
    pub params: JsonView,
}

impl View for Command {
    type V = CommandView;

    open spec fn view(&self) -> CommandView {
        CommandView {
            session_id: text::opt_text(self.session_id),
            method: self.method@,
            params: self.params@,
        }
    }
}

/// What a list of commands says.
pub open spec fn commands_view(commands: Seq<Command>) -> Seq<CommandView> {
    Seq::new(commands.len(), |i: int| commands[i]@)
}

/// The message that a command with a number is sent as.
pub open spec fn request(id: int, command: CommandView) -> JsonView {
    let members = Map::<Seq<char>, JsonView>::empty().insert("id"@, JsonView::Integer(id)).insert(
        "method"@,
        JsonView::Text(command.method),
    ).insert("params"@, command.params);
    match command.session_id {
        Some(session_id) => JsonView::Object(
            members.insert("sessionId"@, JsonView::Text(session_id)),
        ),
        None => JsonView::Object(members),
    }
}

/// How deep the parameters of a command may be nested.
pub const PARAMS_DEPTH: usize = 126;

/// Whether a command can be sent: its parameters survive being written and read.
pub open spec fn sendable(command: Command) -> bool {
    json::holds_plain(command.params, PARAMS_DEPTH as nat)
}

/// Whether every command of a list can be sent.
pub open spec fn all_sendable(commands: Seq<Command>) -> bool {
    forall|i: int| 0 <= i < commands.len() ==> sendable(#[trigger] commands[i])
}

/// The text of the message that a command with a number is sent as.
pub fn request_text(id: u64, command: Command) -> (res: String)
    requires
        sendable(command),
    ensures
        res@ == json::json_text(request(id as int, command@)),
        json::json_value(res@) == Ok::<JsonView, Seq<char>>(request(id as int, command@)),
{
    let ghost asked = command@;
    let mut members: Vec<(String, Json)> = Vec::new();
    json::put(&mut members, "id", Json::Unsigned(id));
    json::put(&mut members, "method", json::text(command.method));
    json::put(&mut members, "params", command.params);
    match command.session_id {
        Some(session_id) => {
            json::put(&mut members, "sessionId", Json::Text(session_id));
        },
        None => {},
    }
    let message = Json::Object(members);
    proof {
        assert(message@ == request(id as int, asked));
        reveal_strlit("id");
        reveal_strlit("method");
        reveal_strlit("params");
        reveal_strlit("sessionId");
        assert(json::members_plain(members@, PARAMS_DEPTH as nat));
    }
    json::render(&message)
}

/// What a message means to one who waits for the answer to a command.
#[derive(Debug)]
pub enum Answer {
    /// It is not the answer.
    Other,
    /// The command failed; the error as JSON text.
    Failed(String),
    /// The command succeeded.
    Done(Json),
}

/// What an answer says.
#[verifier::ext_equal]
pub enum AnswerView {
    Other,
    Failed(Seq<char>),
    Done(JsonView),
}

impl View for Answer {
    type V = AnswerView;

    open spec fn view(&self) -> AnswerView {
        match self {
            Answer::Other => AnswerView::Other,
            Answer::Failed(error) => AnswerView::Failed(error@),
            Answer::Done(result) => AnswerView::Done(result@),
        }
    }
}

/// The number of a message, where it has one.
pub open spec fn message_id(body: JsonView) -> Option<int> {
    match json::member(body, "id"@) {
        Some(found) => json::as_unsigned(found),
        None => None,
    }
}

/// What a message with the error text `error` means to one who waits for the
/// answer to command `id`: without an error, the result is the member `result`,
/// or null.
pub open spec fn answer_of(body: JsonView, error: Option<Seq<char>>, id: int) -> AnswerView {
    if message_id(body) != Some(id) {
        AnswerView::Other
    } else {
        match error {
            Some(words) => AnswerView::Failed(words),
            None => match json::member(body, "result"@) {
                Some(result) => AnswerView::Done(result),
                None => AnswerView::Done(JsonView::Null),
            },
        }
    }
}

/// What a message means to one who waits for the answer to command `id`.
pub fn answer(message: Message, id: u64) -> (res: Answer)
    ensures
        res@ == answer_of(message.body@, text::opt_text(message.error), id as int),
{
    let numbered = match message.body.get("id") {
        Some(found) => match found.as_u64() {
            Some(number) => number == id,
            None => false,
        },
        None => false,
    };
    if !numbered {
        return Answer::Other;
    }
    match message.error {
        Some(words) => Answer::Failed(words),
        None => match message.body.into_member("result") {
            Some(result) => Answer::Done(result),
            None => Answer::Done(Json::Null),
        },
    }
}

/// The texts of the baseline scripts.
pub open spec fn baseline_sources() -> Seq<Seq<char>> {
    seq![stealth::BASELINE_SCRIPT@]
}

/// Switches the page events of a session on.
pub open spec fn enable_page(session_id: Option<Seq<char>>) -> CommandView {
    CommandView {
        session_id,
        method: "Page.enable"@,
        params: JsonView::Object(Map::empty()),
    }
}

/// Has a script run in every document to come.
pub open spec fn add_script(session_id: Option<Seq<char>>, source: Seq<char>) -> CommandView {
    CommandView {
        session_id,
        method: "Page.addScriptToEvaluateOnNewDocument"@,
        params: JsonView::Object(
            Map::<Seq<char>, JsonView>::empty().insert("source"@, JsonView::Text(source)).insert(
                "runImmediately"@,
                JsonView::Bool(true),
            ),
        ),
    }
}

/// Runs a script in the present document.
pub open spec fn run_script(session_id: Option<Seq<char>>, source: Seq<char>) -> CommandView {
    CommandView {
        session_id,
        method: "Runtime.evaluate"@,
        params: JsonView::Object(
            Map::<Seq<char>, JsonView>::empty().insert("expression"@, JsonView::Text(source)),
        ),
    }
}

/// Lets a target go on that waits for a debugger.
pub open spec fn release(session_id: Seq<char>) -> CommandView {
    CommandView {
        session_id: Some(session_id),
        method: "Runtime.runIfWaitingForDebugger"@,
        params: JsonView::Object(Map::empty()),
    }
}

/// What disguises a page: for each script, page events on, the script for
/// documents to come, the script for the present one.
pub open spec fn disguise(session_id: Option<Seq<char>>, sources: Seq<Seq<char>>) -> Seq<CommandView>
    decreases sources.len(),
{
    if sources.len() == 0 {
        Seq::empty()
    } else {
        disguise(session_id, sources.drop_last()) + seq![
            enable_page(session_id),
            add_script(session_id, sources.last()),
            run_script(session_id, sources.last()),
        ]
    }
}

/// What a proxied page is disguised by: page events on, then, for each script, the
/// script for documents to come and the script for the present one.
pub open spec fn proxy_disguise(session_id: Seq<char>, sources: Seq<Seq<char>>) -> Seq<CommandView>
    decreases sources.len(),
{
    if sources.len() == 0 {
        seq![enable_page(Some(session_id))]
    } else {
        proxy_disguise(session_id, sources.drop_last()) + seq![
            add_script(Some(session_id), sources.last()),
            run_script(Some(session_id), sources.last()),
        ]
    }
}

/// A copy of an optional text.
fn owned(value: Option<&str>) -> (res: Option<String>)
    ensures
        text::opt_text(res) == text::opt_str(value),
{
    match value {
        Some(given) => Some(given.to_owned()),
        None => None,
    }
}

fn enable_page_command(session_id: Option<&str>) -> (res: Command)
    ensures
        res@ == enable_page(text::opt_str(session_id)),
        sendable(res),
{
    Command { session_id: owned(session_id), method: "Page.enable", params: json::empty_object() }
}

fn add_script_command(session_id: Option<&str>, source: &str) -> (res: Command)
    ensures
        res@ == add_script(text::opt_str(session_id), source@),
        sendable(res),
{
    let mut members: Vec<(String, Json)> = Vec::new();
    json::put(&mut members, "source", json::text(source));
    json::put(&mut members, "runImmediately", Json::Bool(true));
    proof {
        reveal_strlit("source");
        reveal_strlit("runImmediately");
        assert(json::members_plain(members@, (PARAMS_DEPTH - 1) as nat));
    }
    Command {
        session_id: owned(session_id),
        method: "Page.addScriptToEvaluateOnNewDocument",
        params: Json::Object(members),
    }
}

fn run_script_command(session_id: Option<&str>, source: &str) -> (res: Command)
    ensures
        res@ == run_script(text::opt_str(session_id), source@),
        sendable(res),
{
    let mut members: Vec<(String, Json)> = Vec::new();
    json::put(&mut members, "expression", json::text(source));
    proof {
        reveal_strlit("expression");
        assert(json::members_plain(members@, (PARAMS_DEPTH - 1) as nat));
    }
    Command {
        session_id: owned(session_id),
        method: "Runtime.evaluate",
        params: Json::Object(members),
    }
}

fn release_command(session_id: &str) -> (res: Command)
    ensures
        res@ == release(session_id@),
        sendable(res),
{
    Command {
        session_id: Some(session_id.to_owned()),
        method: "Runtime.runIfWaitingForDebugger",
        params: json::empty_object(),
    }
}

/// Appends a command to a list of commands that can be sent.
fn add_command(commands: &mut Vec<Command>, command: Command)
    requires
        sendable(command),
        all_sendable(old(commands)@),
    ensures
        commands_view(final(commands)@) == commands_view(old(commands)@).push(command@),
        all_sendable(final(commands)@),
{
    let ghost before = commands_view(commands@);
    commands.push(command);
    assert(commands_view(commands@) =~= before.push(command@));
}

/// What disguises a page, in the session `session_id` or on a socket of its own.
pub fn disguise_commands(session_id: Option<&str>) -> (res: Vec<Command>)
    ensures
        commands_view(res@) == disguise(text::opt_str(session_id), baseline_sources()),
        all_sendable(res@),
{
    let scripts = stealth::baseline_scripts();
    let ghost session = text::opt_str(session_id);
    let ghost sources = baseline_sources();
    let mut commands: Vec<Command> = Vec::new();
    let mut i: usize = 0;
    assert(commands_view(commands@) =~= disguise(session, sources.take(0)));
    while i < scripts.len()
        invariant
            i <= scripts.len(),
            scripts@.len() == 1,
            scripts@[0].source@ == stealth::BASELINE_SCRIPT@,
            session == text::opt_str(session_id),
            sources == baseline_sources(),
            commands_view(commands@) == disguise(session, sources.take(i as int)),
            all_sendable(commands@),
        decreases scripts.len() - i,
    {
        let source = scripts[i].source;
        let ghost before = commands_view(commands@);
        assert(sources.take(i + 1).drop_last() =~= sources.take(i as int));
        add_command(&mut commands, enable_page_command(session_id));
        add_command(&mut commands, add_script_command(session_id, source));
        add_command(&mut commands, run_script_command(session_id, source));
        assert(commands_view(commands@) =~= before + seq![
            enable_page(session),
            add_script(session, source@),
            run_script(session, source@),
        ]);
        i += 1;
    }
    assert(sources.take(1) =~= sources);
    commands
}

/// What a proxied page is disguised by.
pub fn proxy_disguise_commands(session_id: &str) -> (res: Vec<Command>)
    ensures
        commands_view(res@) == proxy_disguise(session_id@, baseline_sources()),
        all_sendable(res@),
{
    let scripts = stealth::baseline_scripts();
    let ghost sources = baseline_sources();
    let mut commands: Vec<Command> = Vec::new();
    add_command(&mut commands, enable_page_command(Some(session_id)));
    let mut i: usize = 0;
    assert(commands_view(commands@) =~= proxy_disguise(session_id@, sources.take(0)));
    while i < scripts.len()
        invariant
            i <= scripts.len(),
            scripts@.len() == 1,
            scripts@[0].source@ == stealth::BASELINE_SCRIPT@,
            sources == baseline_sources(),
            commands_view(commands@) == proxy_disguise(session_id@, sources.take(i as int)),
            all_sendable(commands@),
        decreases scripts.len() - i,
    {
        let source = scripts[i].source;
        let ghost before = commands_view(commands@);
        assert(sources.take(i + 1).drop_last() =~= sources.take(i as int));
        add_command(&mut commands, add_script_command(Some(session_id), source));
        add_command(&mut commands, run_script_command(Some(session_id), source));
        assert(commands_view(commands@) =~= before + seq![
            add_script(Some(session_id@), source@),
            run_script(Some(session_id@), source@),
        ]);
        i += 1;
    }
    assert(sources.take(1) =~= sources);
    commands
}

/// The number of the command at position `at` of a list whose first has the
/// number `first`: 64-bit numbers start again at zero behind the largest.
pub open spec fn id_at(first: int, at: int) -> int {
    (first + at) % 0x1_0000_0000_0000_0000
}

/// The messages that a list of commands is sent as.
pub open spec fn requests(commands: Seq<CommandView>, first: int) -> Seq<JsonView> {
    Seq::new(commands.len(), |i: int| request(id_at(first, i), commands[i]))
}

/// The texts of some messages.
pub open spec fn message_texts(messages: Seq<JsonView>) -> Seq<Seq<char>> {
    Seq::new(messages.len(), |i: int| json::json_text(messages[i]))
}

/// Whether each text reads as the message at its place.
pub open spec fn read_back(sent: Seq<Seq<char>>, messages: Seq<JsonView>) -> bool {
    sent.len() == messages.len() && forall|i: int|
        0 <= i < sent.len() ==> json::json_value(#[trigger] sent[i]) == Ok::<JsonView, Seq<char>>(
            messages[i],
        )
}

/// Numbers some commands, from `next_id` on, and writes them down.
pub fn number_commands(commands: Vec<Command>, next_id: &mut u64) -> (res: Vec<String>)
    requires
        all_sendable(commands@),
    ensures
        text::texts(res@) == message_texts(
            requests(commands_view(commands@), *old(next_id) as int),
        ),
        read_back(text::texts(res@), requests(commands_view(commands@), *old(next_id) as int)),
        *final(next_id) == id_at(*old(next_id) as int, commands@.len() as int),
{
    let ghost asked = commands_view(commands@);
    let ghost first = *next_id as int;
    let ghost all = requests(asked, first);
    let mut sent: Vec<String> = Vec::new();
    for command in it: commands
        invariant
            it.seq() == commands@,
            asked == commands_view(commands@),
            all == requests(asked, first),
            all_sendable(commands@),
            0 <= first <= u64::MAX,
            *next_id == id_at(first, it.index() as int),
            sent.len() == it.index(),
            forall|i: int|
                0 <= i < sent.len() ==> (#[trigger] sent@[i])@ == json::json_text(all[i]),
            forall|i: int|
                0 <= i < sent.len() ==> json::json_value((#[trigger] sent@[i])@) == Ok::<
                    JsonView,
                    Seq<char>,
                >(all[i]),
    {
        let ghost at = it.index() as int;
        let id: u64 = *next_id;
        assert(command@ == asked[at]);
        assert(all[at] == request(id as int, command@));
        sent.push(request_text(id, command));
        *next_id = id.wrapping_add(1);
        assert(id_at(first, at + 1) == (id + 1) % 0x1_0000_0000_0000_0000);
    }
    assert(text::texts(sent@) =~= message_texts(all));
    assert forall|i: int| 0 <= i < text::texts(sent@).len() implies json::json_value(
        #[trigger] text::texts(sent@)[i],
    ) == Ok::<JsonView, Seq<char>>(all[i]) by {
        assert(text::texts(sent@)[i] == sent@[i]@);
    }
    sent
}

/// Attaches to a target.
pub open spec fn attach(target_id: Seq<char>) -> CommandView {
    CommandView {
        session_id: None,
        method: "Target.attachToTarget"@,
        params: JsonView::Object(
            Map::<Seq<char>, JsonView>::empty().insert(
                "targetId"@,
                JsonView::Text(target_id),
            ).insert("flatten"@, JsonView::Bool(true)),
        ),
    }
}

/// What the controller begins with: every new target is attached to, waits for
/// the debugger and is reported.
pub open spec fn controller_opening() -> Seq<CommandView> {
    seq![
        CommandView {
            session_id: None,
            method: "Target.setAutoAttach"@,
            params: JsonView::Object(
                Map::<Seq<char>, JsonView>::empty().insert(
                    "autoAttach"@,
                    JsonView::Bool(true),
                ).insert("waitForDebuggerOnStart"@, JsonView::Bool(true)).insert(
                    "flatten"@,
                    JsonView::Bool(true),
                ),
            ),
        },
        CommandView {
            session_id: None,
            method: "Target.setDiscoverTargets"@,
            params: JsonView::Object(
                Map::<Seq<char>, JsonView>::empty().insert("discover"@, JsonView::Bool(true)),
            ),
        },
    ]
}

/// Whether a target shows documents.
pub open spec fn shows_documents(target_type: Option<Seq<char>>) -> bool {
    target_type == Some("page"@) || target_type == Some("iframe"@)
}

/// The type of the target that the parameters of an event speak of.
pub open spec fn target_type(params: JsonView) -> Option<Seq<char>> {
    match json::member(params, "targetInfo"@) {
        Some(target) => json::member_text(target, "type"@),
        None => None,
    }
}

/// What the controller sends on a message: it attaches to a new page or iframe,
/// disguises one that it is attached to, and lets every target go on that it is
/// attached to.
pub open spec fn controller_reply(body: JsonView) -> Seq<CommandView> {
    match json::member_text(body, "method"@) {
        Some(method) => if method == "Target.targetCreated"@ {
            match json::nested(body, "params"@, "targetInfo"@) {
                Some(target) => match json::member_text(target, "targetId"@) {
                    Some(target_id) => if shows_documents(json::member_text(target, "type"@)) {
                        seq![attach(target_id)]
                    } else {
                        Seq::empty()
                    },
                    None => Seq::empty(),
                },
                None => Seq::empty(),
            }
        } else if method == "Target.attachedToTarget"@ {
            match json::member(body, "params"@) {
                Some(params) => match json::member_text(params, "sessionId"@) {
                    Some(session_id) => if shows_documents(target_type(params)) {
                        disguise(Some(session_id), baseline_sources()).push(release(session_id))
                    } else {
                        seq![release(session_id)]
                    },
                    None => Seq::empty(),
                },
                None => Seq::empty(),
            }
        } else {
            Seq::empty()
        },
        None => Seq::empty(),
    }
}

/// Whether a target of a given type shows documents.
pub fn is_document(target_type: Option<&str>) -> (res: bool)
    ensures
        res == shows_documents(text::opt_str(target_type)),
{
    match target_type {
        Some(name) => text::str_eq(name, "page") || text::str_eq(name, "iframe"),
        None => false,
    }
}

/// The type of the target that the parameters of an event speak of.
pub fn event_target_type(params: &Json) -> (res: Option<&str>)
    ensures
        text::opt_str(res) == target_type(params@),
{
    match params.get("targetInfo") {
        Some(target) => target.get_str("type"),
        None => None,
    }
}

/// The command that attaches to a target.
pub fn attach_command(target_id: &str) -> (res: Command)
    ensures
        res@ == attach(target_id@),
        sendable(res),
{
    let mut members: Vec<(String, Json)> = Vec::new();
    json::put(&mut members, "targetId", json::text(target_id));
    json::put(&mut members, "flatten", Json::Bool(true));
    proof {
        reveal_strlit("targetId");
        reveal_strlit("flatten");
        assert(json::members_plain(members@, (PARAMS_DEPTH - 1) as nat));
    }
    Command { session_id: None, method: "Target.attachToTarget", params: Json::Object(members) }
}

/// What the controller sends on a message.
pub fn controller_commands(body: &Json) -> (res: Vec<Command>)
    ensures
        commands_view(res@) == controller_reply(body@),
        all_sendable(res@),
{
    let mut commands: Vec<Command> = Vec::new();
    assert(commands_view(commands@) =~= Seq::<CommandView>::empty());
    let method = match body.get_str("method") {
        Some(method) => method,
        None => return commands,
    };
    if text::str_eq(method, "Target.targetCreated") {
        let target = match body.get_nested("params", "targetInfo") {
            Some(target) => target,
            None => return commands,
        };
        let target_id = match target.get_str("targetId") {
            Some(target_id) => target_id,
            None => return commands,
        };
        if is_document(target.get_str("type")) {
            add_command(&mut commands, attach_command(target_id));
            assert(commands_view(commands@) =~= seq![attach(target_id@)]);
        }
        return commands;
    }
    if text::str_eq(method, "Target.attachedToTarget") {
        let params = match body.get("params") {
            Some(params) => params,
            None => return commands,
        };
        let session_id = match params.get_str("sessionId") {
            Some(session_id) => session_id,
            None => return commands,
        };
        if is_document(event_target_type(params)) {
            let mut disguised = disguise_commands(Some(session_id));
            add_command(&mut disguised, release_command(session_id));
            return disguised;
        }
        add_command(&mut commands, release_command(session_id));
        assert(commands_view(commands@) =~= seq![release(session_id@)]);
    }
    commands
}

/// Disguises every page of a browser, over a socket to the browser.
#[derive(Debug)]
pub struct StealthController {
    next_id: u64,
}

/// What the controller does on a message: an error to report, and texts to send.
#[derive(Debug)]
pub struct ControllerStep {
    pub error: Option<String>,
    pub send: Vec<String>,
}

impl StealthController {
    /// The number of the next command.
    pub closed spec fn id(self) -> int {
        self.next_id as int
    }

    /// A controller that has sent nothing.
    pub fn new() -> (res: StealthController)
        ensures
            res.id() == 10_000,
    {
        StealthController { next_id: 10_000 }
    }

    /// The texts to begin with.
    pub fn open(&mut self) -> (res: Vec<String>)
        ensures
            text::texts(res@) == message_texts(requests(controller_opening(), old(self).id())),
            read_back(text::texts(res@), requests(controller_opening(), old(self).id())),
            final(self).id() == id_at(old(self).id(), 2),
    {
        let mut commands: Vec<Command> = Vec::new();
        let mut members: Vec<(String, Json)> = Vec::new();
        json::put(&mut members, "autoAttach", Json::Bool(true));
        json::put(&mut members, "waitForDebuggerOnStart", Json::Bool(true));
        json::put(&mut members, "flatten", Json::Bool(true));
        proof {
            reveal_strlit("autoAttach");
            reveal_strlit("waitForDebuggerOnStart");
            reveal_strlit("flatten");
            assert(json::members_plain(members@, (PARAMS_DEPTH - 1) as nat));
        }
        add_command(
            &mut commands,
            Command { session_id: None, method: "Target.setAutoAttach", params: Json::Object(members) },
        );
        let mut members: Vec<(String, Json)> = Vec::new();
        json::put(&mut members, "discover", Json::Bool(true));
        proof {
            reveal_strlit("discover");
            assert(json::members_plain(members@, (PARAMS_DEPTH - 1) as nat));
        }
        add_command(
            &mut commands,
            Command {
                session_id: None,
                method: "Target.setDiscoverTargets",
                params: Json::Object(members),
            },
        );
        assert(commands_view(commands@) =~= controller_opening());
        number_commands(commands, &mut self.next_id)
    }

    /// What to do on a message of the browser that was read.
    pub fn on_body(&mut self, message: Message) -> (res: ControllerStep)
        ensures
            ({
                let messages = requests(controller_reply(message.body@), old(self).id());
                &&& res.error == message.error
                &&& text::texts(res.send@) == message_texts(messages)
                &&& read_back(text::texts(res.send@), messages)
                &&& final(self).id() == id_at(old(self).id(), messages.len() as int)
            }),
    {
        let commands = controller_commands(&message.body);
        let send = number_commands(commands, &mut self.next_id);
        ControllerStep { error: message.error, send }
    }

    /// What to do on a message of the browser. A text that is no JSON ends the
    /// controller with the words of the error.
    pub fn on_message(&mut self, source: &str) -> (res: Result<ControllerStep, String>)
        ensures
            match res {
                Ok(step) => {
                    &&& json::json_value(source@) is Ok
                    &&& ({
                        let body = json::json_value(source@)->Ok_0;
                        let messages = requests(controller_reply(body), old(self).id());
                        &&& text::opt_text(step.error) == json::error_text(body)
                        &&& text::texts(step.send@) == message_texts(messages)
                        &&& read_back(text::texts(step.send@), messages)
                        &&& final(self).id() == id_at(old(self).id(), messages.len() as int)
                    })
                },
                Err(words) => json::json_value(source@) == Err::<JsonView, Seq<char>>(words@)
                    && *final(self) == *old(self),
            },
    {
        match json::parse_message(source) {
            Ok(message) => Ok(self.on_body(message)),
            Err(words) => Err(words),
        }
    }
}

/// Whatever target the browser has attached the controller to, the last command
/// in reply lets it go on: no target is left waiting for the debugger.
pub proof fn law_attached_targets_go_on(body: JsonView, params: JsonView, session_id: Seq<char>)
    requires
        json::member_text(body, "method"@) == Some("Target.attachedToTarget"@),
        json::member(body, "params"@) == Some(params),
        json::member_text(params, "sessionId"@) == Some(session_id),
    ensures
        controller_reply(body).len() > 0,
        controller_reply(body).last() == release(session_id),
{
    assert("Target.attachedToTarget"@ != "Target.targetCreated"@) by {
        reveal_strlit("Target.attachedToTarget");
        reveal_strlit("Target.targetCreated");
        assert("Target.attachedToTarget"@.len() != "Target.targetCreated"@.len());
    }
}

/// Only pages and iframes are disguised.
pub proof fn law_only_documents_are_disguised(body: JsonView, params: JsonView, i: int)
    requires
        json::member(body, "params"@) == Some(params),
        !shows_documents(target_type(params)),
        0 <= i < controller_reply(body).len(),
    ensures
        controller_reply(body)[i].method == "Runtime.runIfWaitingForDebugger"@,
{
}

/// No two of the commands that are sent one after the other have the same number, as
/// long as the numbers do not run out.
pub proof fn law_numbers_differ(first: int, i: int, j: int)
    requires
        0 <= first <= u64::MAX,
        0 <= i < j <= u64::MAX,
    ensures
        id_at(first, i) != id_at(first, j),
{
}

/// A command is sent as a message that has its number, its method, its parameters and,
/// where it has one, its session, and nothing else.
pub proof fn law_requests_say_the_command(id: int, command: CommandView)
    ensures
        request(id, command) is Object,
        ({
            let members = request(id, command)->Object_0;
            &&& json::has(members, "id"@, JsonView::Integer(id))
            &&& json::has(members, "method"@, JsonView::Text(command.method))
            &&& json::has(members, "params"@, command.params)
            &&& match command.session_id {
                Some(session_id) => json::has(members, "sessionId"@, JsonView::Text(session_id)),
                None => !members.contains_key("sessionId"@),
            }
            &&& forall|name: Seq<char>| #[trigger]
                members.contains_key(name) ==> name == "id"@ || name == "method"@ || name
                    == "params"@ || name == "sessionId"@
        }),
{
    reveal_strlit("id");
    reveal_strlit("method");
    reveal_strlit("params");
    reveal_strlit("sessionId");
    assert("id"@.len() == 2);
    assert("sessionId"@.len() == 9);
    assert("method"@.len() == 6);
    assert("params"@.len() == 6);
    assert("method"@[0] != "params"@[0]);
}

/// The numbers of commands that are sent one after the other go up by one, and start again
/// at zero behind the largest of 64 bits.
pub proof fn law_numbers_go_up(commands: Seq<CommandView>, first: u64, i: int)
    requires
        0 <= i < commands.len(),
        i <= u64::MAX,
    ensures
        requests(commands, first as int).len() == commands.len(),
        requests(commands, first as int)[i] == request(
            if first + i <= u64::MAX {
                first + i
            } else {
                first + i - 0x1_0000_0000_0000_0000
            },
            commands[i],
        ),
{
}

/// A message answers a command just where it has its number; then its error counts before
/// its result, and without a result the result is null.
pub proof fn law_answers_are_matched(
    body: JsonView,
    error: Option<Seq<char>>,
    id: u64,
)
    ensures
        ({
            let numbered = body is Object && json::has(
                body->Object_0,
                "id"@,
                JsonView::Integer(id as int),
            );
            let answer = answer_of(body, error, id as int);
            &&& !numbered <==> answer is Other
            &&& numbered && error is Some ==> answer == AnswerView::Failed(error->Some_0)
            &&& numbered && error is None && body->Object_0.contains_key("result"@) ==> answer
                == AnswerView::Done(body->Object_0["result"@])
            &&& numbered && error is None && !body->Object_0.contains_key("result"@) ==> answer
                == AnswerView::Done(JsonView::Null)
        }),
{
}

/// Each script disguises a page by three commands to the same session: page events on,
/// the script for documents to come, and the script for the present one.
pub proof fn law_disguise_runs_every_script(
    session_id: Option<Seq<char>>,
    sources: Seq<Seq<char>>,
    k: int,
)
    requires
        0 <= k < sources.len(),
    ensures
        ({
            let commands = disguise(session_id, sources);
            let later = commands[3 * k + 1].params->Object_0;
            let now = commands[3 * k + 2].params->Object_0;
            &&& commands.len() == 3 * sources.len()
            &&& commands[3 * k].session_id == session_id
            &&& commands[3 * k + 1].session_id == session_id
            &&& commands[3 * k + 2].session_id == session_id
            &&& commands[3 * k].method == "Page.enable"@
            &&& commands[3 * k + 1].method == "Page.addScriptToEvaluateOnNewDocument"@
            &&& commands[3 * k + 1].params is Object
            &&& json::has(later, "source"@, JsonView::Text(sources[k]))
            &&& json::has(later, "runImmediately"@, JsonView::Bool(true))
            &&& commands[3 * k + 2].method == "Runtime.evaluate"@
            &&& commands[3 * k + 2].params is Object
            &&& json::has(now, "expression"@, JsonView::Text(sources[k]))
        }),
    decreases sources.len(),
{
    reveal_strlit("source");
    reveal_strlit("runImmediately");
    assert("source"@.len() != "runImmediately"@.len());
    lemma_disguise_len(session_id, sources.drop_last());
    if k < sources.len() - 1 {
        law_disguise_runs_every_script(session_id, sources.drop_last(), k);
        let commands = disguise(session_id, sources);
        let before = disguise(session_id, sources.drop_last());
        assert(commands[3 * k] == before[3 * k]);
        assert(commands[3 * k + 1] == before[3 * k + 1]);
        assert(commands[3 * k + 2] == before[3 * k + 2]);
    }
}

proof fn lemma_disguise_len(session_id: Option<Seq<char>>, sources: Seq<Seq<char>>)
    ensures
        disguise(session_id, sources).len() == 3 * sources.len(),
    decreases sources.len(),
{
    if sources.len() > 0 {
        lemma_disguise_len(session_id, sources.drop_last());
    }
}

/// A page whose client works through the proxy is disguised by switching its events on
/// once, and by each script in its turn.
pub proof fn law_proxy_disguise_runs_every_script(
    session_id: Seq<char>,
    sources: Seq<Seq<char>>,
    k: int,
)
    requires
        0 <= k < sources.len(),
    ensures
        ({
            let commands = proxy_disguise(session_id, sources);
            let later = commands[2 * k + 1].params->Object_0;
            let now = commands[2 * k + 2].params->Object_0;
            &&& commands.len() == 2 * sources.len() + 1
            &&& commands[0].method == "Page.enable"@
            &&& commands[0].session_id == Some(session_id)
            &&& commands[2 * k + 1].session_id == Some(session_id)
            &&& commands[2 * k + 2].session_id == Some(session_id)
            &&& commands[2 * k + 1].method == "Page.addScriptToEvaluateOnNewDocument"@
            &&& json::has(later, "source"@, JsonView::Text(sources[k]))
            &&& json::has(later, "runImmediately"@, JsonView::Bool(true))
            &&& commands[2 * k + 2].method == "Runtime.evaluate"@
            &&& json::has(now, "expression"@, JsonView::Text(sources[k]))
        }),
    decreases sources.len(),
{
    reveal_strlit("source");
    reveal_strlit("runImmediately");
    assert("source"@.len() != "runImmediately"@.len());
    lemma_proxy_disguise_len(session_id, sources.drop_last());
    if k < sources.len() - 1 {
        law_proxy_disguise_runs_every_script(session_id, sources.drop_last(), k);
        let commands = proxy_disguise(session_id, sources);
        let before = proxy_disguise(session_id, sources.drop_last());
        assert(commands[0] == before[0]);
        assert(commands[2 * k + 1] == before[2 * k + 1]);
        assert(commands[2 * k + 2] == before[2 * k + 2]);
    }
}

proof fn lemma_proxy_disguise_len(session_id: Seq<char>, sources: Seq<Seq<char>>)
    ensures
        proxy_disguise(session_id, sources).len() == 2 * sources.len() + 1,
        proxy_disguise(session_id, sources)[0] == enable_page(Some(session_id)),
    decreases sources.len(),
{
    if sources.len() > 0 {
        lemma_proxy_disguise_len(session_id, sources.drop_last());
    }
}

/// The scripts that are run are the baseline script alone.
pub proof fn law_baseline_is_run()
    ensures
        baseline_sources().len() == 1,
        baseline_sources()[0] == stealth::BASELINE_SCRIPT@,
{
}

/// The controller begins by having every new target attached to, held and told of.
pub proof fn law_controller_attaches_to_all()
    ensures
        ({
            let commands = controller_opening();
            let attach = commands[0].params->Object_0;
            let discover = commands[1].params->Object_0;
            &&& commands.len() == 2
            &&& commands[0].session_id is None && commands[1].session_id is None
            &&& commands[0].method == "Target.setAutoAttach"@ && commands[0].params is Object
            &&& json::has(attach, "autoAttach"@, JsonView::Bool(true))
            &&& json::has(attach, "waitForDebuggerOnStart"@, JsonView::Bool(true))
            &&& json::has(attach, "flatten"@, JsonView::Bool(true))
            &&& commands[1].method == "Target.setDiscoverTargets"@ && commands[1].params is Object
            &&& json::has(discover, "discover"@, JsonView::Bool(true))
        }),
{
    reveal_strlit("autoAttach");
    reveal_strlit("waitForDebuggerOnStart");
    reveal_strlit("flatten");
    assert("autoAttach"@.len() != "waitForDebuggerOnStart"@.len());
    assert("autoAttach"@.len() != "flatten"@.len());
    assert("flatten"@.len() != "waitForDebuggerOnStart"@.len());
}

/// The controller attaches to every new page and iframe, and to no other target.
pub proof fn law_new_pages_are_attached_to(
    members: Map<Seq<char>, JsonView>,
    params: Map<Seq<char>, JsonView>,
    info: Map<Seq<char>, JsonView>,
    target_id: Seq<char>,
)
    requires
        json::has(members, "method"@, JsonView::Text("Target.targetCreated"@)),
        json::has(members, "params"@, JsonView::Object(params)),
        json::has(params, "targetInfo"@, JsonView::Object(info)),
        json::has(info, "targetId"@, JsonView::Text(target_id)),
    ensures
        ({
            let commands = controller_reply(JsonView::Object(members));
            let asked = commands[0].params->Object_0;
            if json::has(info, "type"@, JsonView::Text("page"@)) || json::has(
                info,
                "type"@,
                JsonView::Text("iframe"@),
            ) {
                &&& commands.len() == 1
                &&& commands[0].session_id is None
                &&& commands[0].method == "Target.attachToTarget"@
                &&& commands[0].params is Object
                &&& json::has(asked, "targetId"@, JsonView::Text(target_id))
                &&& json::has(asked, "flatten"@, JsonView::Bool(true))
            } else {
                commands.len() == 0
            }
        }),
{
    reveal_strlit("targetId");
    reveal_strlit("flatten");
    assert("targetId"@.len() != "flatten"@.len());
}

/// The controller disguises every page and iframe that it is attached to before it lets
/// it go on, and lets every other target go on as it is.
pub proof fn law_attached_pages_are_disguised(
    members: Map<Seq<char>, JsonView>,
    params: Map<Seq<char>, JsonView>,
    info: Map<Seq<char>, JsonView>,
    session_id: Seq<char>,
)
    requires
        json::has(members, "method"@, JsonView::Text("Target.attachedToTarget"@)),
        json::has(members, "params"@, JsonView::Object(params)),
        json::has(params, "sessionId"@, JsonView::Text(session_id)),
        json::has(params, "targetInfo"@, JsonView::Object(info)),
    ensures
        ({
            let commands = controller_reply(JsonView::Object(members));
            let script = stealth::BASELINE_SCRIPT@;
            let last = commands.len() - 1;
            &&& commands.len() == if json::has(info, "type"@, JsonView::Text("page"@))
                || json::has(info, "type"@, JsonView::Text("iframe"@)) {
                4int
            } else {
                1
            }
            &&& forall|i: int|
                0 <= i < commands.len() ==> (#[trigger] commands[i]).session_id == Some(session_id)
            &&& commands[last].method == "Runtime.runIfWaitingForDebugger"@
            &&& commands.len() == 4 ==> {
                &&& commands[0].method == "Page.enable"@
                &&& commands[1].method == "Page.addScriptToEvaluateOnNewDocument"@
                &&& json::has(commands[1].params->Object_0, "source"@, JsonView::Text(script))
                &&& commands[2].method == "Runtime.evaluate"@
                &&& json::has(commands[2].params->Object_0, "expression"@, JsonView::Text(script))
            }
        }),
{
    assert("Target.attachedToTarget"@ != "Target.targetCreated"@) by {
        reveal_strlit("Target.attachedToTarget");
        reveal_strlit("Target.targetCreated");
        assert("Target.attachedToTarget"@.len() != "Target.targetCreated"@.len());
    }
    law_disguise_runs_every_script(Some(session_id), baseline_sources(), 0);
    assert(controller_reply(JsonView::Object(members)).last() == release(session_id));
    let commands = disguise(Some(session_id), baseline_sources());
    assert(commands.len() == 3);
}

/// The controller replies to nothing but new targets and targets that it is attached to.
pub proof fn law_other_events_are_passed_over(body: JsonView)
    requires
        !(body is Object && json::has(
            body->Object_0,
            "method"@,
            JsonView::Text("Target.targetCreated"@),
        )),
        !(body is Object && json::has(
            body->Object_0,
            "method"@,
            JsonView::Text("Target.attachedToTarget"@),
        )),
    ensures
        controller_reply(body).len() == 0,
{
}

/// The controller does nothing about a target without a number, or without a session.
pub proof fn law_unnamed_targets_are_passed_over(members: Map<Seq<char>, JsonView>)
    requires
        !members.contains_key("params"@) || !(members["params"@] is Object) || {
            let params = members["params"@]->Object_0;
            let info = params["targetInfo"@]->Object_0;
            ||| json::has(members, "method"@, JsonView::Text("Target.attachedToTarget"@)) && !(
            params.contains_key("sessionId"@) && params["sessionId"@] is Text)
            ||| json::has(members, "method"@, JsonView::Text("Target.targetCreated"@)) && (
            !params.contains_key("targetInfo"@) || !(params["targetInfo"@] is Object) || !(
            info.contains_key("targetId"@) && info["targetId"@] is Text))
        },
    ensures
        controller_reply(JsonView::Object(members)).len() == 0,
{
    assert("Target.attachedToTarget"@ != "Target.targetCreated"@) by {
        reveal_strlit("Target.attachedToTarget");
        reveal_strlit("Target.targetCreated");
        assert("Target.attachedToTarget"@.len() != "Target.targetCreated"@.len());
    }
}

/// Messages are sent as texts, one for each and in their order, that read back as them.
pub proof fn law_messages_are_sent_as_texts(sent: Seq<Seq<char>>, messages: Seq<JsonView>, i: int)
    requires
        read_back(sent, messages),
        0 <= i < messages.len(),
    ensures
        sent.len() == messages.len(),
        json::json_value(sent[i]) == Ok::<JsonView, Seq<char>>(messages[i]),
        message_texts(messages).len() == messages.len(),
        message_texts(messages)[i] == json::json_text(messages[i]),
{
}

}

//! The browser process: how it is found, launched, watched and stopped.
use vstd::prelude::*;
use crate::cdp;
use crate::cdp::Answer;
use crate::cdp::Command;
use crate::json;
use crate::json::Json;
use crate::json::JsonView;
use crate::json::Message;
use crate::span::Span;
use crate::stealth::StealthProfile;
use crate::text;

verus! {

/// How a browser is to be launched.
#[derive(Clone, Debug)]
pub struct ChromeLaunchOptions {
    pub executable: Option<String>,
    pub no_sandbox: bool,
    pub launch_timeout: Span,
    pub close_timeout: Span,
    pub terminate_timeout: Span,
    pub additional_args: Vec<String>,
    pub proxy: Option<String>,
    /// Directories of unpacked extensions to load.
    pub extension_paths: Vec<String>,
    pub stealth: StealthProfile,
}

impl ChromeLaunchOptions {
    /// A copy of the options.
    pub fn copy(&self) -> (res: ChromeLaunchOptions)
        ensures
            res.executable == self.executable,
            res.no_sandbox == self.no_sandbox,
            res.launch_timeout == self.launch_timeout,
            res.close_timeout == self.close_timeout,
            res.terminate_timeout == self.terminate_timeout,
            text::texts(res.additional_args@) == text::texts(self.additional_args@),
            res.proxy == self.proxy,
            text::texts(res.extension_paths@) == text::texts(self.extension_paths@),
            res.stealth == self.stealth,
    {
        ChromeLaunchOptions {
            executable: text::clone_opt(&self.executable),
            no_sandbox: self.no_sandbox,
            launch_timeout: self.launch_timeout,
            close_timeout: self.close_timeout,
            terminate_timeout: self.terminate_timeout,
            additional_args: text::clone_texts(&self.additional_args),
            proxy: text::clone_opt(&self.proxy),
            extension_paths: text::clone_texts(&self.extension_paths),
            stealth: StealthProfile {
                enabled: self.stealth.enabled,
                user_agent: text::clone_opt(&self.stealth.user_agent),
                window_width: self.stealth.window_width,
                window_height: self.stealth.window_height,
            },
        }
    }

    /// How long a step may take that ends a process whose launch failed, where it waits
    /// for the process.
    pub fn clean_up_time(&self, step: CleanUpStep) -> (res: Option<Span>)
        ensures
            res == clean_up_allowance(*self, step),
            res == match step {
                CleanUpStep::Terminate => Some(self.terminate_timeout),
                CleanUpStep::Kill | CleanUpStep::Done => None,
            },
    {
        match step {
            CleanUpStep::Terminate => Some(self.terminate_timeout),
            CleanUpStep::Kill | CleanUpStep::Done => None,
        }
    }
}

/// What one can know of a running browser.
pub trait BrowserDriver {
    /// What is known of the browser.
    spec fn facts(&self) -> BrowserFacts;

    fn pid(&self) -> (res: u32)
        ensures
            res == self.facts().pid,
    ;

    fn http_base_url(&self) -> (res: &str)
        ensures
            res@ == self.facts().http_base_url,
    ;

    fn browser_ws_url(&self) -> (res: &str)
        ensures
            res@ == self.facts().browser_ws_url,
    ;
}

/// The process number and the addresses of a browser.
#[verifier::ext_equal]
pub struct BrowserFacts {
    pub pid: int,
    pub http_base_url: Seq<char>,
    pub browser_ws_url: Seq<char>,
}

/// A browser that answers on its debugging port.
#[derive(Clone, Debug)]
pub struct BrowserReady {
    pub pid: u32,
    pub http_base_url: String,
    pub browser_ws_url: String,
}

/// A browser that was launched, with the times that stopping it may take.
#[derive(Clone, Debug)]
pub struct LaunchedBrowser {
    pub ready: BrowserReady,
    pub close_timeout: Span,
    pub terminate_timeout: Span,
}

/// How a browser came to its end.
#[derive(Clone, Copy, Debug, PartialEq, Eq, Structural)]
pub enum ShutdownKind {
    Graceful,
    Terminated,
    Killed,
    AlreadyExited,
}

/// How and why a browser was stopped.
#[derive(Clone, Debug)]
pub struct ShutdownReport {
    pub pid: u32,
    pub kind: ShutdownKind,
    pub reason: String,
}

/// Why a browser could not be launched or did not obey.
#[derive(Clone, Debug)]
pub enum BrowserError {
    MissingExecutable,
    Spawn { path: String, source: String },
    ExitedEarly(String),
    LaunchTimeout(Span),
    DevtoolsPort(String),
    InvalidDevtoolsPort(String),
    Http(String),
    WebSocket(String),
    CdpTimeout(&'static str),
    CdpCommand(String),
}

/// How many seconds a browser has to answer one command about its pages or health.
pub const COMMAND_WAIT_SECS: u64 = 2;

/// How many milliseconds lie between two rounds of waiting for a browser.
pub const READY_PAUSE_MILLIS: u64 = 100;

impl BrowserError {
    /// The error in words.
    pub open spec fn words(self) -> Seq<char> {
        match self {
            BrowserError::MissingExecutable =>
                "chrome executable could not be resolved; set EIGER_CHROME_EXECUTABLE"@,
            BrowserError::Spawn { path, source } => "failed to spawn chrome at "@ + path@ + ": "@
                + source@,
            BrowserError::ExitedEarly(status) => "chrome exited before CDP became ready: "@
                + status@,
            BrowserError::LaunchTimeout(span) => "chrome did not expose CDP within "@ + span.words(),
            BrowserError::DevtoolsPort(error) => "failed to read DevToolsActivePort: "@ + error@,
            BrowserError::InvalidDevtoolsPort(contents) =>
                "invalid DevToolsActivePort contents: "@ + contents@,
            BrowserError::Http(error) => "CDP HTTP request failed: "@ + error@,
            BrowserError::WebSocket(error) => "CDP websocket failed: "@ + error@,
            BrowserError::CdpTimeout(method) => "CDP command timed out: "@ + method@,
            BrowserError::CdpCommand(error) => "CDP command failed: "@ + error@,
        }
    }

    /// The error in words.
    pub fn message(&self) -> (res: String)
        ensures
            res@ == self.words(),
    {
        match self {
            BrowserError::MissingExecutable =>
                "chrome executable could not be resolved; set EIGER_CHROME_EXECUTABLE".to_owned(),
            BrowserError::Spawn { path, source } => {
                let mut out = "failed to spawn chrome at ".to_owned();
                out.append(path.as_str());
                out.append(": ");
                out.append(source.as_str());
                out
            },
            BrowserError::ExitedEarly(status) =>
                "chrome exited before CDP became ready: ".to_owned().concat(status.as_str()),
            BrowserError::LaunchTimeout(span) =>
                "chrome did not expose CDP within ".to_owned().concat(span.text().as_str()),
            BrowserError::DevtoolsPort(error) =>
                "failed to read DevToolsActivePort: ".to_owned().concat(error.as_str()),
            BrowserError::InvalidDevtoolsPort(contents) =>
                "invalid DevToolsActivePort contents: ".to_owned().concat(contents.as_str()),
            BrowserError::Http(error) => "CDP HTTP request failed: ".to_owned().concat(error.as_str()),
            BrowserError::WebSocket(error) => "CDP websocket failed: ".to_owned().concat(error.as_str()),
            BrowserError::CdpTimeout(method) => "CDP command timed out: ".to_owned().concat(method),
            BrowserError::CdpCommand(error) => "CDP command failed: ".to_owned().concat(error.as_str()),
        }
    }
}

/// Some texts with a comma between each two.
pub open spec fn comma_joined(parts: Seq<Seq<char>>) -> Seq<char>
    decreases parts.len(),
{
    if parts.len() == 0 {
        Seq::empty()
    } else if parts.len() == 1 {
        parts[0]
    } else {
        comma_joined(parts.drop_last()) + ","@ + parts.last()
    }
}

/// The flags that load extensions, or keep them off where there is none to load.
pub open spec fn extension_flags(paths: Seq<Seq<char>>) -> Seq<Seq<char>> {
    if paths.len() == 0 {
        seq!["--disable-extensions"@]
    } else {
        seq![
            "--disable-extensions-except="@ + comma_joined(paths),
            "--load-extension="@ + comma_joined(paths),
        ]
    }
}

/// The flag of a proxy that is not blank.
pub open spec fn proxy_flags(proxy: Option<Seq<char>>) -> Seq<Seq<char>> {
    match proxy {
        Some(given) => if text::is_blank(given) {
            Seq::empty()
        } else {
            seq!["--proxy-server="@ + text::trim(given)]
        },
        None => Seq::empty(),
    }
}

/// The flag that switches the sandbox off.
pub open spec fn sandbox_flags(no_sandbox: bool) -> Seq<Seq<char>> {
    if no_sandbox {
        seq!["--no-sandbox"@]
    } else {
        Seq::empty()
    }
}

/// The fixed flags in front of the extensions.
pub open spec fn leading_flags(user_data_dir: Seq<char>) -> Seq<Seq<char>> {
    seq![
        "--headless=new"@,
        "--remote-debugging-address=127.0.0.1"@,
        "--remote-debugging-port=0"@,
        "--user-data-dir="@ + user_data_dir,
        "--no-first-run"@,
        "--no-default-browser-check"@,
        "--disable-background-networking"@,
        "--disable-background-timer-throttling"@,
        "--disable-client-side-phishing-detection"@,
        "--disable-component-update"@,
        "--disable-default-apps"@,
        "--disable-dev-shm-usage"@,
    ]
}

/// The fixed flags behind the extensions.
pub open spec fn trailing_flags() -> Seq<Seq<char>> {
    seq![
        "--disable-gpu"@,
        "--disable-hang-monitor"@,
        "--disable-popup-blocking"@,
        "--disable-prompt-on-repost"@,
        "--disable-sync"@,
        "--metrics-recording-only"@,
        "--mute-audio"@,
        "--password-store=basic"@,
        "--use-mock-keychain"@,
    ]
}

/// The whole command line: fixed flags, extensions, sandbox, proxy, disguise, what
/// the options add, and the page to open.
pub open spec fn command_line(user_data_dir: Seq<char>, options: ChromeLaunchOptions) -> Seq<Seq<char>> {
    leading_flags(user_data_dir) + extension_flags(text::texts(options.extension_paths@)) + trailing_flags()
        + sandbox_flags(options.no_sandbox) + proxy_flags(text::opt_text(options.proxy))
        + options.stealth.flags() + text::texts(options.additional_args@) + seq!["about:blank"@]
}

fn join_with_commas(parts: &Vec<String>) -> (res: String)
    ensures
        res@ == comma_joined(text::texts(parts@)),
{
    let mut out = String::new();
    let ghost all = text::texts(parts@);
    let mut i: usize = 0;
    assert(out@ =~= comma_joined(all.take(0)));
    while i < parts.len()
        invariant
            i <= parts.len(),
            all == text::texts(parts@),
            out@ == comma_joined(all.take(i as int)),
        decreases parts.len() - i,
    {
        assert(all.take(i + 1).drop_last() =~= all.take(i as int));
        if i > 0 {
            out.append(",");
        }
        out.append(parts[i].as_str());
        assert(out@ =~= comma_joined(all.take(i + 1)));
        i += 1;
    }
    assert(all.take(parts.len() as int) =~= all);
    out
}

fn leading_args(user_data_dir: &str) -> (res: Vec<String>)
    ensures
        text::texts(res@) == leading_flags(user_data_dir@),
{
    let mut args: Vec<String> = Vec::new();
    text::push_text(&mut args, "--headless=new");
    text::push_text(&mut args, "--remote-debugging-address=127.0.0.1");
    text::push_text(&mut args, "--remote-debugging-port=0");
    text::push_text(&mut args, "--user-data-dir=".to_owned().concat(user_data_dir).as_str());
    text::push_text(&mut args, "--no-first-run");
    text::push_text(&mut args, "--no-default-browser-check");
    text::push_text(&mut args, "--disable-background-networking");
    text::push_text(&mut args, "--disable-background-timer-throttling");
    text::push_text(&mut args, "--disable-client-side-phishing-detection");
    text::push_text(&mut args, "--disable-component-update");
    text::push_text(&mut args, "--disable-default-apps");
    text::push_text(&mut args, "--disable-dev-shm-usage");
    assert(text::texts(args@) =~= leading_flags(user_data_dir@));
    args
}

fn trailing_args() -> (res: Vec<String>)
    ensures
        text::texts(res@) == trailing_flags(),
{
    let mut args: Vec<String> = Vec::new();
    text::push_text(&mut args, "--disable-gpu");
    text::push_text(&mut args, "--disable-hang-monitor");
    text::push_text(&mut args, "--disable-popup-blocking");
    text::push_text(&mut args, "--disable-prompt-on-repost");
    text::push_text(&mut args, "--disable-sync");
    text::push_text(&mut args, "--metrics-recording-only");
    text::push_text(&mut args, "--mute-audio");
    text::push_text(&mut args, "--password-store=basic");
    text::push_text(&mut args, "--use-mock-keychain");
    assert(text::texts(args@) =~= trailing_flags());
    args
}

/// The whole command line of a browser with the profile in `user_data_dir`.
pub fn chrome_args(user_data_dir: &str, options: &ChromeLaunchOptions) -> (res: Vec<String>)
    ensures
        text::texts(res@) == command_line(user_data_dir@, *options),
{
    let mut args = leading_args(user_data_dir);
    let ghost first = text::texts(args@);
    if options.extension_paths.len() == 0 {
        text::push_text(&mut args, "--disable-extensions");
    } else {
        let paths = join_with_commas(&options.extension_paths);
        text::push_text(&mut args, "--disable-extensions-except=".to_owned().concat(paths.as_str()).as_str());
        text::push_text(&mut args, "--load-extension=".to_owned().concat(paths.as_str()).as_str());
    }
    assert(text::texts(args@) =~= first + extension_flags(text::texts(options.extension_paths@)));
    text::push_texts(&mut args, &trailing_args());
    let ghost third = text::texts(args@);
    if options.no_sandbox {
        text::push_text(&mut args, "--no-sandbox");
    }
    assert(text::texts(args@) =~= third + sandbox_flags(options.no_sandbox));
    let ghost fourth = text::texts(args@);
    match &options.proxy {
        Some(proxy) => {
            let server = text::trimmed(proxy.as_str());
            if !server.as_str().is_empty() {
                text::push_text(&mut args, "--proxy-server=".to_owned().concat(server.as_str()).as_str());
            }
        },
        None => {},
    }
    assert(text::texts(args@) =~= fourth + proxy_flags(text::opt_text(options.proxy)));
    text::push_texts(&mut args, &options.stealth.chrome_args());
    text::push_texts(&mut args, &options.additional_args);
    let ghost fifth = text::texts(args@);
    text::push_text(&mut args, "about:blank");
    assert(text::texts(args@) =~= fifth + seq!["about:blank"@]);
    assert(text::texts(args@) =~= command_line(user_data_dir@, *options));
    args
}

/// What was found of a browser on this machine: the values of the variables of
/// `CHROME_VARIABLES`, which of the `CHROME_LOCATIONS` exist, and which of the
/// `CHROME_BINARIES` the search path holds.
#[derive(Clone, Debug)]
pub struct ExecutableProbe {
    pub variables: Vec<Option<String>>,
    pub existing: Vec<bool>,
    pub on_path: Vec<bool>,
}

impl ExecutableProbe {
    /// Whether there is an answer for every variable, location and binary.
    pub open spec fn complete(self) -> bool {
        &&& self.variables@.len() == CHROME_VARIABLES@.len()
        &&& self.existing@.len() == CHROME_LOCATIONS@.len()
        &&& self.on_path@.len() == CHROME_BINARIES@.len()
    }
}

/// The environment variables that may name a browser.
pub const CHROME_VARIABLES: [&'static str; 3] = ["CHROME", "CHROME_BIN", "GOOGLE_CHROME_BIN"];

/// Where a browser may be installed.
pub const CHROME_LOCATIONS: [&'static str; 6] = [
    "/usr/bin/chromium",
    "/usr/bin/chromium-browser",
    "/usr/bin/google-chrome",
    "/usr/bin/google-chrome-stable",
    "/Applications/Google Chrome.app/Contents/MacOS/Google Chrome",
    "/Applications/Chromium.app/Contents/MacOS/Chromium",
];

/// The names that a browser may have on the search path.
pub const CHROME_BINARIES: [&'static str; 5] = [
    "chromium",
    "chromium-browser",
    "google-chrome",
    "google-chrome-stable",
    "chrome",
];

/// The first place at which a flag is set.
pub open spec fn first_set(flags: Seq<bool>) -> Option<int>
    decreases flags.len(),
{
    if flags.len() == 0 {
        None
    } else {
        match first_set(flags.drop_last()) {
            Some(at) => Some(at),
            None => if flags.last() {
                Some(flags.len() - 1)
            } else {
                None
            },
        }
    }
}

/// The first value that is there and not blank.
pub open spec fn first_value(values: Seq<Option<String>>) -> Option<Seq<char>>
    decreases values.len(),
{
    if values.len() == 0 {
        None
    } else {
        match first_value(values.drop_last()) {
            Some(value) => Some(value),
            None => match values.last() {
                Some(value) => if text::is_blank(value@) {
                    None
                } else {
                    Some(value@)
                },
                None => None,
            },
        }
    }
}

/// Which browser to launch: the configured one; else what an environment variable
/// names; else the first known location that exists; else the first known name on
/// the search path; else none.
pub open spec fn chosen_executable(
    configured: Option<Seq<char>>,
    probe: ExecutableProbe,
) -> Option<Seq<char>> {
    match configured {
        Some(path) => Some(path),
        None => match first_value(probe.variables@) {
            Some(path) => Some(path),
            None => match first_set(probe.existing@) {
                Some(at) => Some(CHROME_LOCATIONS@[at]@),
                None => match first_set(probe.on_path@) {
                    Some(at) => Some(CHROME_BINARIES@[at]@),
                    None => None,
                },
            },
        },
    }
}

fn find_set(flags: &Vec<bool>) -> (res: Option<usize>)
    ensures
        match res {
            Some(at) => at < flags.len() && first_set(flags@) == Some(at as int),
            None => first_set(flags@) is None,
        },
{
    let mut found: Option<usize> = None;
    let mut i: usize = 0;
    while i < flags.len()
        invariant
            i <= flags.len(),
            match found {
                Some(at) => at < i && first_set(flags@.take(i as int)) == Some(at as int),
                None => first_set(flags@.take(i as int)) is None,
            },
        decreases flags.len() - i,
    {
        assert(flags@.take(i + 1).drop_last() =~= flags@.take(i as int));
        if found.is_none() && flags[i] {
            found = Some(i);
        }
        i += 1;
    }
    assert(flags@.take(flags.len() as int) =~= flags@);
    found
}

fn find_value(values: &Vec<Option<String>>) -> (res: Option<String>)
    ensures
        text::opt_text(res) == first_value(values@),
{
    let mut found: Option<String> = None;
    let mut i: usize = 0;
    while i < values.len()
        invariant
            i <= values.len(),
            text::opt_text(found) == first_value(values@.take(i as int)),
        decreases values.len() - i,
    {
        assert(values@.take(i + 1).drop_last() =~= values@.take(i as int));
        if found.is_none() {
            match &values[i] {
                Some(value) => if !text::blank(value.as_str()) {
                    found = Some(value.clone());
                },
                None => {},
            }
        }
        i += 1;
    }
    assert(values@.take(values.len() as int) =~= values@);
    found
}

/// Which browser to launch.
pub fn resolve_chrome_executable(configured: Option<&str>, probe: &ExecutableProbe) -> (res: Result<
    String,
    BrowserError,
>)
    requires
        probe.complete(),
    ensures
        match chosen_executable(text::opt_str(configured), *probe) {
            Some(path) => res is Ok && res->Ok_0@ == path,
            None => res == Err::<String, BrowserError>(BrowserError::MissingExecutable),
        },
{
    match configured {
        Some(path) => return Ok(path.to_owned()),
        None => {},
    }
    match find_value(&probe.variables) {
        Some(path) => return Ok(path),
        None => {},
    }
    match find_set(&probe.existing) {
        Some(at) => return Ok(CHROME_LOCATIONS[at].to_owned()),
        None => {},
    }
    match find_set(&probe.on_path) {
        Some(at) => Ok(CHROME_BINARIES[at].to_owned()),
        None => Err(BrowserError::MissingExecutable),
    }
}

/// The first line of a text, without its line feed and a carriage return before
/// that; an empty text has no line.
pub open spec fn first_line(contents: Seq<char>) -> Option<Seq<char>> {
    if contents.len() == 0 {
        None
    } else {
        let lines = text::pieces(contents, text::Separator::Is('\n'));
        let line = lines[0];
        if lines.len() > 1 && line.len() > 0 && line.last() == '\r' {
            Some(line.drop_last())
        } else {
            Some(line)
        }
    }
}

/// The port in the file that a browser writes it to: the number in the first line.
pub open spec fn devtools_port(contents: Seq<char>) -> Option<nat> {
    match first_line(contents) {
        Some(line) => text::parsed_number(line, 65_535),
        None => None,
    }
}

/// The port in the file that a browser writes it to.
pub fn read_devtools_port(contents: String) -> (res: Result<u16, BrowserError>)
    ensures
        match devtools_port(contents@) {
            Some(port) => res is Ok && res->Ok_0 == port,
            None => res == Err::<u16, BrowserError>(BrowserError::InvalidDevtoolsPort(contents)),
        },
{
    if contents.as_str().is_empty() {
        return Err(BrowserError::InvalidDevtoolsPort(contents));
    }
    let lines = text::split(contents.as_str(), text::Separator::Is('\n'));
    let chars = text::chars_of(lines[0].as_str());
    assert(chars@ == text::texts(lines@)[0]);
    let mut end: usize = chars.len();
    if lines.len() > 1 && end > 0 && chars[end - 1] == '\r' {
        end -= 1;
    }
    let line = text::text_of(&chars, 0, end);
    assert(Some(line@) == first_line(contents@)) by {
        assert(chars@.subrange(0, chars@.len() as int) =~= chars@);
        if chars@.len() > 0 {
            assert(chars@.subrange(0, chars@.len() - 1) =~= chars@.drop_last());
        }
    }
    match text::parse_number(line.as_str(), 65_535) {
        Some(port) => Ok(port as u16),
        None => Err(BrowserError::InvalidDevtoolsPort(contents)),
    }
}

/// What one who waits for a browser to answer has seen.
#[derive(Debug)]
pub enum WaitEvent {
    /// A round begins, so many nanoseconds after the launch.
    Round(u128),
    /// The process was asked whether it has ended: how, or why that is unknown.
    Child(Option<String>),
    /// The port file was looked for.
    PortFile(PortFile),
    /// The version was asked for at this address.
    Version { http_base_url: String, reply: VersionReply },
    /// The socket at this address was tried.
    Health { http_base_url: String, browser_ws_url: String, outcome: Result<(), BrowserError> },
}

/// What became of looking for the port file.
#[derive(Debug)]
pub enum PortFile {
    Missing,
    Unreadable(String),
    Contents(String),
}

/// What became of asking for the version.
#[derive(Debug)]
pub enum VersionReply {
    /// No answer, or not a success.
    Unavailable,
    /// A success whose body is not understood.
    Malformed(String),
    /// The address of the browser's socket.
    Socket(String),
}

/// What one who waits for a browser to answer does next.
#[derive(Debug)]
pub enum WaitStep {
    AskChild,
    ReadPortFile,
    AskVersion { http_base_url: String },
    TryHealth { http_base_url: String, browser_ws_url: String },
    /// Nothing yet: pause, then begin the next round.
    Pause,
    Ready(BrowserReady),
    Failed(BrowserError),
}

/// The address of the debugging port on this machine.
pub open spec fn local_url(port: nat) -> Seq<char> {
    "http://127.0.0.1:"@ + text::decimal(port)
}

/// Whether a step follows on what was seen while waiting for process `pid` to answer.
pub open spec fn waits(pid: u32, launch_timeout: Span, event: WaitEvent, res: WaitStep) -> bool {
    match event {
        WaitEvent::Round(elapsed) => if elapsed < launch_timeout.total() {
            res is AskChild
        } else {
            res == WaitStep::Failed(BrowserError::LaunchTimeout(launch_timeout))
        },
        WaitEvent::Child(ended) => match ended {
            Some(status) => res == WaitStep::Failed(BrowserError::ExitedEarly(status)),
            None => res is ReadPortFile,
        },
        WaitEvent::PortFile(file) => match file {
            PortFile::Missing => res is Pause,
            PortFile::Unreadable(error) => res == WaitStep::Failed(
                BrowserError::DevtoolsPort(error),
            ),
            PortFile::Contents(contents) => match devtools_port(contents@) {
                Some(port) => res is AskVersion && res->AskVersion_http_base_url@ == local_url(
                    port,
                ),
                None => res == WaitStep::Failed(BrowserError::InvalidDevtoolsPort(contents)),
            },
        },
        WaitEvent::Version { http_base_url, reply } => match reply {
            VersionReply::Unavailable => res is Pause,
            VersionReply::Malformed(error) => res == WaitStep::Failed(BrowserError::Http(error)),
            VersionReply::Socket(browser_ws_url) => res == (WaitStep::TryHealth {
                http_base_url,
                browser_ws_url,
            }),
        },
        WaitEvent::Health { http_base_url, browser_ws_url, outcome } => match outcome {
            Ok(_) => res == WaitStep::Ready(
                BrowserReady { pid, http_base_url, browser_ws_url },
            ),
            Err(error) => res == WaitStep::Failed(error),
        },
    }
}

/// What follows on what was seen while waiting for process `pid` to answer.
pub fn wait_until_ready(pid: u32, launch_timeout: Span, event: WaitEvent) -> (res: WaitStep)
    ensures
        waits(pid, launch_timeout, event, res),
{
    match event {
        WaitEvent::Round(elapsed) => if elapsed < launch_timeout.as_nanos() {
            WaitStep::AskChild
        } else {
            WaitStep::Failed(BrowserError::LaunchTimeout(launch_timeout))
        },
        WaitEvent::Child(ended) => match ended {
            Some(status) => WaitStep::Failed(BrowserError::ExitedEarly(status)),
            None => WaitStep::ReadPortFile,
        },
        WaitEvent::PortFile(file) => match file {
            PortFile::Missing => WaitStep::Pause,
            PortFile::Unreadable(error) => WaitStep::Failed(BrowserError::DevtoolsPort(error)),
            PortFile::Contents(contents) => match read_devtools_port(contents) {
                Ok(port) => {
                    let mut http_base_url = "http://127.0.0.1:".to_owned();
                    text::push_decimal(&mut http_base_url, port as u64);
                    WaitStep::AskVersion { http_base_url }
                },
                Err(error) => WaitStep::Failed(error),
            },
        },
        WaitEvent::Version { http_base_url, reply } => match reply {
            VersionReply::Unavailable => WaitStep::Pause,
            VersionReply::Malformed(error) => WaitStep::Failed(BrowserError::Http(error)),
            VersionReply::Socket(browser_ws_url) => WaitStep::TryHealth {
                http_base_url,
                browser_ws_url,
            },
        },
        WaitEvent::Health { http_base_url, browser_ws_url, outcome } => match outcome {
            Ok(_) => WaitStep::Ready(BrowserReady { pid, http_base_url, browser_ws_url }),
            Err(error) => WaitStep::Failed(error),
        },
    }
}

/// What one who launches a browser has seen.
#[derive(Debug)]
pub enum LaunchEvent {
    /// The machine was searched for a browser.
    Probed(ExecutableProbe),
    /// A directory for the profile was made, or why it was not.
    Profile { executable: String, user_data_dir: Result<String, String> },
    /// The process was started and has a number, or why it was not.
    Spawned { executable: String, outcome: Result<Option<u32>, String> },
    /// The wait for its answer is over.
    Waited(Result<BrowserReady, BrowserError>),
}

/// What one who launches a browser does next.
#[derive(Debug)]
pub enum LaunchStep {
    MakeProfile { executable: String },
    Spawn { executable: String, args: Vec<String> },
    Wait { pid: u32 },
    /// The browser is up; whether its pages are to be disguised.
    Launched { browser: LaunchedBrowser, disguise: bool },
    /// End the process that was started, then report the error.
    CleanUp(BrowserError),
    Failed(BrowserError),
}

impl LaunchEvent {
    /// Whether nothing is missing in the event.
    pub open spec fn complete(self) -> bool {
        match self {
            LaunchEvent::Probed(probe) => probe.complete(),
            _ => true,
        }
    }
}

/// Whether a step follows on what was seen while launching a browser.
pub open spec fn goes_on(options: ChromeLaunchOptions, event: LaunchEvent, res: LaunchStep) -> bool {
    match event {
        LaunchEvent::Probed(probe) => match chosen_executable(
            text::opt_text(options.executable),
            probe,
        ) {
            Some(path) => res is MakeProfile && res->MakeProfile_executable@ == path,
            None => res == LaunchStep::Failed(BrowserError::MissingExecutable),
        },
        LaunchEvent::Profile { executable, user_data_dir } => match user_data_dir {
            Ok(dir) => {
                &&& res is Spawn
                &&& res->Spawn_executable == executable
                &&& text::texts(res->Spawn_args@) == command_line(dir@, options)
            },
            Err(error) => res == LaunchStep::Failed(BrowserError::DevtoolsPort(error)),
        },
        LaunchEvent::Spawned { executable, outcome } => match outcome {
            Ok(Some(pid)) => res == (LaunchStep::Wait { pid }),
            Ok(None) => res == LaunchStep::Failed(BrowserError::MissingExecutable),
            Err(source) => res == LaunchStep::Failed(
                (BrowserError::Spawn { path: executable, source }),
            ),
        },
        LaunchEvent::Waited(outcome) => match outcome {
            Ok(ready) => res == (LaunchStep::Launched {
                browser: LaunchedBrowser {
                    ready,
                    close_timeout: options.close_timeout,
                    terminate_timeout: options.terminate_timeout,
                },
                disguise: options.stealth.enabled,
            }),
            Err(error) => res == LaunchStep::CleanUp(error),
        },
    }
}

/// What follows on what was seen while launching a browser.
pub fn launch_chrome(options: &ChromeLaunchOptions, event: LaunchEvent) -> (res: LaunchStep)
    requires
        event.complete(),
    ensures
        goes_on(*options, event, res),
{
    match event {
        LaunchEvent::Probed(probe) => {
            let configured = match &options.executable {
                Some(path) => Some(path.as_str()),
                None => None,
            };
            match resolve_chrome_executable(configured, &probe) {
                Ok(executable) => LaunchStep::MakeProfile { executable },
                Err(error) => LaunchStep::Failed(error),
            }
        },
        LaunchEvent::Profile { executable, user_data_dir } => match user_data_dir {
            Ok(dir) => {
                let args = chrome_args(dir.as_str(), options);
                LaunchStep::Spawn { executable, args }
            },
            Err(error) => LaunchStep::Failed(BrowserError::DevtoolsPort(error)),
        },
        LaunchEvent::Spawned { executable, outcome } => match outcome {
            Ok(Some(pid)) => LaunchStep::Wait { pid },
            Ok(None) => LaunchStep::Failed(BrowserError::MissingExecutable),
            Err(source) => LaunchStep::Failed(BrowserError::Spawn { path: executable, source }),
        },
        LaunchEvent::Waited(outcome) => match outcome {
            Ok(ready) => LaunchStep::Launched {
                browser: LaunchedBrowser {
                    ready,
                    close_timeout: options.close_timeout,
                    terminate_timeout: options.terminate_timeout,
                },
                disguise: options.stealth.enabled,
            },
            Err(error) => LaunchStep::CleanUp(error),
        },
    }
}

/// What one who stops a browser has seen.
#[derive(Clone, Copy, Debug, PartialEq, Eq, Structural)]
pub enum ShutdownEvent {
    /// The process was asked whether it has ended.
    Asked { ended: bool },
    /// The browser was told to close and has agreed, or not.
    ToldToClose { agreed: bool },
    /// After it agreed to close, its end was waited for.
    WaitedForClose { ended: bool },
    /// After SIGTERM its end was waited for.
    WaitedForTerm { ended: bool },
    /// The process was killed.
    Killed,
}

/// What one who stops a browser does next.
#[derive(Clone, Copy, Debug, PartialEq, Eq, Structural)]
pub enum ShutdownStep {
    /// Send `Browser.close` and take at most the close timeout for its answer.
    TellToClose,
    /// Wait for the process to end, at most the terminate timeout.
    WaitForClose,
    /// Send SIGTERM and wait for the process to end, at most the terminate timeout.
    Terminate,
    /// Kill the process.
    Kill,
    /// The browser has come to its end.
    Report(ShutdownKind),
}

/// What follows on what was seen while stopping a browser.
pub open spec fn shutdown_after(event: ShutdownEvent) -> ShutdownStep {
    match event {
        ShutdownEvent::Asked { ended } => if ended {
            ShutdownStep::Report(ShutdownKind::AlreadyExited)
        } else {
            ShutdownStep::TellToClose
        },
        ShutdownEvent::ToldToClose { agreed } => if agreed {
            ShutdownStep::WaitForClose
        } else {
            ShutdownStep::Terminate
        },
        ShutdownEvent::WaitedForClose { ended } => if ended {
            ShutdownStep::Report(ShutdownKind::Graceful)
        } else {
            ShutdownStep::Terminate
        },
        ShutdownEvent::WaitedForTerm { ended } => if ended {
            ShutdownStep::Report(ShutdownKind::Terminated)
        } else {
            ShutdownStep::Kill
        },
        ShutdownEvent::Killed => ShutdownStep::Report(ShutdownKind::Killed),
    }
}

/// How far a shutdown has come that met some events, in this order: what follows
/// on the last of them, where each but the first is one that the step before it
/// brings about, and none follows a report.
pub open spec fn shutdown_run(events: Seq<ShutdownEvent>) -> bool
    decreases events.len(),
{
    if events.len() == 0 {
        false
    } else if events.len() == 1 {
        events[0] is Asked
    } else {
        shutdown_run(events.drop_last()) && answers(
            shutdown_after(events[events.len() - 2]),
            events.last(),
        )
    }
}

/// Whether a step brings an event about.
pub open spec fn answers(step: ShutdownStep, event: ShutdownEvent) -> bool {
    match step {
        ShutdownStep::TellToClose => event is ToldToClose,
        ShutdownStep::WaitForClose => event is WaitedForClose,
        ShutdownStep::Terminate => event is WaitedForTerm,
        ShutdownStep::Kill => event is Killed,
        ShutdownStep::Report(_) => false,
    }
}

/// What a socket that one answer is waited for on has brought.
#[derive(Debug)]
pub enum SocketEvent {
    Text(String),
    /// A message that is no text.
    Other,
    Failed(String),
    Closed,
    TimedOut,
}

/// A page or another target that a browser lists.
#[derive(Clone, Debug)]
pub struct TargetDescriptor {
    pub target_type: String,
    pub web_socket_debugger_url: Option<String>,
}

/// The commands that disguise one target, each to be sent on a socket of its own to
/// this address.
#[derive(Debug)]
pub struct TargetDisguise {
    pub ws_url: String,
    pub requests: Vec<LoneRequest>,
}

/// A command that is alone on its socket, written down.
#[derive(Debug)]
pub struct LoneRequest {
    pub method: &'static str,
    pub text: String,
}

/// The message of a command that is alone on its socket.
pub open spec fn lone_request(command: cdp::CommandView) -> JsonView {
    cdp::request(1, command)
}

/// Whether requests are some commands, each alone on its socket.
pub open spec fn are_lone(requests: Seq<LoneRequest>, commands: Seq<cdp::CommandView>) -> bool {
    requests.len() == commands.len() && forall|i: int|
        0 <= i < requests.len() ==> is_lone(#[trigger] requests[i], commands[i])
}

/// Whether a request is a command that is alone on its socket.
pub open spec fn is_lone(request: LoneRequest, command: cdp::CommandView) -> bool {
    &&& request.method@ == command.method
    &&& request.text@ == json::json_text(lone_request(command))
    &&& json::json_value(request.text@) == Ok::<JsonView, Seq<char>>(lone_request(command))
}

/// Whether a target shows documents and has a socket.
pub open spec fn can_be_disguised(target: TargetDescriptor) -> bool {
    cdp::shows_documents(Some(target.target_type@)) && target.web_socket_debugger_url is Some
}

/// The addresses of the targets that can be disguised.
pub open spec fn disguised_urls(targets: Seq<TargetDescriptor>) -> Seq<Seq<char>>
    decreases targets.len(),
{
    if targets.len() == 0 {
        Seq::empty()
    } else {
        let before = disguised_urls(targets.drop_last());
        if can_be_disguised(targets.last()) {
            before.push(targets.last().web_socket_debugger_url->Some_0@)
        } else {
            before
        }
    }
}

/// The addresses that some disguises go to.
pub open spec fn disguise_urls(disguises: Seq<TargetDisguise>) -> Seq<Seq<char>> {
    Seq::new(disguises.len(), |i: int| disguises[i].ws_url@)
}

/// The text of a command that is alone on its socket.
pub fn cdp_command(command: Command) -> (res: String)
    requires
        cdp::sendable(command),
    ensures
        res@ == json::json_text(lone_request(command@)),
        json::json_value(res@) == Ok::<JsonView, Seq<char>>(lone_request(command@)),
{
    cdp::request_text(1, command)
}

/// What a text that was read on the socket of a command means: nothing yet, the
/// result of the command, or an error.
pub fn command_outcome(parsed: Result<Message, String>) -> (res: Option<
    Result<Json, BrowserError>,
>)
    ensures
        match parsed {
            Ok(message) => match cdp::answer_of(
                message.body@,
                text::opt_text(message.error),
                1,
            ) {
                cdp::AnswerView::Other => res is None,
                cdp::AnswerView::Failed(words) => res matches Some(
                    Err(BrowserError::CdpCommand(error)),
                ) && error@ == words,
                cdp::AnswerView::Done(result) => res matches Some(Ok(value)) && value@ == result,
            },
            Err(words) => res == Some(Err::<Json, BrowserError>(BrowserError::CdpCommand(words))),
        },
{
    match parsed {
        Ok(message) => match cdp::answer(message, 1) {
            Answer::Other => None,
            Answer::Failed(words) => Some(Err(BrowserError::CdpCommand(words))),
            Answer::Done(result) => Some(Ok(result)),
        },
        Err(words) => Some(Err(BrowserError::CdpCommand(words))),
    }
}

/// Whether a command has come to this, by what was seen on its socket.
pub open spec fn replies(
    method: &'static str,
    event: SocketEvent,
    res: Option<Result<Json, BrowserError>>,
) -> bool {
    match event {
        SocketEvent::Text(source) => match json::json_value(source@) {
            Ok(body) => match cdp::answer_of(body, json::error_text(body), 1) {
                cdp::AnswerView::Other => res is None,
                cdp::AnswerView::Failed(words) => res matches Some(
                    Err(BrowserError::CdpCommand(error)),
                ) && error@ == words,
                cdp::AnswerView::Done(result) => res matches Some(Ok(value)) && value@ == result,
            },
            Err(words) => res matches Some(Err(BrowserError::CdpCommand(error))) && error@
                == words,
        },
        SocketEvent::Other => res is None,
        SocketEvent::Failed(error) => res == Some(
            Err::<Json, BrowserError>(BrowserError::WebSocket(error)),
        ),
        SocketEvent::Closed => res matches Some(Err(BrowserError::CdpCommand(error))) && error@
            == "websocket closed"@,
        SocketEvent::TimedOut => res == Some(
            Err::<Json, BrowserError>(BrowserError::CdpTimeout(method)),
        ),
    }
}

/// What a socket that the answer to `method` is waited for on has brought: nothing
/// yet, the result of the command, or an error.
pub fn cdp_command_answer(method: &'static str, event: SocketEvent) -> (res: Option<
    Result<Json, BrowserError>,
>)
    ensures
        replies(method, event, res),
{
    match event {
        SocketEvent::Text(source) => command_outcome(json::parse_message(source.as_str())),
        SocketEvent::Other => None,
        SocketEvent::Failed(error) => Some(Err(BrowserError::WebSocket(error))),
        SocketEvent::Closed => Some(
            Err(BrowserError::CdpCommand("websocket closed".to_owned())),
        ),
        SocketEvent::TimedOut => Some(Err(BrowserError::CdpTimeout(method))),
    }
}

/// A command without session and parameters.
pub open spec fn bare_command(method: Seq<char>) -> cdp::CommandView {
    cdp::CommandView { session_id: None, method, params: JsonView::Object(Map::empty()) }
}

/// The command that shows whether a browser answers.
pub fn health_check_browser_ws() -> (res: String)
    ensures
        res@ == json::json_text(lone_request(bare_command("Target.getTargets"@))),
        json::json_value(res@) == Ok::<JsonView, Seq<char>>(
            lone_request(bare_command("Target.getTargets"@)),
        ),
{
    cdp_command(
        Command { session_id: None, method: "Target.getTargets", params: json::empty_object() },
    )
}

/// What is to be done about a process whose launch failed.
#[derive(Clone, Copy, Debug, PartialEq, Eq, Structural)]
pub enum CleanUpStep {
    /// Send SIGTERM and wait for the process to end, at most the terminate timeout.
    Terminate,
    Kill,
    Done,
}

/// What is next in ending a process that was started in vain, by whether it runs and was
/// sent SIGTERM.
pub open spec fn clean_up_after(runs: bool, terminated: bool) -> CleanUpStep {
    if !runs {
        CleanUpStep::Done
    } else if !terminated {
        CleanUpStep::Terminate
    } else {
        CleanUpStep::Kill
    }
}

/// How long a step in ending such a process may take.
pub open spec fn clean_up_allowance(options: ChromeLaunchOptions, step: CleanUpStep) -> Option<Span> {
    match step {
        CleanUpStep::Terminate => Some(options.terminate_timeout),
        CleanUpStep::Kill | CleanUpStep::Done => None,
    }
}

/// What is to be done about a process, by whether it still runs and whether it was
/// sent SIGTERM: one that runs is terminated, and one that this does not end is killed.
pub fn terminate_child(runs: bool, terminated: bool) -> (res: CleanUpStep)
    ensures
        res == clean_up_after(runs, terminated),
        res == if !runs {
            CleanUpStep::Done
        } else if !terminated {
            CleanUpStep::Terminate
        } else {
            CleanUpStep::Kill
        },
{
    if !runs {
        CleanUpStep::Done
    } else if !terminated {
        CleanUpStep::Terminate
    } else {
        CleanUpStep::Kill
    }
}

impl LaunchedBrowser {
    /// What disguises the targets that the browser lists: for each page or iframe
    /// with a socket, in their order, the commands that disguise it.
    pub fn inject_stealth_into_existing_targets(&self, targets: &Vec<TargetDescriptor>) -> (res: Vec<
        TargetDisguise,
    >)
        ensures
            disguise_urls(res@) == disguised_urls(targets@),
            forall|i: int|
                0 <= i < res@.len() ==> are_lone(
                    (#[trigger] res@[i]).requests@,
                    cdp::disguise(None, cdp::baseline_sources()),
                ),
    {
        let mut disguises: Vec<TargetDisguise> = Vec::new();
        let mut i: usize = 0;
        assert(disguise_urls(disguises@) =~= disguised_urls(targets@.take(0)));
        while i < targets.len()
            invariant
                i <= targets.len(),
                disguise_urls(disguises@) == disguised_urls(targets@.take(i as int)),
                forall|j: int|
                    0 <= j < disguises@.len() ==> are_lone(
                        (#[trigger] disguises@[j]).requests@,
                        cdp::disguise(None, cdp::baseline_sources()),
                    ),
            decreases targets.len() - i,
        {
            let target = &targets[i];
            assert(targets@.take(i + 1).drop_last() =~= targets@.take(i as int));
            if cdp::is_document(Some(target.target_type.as_str())) {
                match &target.web_socket_debugger_url {
                    Some(ws_url) => {
                        let ghost before = disguise_urls(disguises@);
                        disguises.push(
                            TargetDisguise { ws_url: ws_url.clone(), requests: lone_disguise() },
                        );
                        assert(disguise_urls(disguises@) =~= before.push(ws_url@));
                    },
                    None => {},
                }
            }
            i += 1;
        }
        assert(targets@.take(targets.len() as int) =~= targets@);
        disguises
    }

    /// The command that tells the browser to close.
    pub fn close_request(&self) -> (res: String)
        ensures
            res@ == json::json_text(lone_request(bare_command("Browser.close"@))),
            json::json_value(res@) == Ok::<JsonView, Seq<char>>(
                lone_request(bare_command("Browser.close"@)),
            ),
    {
        cdp_command(
            Command { session_id: None, method: "Browser.close", params: json::empty_object() },
        )
    }

    /// What follows on what was seen while stopping the browser.
    pub fn shutdown(&self, event: ShutdownEvent) -> (res: ShutdownStep)
        ensures
            res == shutdown_after(event),
    {
        match event {
            ShutdownEvent::Asked { ended } => if ended {
                ShutdownStep::Report(ShutdownKind::AlreadyExited)
            } else {
                ShutdownStep::TellToClose
            },
            ShutdownEvent::ToldToClose { agreed } => if agreed {
                ShutdownStep::WaitForClose
            } else {
                ShutdownStep::Terminate
            },
            ShutdownEvent::WaitedForClose { ended } => if ended {
                ShutdownStep::Report(ShutdownKind::Graceful)
            } else {
                ShutdownStep::Terminate
            },
            ShutdownEvent::WaitedForTerm { ended } => if ended {
                ShutdownStep::Report(ShutdownKind::Terminated)
            } else {
                ShutdownStep::Kill
            },
            ShutdownEvent::Killed => ShutdownStep::Report(ShutdownKind::Killed),
        }
    }

    /// How long a step may take, where it waits for the browser.
    pub fn allowed_time(&self, step: ShutdownStep) -> (res: Option<Span>)
        ensures
            res == shutdown_time(*self, step),
            res == match step {
                ShutdownStep::TellToClose => Some(self.close_timeout),
                ShutdownStep::WaitForClose | ShutdownStep::Terminate => Some(
                    self.terminate_timeout,
                ),
                ShutdownStep::Kill | ShutdownStep::Report(_) => None,
            },
    {
        match step {
            ShutdownStep::TellToClose => Some(self.close_timeout),
            ShutdownStep::WaitForClose | ShutdownStep::Terminate => Some(self.terminate_timeout),
            ShutdownStep::Kill | ShutdownStep::Report(_) => None,
        }
    }

    /// The report of a browser that came to its end.
    pub fn report(&self, kind: ShutdownKind, reason: &str) -> (res: ShutdownReport)
        ensures
            res.pid == self.ready.pid,
            res.kind == kind,
            res.reason@ == reason@,
    {
        ShutdownReport { pid: self.ready.pid, kind, reason: reason.to_owned() }
    }
}

fn lone_disguise() -> (res: Vec<LoneRequest>)
    ensures
        are_lone(res@, cdp::disguise(None, cdp::baseline_sources())),
{
    let commands = cdp::disguise_commands(None);
    let ghost asked = cdp::commands_view(commands@);
    let mut requests: Vec<LoneRequest> = Vec::new();
    for command in it: commands
        invariant
            it.seq() == commands@,
            asked == cdp::commands_view(commands@),
            cdp::all_sendable(commands@),
            requests.len() == it.index(),
            forall|i: int|
                0 <= i < requests.len() ==> is_lone(#[trigger] requests@[i], asked[i]),
    {
        assert(command@ == asked[it.index() as int]);
        requests.push(LoneRequest { method: command.method, text: cdp_command(command) });
    }
    requests
}

impl BrowserDriver for LaunchedBrowser {
    open spec fn facts(&self) -> BrowserFacts {
        BrowserFacts {
            pid: self.ready.pid as int,
            http_base_url: self.ready.http_base_url@,
            browser_ws_url: self.ready.browser_ws_url@,
        }
    }

    fn pid(&self) -> (res: u32) {
        self.ready.pid
    }

    fn http_base_url(&self) -> (res: &str) {
        self.ready.http_base_url.as_str()
    }

    fn browser_ws_url(&self) -> (res: &str) {
        self.ready.browser_ws_url.as_str()
    }
}

/// Every browser opens its debugging port on the loopback address alone, at a port
/// that it picks itself, and with a blank page.
pub proof fn law_debugging_stays_local(user_data_dir: Seq<char>, options: ChromeLaunchOptions)
    ensures
        command_line(user_data_dir, options)[1] == "--remote-debugging-address=127.0.0.1"@,
        command_line(user_data_dir, options)[2] == "--remote-debugging-port=0"@,
        command_line(user_data_dir, options).last() == "about:blank"@,
{
    let line = command_line(user_data_dir, options);
    let head = leading_flags(user_data_dir);
    assert(head.len() == 12);
    assert(line.take(12) =~= head);
    assert(line[1] == line.take(12)[1]);
    assert(line[2] == line.take(12)[2]);
}

/// A browser is killed only after it was sent SIGTERM and did not end, and is
/// sent SIGTERM only after it did not close by itself.
pub proof fn law_shutdown_escalates(events: Seq<ShutdownEvent>)
    requires
        shutdown_run(events),
    ensures
        shutdown_after(events.last()) is Kill ==> {
            &&& events.last() == (ShutdownEvent::WaitedForTerm { ended: false })
            &&& shutdown_after(events[events.len() - 2]) is Terminate
        },
        shutdown_after(events.last()) is Terminate ==> {
            ||| events.last() == (ShutdownEvent::ToldToClose { agreed: false })
            ||| events.last() == (ShutdownEvent::WaitedForClose { ended: false })
        },
{
}

/// Every shutdown reports an end after at most five events.
pub proof fn law_shutdown_ends(events: Seq<ShutdownEvent>)
    requires
        shutdown_run(events),
    ensures
        events.len() <= 5,
        events.len() == 5 ==> shutdown_after(events.last()) is Report,
{
    reveal_with_fuel(shutdown_run, 7);
    if events.len() > 1 {
        let e1 = events.drop_last();
        if e1.len() > 1 {
            let e2 = e1.drop_last();
            if e2.len() > 1 {
                let e3 = e2.drop_last();
                if e3.len() > 1 {
                    let e4 = e3.drop_last();
                }
            }
        }
    }
}

/// What the flag of a proxy begins with.
pub open spec fn is_proxy_flag(flag: Seq<char>) -> bool {
    text::has_prefix(flag, "--proxy-server="@)
}

proof fn lemma_other_flag(flag: Seq<char>, at: int)
    requires
        0 <= at < flag.len(),
        at < "--proxy-server="@.len(),
        flag[at] != "--proxy-server="@[at],
    ensures
        !is_proxy_flag(flag),
{
}

proof fn lemma_fixed_flags_are_no_proxy(dir: Seq<char>, i: int)
    ensures
        0 <= i < leading_flags(dir).len() ==> !is_proxy_flag(leading_flags(dir)[i]),
        0 <= i < trailing_flags().len() ==> !is_proxy_flag(trailing_flags()[i]),
{
    reveal_strlit("--proxy-server=");
    reveal_strlit("--headless=new");
    reveal_strlit("--remote-debugging-address=127.0.0.1");
    reveal_strlit("--remote-debugging-port=0");
    reveal_strlit("--user-data-dir=");
    reveal_strlit("--no-first-run");
    reveal_strlit("--no-default-browser-check");
    reveal_strlit("--disable-background-networking");
    reveal_strlit("--disable-background-timer-throttling");
    reveal_strlit("--disable-client-side-phishing-detection");
    reveal_strlit("--disable-component-update");
    reveal_strlit("--disable-default-apps");
    reveal_strlit("--disable-dev-shm-usage");
    reveal_strlit("--disable-gpu");
    reveal_strlit("--disable-hang-monitor");
    reveal_strlit("--disable-popup-blocking");
    reveal_strlit("--disable-prompt-on-repost");
    reveal_strlit("--disable-sync");
    reveal_strlit("--metrics-recording-only");
    reveal_strlit("--mute-audio");
    reveal_strlit("--password-store=basic");
    reveal_strlit("--use-mock-keychain");
    if 0 <= i < leading_flags(dir).len() {
        lemma_other_flag(leading_flags(dir)[i], 2);
    }
    if 0 <= i < trailing_flags().len() {
        lemma_other_flag(trailing_flags()[i], if i == 7 { 3int } else { 2int });
    }
}

proof fn lemma_other_flags_are_no_proxy(options: ChromeLaunchOptions, i: int)
    ensures
        0 <= i < extension_flags(text::texts(options.extension_paths@)).len() ==> !is_proxy_flag(
            extension_flags(text::texts(options.extension_paths@))[i],
        ),
        0 <= i < sandbox_flags(options.no_sandbox).len() ==> !is_proxy_flag(
            sandbox_flags(options.no_sandbox)[i],
        ),
        0 <= i < options.stealth.flags().len() ==> !is_proxy_flag(options.stealth.flags()[i]),
        !is_proxy_flag("about:blank"@),
{
    reveal_strlit("--proxy-server=");
    reveal_strlit("--disable-extensions");
    reveal_strlit("--disable-extensions-except=");
    reveal_strlit("--load-extension=");
    reveal_strlit("--no-sandbox");
    reveal_strlit("about:blank");
    reveal_strlit("--disable-blink-features=AutomationControlled");
    reveal_strlit("--window-size=");
    reveal_strlit("--user-agent=");
    let extensions = extension_flags(text::texts(options.extension_paths@));
    if 0 <= i < extensions.len() {
        lemma_other_flag(extensions[i], 2);
    }
    if 0 <= i < sandbox_flags(options.no_sandbox).len() {
        lemma_other_flag(sandbox_flags(options.no_sandbox)[i], 2);
    }
    if 0 <= i < options.stealth.flags().len() {
        lemma_other_flag(options.stealth.flags()[i], 2);
    }
    lemma_other_flag("about:blank"@, 0);
}

/// The flag at a place of the command line, by the part that the place lies in.
proof fn lemma_flag_at(dir: Seq<char>, options: ChromeLaunchOptions, i: int) -> (part: (
    Seq<Seq<char>>,
    int,
))
    requires
        0 <= i < command_line(dir, options).len(),
    ensures
        0 <= part.1 < part.0.len(),
        command_line(dir, options)[i] == part.0[part.1],
        ({
            ||| part.0 == leading_flags(dir)
            ||| part.0 == extension_flags(text::texts(options.extension_paths@))
            ||| part.0 == trailing_flags()
            ||| part.0 == sandbox_flags(options.no_sandbox)
            ||| part.0 == proxy_flags(text::opt_text(options.proxy))
            ||| part.0 == options.stealth.flags()
            ||| part.0 == text::texts(options.additional_args@)
            ||| part.0 == seq!["about:blank"@]
        }),
{
    let parts = (
        leading_flags(dir),
        extension_flags(text::texts(options.extension_paths@)),
        trailing_flags(),
        sandbox_flags(options.no_sandbox),
        proxy_flags(text::opt_text(options.proxy)),
        options.stealth.flags(),
        text::texts(options.additional_args@),
    );
    let l0 = parts.0.len() as int;
    let l1 = l0 + parts.1.len();
    let l2 = l1 + parts.2.len();
    let l3 = l2 + parts.3.len();
    let l4 = l3 + parts.4.len();
    let l5 = l4 + parts.5.len();
    let l6 = l5 + parts.6.len();
    if i < l0 {
        (parts.0, i)
    } else if i < l1 {
        (parts.1, i - l0)
    } else if i < l2 {
        (parts.2, i - l1)
    } else if i < l3 {
        (parts.3, i - l2)
    } else if i < l4 {
        (parts.4, i - l3)
    } else if i < l5 {
        (parts.5, i - l4)
    } else if i < l6 {
        (parts.6, i - l5)
    } else {
        (seq!["about:blank"@], i - l6)
    }
}

/// A browser is told of a proxy only where the options name one: without it, no flag
/// of the command line does, but for those that the options add themselves.
pub proof fn law_no_proxy_unless_wanted(dir: Seq<char>, options: ChromeLaunchOptions, i: int)
    requires
        options.proxy is None || text::is_blank(options.proxy->Some_0@),
        forall|j: int|
            0 <= j < options.additional_args@.len() ==> !is_proxy_flag(
                (#[trigger] options.additional_args@[j])@,
            ),
        0 <= i < command_line(dir, options).len(),
    ensures
        !is_proxy_flag(command_line(dir, options)[i]),
{
    let part = lemma_flag_at(dir, options, i);
    lemma_fixed_flags_are_no_proxy(dir, part.1);
    lemma_other_flags_are_no_proxy(options, part.1);
    if part.0 == text::texts(options.additional_args@) {
        assert(part.0[part.1] == options.additional_args@[part.1]@);
    }
}

/// A proxy that is wanted is handed to the browser as it is, without the white space
/// around it.
pub proof fn law_proxy_is_handed_on(dir: Seq<char>, options: ChromeLaunchOptions, proxy: Seq<char>)
    requires
        text::opt_text(options.proxy) == Some(proxy),
        !text::is_blank(proxy),
    ensures
        command_line(dir, options).contains("--proxy-server="@ + text::trim(proxy)),
{
    let at = leading_flags(dir).len() + extension_flags(
        text::texts(options.extension_paths@),
    ).len() + trailing_flags().len() + sandbox_flags(options.no_sandbox).len();
    assert(command_line(dir, options)[at as int] == "--proxy-server="@ + text::trim(proxy));
}

/// Extensions that are wanted are loaded, and no others; without any, none is.
pub proof fn law_extensions_are_loaded(dir: Seq<char>, options: ChromeLaunchOptions)
    ensures
        ({
            let line = command_line(dir, options);
            let paths = text::texts(options.extension_paths@);
            if paths.len() == 0 {
                line[12] == "--disable-extensions"@
            } else {
                &&& line[12] == "--disable-extensions-except="@ + comma_joined(paths)
                &&& line[13] == "--load-extension="@ + comma_joined(paths)
            }
        }),
{
    assert(leading_flags(dir).len() == 12);
}

/// How long a step in stopping a browser may take.
pub open spec fn shutdown_time(browser: LaunchedBrowser, step: ShutdownStep) -> Option<Span> {
    match step {
        ShutdownStep::TellToClose => Some(browser.close_timeout),
        ShutdownStep::WaitForClose | ShutdownStep::Terminate => Some(browser.terminate_timeout),
        ShutdownStep::Kill | ShutdownStep::Report(_) => None,
    }
}

/// Every browser is started with the same flags around those for its extensions: without a
/// window, with the profile at its directory, and without what disturbs a machine at work.
pub proof fn law_fixed_flags_are_passed(dir: Seq<char>, options: ChromeLaunchOptions)
    ensures
        ({
            let line = command_line(dir, options);
            let n = if options.extension_paths@.len() == 0 {
                1int
            } else {
                2
            };
            &&& line[0] == "--headless=new"@
            &&& line[1] == "--remote-debugging-address=127.0.0.1"@
            &&& line[2] == "--remote-debugging-port=0"@
            &&& line[3] == "--user-data-dir="@ + dir
            &&& line[4] == "--no-first-run"@
            &&& line[5] == "--no-default-browser-check"@
            &&& line[6] == "--disable-background-networking"@
            &&& line[7] == "--disable-background-timer-throttling"@
            &&& line[8] == "--disable-client-side-phishing-detection"@
            &&& line[9] == "--disable-component-update"@
            &&& line[10] == "--disable-default-apps"@
            &&& line[11] == "--disable-dev-shm-usage"@
            &&& line[12 + n] == "--disable-gpu"@
            &&& line[12 + n + 1] == "--disable-hang-monitor"@
            &&& line[12 + n + 2] == "--disable-popup-blocking"@
            &&& line[12 + n + 3] == "--disable-prompt-on-repost"@
            &&& line[12 + n + 4] == "--disable-sync"@
            &&& line[12 + n + 5] == "--metrics-recording-only"@
            &&& line[12 + n + 6] == "--mute-audio"@
            &&& line[12 + n + 7] == "--password-store=basic"@
            &&& line[12 + n + 8] == "--use-mock-keychain"@
        }),
{
    let line = command_line(dir, options);
    let n = extension_flags(text::texts(options.extension_paths@)).len() as int;
    let head = leading_flags(dir);
    let tail = trailing_flags();
    assert(head[0] == line[0]);
    assert(head[1] == line[1]);
    assert(head[2] == line[2]);
    assert(head[3] == line[3]);
    assert(head[4] == line[4]);
    assert(head[5] == line[5]);
    assert(head[6] == line[6]);
    assert(head[7] == line[7]);
    assert(head[8] == line[8]);
    assert(head[9] == line[9]);
    assert(head[10] == line[10]);
    assert(head[11] == line[11]);
    assert(tail[0] == line[12 + n + 0]);
    assert(tail[1] == line[12 + n + 1]);
    assert(tail[2] == line[12 + n + 2]);
    assert(tail[3] == line[12 + n + 3]);
    assert(tail[4] == line[12 + n + 4]);
    assert(tail[5] == line[12 + n + 5]);
    assert(tail[6] == line[12 + n + 6]);
    assert(tail[7] == line[12 + n + 7]);
    assert(tail[8] == line[12 + n + 8]);
}

/// Besides its fixed flags a browser is given the flag against its sandbox where that is
/// wished for, its proxy, its disguise and its own arguments in their order, then the
/// empty page; and nothing else.
pub proof fn law_flags_follow_the_options(dir: Seq<char>, options: ChromeLaunchOptions)
    ensures
        ({
            let line = command_line(dir, options);
            let n = if options.extension_paths@.len() == 0 {
                22int
            } else {
                23
            };
            let sandbox = if options.no_sandbox {
                1int
            } else {
                0
            };
            let proxy = if options.proxy is Some && text::trim(options.proxy->Some_0@).len() > 0 {
                1int
            } else {
                0
            };
            let disguise = if options.stealth.enabled {
                3int
            } else {
                0
            };
            let own = options.additional_args@.len() as int;
            let at = n + sandbox + proxy + disguise;
            &&& line.len() == at + own + 1
            &&& options.no_sandbox ==> line[n] == "--no-sandbox"@
            &&& proxy == 1 ==> line[n + sandbox] == "--proxy-server="@ + text::trim(
                options.proxy->Some_0@,
            )
            &&& options.stealth.enabled ==> {
                &&& line[n + sandbox + proxy] == "--disable-blink-features=AutomationControlled"@
                &&& line[n + sandbox + proxy + 1] == "--window-size="@ + text::decimal(
                    options.stealth.window_width as nat,
                ) + ","@ + text::decimal(options.stealth.window_height as nat)
                &&& line[n + sandbox + proxy + 2] == "--user-agent="@ + crate::stealth::unmarked(
                    if options.stealth.user_agent is Some {
                        options.stealth.user_agent->Some_0@
                    } else {
                        crate::stealth::DEFAULT_USER_AGENT@
                    },
                )
            }
            &&& line.subrange(at, at + own) == text::texts(options.additional_args@)
            &&& line[at + own] == "about:blank"@
        }),
{
    let line = command_line(dir, options);
    let own = text::texts(options.additional_args@);
    let at = line.len() - 1 - own.len();
    assert(line.subrange(at, at + own.len()) =~= own);
}

/// The directories of the extensions are listed with commas between them.
pub proof fn law_extensions_are_listed(left: Seq<Seq<char>>, right: Seq<Seq<char>>, path: Seq<char>)
    requires
        left.len() > 0,
        right.len() > 0,
    ensures
        comma_joined(left + right) == comma_joined(left) + ","@ + comma_joined(right),
        comma_joined(seq![path]) == path,
    decreases right.len(),
{
    let all = left + right;
    assert(all.drop_last() =~= left + right.drop_last());
    assert(all.last() == right.last());
    if right.len() == 1 {
        assert(all.drop_last() =~= left);
        assert(comma_joined(all) =~= comma_joined(left) + ","@ + comma_joined(right));
    } else {
        law_extensions_are_listed(left, right.drop_last(), path);
        assert(comma_joined(all) =~= comma_joined(left) + ","@ + comma_joined(right));
    }
}

proof fn lemma_first_set(flags: Seq<bool>, k: int)
    requires
        0 <= k <= flags.len(),
        forall|i: int| 0 <= i < k ==> !(#[trigger] flags[i]),
        k < flags.len() ==> flags[k],
    ensures
        first_set(flags) == if k < flags.len() {
            Some(k)
        } else {
            None
        },
    decreases flags.len(),
{
    if flags.len() > 0 {
        let before = flags.drop_last();
        assert forall|i: int| 0 <= i < k && i < before.len() implies !(#[trigger] before[i]) by {
            assert(before[i] == flags[i]);
        }
        if k < flags.len() {
            if k < before.len() {
                assert(before[k]);
            }
            lemma_first_set(before, k);
        } else {
            lemma_first_set(before, k - 1);
            assert(!flags[flags.len() - 1]);
        }
    }
}

proof fn lemma_first_value(values: Seq<Option<String>>, k: int)
    requires
        0 <= k <= values.len(),
        forall|i: int|
            0 <= i < k ==> (#[trigger] values[i]) is None || text::is_blank(values[i]->Some_0@),
        k < values.len() ==> values[k] is Some && !text::is_blank(values[k]->Some_0@),
    ensures
        first_value(values) == if k < values.len() {
            Some(values[k]->Some_0@)
        } else {
            None
        },
    decreases values.len(),
{
    if values.len() > 0 {
        let before = values.drop_last();
        assert forall|i: int| 0 <= i < k && i < before.len() implies (#[trigger] before[i]) is None
            || text::is_blank(before[i]->Some_0@) by {
            assert(before[i] == values[i]);
        }
        if k < values.len() {
            if k < before.len() {
                assert(before[k] == values[k]);
            }
            lemma_first_value(before, k);
        } else {
            lemma_first_value(before, k - 1);
            let last = values[values.len() - 1];
            assert(last == values.last());
        }
    }
}

/// The browser that is run is the one that is configured; else the one that the first
/// variable with a value names; else the first that is installed where browsers are; else
/// the first that the search path holds; else none.
pub proof fn law_browsers_are_chosen(
    configured: Option<Seq<char>>,
    probe: ExecutableProbe,
    variable: int,
    location: int,
    binary: int,
)
    requires
        probe.complete(),
        0 <= variable <= probe.variables@.len(),
        forall|i: int|
            0 <= i < variable ==> (#[trigger] probe.variables@[i]) is None || text::trim(
                probe.variables@[i]->Some_0@,
            ).len() == 0,
        variable < probe.variables@.len() ==> probe.variables@[variable] is Some && text::trim(
            probe.variables@[variable]->Some_0@,
        ).len() > 0,
        0 <= location <= probe.existing@.len(),
        forall|i: int| 0 <= i < location ==> !(#[trigger] probe.existing@[i]),
        location < probe.existing@.len() ==> probe.existing@[location],
        0 <= binary <= probe.on_path@.len(),
        forall|i: int| 0 <= i < binary ==> !(#[trigger] probe.on_path@[i]),
        binary < probe.on_path@.len() ==> probe.on_path@[binary],
    ensures
        chosen_executable(configured, probe) == if configured is Some {
            configured
        } else if variable < probe.variables@.len() {
            Some(probe.variables@[variable]->Some_0@)
        } else if location < probe.existing@.len() {
            Some(CHROME_LOCATIONS@[location]@)
        } else if binary < probe.on_path@.len() {
            Some(CHROME_BINARIES@[binary]@)
        } else {
            None
        },
{
    lemma_first_value(probe.variables@, variable);
    lemma_first_set(probe.existing@, location);
    lemma_first_set(probe.on_path@, binary);
}

/// The port of a browser stands on the first line of its file, however lines end.
pub proof fn law_ports_are_read(line: Seq<char>, rest: Seq<char>)
    requires
        !line.contains('\n'),
        !line.contains('\r'),
    ensures
        devtools_port(line.push('\n') + rest) == text::parsed_number(line, 65_535),
        devtools_port(line.push('\r').push('\n') + rest) == text::parsed_number(line, 65_535),
        line.len() > 0 ==> devtools_port(line) == text::parsed_number(line, 65_535),
        devtools_port(Seq::empty()) is None,
{
    let separator = text::Separator::Is('\n');
    assert forall|i: int| 0 <= i < line.len() implies !text::separates(
        separator,
        #[trigger] line[i],
    ) && line[i] != '\r' by {
        assert(line.contains(line[i]));
    }
    text::law_one_piece(line, separator);
    let marked = line.push('\r');
    assert forall|i: int| 0 <= i < marked.len() implies !text::separates(
        separator,
        #[trigger] marked[i],
    ) by {
        if i < line.len() {
            assert(marked[i] == line[i]);
        }
    }
    text::law_one_piece(marked, separator);
    text::law_pieces_are_split(line, '\n', rest, separator);
    text::law_pieces_are_split(marked, '\n', rest, separator);
    assert((line.push('\n') + rest).len() > 0);
    assert((marked.push('\n') + rest).len() > 0);
    let plain = text::pieces(line.push('\n') + rest, separator);
    assert(plain[0] == line);
    assert(plain.len() > 1);
    if line.len() > 0 {
        assert(line[line.len() - 1] != '\r');
    }
    let ended = text::pieces(marked.push('\n') + rest, separator);
    assert(ended[0] == marked);
    assert(marked.drop_last() =~= line);
}

/// A browser that is waited for is asked in turn whether it still runs, for its port, for
/// its socket at that port of this machine, and whether it answers there; it is given up
/// once its time is over, once it has ended, and on what cannot be understood.
pub proof fn law_browsers_are_waited_for(
    pid: u32,
    timeout: Span,
    elapsed: u128,
    status: String,
    contents: String,
    base: String,
    socket: String,
    error: BrowserError,
    step: WaitStep,
)
    ensures
        waits(pid, timeout, WaitEvent::Round(elapsed), step) ==> {
            &&& elapsed < timeout.total() <==> step is AskChild
            &&& elapsed >= timeout.total() <==> step == WaitStep::Failed(
                BrowserError::LaunchTimeout(timeout),
            )
        },
        waits(pid, timeout, WaitEvent::Child(Some(status)), step) ==> step == WaitStep::Failed(
            BrowserError::ExitedEarly(status),
        ),
        waits(pid, timeout, WaitEvent::Child(None), step) ==> step is ReadPortFile,
        waits(pid, timeout, WaitEvent::PortFile(PortFile::Missing), step) ==> step is Pause,
        waits(pid, timeout, WaitEvent::PortFile(PortFile::Unreadable(status)), step) ==> step
            == WaitStep::Failed(BrowserError::DevtoolsPort(status)),
        waits(pid, timeout, WaitEvent::PortFile(PortFile::Contents(contents)), step) ==> {
            &&& devtools_port(contents@) is None ==> step == WaitStep::Failed(
                BrowserError::InvalidDevtoolsPort(contents),
            )
            &&& devtools_port(contents@) is Some ==> step is AskVersion
                && step->AskVersion_http_base_url@ == "http://127.0.0.1:"@ + text::decimal(
                devtools_port(contents@)->Some_0,
            )
        },
        waits(
            pid,
            timeout,
            (WaitEvent::Version { http_base_url: base, reply: VersionReply::Unavailable }),
            step,
        ) ==> step is Pause,
        waits(
            pid,
            timeout,
            (WaitEvent::Version { http_base_url: base, reply: VersionReply::Malformed(status) }),
            step,
        ) ==> step == WaitStep::Failed(BrowserError::Http(status)),
        waits(
            pid,
            timeout,
            (WaitEvent::Version { http_base_url: base, reply: VersionReply::Socket(socket) }),
            step,
        ) ==> step == (WaitStep::TryHealth { http_base_url: base, browser_ws_url: socket }),
        waits(
            pid,
            timeout,
            (WaitEvent::Health { http_base_url: base, browser_ws_url: socket, outcome: Ok(()) }),
            step,
        ) ==> step == WaitStep::Ready(
            (BrowserReady { pid, http_base_url: base, browser_ws_url: socket }),
        ),
        waits(
            pid,
            timeout,
            (WaitEvent::Health {
                http_base_url: base,
                browser_ws_url: socket,
                outcome: Err(error),
            }),
            step,
        ) ==> step == WaitStep::Failed(error),
{
}

/// A browser is launched in turn by its choice, its profile, its process and its answer;
/// the times that stopping it may take and whether it is disguised are those of the
/// options, and a process that was started in vain is cleaned up after.
pub proof fn law_browsers_are_launched(
    options: ChromeLaunchOptions,
    probe: ExecutableProbe,
    executable: String,
    dir: String,
    words: String,
    pid: u32,
    ready: BrowserReady,
    error: BrowserError,
    step: LaunchStep,
)
    ensures
        goes_on(options, LaunchEvent::Probed(probe), step) ==> match chosen_executable(
            text::opt_text(options.executable),
            probe,
        ) {
            Some(path) => step is MakeProfile && step->MakeProfile_executable@ == path,
            None => step == LaunchStep::Failed(BrowserError::MissingExecutable),
        },
        goes_on(
            options,
            (LaunchEvent::Profile { executable, user_data_dir: Ok(dir) }),
            step,
        ) ==> step is Spawn && step->Spawn_executable == executable && text::texts(
            step->Spawn_args@,
        ) == command_line(dir@, options),
        goes_on(
            options,
            (LaunchEvent::Profile { executable, user_data_dir: Err(words) }),
            step,
        ) ==> step == LaunchStep::Failed(BrowserError::DevtoolsPort(words)),
        goes_on(
            options,
            (LaunchEvent::Spawned { executable, outcome: Ok(Some(pid)) }),
            step,
        ) ==> step == (LaunchStep::Wait { pid }),
        goes_on(
            options,
            (LaunchEvent::Spawned { executable, outcome: Ok(None) }),
            step,
        ) ==> step == LaunchStep::Failed(BrowserError::MissingExecutable),
        goes_on(
            options,
            (LaunchEvent::Spawned { executable, outcome: Err(words) }),
            step,
        ) ==> step == LaunchStep::Failed(
            (BrowserError::Spawn { path: executable, source: words }),
        ),
        goes_on(options, LaunchEvent::Waited(Ok(ready)), step) ==> {
            &&& step is Launched
            &&& step->Launched_browser.ready == ready
            &&& step->Launched_browser.close_timeout == options.close_timeout
            &&& step->Launched_browser.terminate_timeout == options.terminate_timeout
            &&& step->Launched_disguise == options.stealth.enabled
        },
        goes_on(options, LaunchEvent::Waited(Err(error)), step) ==> step == LaunchStep::CleanUp(
            error,
        ),
{
}

/// A command on a socket of its own is answered by the message with the number one: with
/// its error, its result, or null; other messages are passed over, and a socket that
/// fails, closes or is silent ends it.
pub proof fn law_commands_are_answered(
    method: &'static str,
    source: String,
    members: Map<Seq<char>, JsonView>,
    words: String,
    res: Option<Result<Json, BrowserError>>,
)
    ensures
        json::json_value(source@) == Ok::<JsonView, Seq<char>>(JsonView::Object(members))
            && replies(method, SocketEvent::Text(source), res) ==> {
            let mine = json::has(members, "id"@, JsonView::Integer(1));
            let failed = members.contains_key("error"@);
            let result = members.contains_key("result"@);
            &&& !mine ==> res is None
            &&& mine && failed ==> res is Some && res->Some_0 is Err && res->Some_0->Err_0
                is CdpCommand && res->Some_0->Err_0->CdpCommand_0@ == json::json_text(
                members["error"@],
            )
            &&& mine && !failed && result ==> res is Some && res->Some_0 is Ok
                && res->Some_0->Ok_0@ == members["result"@]
            &&& mine && !failed && !result ==> res is Some && res->Some_0 is Ok
                && res->Some_0->Ok_0@ == JsonView::Null
        },
        replies(method, SocketEvent::Other, res) ==> res is None,
        replies(method, SocketEvent::Failed(words), res) ==> res == Some(
            Err::<Json, BrowserError>(BrowserError::WebSocket(words)),
        ),
        replies(method, SocketEvent::Closed, res) ==> res is Some && res->Some_0 is Err
            && res->Some_0->Err_0 is CdpCommand && res->Some_0->Err_0->CdpCommand_0@
            == "websocket closed"@,
        replies(method, SocketEvent::TimedOut, res) ==> res == Some(
            Err::<Json, BrowserError>(BrowserError::CdpTimeout(method)),
        ),
        json::json_value(source@) is Err && replies(method, SocketEvent::Text(source), res) ==> res
            is Some && res->Some_0 is Err && res->Some_0->Err_0 is CdpCommand
            && res->Some_0->Err_0->CdpCommand_0@ == json::json_value(source@)->Err_0,
{
    json::law_errors_are_told(members);
    cdp::law_answers_are_matched(
        JsonView::Object(members),
        json::error_text(JsonView::Object(members)),
        1,
    );
}

/// A command on a socket of its own has the number one, no session and its own words.
pub proof fn law_lone_commands_have_number_one(command: cdp::CommandView, method: Seq<char>)
    requires
        command.session_id is None,
    ensures
        ({
            let members = lone_request(command)->Object_0;
            &&& lone_request(command) is Object
            &&& json::has(members, "id"@, JsonView::Integer(1))
            &&& json::has(members, "method"@, JsonView::Text(command.method))
            &&& json::has(members, "params"@, command.params)
            &&& !members.contains_key("sessionId"@)
        }),
        bare_command(method).method == method,
        bare_command(method).session_id is None,
        bare_command(method).params == JsonView::Object(Map::<Seq<char>, JsonView>::empty()),
{
    cdp::law_requests_say_the_command(1, command);
}

/// A browser is stopped step by step: told to close, waited for, sent SIGTERM, killed; the
/// report says by which of them it ended.
pub proof fn law_browsers_are_stopped(browser: LaunchedBrowser)
    ensures
        shutdown_after((ShutdownEvent::Asked { ended: true })) == ShutdownStep::Report(
            ShutdownKind::AlreadyExited,
        ),
        shutdown_after((ShutdownEvent::Asked { ended: false })) is TellToClose,
        shutdown_after((ShutdownEvent::ToldToClose { agreed: true })) is WaitForClose,
        shutdown_after((ShutdownEvent::ToldToClose { agreed: false })) is Terminate,
        shutdown_after((ShutdownEvent::WaitedForClose { ended: true })) == ShutdownStep::Report(
            ShutdownKind::Graceful,
        ),
        shutdown_after((ShutdownEvent::WaitedForClose { ended: false })) is Terminate,
        shutdown_after((ShutdownEvent::WaitedForTerm { ended: true })) == ShutdownStep::Report(
            ShutdownKind::Terminated,
        ),
        shutdown_after((ShutdownEvent::WaitedForTerm { ended: false })) is Kill,
        shutdown_after(ShutdownEvent::Killed) == ShutdownStep::Report(ShutdownKind::Killed),
        shutdown_time(browser, ShutdownStep::TellToClose) == Some(browser.close_timeout),
        shutdown_time(browser, ShutdownStep::WaitForClose) == Some(browser.terminate_timeout),
        shutdown_time(browser, ShutdownStep::Terminate) == Some(browser.terminate_timeout),
        shutdown_time(browser, ShutdownStep::Kill) is None,
{
}

/// A process that was started in vain is sent SIGTERM, then killed, while it runs.
pub proof fn law_started_in_vain_is_ended(terminated: bool, options: ChromeLaunchOptions)
    ensures
        clean_up_after(false, terminated) is Done,
        clean_up_after(true, false) is Terminate,
        clean_up_after(true, true) is Kill,
        clean_up_allowance(options, CleanUpStep::Terminate) == Some(options.terminate_timeout),
        clean_up_allowance(options, CleanUpStep::Kill) is None,
        clean_up_allowance(options, CleanUpStep::Done) is None,
{
}

/// Every page and iframe that has a socket is disguised at it, in their order, and nothing
/// else is.
pub proof fn law_present_pages_are_disguised(
    left: Seq<TargetDescriptor>,
    right: Seq<TargetDescriptor>,
    target: TargetDescriptor,
)
    ensures
        disguised_urls(left + right) == disguised_urls(left) + disguised_urls(right),
        (target.target_type@ == "page"@ || target.target_type@ == "iframe"@)
            && target.web_socket_debugger_url is Some ==> disguised_urls(seq![target])
            == seq![target.web_socket_debugger_url->Some_0@],
        !(target.target_type@ == "page"@ || target.target_type@ == "iframe"@)
            || target.web_socket_debugger_url is None ==> disguised_urls(seq![target]).len() == 0,
    decreases right.len(),
{
    assert(seq![target].drop_last() =~= Seq::<TargetDescriptor>::empty());
    assert(disguised_urls(seq![target].drop_last()) =~= Seq::<Seq<char>>::empty());
    if target.web_socket_debugger_url is Some {
        let url = target.web_socket_debugger_url->Some_0@;
        assert(Seq::<Seq<char>>::empty().push(url) =~= seq![url]);
    }
    if right.len() == 0 {
        assert(left + right =~= left);
        assert(disguised_urls(left + right) =~= disguised_urls(left) + disguised_urls(right));
    } else {
        law_present_pages_are_disguised(left, right.drop_last(), target);
        assert((left + right).drop_last() =~= left + right.drop_last());
        assert(disguised_urls(left + right) =~= disguised_urls(left) + disguised_urls(right));
    }
}

/// The faults of a browser in words.
pub proof fn law_faults_have_words(path: String, words: String, span: Span, method: &'static str)
    ensures
        BrowserError::MissingExecutable.words()
            == "chrome executable could not be resolved; set EIGER_CHROME_EXECUTABLE"@,
        (BrowserError::Spawn { path, source: words }).words() == "failed to spawn chrome at "@
            + path@ + ": "@ + words@,
        BrowserError::ExitedEarly(words).words() == "chrome exited before CDP became ready: "@
            + words@,
        BrowserError::LaunchTimeout(span).words() == "chrome did not expose CDP within "@
            + span.words(),
        BrowserError::DevtoolsPort(words).words() == "failed to read DevToolsActivePort: "@
            + words@,
        BrowserError::InvalidDevtoolsPort(words).words() == "invalid DevToolsActivePort contents: "@
            + words@,
        BrowserError::Http(words).words() == "CDP HTTP request failed: "@ + words@,
        BrowserError::WebSocket(words).words() == "CDP websocket failed: "@ + words@,
        BrowserError::CdpTimeout(method).words() == "CDP command timed out: "@ + method@,
        BrowserError::CdpCommand(words).words() == "CDP command failed: "@ + words@,
        COMMAND_WAIT_SECS == 2 && READY_PAUSE_MILLIS == 100,
{
}

/// A lone request is sent as a text that says its command, under the command's own name,
/// one for each command.
pub proof fn law_lone_requests_say_their_commands(
    requests: Seq<LoneRequest>,
    commands: Seq<cdp::CommandView>,
    i: int,
)
    requires
        are_lone(requests, commands),
        0 <= i < commands.len(),
    ensures
        requests.len() == commands.len(),
        requests[i].method@ == commands[i].method,
        json::json_value(requests[i].text@) == Ok::<JsonView, Seq<char>>(
            cdp::request(1, commands[i]),
        ),
        requests[i].text@ == json::json_text(cdp::request(1, commands[i])),
{
}

/// What is known of a launched browser is what it answered with.
pub proof fn law_browsers_are_known(browser: LaunchedBrowser)
    ensures
        browser.facts().pid == browser.ready.pid,
        browser.facts().http_base_url == browser.ready.http_base_url@,
        browser.facts().browser_ws_url == browser.ready.browser_ws_url@,
{
}

}

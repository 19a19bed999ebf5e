//! One-shot jobs on a page of their own: scrape it, take a picture of it, print it.
use vstd::prelude::*;
use base64::Engine;
use crate::browser::SocketEvent;
use crate::cdp;
use crate::cdp::Answer;
use crate::cdp::Command;
use crate::cdp::CommandView;
use crate::json;
use crate::json::Json;
use crate::json::JsonView;
use crate::json::Message;
use crate::pool::PoolError;
use crate::span::Span;
use crate::text;

verus! {

/// Why a job has no result.
#[derive(Debug)]
pub enum RestEndpointError {
    BadRequest(String),
    Pool(PoolError),
    CdpWebSocket(String),
    CdpProtocol(String),
    CdpTimeout(&'static str),
    InvalidCdpResponse(String),
    Decode(String),
}

/// What an error says.
#[verifier::ext_equal]
pub enum RestErrorView {
    BadRequest(Seq<char>),
    Pool(PoolError),
    CdpWebSocket(Seq<char>),
    CdpProtocol(Seq<char>),
    CdpTimeout(Seq<char>),
    InvalidCdpResponse(Seq<char>),
    Decode(Seq<char>),
}

impl View for RestEndpointError {
    type V = RestErrorView;

    open spec fn view(&self) -> RestErrorView {
        match self {
            RestEndpointError::BadRequest(words) => RestErrorView::BadRequest(words@),
            RestEndpointError::Pool(error) => RestErrorView::Pool(*error),
            RestEndpointError::CdpWebSocket(words) => RestErrorView::CdpWebSocket(words@),
            RestEndpointError::CdpProtocol(words) => RestErrorView::CdpProtocol(words@),
            RestEndpointError::CdpTimeout(method) => RestErrorView::CdpTimeout(method@),
            RestEndpointError::InvalidCdpResponse(words) => RestErrorView::InvalidCdpResponse(
                words@,
            ),
            RestEndpointError::Decode(words) => RestErrorView::Decode(words@),
        }
    }
}

/// The point in the life of a page that is waited for.
#[derive(Clone, Copy, Debug, PartialEq, Eq, Structural)]
pub enum WaitUntil {
    Load,
    DomContentLoaded,
    NetworkIdle,
    NetworkAlmostIdle,
}

/// The form of a picture.
#[derive(Clone, Copy, Debug, PartialEq, Eq, Structural)]
pub enum ScreenshotFormat {
    Png,
    Jpeg,
}

/// The point in the life of a page that a word stands for, in any case and with
/// white space around it; without a word it is the load event.
pub open spec fn wait_until_of(value: Option<Seq<char>>) -> Option<WaitUntil> {
    match value {
        None => Some(WaitUntil::Load),
        Some(word) => {
            let name = text::lower(text::trim(word));
            if name == "load"@ {
                Some(WaitUntil::Load)
            } else if name == "domcontentloaded"@ {
                Some(WaitUntil::DomContentLoaded)
            } else if name == "networkidle"@ || name == "networkidle0"@ {
                Some(WaitUntil::NetworkIdle)
            } else if name == "networkalmostidle"@ || name == "networkidle2"@ {
                Some(WaitUntil::NetworkAlmostIdle)
            } else {
                None
            }
        },
    }
}

/// The name of a point in the life of a page.
pub open spec fn lifecycle_event(wait_until: WaitUntil) -> Seq<char> {
    match wait_until {
        WaitUntil::Load => "load"@,
        WaitUntil::DomContentLoaded => "DOMContentLoaded"@,
        WaitUntil::NetworkIdle => "networkIdle"@,
        WaitUntil::NetworkAlmostIdle => "networkAlmostIdle"@,
    }
}

/// The form that a word stands for, in any case and with white space around it;
/// without a word it is PNG.
pub open spec fn screenshot_format_of(value: Option<Seq<char>>) -> Option<ScreenshotFormat> {
    match value {
        None => Some(ScreenshotFormat::Png),
        Some(word) => {
            let name = text::lower(text::trim(word));
            if name == "png"@ {
                Some(ScreenshotFormat::Png)
            } else if name == "jpeg"@ || name == "jpg"@ {
                Some(ScreenshotFormat::Jpeg)
            } else {
                None
            }
        },
    }
}

/// The name of a form.
pub open spec fn format_name(format: ScreenshotFormat) -> Seq<char> {
    match format {
        ScreenshotFormat::Png => "png"@,
        ScreenshotFormat::Jpeg => "jpeg"@,
    }
}

/// The media type of a form.
pub open spec fn format_media_type(format: ScreenshotFormat) -> Seq<char> {
    match format {
        ScreenshotFormat::Png => "image/png"@,
        ScreenshotFormat::Jpeg => "image/jpeg"@,
    }
}

/// A request that cannot be met, in words of which the last part was given.
fn bad_request(words: &str, given: &str) -> (res: RestEndpointError)
    ensures
        res@ == RestErrorView::BadRequest(words@ + given@),
{
    let mut all = words.to_owned();
    all.append(given);
    RestEndpointError::BadRequest(all)
}

impl WaitUntil {
    /// The point in the life of a page that a word stands for.
    pub fn parse(value: Option<&str>) -> (res: Result<WaitUntil, RestEndpointError>)
        ensures
            match wait_until_of(text::opt_str(value)) {
                Some(wait_until) => res == Ok::<WaitUntil, RestEndpointError>(wait_until),
                None => res is Err && res->Err_0@ == RestErrorView::BadRequest(
                    "unsupported waitUntil value: "@ + value->Some_0@,
                ),
            },
    {
        let value = match value {
            Some(value) => value,
            None => return Ok(WaitUntil::Load),
        };
        let lowered = text::lowered(text::trimmed(value).as_str());
        let name = lowered.as_str();
        if text::str_eq(name, "load") {
            Ok(WaitUntil::Load)
        } else if text::str_eq(name, "domcontentloaded") {
            Ok(WaitUntil::DomContentLoaded)
        } else if text::str_eq(name, "networkidle") || text::str_eq(name, "networkidle0") {
            Ok(WaitUntil::NetworkIdle)
        } else if text::str_eq(name, "networkalmostidle") || text::str_eq(name, "networkidle2") {
            Ok(WaitUntil::NetworkAlmostIdle)
        } else {
            Err(bad_request("unsupported waitUntil value: ", value))
        }
    }

    /// The name of the point in the life of a page.
    pub fn lifecycle_name(self) -> (res: &'static str)
        ensures
            res@ == lifecycle_event(self),
    {
        match self {
            WaitUntil::Load => "load",
            WaitUntil::DomContentLoaded => "DOMContentLoaded",
            WaitUntil::NetworkIdle => "networkIdle",
            WaitUntil::NetworkAlmostIdle => "networkAlmostIdle",
        }
    }
}

impl ScreenshotFormat {
    /// The form that a word stands for.
    pub fn parse(value: Option<&str>) -> (res: Result<ScreenshotFormat, RestEndpointError>)
        ensures
            match screenshot_format_of(text::opt_str(value)) {
                Some(format) => res == Ok::<ScreenshotFormat, RestEndpointError>(format),
                None => res is Err && res->Err_0@ == RestErrorView::BadRequest(
                    "unsupported screenshot format: "@ + value->Some_0@,
                ),
            },
    {
        let value = match value {
            Some(value) => value,
            None => return Ok(ScreenshotFormat::Png),
        };
        let lowered = text::lowered(text::trimmed(value).as_str());
        let name = lowered.as_str();
        if text::str_eq(name, "png") {
            Ok(ScreenshotFormat::Png)
        } else if text::str_eq(name, "jpeg") || text::str_eq(name, "jpg") {
            Ok(ScreenshotFormat::Jpeg)
        } else {
            Err(bad_request("unsupported screenshot format: ", value))
        }
    }

    /// The name of the form.
    pub fn cdp_name(self) -> (res: &'static str)
        ensures
            res@ == format_name(self),
    {
        match self {
            ScreenshotFormat::Png => "png",
            ScreenshotFormat::Jpeg => "jpeg",
        }
    }

    /// The media type of the form.
    pub fn content_type(self) -> (res: &'static str)
        ensures
            res@ == format_media_type(self),
    {
        match self {
            ScreenshotFormat::Png => "image/png",
            ScreenshotFormat::Jpeg => "image/jpeg",
        }
    }
}

/// How a page is to be loaded.
#[derive(Clone, Debug)]
pub struct PageLoadOptions {
    pub url: String,
    pub wait_until: WaitUntil,
    pub timeout: Span,
}

/// How many milliseconds a page has where the request does not say.
pub const DEFAULT_TIMEOUT_MS: u64 = 30_000;

/// How many milliseconds a page has.
pub open spec fn page_timeout(timeout_ms: Option<u64>) -> nat {
    match timeout_ms {
        Some(millis) => millis as nat,
        None => DEFAULT_TIMEOUT_MS as nat,
    }
}

/// What is wrong with a request to load a page: first its address, then its time, then
/// its point in the life of the page.
pub open spec fn load_fault(
    url: Seq<char>,
    wait_until: Option<Seq<char>>,
    timeout_ms: Option<u64>,
) -> Option<Seq<char>> {
    if text::is_blank(url) {
        Some("url is required"@)
    } else if page_timeout(timeout_ms) == 0 {
        Some("timeoutMs must be greater than 0"@)
    } else if wait_until_of(wait_until) is None {
        Some("unsupported waitUntil value: "@ + wait_until->Some_0)
    } else {
        None
    }
}

/// Whether options are those of a request to load a page.
pub open spec fn loads(
    options: PageLoadOptions,
    url: Seq<char>,
    wait_until: Option<Seq<char>>,
    timeout_ms: Option<u64>,
) -> bool {
    &&& options.url@ == text::trim(url)
    &&& wait_until_of(wait_until) == Some(options.wait_until)
    &&& options.timeout.total() == page_timeout(timeout_ms) * 1_000_000
}

/// How a page is to be loaded, or what is wrong with the request.
pub fn page_load_options(url: &str, wait_until: Option<&str>, timeout_ms: Option<u64>) -> (res: Result<
    PageLoadOptions,
    RestEndpointError,
>)
    ensures
        match load_fault(url@, text::opt_str(wait_until), timeout_ms) {
            Some(words) => res is Err && res->Err_0@ == RestErrorView::BadRequest(words),
            None => res is Ok && loads(res->Ok_0, url@, text::opt_str(wait_until), timeout_ms),
        },
{
    let url = text::trimmed(url);
    if url.as_str().is_empty() {
        return Err(RestEndpointError::BadRequest("url is required".to_owned()));
    }
    let millis: u64 = match timeout_ms {
        Some(millis) => millis,
        None => DEFAULT_TIMEOUT_MS,
    };
    let timeout = Span::from_millis(millis);
    if timeout.is_zero() {
        return Err(RestEndpointError::BadRequest("timeoutMs must be greater than 0".to_owned()));
    }
    match WaitUntil::parse(wait_until) {
        Ok(wait_until) => Ok(PageLoadOptions { url, wait_until, timeout }),
        Err(error) => Err(error),
    }
}

/// The width and height in inches of a paper format, which may be given in any
/// case and with white space around it.
pub open spec fn paper_size(format: Seq<char>) -> Option<(Seq<char>, Seq<char>)> {
    let name = text::lower(text::trim(format));
    if name == "letter"@ {
        Some(("8.5"@, "11.0"@))
    } else if name == "legal"@ {
        Some(("8.5"@, "14.0"@))
    } else if name == "tabloid"@ || name == "ledger"@ {
        Some(("11.0"@, "17.0"@))
    } else if name == "a0"@ {
        Some(("33.1"@, "46.8"@))
    } else if name == "a1"@ {
        Some(("23.4"@, "33.1"@))
    } else if name == "a2"@ {
        Some(("16.54"@, "23.4"@))
    } else if name == "a3"@ {
        Some(("11.7"@, "16.54"@))
    } else if name == "a4"@ {
        Some(("8.27"@, "11.7"@))
    } else if name == "a5"@ {
        Some(("5.83"@, "8.27"@))
    } else if name == "a6"@ {
        Some(("4.13"@, "5.83"@))
    } else {
        None
    }
}

proof fn lemma_short(number: Seq<char>, point: int)
    requires
        1 <= point <= 3,
        point + 2 <= number.len() <= point + 3,
        number[point] == '.',
        forall|i: int| 0 <= i < number.len() && i != point ==> text::is_digit(#[trigger] number[i]),
        number[0] != '0',
        number.last() != '0' || number.len() == point + 2,
    ensures
        json::short_decimal(number),
{
    assert(text::all_digits(number.take(point)));
    assert(text::all_digits(number.skip(point + 1)));
}

proof fn lemma_paper_sizes_short(format: Seq<char>)
    ensures
        match paper_size(format) {
            Some(size) => json::short_decimal(size.0) && json::short_decimal(size.1),
            None => true,
        },
{
    reveal_strlit("4.13");
    lemma_short("4.13"@, 1);
    reveal_strlit("5.83");
    lemma_short("5.83"@, 1);
    reveal_strlit("8.27");
    lemma_short("8.27"@, 1);
    reveal_strlit("8.5");
    lemma_short("8.5"@, 1);
    reveal_strlit("11.0");
    lemma_short("11.0"@, 2);
    reveal_strlit("11.7");
    lemma_short("11.7"@, 2);
    reveal_strlit("14.0");
    lemma_short("14.0"@, 2);
    reveal_strlit("16.54");
    lemma_short("16.54"@, 2);
    reveal_strlit("17.0");
    lemma_short("17.0"@, 2);
    reveal_strlit("23.4");
    lemma_short("23.4"@, 2);
    reveal_strlit("33.1");
    lemma_short("33.1"@, 2);
    reveal_strlit("46.8");
    lemma_short("46.8"@, 2);
}

/// The width and height in inches of a paper format.
pub fn pdf_paper_size(format: &str) -> (res: Result<(&'static str, &'static str), RestEndpointError>)
    ensures
        match paper_size(format@) {
            Some(size) => res is Ok && res->Ok_0.0@ == size.0 && res->Ok_0.1@ == size.1,
            None => res is Err && res->Err_0@ == RestErrorView::BadRequest(
                "unsupported pdf format: "@ + format@,
            ),
        },
{
    let lowered = text::lowered(text::trimmed(format).as_str());
    let name = lowered.as_str();
    if text::str_eq(name, "letter") {
        Ok(("8.5", "11.0"))
    } else if text::str_eq(name, "legal") {
        Ok(("8.5", "14.0"))
    } else if text::str_eq(name, "tabloid") || text::str_eq(name, "ledger") {
        Ok(("11.0", "17.0"))
    } else if text::str_eq(name, "a0") {
        Ok(("33.1", "46.8"))
    } else if text::str_eq(name, "a1") {
        Ok(("23.4", "33.1"))
    } else if text::str_eq(name, "a2") {
        Ok(("16.54", "23.4"))
    } else if text::str_eq(name, "a3") {
        Ok(("11.7", "16.54"))
    } else if text::str_eq(name, "a4") {
        Ok(("8.27", "11.7"))
    } else if text::str_eq(name, "a5") {
        Ok(("5.83", "8.27"))
    } else if text::str_eq(name, "a6") {
        Ok(("4.13", "5.83"))
    } else {
        Err(bad_request("unsupported pdf format: ", format))
    }
}

/// How a page is to be printed.
pub open spec fn print_params(
    landscape: bool,
    print_background: bool,
    size: Option<(Seq<char>, Seq<char>)>,
) -> JsonView {
    let members = Map::<Seq<char>, JsonView>::empty().insert(
        "landscape"@,
        JsonView::Bool(landscape),
    ).insert("printBackground"@, JsonView::Bool(print_background)).insert(
        "transferMode"@,
        JsonView::Text("ReturnAsBase64"@),
    );
    match size {
        Some(paper) => JsonView::Object(
            members.insert("paperWidth"@, JsonView::Decimal(paper.0)).insert(
                "paperHeight"@,
                JsonView::Decimal(paper.1),
            ),
        ),
        None => JsonView::Object(members),
    }
}

/// Whether a flag is given and set.
pub open spec fn is_set(flag: Option<bool>) -> bool {
    flag == Some(true)
}

fn set(flag: Option<bool>) -> (res: bool)
    ensures
        res == is_set(flag),
{
    match flag {
        Some(value) => value,
        None => false,
    }
}

/// How a page is to be printed.
#[derive(Clone, Copy, Debug)]
pub struct PrintOptions {
    landscape: bool,
    print_background: bool,
    paper: Option<(&'static str, &'static str)>,
}

impl PrintOptions {
    #[verifier::type_invariant]
    spec fn sizes_are_short(self) -> bool {
        match self.paper {
            Some(paper) => json::short_decimal(paper.0@) && json::short_decimal(paper.1@),
            None => true,
        }
    }

    /// The parameters of the command that prints.
    pub closed spec fn params_view(self) -> JsonView {
        print_params(
            self.landscape,
            self.print_background,
            match self.paper {
                Some(paper) => Some((paper.0@, paper.1@)),
                None => None,
            },
        )
    }

    /// The parameters of the command that prints.
    pub fn params(&self) -> (res: Json)
        ensures
            res@ == self.params_view(),
            json::holds_plain(res, cdp::PARAMS_DEPTH as nat),
    {
        proof {
            use_type_invariant(self);
        }
        let mut members: Vec<(String, Json)> = Vec::new();
        json::put(&mut members, "landscape", Json::Bool(self.landscape));
        json::put(&mut members, "printBackground", Json::Bool(self.print_background));
        json::put(&mut members, "transferMode", json::text("ReturnAsBase64"));
        match self.paper {
            Some(paper) => {
                json::put(&mut members, "paperWidth", Json::Decimal(paper.0.to_owned()));
                json::put(&mut members, "paperHeight", Json::Decimal(paper.1.to_owned()));
            },
            None => {},
        }
        proof {
            reveal_strlit("landscape");
            reveal_strlit("printBackground");
            reveal_strlit("transferMode");
            reveal_strlit("paperWidth");
            reveal_strlit("paperHeight");
            assert(json::members_plain(members@, (cdp::PARAMS_DEPTH - 1) as nat));
        }
        Json::Object(members)
    }
}

/// How a page is to be printed, or what is wrong with the paper format.
pub fn pdf_print_options(
    format: Option<&str>,
    landscape: Option<bool>,
    print_background: Option<bool>,
) -> (res: Result<PrintOptions, RestEndpointError>)
    ensures
        match format {
            None => res is Ok && res->Ok_0.params_view() == print_params(
                is_set(landscape),
                is_set(print_background),
                None,
            ),
            Some(name) => match paper_size(name@) {
                Some(size) => res is Ok && res->Ok_0.params_view() == print_params(
                    is_set(landscape),
                    is_set(print_background),
                    Some(size),
                ),
                None => res is Err && res->Err_0@ == RestErrorView::BadRequest(
                    "unsupported pdf format: "@ + name@,
                ),
            },
        },
{
    let paper = match format {
        Some(name) => {
            proof {
                lemma_paper_sizes_short(name@);
            }
            match pdf_paper_size(name) {
                Ok(size) => Some(size),
                Err(error) => return Err(error),
            }
        },
        None => None,
    };
    Ok(PrintOptions { landscape: set(landscape), print_background: set(print_background), paper })
}

/// What base64 text stands for, by the standard alphabet with padding: the bytes, or
/// the words of the error of the crate `base64`.
pub uninterp spec fn base64_bytes(text: Seq<char>) -> Result<Seq<u8>, Seq<char>>;

/// Calls `decode` of the engine `base64::engine::general_purpose::STANDARD`. Its
/// result depends on the text alone; of an error the words are kept.
#[verifier::external_body]
fn decode_base64(data: &str) -> (res: Result<Vec<u8>, String>)
    ensures
        match res {
            Ok(bytes) => base64_bytes(data@) is Ok && base64_bytes(data@)->Ok_0 == bytes@,
            Err(words) => base64_bytes(data@) is Err && base64_bytes(data@)->Err_0 == words@,
        },
{
    base64::engine::general_purpose::STANDARD.decode(data).map_err(|error| error.to_string())
}

/// What was made of base64 text: the bytes, or an error.
pub open spec fn decoded(outcome: Result<Seq<u8>, Seq<char>>) -> Result<Seq<u8>, RestErrorView> {
    match outcome {
        Ok(bytes) => Ok(bytes),
        Err(words) => Err(RestErrorView::Decode(words)),
    }
}

/// The bytes that the result of a command carries.
pub open spec fn carried_bytes(result: JsonView) -> Result<Seq<u8>, RestErrorView> {
    match json::member_text(result, "data"@) {
        Some(data) => decoded(base64_bytes(data)),
        None => Err(RestErrorView::InvalidCdpResponse("CDP result missing data"@)),
    }
}

/// What was made of base64 text: the bytes, or an error.
pub fn decode_outcome(outcome: Result<Vec<u8>, String>) -> (res: Result<Vec<u8>, RestEndpointError>)
    ensures
        match outcome {
            Ok(bytes) => res == Ok::<Vec<u8>, RestEndpointError>(bytes),
            Err(words) => res is Err && res->Err_0@ == RestErrorView::Decode(words@),
        },
{
    match outcome {
        Ok(bytes) => Ok(bytes),
        Err(words) => Err(RestEndpointError::Decode(words)),
    }
}

/// The bytes that the result of a command carries.
pub fn decode_cdp_data(result: &Json) -> (res: Result<Vec<u8>, RestEndpointError>)
    ensures
        match carried_bytes(result@) {
            Ok(bytes) => res is Ok && res->Ok_0@ == bytes,
            Err(error) => res is Err && res->Err_0@ == error,
        },
{
    match result.get_str("data") {
        Some(data) => decode_outcome(decode_base64(data)),
        None => Err(
            RestEndpointError::InvalidCdpResponse("CDP result missing data".to_owned()),
        ),
    }
}

/// A text that the result of a command must have.
pub fn required_string(value: &Json, field: &str) -> (res: Result<String, RestEndpointError>)
    ensures
        match json::member_text(value@, field@) {
            Some(found) => res is Ok && res->Ok_0@ == found,
            None => res is Err && res->Err_0@ == RestErrorView::InvalidCdpResponse(
                "CDP result missing "@ + field@,
            ),
        },
{
    match value.get_str(field) {
        Some(found) => Ok(found.to_owned()),
        None => {
            let mut words = "CDP result missing ".to_owned();
            words.append(field);
            Err(RestEndpointError::InvalidCdpResponse(words))
        },
    }
}

/// An integer in decimal digits, with a sign where it is negative.
pub open spec fn signed_decimal(number: int) -> Seq<char> {
    if number < 0 {
        "-"@ + text::decimal((-number) as nat)
    } else {
        text::decimal(number as nat)
    }
}

/// The digits of a value that is a number.
pub open spec fn number_text(value: JsonView) -> Option<Seq<char>> {
    match value {
        JsonView::Integer(number) => Some(signed_decimal(number)),
        JsonView::Decimal(digits) => Some(digits),
        _ => None,
    }
}

/// The digits of the member called `name`, if that is a number.
pub open spec fn member_number(value: JsonView, name: Seq<char>) -> Option<Seq<char>> {
    match json::member(value, name) {
        Some(found) => number_text(found),
        None => None,
    }
}

fn digits_of(value: &Json) -> (res: Option<String>)
    ensures
        text::opt_text(res) == number_text(value@),
{
    match value {
        Json::Unsigned(number) => Some(text::decimal_text(*number)),
        Json::Negative(number) => {
            let number: i64 = *number;
            if number >= 0 {
                Some(text::decimal_text(number as u64))
            } else {
                let mut digits = "-".to_owned();
                let below: i64 = -(number + 1);
                text::push_decimal(&mut digits, below as u64 + 1);
                Some(digits)
            }
        },
        Json::Decimal(digits) => Some(digits.clone()),
        _ => None,
    }
}

/// The digits of one side of a page, or that they are missing.
pub fn positive_dimension(size: &Json, name: &str) -> (res: Result<String, RestEndpointError>)
    ensures
        match member_number(size@, name@) {
            Some(digits) => res is Ok && res->Ok_0@ == digits,
            None => res is Err && res->Err_0@ == RestErrorView::InvalidCdpResponse(
                "Page.getLayoutMetrics missing numeric "@ + name@,
            ),
        },
{
    let digits = match size.get(name) {
        Some(found) => digits_of(found),
        None => None,
    };
    match digits {
        Some(digits) => Ok(digits),
        None => {
            let mut words = "Page.getLayoutMetrics missing numeric ".to_owned();
            words.append(name);
            Err(RestEndpointError::InvalidCdpResponse(words))
        },
    }
}

/// The name of the event that a message reports of the life of a page.
pub open spec fn reported_event(body: JsonView) -> Option<Seq<char>> {
    if json::member_text(body, "method"@) == Some("Page.lifecycleEvent"@) {
        match json::nested(body, "params"@, "name"@) {
            Some(name) => json::as_text(name),
            None => None,
        }
    } else {
        None
    }
}

/// The events that are known after a message.
pub open spec fn known_after(events: Set<Seq<char>>, body: JsonView) -> Set<Seq<char>> {
    match reported_event(body) {
        Some(name) => events.insert(name),
        None => events,
    }
}

/// A connection to a browser: the number of the next command, and the events that
/// were reported of the life of a page, each once.
#[derive(Debug)]
pub struct CdpConnection {
    next_id: u64,
    lifecycle_events: Vec<String>,
}

/// What a connection knows.
#[verifier::ext_equal]
pub struct ConnectionView {
    pub next_id: int,
    pub events: Set<Seq<char>>,
}

impl View for CdpConnection {
    type V = ConnectionView;

    closed spec fn view(&self) -> ConnectionView {
        ConnectionView {
            next_id: self.next_id as int,
            events: text::texts(self.lifecycle_events@).to_set(),
        }
    }
}

impl CdpConnection {
    /// A connection on which nothing was sent.
    pub fn connect() -> (res: CdpConnection)
        ensures
            res@ == (ConnectionView { next_id: 1, events: Set::empty() }),
    {
        let connection = CdpConnection { next_id: 1, lifecycle_events: Vec::new() };
        assert(connection@.events =~= Set::<Seq<char>>::empty());
        connection
    }

    /// Numbers a command and writes it down.
    pub fn command(&mut self, command: Command) -> (res: (u64, String))
        requires
            cdp::sendable(command),
        ensures
            res.0 == old(self)@.next_id,
            res.1@ == json::json_text(cdp::request(old(self)@.next_id, command@)),
            json::json_value(res.1@) == Ok::<JsonView, Seq<char>>(
                cdp::request(old(self)@.next_id, command@),
            ),
            final(self)@ == (ConnectionView {
                next_id: cdp::id_at(old(self)@.next_id, 1),
                ..old(self)@
            }),
    {
        let id: u64 = self.next_id;
        self.next_id = id.wrapping_add(1);
        (id, cdp::request_text(id, command))
    }

    /// Forgets the events of an earlier page.
    pub fn clear_events(&mut self)
        ensures
            final(self)@ == (ConnectionView { events: Set::empty(), ..old(self)@ }),
    {
        self.lifecycle_events = Vec::new();
        assert(self@.events =~= Set::<Seq<char>>::empty());
    }

    /// Notes the event that a message reports.
    pub fn record_lifecycle_event(&mut self, body: &Json)
        ensures
            final(self)@ == (ConnectionView {
                events: known_after(old(self)@.events, body@),
                ..old(self)@
            }),
    {
        match body.get_str("method") {
            Some(method) => if !text::str_eq(method, "Page.lifecycleEvent") {
                return;
            },
            None => return,
        }
        let name = match body.get_nested("params", "name") {
            Some(name) => match name.as_str() {
                Some(name) => name,
                None => return,
            },
            None => return,
        };
        let ghost before = text::texts(self.lifecycle_events@);
        if text::holds_text(&self.lifecycle_events, name) {
            assert(before.to_set().insert(name@) =~= before.to_set());
        } else {
            text::push_text(&mut self.lifecycle_events, name);
            assert(before.push(name@).to_set() =~= before.to_set().insert(name@)) by {
                assert(before.push(name@)[before.len() as int] == name@);
                assert forall|other: Seq<char>| before.contains(other) implies before.push(
                    name@,
                ).contains(other) by {
                    let at = choose|at: int| 0 <= at < before.len() && before[at] == other;
                    assert(before.push(name@)[at] == other);
                }
            }
        }
    }

    /// Whether a point in the life of a page was reported.
    pub fn reached(&self, wait_until: WaitUntil) -> (res: bool)
        ensures
            res == self@.events.contains(lifecycle_event(wait_until)),
    {
        text::holds_text(&self.lifecycle_events, wait_until.lifecycle_name())
    }
}

/// What is to be done with a page.
#[derive(Clone, Copy, Debug)]
pub enum PageTask {
    Scrape,
    Screenshot { format: ScreenshotFormat, full_page: bool },
    Pdf(PrintOptions),
}

/// How far a job has come: what it waits for.
#[derive(Clone, Copy, Debug, PartialEq, Eq, Structural)]
pub enum Stage {
    /// The target.
    Create,
    /// A session with the target.
    Attach,
    /// The page events.
    Enable,
    /// The lifecycle events.
    Listen,
    /// The answer to the navigation.
    Navigate,
    /// The point in the life of the page.
    Load,
    /// The size of the page.
    Measure,
    /// The size in whole pixels.
    Resize,
    /// The new size of the window.
    Override,
    /// The answer to the last command.
    Finish,
    /// Nothing.
    Over,
}

/// What a page says of itself.
#[derive(Clone, Debug)]
pub struct ScrapeResponse {
    pub html: String,
    pub title: String,
    pub url: String,
}

/// What came of a job.
#[derive(Debug)]
pub enum PageOutcome {
    Scraped(ScrapeResponse),
    Bytes(Vec<u8>),
}

/// What came of a job.
#[verifier::ext_equal]
pub enum OutcomeView {
    Scraped { html: Seq<char>, title: Seq<char>, url: Seq<char> },
    Bytes(Seq<u8>),
}

impl View for PageOutcome {
    type V = OutcomeView;

    open spec fn view(&self) -> OutcomeView {
        match self {
            PageOutcome::Scraped(page) => OutcomeView::Scraped {
                html: page.html@,
                title: page.title@,
                url: page.url@,
            },
            PageOutcome::Bytes(bytes) => OutcomeView::Bytes(bytes@),
        }
    }
}

/// What a job does next.
#[derive(Debug)]
pub enum JobStep {
    /// Go on waiting.
    Wait,
    /// Send a text, and begin to wait for the answer.
    Send(String),
    /// Begin to wait for the point in the life of the page.
    AwaitLoad,
    /// Round these numbers up to whole pixels, at least one.
    Round { width: String, height: String },
    Done(PageOutcome),
    Failed(RestEndpointError),
}

/// What a job does next; of a text the message that it reads as.
#[verifier::ext_equal]
pub enum StepView {
    Wait,
    Send(JsonView),
    AwaitLoad,
    Round { width: Seq<char>, height: Seq<char> },
    Done(OutcomeView),
    Failed(RestErrorView),
}

/// Whether a step is the one that is described.
pub open spec fn takes_step(step: JobStep, view: StepView) -> bool {
    match step {
        JobStep::Wait => view is Wait,
        JobStep::Send(sent) => view is Send && sent@ == json::json_text(view->Send_0)
            && json::json_value(sent@) == Ok::<JsonView, Seq<char>>(view->Send_0),
        JobStep::AwaitLoad => view is AwaitLoad,
        JobStep::Round { width, height } => view == (StepView::Round {
            width: width@,
            height: height@,
        }),
        JobStep::Done(outcome) => view == StepView::Done(outcome@),
        JobStep::Failed(error) => view == StepView::Failed(error@),
    }
}

/// The state of a job.
#[verifier::ext_equal]
pub struct JobView {
    pub stage: Stage,
    /// The number of the command whose answer is waited for.
    pub pending: int,
    pub connection: ConnectionView,
    pub session_id: Seq<char>,
    pub url: Seq<char>,
    pub wait_until: WaitUntil,
    pub timeout: Span,
    pub task: PageTask,
}

/// Opens a blank target.
pub open spec fn create_target() -> CommandView {
    CommandView {
        session_id: None,
        method: "Target.createTarget"@,
        params: JsonView::Object(
            Map::<Seq<char>, JsonView>::empty().insert("url"@, JsonView::Text("about:blank"@)),
        ),
    }
}

/// Switches the lifecycle events of a page on.
pub open spec fn enable_lifecycle(session_id: Seq<char>) -> CommandView {
    CommandView {
        session_id: Some(session_id),
        method: "Page.setLifecycleEventsEnabled"@,
        params: JsonView::Object(
            Map::<Seq<char>, JsonView>::empty().insert("enabled"@, JsonView::Bool(true)),
        ),
    }
}

/// Goes to an address.
pub open spec fn navigate(session_id: Seq<char>, url: Seq<char>) -> CommandView {
    CommandView {
        session_id: Some(session_id),
        method: "Page.navigate"@,
        params: JsonView::Object(
            Map::<Seq<char>, JsonView>::empty().insert("url"@, JsonView::Text(url)),
        ),
    }
}

/// Asks for the size of a page.
pub open spec fn get_layout(session_id: Seq<char>) -> CommandView {
    CommandView {
        session_id: Some(session_id),
        method: "Page.getLayoutMetrics"@,
        params: JsonView::Object(Map::empty()),
    }
}

/// Gives the window of a page a size.
pub open spec fn set_size(session_id: Seq<char>, width: u64, height: u64) -> CommandView {
    CommandView {
        session_id: Some(session_id),
        method: "Emulation.setDeviceMetricsOverride"@,
        params: JsonView::Object(
            Map::<Seq<char>, JsonView>::empty().insert("mobile"@, JsonView::Bool(false)).insert(
                "width"@,
                JsonView::Integer(width as int),
            ).insert("height"@, JsonView::Integer(height as int)).insert(
                "deviceScaleFactor"@,
                JsonView::Integer(1),
            ).insert("screenWidth"@, JsonView::Integer(width as int)).insert(
                "screenHeight"@,
                JsonView::Integer(height as int),
            ),
        ),
    }
}

/// The script that has a page say what it is.
pub const SCRAPE_SCRIPT: &'static str =
    r#"(() => ({ html: document.documentElement ? document.documentElement.outerHTML : "", title: document.title, url: location.href }))()"#;

/// The command that a task comes down to.
pub open spec fn task_command(session_id: Seq<char>, task: PageTask) -> CommandView {
    match task {
        PageTask::Scrape => CommandView {
            session_id: Some(session_id),
            method: "Runtime.evaluate"@,
            params: JsonView::Object(
                Map::<Seq<char>, JsonView>::empty().insert(
                    "expression"@,
                    JsonView::Text(SCRAPE_SCRIPT@),
                ).insert("returnByValue"@, JsonView::Bool(true)),
            ),
        },
        PageTask::Screenshot { format, full_page } => CommandView {
            session_id: Some(session_id),
            method: "Page.captureScreenshot"@,
            params: JsonView::Object(
                Map::<Seq<char>, JsonView>::empty().insert(
                    "format"@,
                    JsonView::Text(format_name(format)),
                ).insert("fromSurface"@, JsonView::Bool(true)).insert(
                    "captureBeyondViewport"@,
                    JsonView::Bool(full_page),
                ),
            ),
        },
        PageTask::Pdf(options) => CommandView {
            session_id: Some(session_id),
            method: "Page.printToPDF"@,
            params: options.params_view(),
        },
    }
}

/// What a job waits for, by the name that a timeout is reported under.
pub open spec fn awaited(stage: Stage, task: PageTask) -> Seq<char> {
    match stage {
        Stage::Create => "Target.createTarget"@,
        Stage::Attach => "Target.attachToTarget"@,
        Stage::Enable => "Page.enable"@,
        Stage::Listen => "Page.setLifecycleEventsEnabled"@,
        Stage::Navigate => "Page.navigate"@,
        Stage::Load => "Page.lifecycleEvent"@,
        Stage::Measure => "Page.getLayoutMetrics"@,
        Stage::Override => "Emulation.setDeviceMetricsOverride"@,
        _ => task_command(Seq::empty(), task).method,
    }
}

/// A job that sends a command and waits for its answer.
pub open spec fn asks(job: JobView, stage: Stage, command: CommandView) -> (JobView, StepView) {
    let id = job.connection.next_id;
    (
        JobView {
            stage,
            pending: id,
            connection: ConnectionView { next_id: cdp::id_at(id, 1), ..job.connection },
            ..job
        },
        StepView::Send(cdp::request(id, command)),
    )
}

/// A job that ends.
pub open spec fn ends(job: JobView, step: StepView) -> (JobView, StepView) {
    (JobView { stage: Stage::Over, ..job }, step)
}

/// A job whose page has come to the point that was waited for: a picture of the full
/// page needs its size first.
pub open spec fn loaded(job: JobView) -> (JobView, StepView) {
    match job.task {
        PageTask::Screenshot { full_page: true, .. } => asks(
            job,
            Stage::Measure,
            get_layout(job.session_id),
        ),
        _ => asks(job, Stage::Finish, task_command(job.session_id, job.task)),
    }
}

/// The size of a page, by the answer to the question for it: the size in CSS
/// pixels where that is told.
pub open spec fn content_size(result: JsonView) -> Option<JsonView> {
    match json::member(result, "cssContentSize"@) {
        Some(size) => Some(size),
        None => json::member(result, "contentSize"@),
    }
}

/// The numbers to round, by the answer to the question for the size of a page.
pub open spec fn measured(result: JsonView) -> Result<(Seq<char>, Seq<char>), Seq<char>> {
    match content_size(result) {
        None => Err("Page.getLayoutMetrics missing content size"@),
        Some(size) => match member_number(size, "width"@) {
            None => Err("Page.getLayoutMetrics missing numeric "@ + "width"@),
            Some(width) => match member_number(size, "height"@) {
                None => Err("Page.getLayoutMetrics missing numeric "@ + "height"@),
                Some(height) => Ok((width, height)),
            },
        },
    }
}

/// The text of a member, empty where there is none.
pub open spec fn text_or_empty(value: JsonView, name: Seq<char>) -> Seq<char> {
    match json::member_text(value, name) {
        Some(found) => found,
        None => Seq::empty(),
    }
}

/// What came of a task, by the answer to its command.
pub open spec fn task_outcome(task: PageTask, result: JsonView) -> Result<OutcomeView, RestErrorView> {
    match task {
        PageTask::Scrape => match json::nested(result, "result"@, "value"@) {
            Some(value) => Ok(
                OutcomeView::Scraped {
                    html: text_or_empty(value, "html"@),
                    title: text_or_empty(value, "title"@),
                    url: text_or_empty(value, "url"@),
                },
            ),
            None => Err(
                RestErrorView::InvalidCdpResponse("Runtime.evaluate missing result.value"@),
            ),
        },
        _ => match carried_bytes(result) {
            Ok(bytes) => Ok(OutcomeView::Bytes(bytes)),
            Err(error) => Err(error),
        },
    }
}

/// What follows on the result of the command whose answer was waited for.
pub open spec fn after_result(job: JobView, result: JsonView) -> (JobView, StepView) {
    match job.stage {
        Stage::Create => match json::member_text(result, "targetId"@) {
            Some(target_id) => asks(job, Stage::Attach, cdp::attach(target_id)),
            None => ends(
                job,
                StepView::Failed(
                    RestErrorView::InvalidCdpResponse("CDP result missing "@ + "targetId"@),
                ),
            ),
        },
        Stage::Attach => match json::member_text(result, "sessionId"@) {
            Some(session_id) => asks(
                JobView { session_id, ..job },
                Stage::Enable,
                cdp::enable_page(Some(session_id)),
            ),
            None => ends(
                job,
                StepView::Failed(
                    RestErrorView::InvalidCdpResponse("CDP result missing "@ + "sessionId"@),
                ),
            ),
        },
        Stage::Enable => asks(job, Stage::Listen, enable_lifecycle(job.session_id)),
        Stage::Listen => asks(
            JobView {
                connection: ConnectionView { events: Set::empty(), ..job.connection },
                ..job
            },
            Stage::Navigate,
            navigate(job.session_id, job.url),
        ),
        Stage::Navigate => match json::member_text(result, "errorText"@) {
            Some(error) => ends(
                job,
                StepView::Failed(RestErrorView::CdpProtocol("Page.navigate failed: "@ + error)),
            ),
            None => if job.connection.events.contains(lifecycle_event(job.wait_until)) {
                loaded(job)
            } else {
                (JobView { stage: Stage::Load, ..job }, StepView::AwaitLoad)
            },
        },
        Stage::Measure => match measured(result) {
            Ok(size) => (
                JobView { stage: Stage::Resize, ..job },
                StepView::Round { width: size.0, height: size.1 },
            ),
            Err(words) => ends(job, StepView::Failed(RestErrorView::InvalidCdpResponse(words))),
        },
        Stage::Override => asks(job, Stage::Finish, task_command(job.session_id, job.task)),
        Stage::Finish => match task_outcome(job.task, result) {
            Ok(outcome) => ends(job, StepView::Done(outcome)),
            Err(error) => ends(job, StepView::Failed(error)),
        },
        _ => (job, StepView::Wait),
    }
}

/// Whether a job waits for nothing from the browser.
pub open spec fn is_deaf(stage: Stage) -> bool {
    stage is Resize || stage is Over
}

/// What follows on a message of the browser with the error text `error`: its event is
/// noted; then it is either the answer that is waited for, or comes from the page whose
/// life is watched.
pub open spec fn after_message(
    before: JobView,
    body: JsonView,
    error: Option<Seq<char>>,
) -> (JobView, StepView) {
    let job = JobView {
        connection: ConnectionView {
            events: known_after(before.connection.events, body),
            ..before.connection
        },
        ..before
    };
    if is_deaf(before.stage) {
        (before, StepView::Wait)
    } else if job.stage is Load {
        if json::member_text(body, "sessionId"@) == Some(job.session_id)
            && job.connection.events.contains(lifecycle_event(job.wait_until)) {
            loaded(job)
        } else {
            (job, StepView::Wait)
        }
    } else {
        match cdp::answer_of(body, error, job.pending) {
            cdp::AnswerView::Other => (job, StepView::Wait),
            cdp::AnswerView::Failed(words) => ends(
                job,
                StepView::Failed(RestErrorView::CdpProtocol(words)),
            ),
            cdp::AnswerView::Done(result) => after_result(job, result),
        }
    }
}

/// What follows on what the socket has brought.
pub open spec fn job_after(job: JobView, event: SocketEvent) -> (JobView, StepView) {
    if is_deaf(job.stage) {
        (job, StepView::Wait)
    } else {
        match event {
            SocketEvent::Text(source) => match json::json_value(source@) {
                Ok(body) => after_message(job, body, json::error_text(body)),
                Err(words) => ends(job, StepView::Failed(RestErrorView::CdpProtocol(words))),
            },
            SocketEvent::Other => (job, StepView::Wait),
            SocketEvent::Failed(words) => ends(
                job,
                StepView::Failed(RestErrorView::CdpWebSocket(words@)),
            ),
            SocketEvent::Closed => ends(
                job,
                StepView::Failed(RestErrorView::CdpProtocol("CDP websocket closed"@)),
            ),
            SocketEvent::TimedOut => ends(
                job,
                StepView::Failed(RestErrorView::CdpTimeout(awaited(job.stage, job.task))),
            ),
        }
    }
}

fn create_target_command() -> (res: Command)
    ensures
        res@ == create_target(),
        cdp::sendable(res),
{
    let mut members: Vec<(String, Json)> = Vec::new();
    json::put(&mut members, "url", json::text("about:blank"));
    proof {
        reveal_strlit("url");
        assert(json::members_plain(members@, (cdp::PARAMS_DEPTH - 1) as nat));
    }
    Command {
        session_id: None,
        method: "Target.createTarget",
        params: Json::Object(members),
    }
}

fn enable_lifecycle_command(session_id: &str) -> (res: Command)
    ensures
        res@ == enable_lifecycle(session_id@),
        cdp::sendable(res),
{
    let mut members: Vec<(String, Json)> = Vec::new();
    json::put(&mut members, "enabled", Json::Bool(true));
    proof {
        reveal_strlit("enabled");
        assert(json::members_plain(members@, (cdp::PARAMS_DEPTH - 1) as nat));
    }
    Command {
        session_id: Some(session_id.to_owned()),
        method: "Page.setLifecycleEventsEnabled",
        params: Json::Object(members),
    }
}

fn navigate_command(session_id: &str, url: &str) -> (res: Command)
    ensures
        res@ == navigate(session_id@, url@),
        cdp::sendable(res),
{
    let mut members: Vec<(String, Json)> = Vec::new();
    json::put(&mut members, "url", json::text(url));
    proof {
        reveal_strlit("url");
        assert(json::members_plain(members@, (cdp::PARAMS_DEPTH - 1) as nat));
    }
    Command {
        session_id: Some(session_id.to_owned()),
        method: "Page.navigate",
        params: Json::Object(members),
    }
}

fn set_size_command(session_id: &str, width: u64, height: u64) -> (res: Command)
    ensures
        res@ == set_size(session_id@, width, height),
        cdp::sendable(res),
{
    let mut members: Vec<(String, Json)> = Vec::new();
    json::put(&mut members, "mobile", Json::Bool(false));
    json::put(&mut members, "width", Json::Unsigned(width));
    json::put(&mut members, "height", Json::Unsigned(height));
    json::put(&mut members, "deviceScaleFactor", Json::Unsigned(1));
    json::put(&mut members, "screenWidth", Json::Unsigned(width));
    json::put(&mut members, "screenHeight", Json::Unsigned(height));
    proof {
        reveal_strlit("mobile");
        reveal_strlit("width");
        reveal_strlit("height");
        reveal_strlit("deviceScaleFactor");
        reveal_strlit("screenWidth");
        reveal_strlit("screenHeight");
        assert(json::members_plain(members@, (cdp::PARAMS_DEPTH - 1) as nat));
    }
    Command {
        session_id: Some(session_id.to_owned()),
        method: "Emulation.setDeviceMetricsOverride",
        params: Json::Object(members),
    }
}

fn scrape_command(session_id: &str) -> (res: Command)
    ensures
        res@ == task_command(session_id@, PageTask::Scrape),
        cdp::sendable(res),
{
    let mut members: Vec<(String, Json)> = Vec::new();
    json::put(&mut members, "expression", json::text(SCRAPE_SCRIPT));
    json::put(&mut members, "returnByValue", Json::Bool(true));
    proof {
        reveal_strlit("expression");
        reveal_strlit("returnByValue");
        assert(json::members_plain(members@, (cdp::PARAMS_DEPTH - 1) as nat));
    }
    Command {
        session_id: Some(session_id.to_owned()),
        method: "Runtime.evaluate",
        params: Json::Object(members),
    }
}

fn screenshot_command(session_id: &str, format: ScreenshotFormat, full_page: bool) -> (res: Command)
    ensures
        res@ == task_command(session_id@, (PageTask::Screenshot { format, full_page })),
        cdp::sendable(res),
{
    let mut members: Vec<(String, Json)> = Vec::new();
    json::put(&mut members, "format", json::text(format.cdp_name()));
    json::put(&mut members, "fromSurface", Json::Bool(true));
    json::put(&mut members, "captureBeyondViewport", Json::Bool(full_page));
    proof {
        reveal_strlit("format");
        reveal_strlit("fromSurface");
        reveal_strlit("captureBeyondViewport");
        assert(json::members_plain(members@, (cdp::PARAMS_DEPTH - 1) as nat));
    }
    Command {
        session_id: Some(session_id.to_owned()),
        method: "Page.captureScreenshot",
        params: Json::Object(members),
    }
}

fn task_request(session_id: &str, task: PageTask) -> (res: Command)
    ensures
        res@ == task_command(session_id@, task),
        cdp::sendable(res),
{
    match task {
        PageTask::Scrape => scrape_command(session_id),
        PageTask::Screenshot { format, full_page } => screenshot_command(
            session_id,
            format,
            full_page,
        ),
        PageTask::Pdf(options) => Command {
            session_id: Some(session_id.to_owned()),
            method: "Page.printToPDF",
            params: options.params(),
        },
    }
}

fn awaited_method(stage: Stage, task: PageTask) -> (res: &'static str)
    ensures
        res@ == awaited(stage, task),
{
    match stage {
        Stage::Create => "Target.createTarget",
        Stage::Attach => "Target.attachToTarget",
        Stage::Enable => "Page.enable",
        Stage::Listen => "Page.setLifecycleEventsEnabled",
        Stage::Navigate => "Page.navigate",
        Stage::Load => "Page.lifecycleEvent",
        Stage::Measure => "Page.getLayoutMetrics",
        Stage::Override => "Emulation.setDeviceMetricsOverride",
        _ => match task {
            PageTask::Scrape => "Runtime.evaluate",
            PageTask::Screenshot { .. } => "Page.captureScreenshot",
            PageTask::Pdf(_) => "Page.printToPDF",
        },
    }
}

fn owned_or_empty(value: &Json, name: &str) -> (res: String)
    ensures
        res@ == text_or_empty(value@, name@),
{
    match value.get_str(name) {
        Some(found) => found.to_owned(),
        None => String::new(),
    }
}

/// What came of a task, by the answer to its command.
pub fn finish_task(task: PageTask, result: &Json) -> (res: Result<PageOutcome, RestEndpointError>)
    ensures
        match task_outcome(task, result@) {
            Ok(outcome) => res is Ok && res->Ok_0@ == outcome,
            Err(error) => res is Err && res->Err_0@ == error,
        },
{
    match task {
        PageTask::Scrape => match result.get_nested("result", "value") {
            Some(value) => Ok(
                PageOutcome::Scraped(
                    ScrapeResponse {
                        html: owned_or_empty(value, "html"),
                        title: owned_or_empty(value, "title"),
                        url: owned_or_empty(value, "url"),
                    },
                ),
            ),
            None => Err(
                RestEndpointError::InvalidCdpResponse(
                    "Runtime.evaluate missing result.value".to_owned(),
                ),
            ),
        },
        _ => match decode_cdp_data(result) {
            Ok(bytes) => Ok(PageOutcome::Bytes(bytes)),
            Err(error) => Err(error),
        },
    }
}

/// The numbers to round, by the answer to the question for the size of a page.
fn full_page_size(result: &Json) -> (res: Result<(String, String), RestEndpointError>)
    ensures
        match measured(result@) {
            Ok(size) => res is Ok && res->Ok_0.0@ == size.0 && res->Ok_0.1@ == size.1,
            Err(words) => res is Err && res->Err_0@ == RestErrorView::InvalidCdpResponse(words),
        },
{
    let told = match result.get("cssContentSize") {
        Some(size) => Some(size),
        None => result.get("contentSize"),
    };
    let size = match told {
        Some(size) => size,
        None => return Err(
            RestEndpointError::InvalidCdpResponse(
                "Page.getLayoutMetrics missing content size".to_owned(),
            ),
        ),
    };
    let width = match positive_dimension(size, "width") {
        Ok(width) => width,
        Err(error) => return Err(error),
    };
    match positive_dimension(size, "height") {
        Ok(height) => Ok((width, height)),
        Err(error) => Err(error),
    }
}

/// A job that has asked for its target.
pub open spec fn started(options: PageLoadOptions, task: PageTask) -> JobView {
    JobView {
        stage: Stage::Create,
        pending: 1,
        connection: ConnectionView { next_id: 2, events: Set::empty() },
        session_id: Seq::empty(),
        url: options.url@,
        wait_until: options.wait_until,
        timeout: options.timeout,
        task,
    }
}

/// What becomes of a job, and what it does next, once the size of its page is known in
/// whole pixels.
pub open spec fn after_size(job: JobView, width: u64, height: u64) -> (JobView, StepView) {
    if job.stage is Resize {
        asks(job, Stage::Override, set_size(job.session_id, width, height))
    } else {
        (job, StepView::Wait)
    }
}

/// A job on a page of its own.
#[derive(Debug)]
pub struct PageJob {
    stage: Stage,
    pending: u64,
    connection: CdpConnection,
    session_id: String,
    options: PageLoadOptions,
    task: PageTask,
}

impl View for PageJob {
    type V = JobView;

    closed spec fn view(&self) -> JobView {
        JobView {
            stage: self.stage,
            pending: self.pending as int,
            connection: self.connection@,
            session_id: self.session_id@,
            url: self.options.url@,
            wait_until: self.options.wait_until,
            timeout: self.options.timeout,
            task: self.task,
        }
    }
}

impl PageJob {
    /// Begins a job: the first text to send.
    pub fn start(options: PageLoadOptions, task: PageTask) -> (res: (PageJob, String))
        ensures
            res.0@ == started(options, task),
            res.1@ == json::json_text(cdp::request(1, create_target())),
            json::json_value(res.1@) == Ok::<JsonView, Seq<char>>(cdp::request(1, create_target())),
    {
        let mut connection = CdpConnection::connect();
        let (pending, sent) = connection.command(create_target_command());
        let session_id = String::new();
        assert(session_id@ =~= Seq::<char>::empty());
        (PageJob { stage: Stage::Create, pending, connection, session_id, options, task }, sent)
    }

    fn ask(&mut self, stage: Stage, command: Command) -> (res: JobStep)
        requires
            cdp::sendable(command),
        ensures
            final(self)@ == asks(old(self)@, stage, command@).0,
            takes_step(res, asks(old(self)@, stage, command@).1),
    {
        let (pending, sent) = self.connection.command(command);
        self.pending = pending;
        self.stage = stage;
        JobStep::Send(sent)
    }

    fn fail(&mut self, error: RestEndpointError) -> (res: JobStep)
        ensures
            final(self)@ == ends(old(self)@, StepView::Failed(error@)).0,
            takes_step(res, StepView::Failed(error@)),
    {
        self.stage = Stage::Over;
        JobStep::Failed(error)
    }

    fn on_loaded(&mut self) -> (res: JobStep)
        ensures
            final(self)@ == loaded(old(self)@).0,
            takes_step(res, loaded(old(self)@).1),
    {
        match self.task {
            PageTask::Screenshot { full_page: true, .. } => {
                let command = Command {
                    session_id: Some(self.session_id.clone()),
                    method: "Page.getLayoutMetrics",
                    params: json::empty_object(),
                };
                self.ask(Stage::Measure, command)
            },
            _ => {
                let command = task_request(self.session_id.as_str(), self.task);
                self.ask(Stage::Finish, command)
            },
        }
    }

    fn on_result(&mut self, result: Json) -> (res: JobStep)
        ensures
            final(self)@ == after_result(old(self)@, result@).0,
            takes_step(res, after_result(old(self)@, result@).1),
    {
        match self.stage {
            Stage::Create => match required_string(&result, "targetId") {
                Ok(target_id) => self.ask(Stage::Attach, cdp::attach_command(target_id.as_str())),
                Err(error) => self.fail(error),
            },
            Stage::Attach => match required_string(&result, "sessionId") {
                Ok(session_id) => {
                    let command = Command {
                        session_id: Some(session_id.clone()),
                        method: "Page.enable",
                        params: json::empty_object(),
                    };
                    self.session_id = session_id;
                    self.ask(Stage::Enable, command)
                },
                Err(error) => self.fail(error),
            },
            Stage::Enable => {
                let command = enable_lifecycle_command(self.session_id.as_str());
                self.ask(Stage::Listen, command)
            },
            Stage::Listen => {
                self.connection.clear_events();
                let command = navigate_command(self.session_id.as_str(), self.options.url.as_str());
                self.ask(Stage::Navigate, command)
            },
            Stage::Navigate => {
                match result.get_str("errorText") {
                    Some(error) => {
                        let mut words = "Page.navigate failed: ".to_owned();
                        words.append(error);
                        return self.fail(RestEndpointError::CdpProtocol(words));
                    },
                    None => {},
                }
                if self.connection.reached(self.options.wait_until) {
                    self.on_loaded()
                } else {
                    self.stage = Stage::Load;
                    JobStep::AwaitLoad
                }
            },
            Stage::Measure => match full_page_size(&result) {
                Ok((width, height)) => {
                    self.stage = Stage::Resize;
                    JobStep::Round { width, height }
                },
                Err(error) => self.fail(error),
            },
            Stage::Override => {
                let command = task_request(self.session_id.as_str(), self.task);
                self.ask(Stage::Finish, command)
            },
            Stage::Finish => match finish_task(self.task, &result) {
                Ok(outcome) => {
                    self.stage = Stage::Over;
                    JobStep::Done(outcome)
                },
                Err(error) => self.fail(error),
            },
            _ => JobStep::Wait,
        }
    }

    /// What follows on a message of the browser that was read.
    pub fn on_message(&mut self, message: Message) -> (res: JobStep)
        ensures
            ({
                let error = text::opt_text(message.error);
                let after = after_message(old(self)@, message.body@, error);
                &&& final(self)@ == after.0
                &&& takes_step(res, after.1)
            }),
    {
        match self.stage {
            Stage::Resize | Stage::Over => return JobStep::Wait,
            _ => {},
        }
        self.connection.record_lifecycle_event(&message.body);
        match self.stage {
            Stage::Load => {
                let from_page = match message.body.get_str("sessionId") {
                    Some(session_id) => text::str_eq(session_id, self.session_id.as_str()),
                    None => false,
                };
                if from_page && self.connection.reached(self.options.wait_until) {
                    self.on_loaded()
                } else {
                    JobStep::Wait
                }
            },
            _ => match cdp::answer(message, self.pending) {
                Answer::Other => JobStep::Wait,
                Answer::Failed(words) => self.fail(RestEndpointError::CdpProtocol(words)),
                Answer::Done(result) => self.on_result(result),
            },
        }
    }

    /// What follows on what the socket has brought.
    pub fn on_event(&mut self, event: SocketEvent) -> (res: JobStep)
        ensures
            final(self)@ == job_after(old(self)@, event).0,
            takes_step(res, job_after(old(self)@, event).1),
    {
        match self.stage {
            Stage::Resize | Stage::Over => return JobStep::Wait,
            _ => {},
        }
        match event {
            SocketEvent::Text(source) => match json::parse_message(source.as_str()) {
                Ok(message) => self.on_message(message),
                Err(words) => self.fail(RestEndpointError::CdpProtocol(words)),
            },
            SocketEvent::Other => JobStep::Wait,
            SocketEvent::Failed(words) => self.fail(RestEndpointError::CdpWebSocket(words)),
            SocketEvent::Closed => self.fail(
                RestEndpointError::CdpProtocol("CDP websocket closed".to_owned()),
            ),
            SocketEvent::TimedOut => self.fail(
                RestEndpointError::CdpTimeout(awaited_method(self.stage, self.task)),
            ),
        }
    }

    /// Takes in the size of the page in whole pixels, where that is waited for.
    pub fn on_size(&mut self, width: u64, height: u64) -> (res: JobStep)
        ensures
            final(self)@ == after_size(old(self)@, width, height).0,
            takes_step(res, after_size(old(self)@, width, height).1),
    {
        match self.stage {
            Stage::Resize => {
                let command = set_size_command(self.session_id.as_str(), width, height);
                self.ask(Stage::Override, command)
            },
            _ => JobStep::Wait,
        }
    }

    /// How long each answer and the page may take.
    pub fn timeout(&self) -> (res: Span)
        ensures
            res == self@.timeout,
    {
        self.options.timeout
    }
}

/// Whether a job has a session with its target.
pub open spec fn has_session(stage: Stage) -> bool {
    !(stage is Create || stage is Attach)
}

/// Once a job has a session with its target, everything that it sends goes to
/// that session.
pub proof fn law_page_commands_go_to_the_page(job: JobView, event: SocketEvent)
    requires
        has_session(job.stage),
        job_after(job, event).1 is Send,
    ensures
        job_after(job, event).0.session_id == job.session_id,
        json::member_text(job_after(job, event).1->Send_0, "sessionId"@) == Some(job.session_id),
{
}

/// What happened to an earlier page does not count: when a job navigates, it knows
/// of no event.
pub proof fn law_navigation_starts_afresh(job: JobView, result: JsonView)
    requires
        job.stage is Listen,
    ensures
        after_result(job, result).0.stage is Navigate,
        after_result(job, result).0.connection.events == Set::<Seq<char>>::empty(),
{
}

/// A job goes past its navigation only once the point in the life of the page that
/// the request names was reported.
pub proof fn law_page_is_loaded_first(job: JobView, event: SocketEvent)
    requires
        job.stage is Navigate || job.stage is Load,
        job_after(job, event).1 is Send,
    ensures
        job_after(job, event).0.connection.events.contains(lifecycle_event(job.wait_until)),
{
}

/// Whatever a job waits for, a timeout ends it with an error that names this.
pub proof fn law_timeouts_end_jobs(job: JobView)
    requires
        !is_deaf(job.stage),
    ensures
        job_after(job, SocketEvent::TimedOut).0.stage is Over,
        job_after(job, SocketEvent::TimedOut).1 == StepView::Failed(
            RestErrorView::CdpTimeout(awaited(job.stage, job.task)),
        ),
{
}

/// A job that is over stays over and does nothing more.
pub proof fn law_over_is_over(job: JobView, event: SocketEvent)
    requires
        job.stage is Over,
    ensures
        job_after(job, event) == (job, StepView::Wait),
{
}

/// A picture of the full page is taken only after its size was asked for.
pub proof fn law_full_page_is_measured(job: JobView, format: ScreenshotFormat)
    requires
        job.task == (PageTask::Screenshot { format, full_page: true }),
    ensures
        loaded(job).0.stage is Measure,
{
}

/// How far a job is from its beginning.
pub open spec fn progress(stage: Stage) -> int {
    match stage {
        Stage::Create => 0,
        Stage::Attach => 1,
        Stage::Enable => 2,
        Stage::Listen => 3,
        Stage::Navigate => 4,
        Stage::Load => 5,
        Stage::Measure => 6,
        Stage::Resize => 7,
        Stage::Override => 8,
        Stage::Finish => 9,
        Stage::Over => 10,
    }
}

/// Whatever a job does but wait brings it further: it does no more than ten things.
pub proof fn law_jobs_get_on(job: JobView, event: SocketEvent)
    ensures
        progress(job_after(job, event).0.stage) <= 10,
        job_after(job, event).1 is Wait ==> job_after(job, event).0.stage == job.stage,
        !(job_after(job, event).1 is Wait) ==> progress(job_after(job, event).0.stage) > progress(
            job.stage,
        ),
{
}

proof fn lemma_plain_word(word: Seq<char>, lowered: Seq<char>)
    requires
        word.len() > 0,
        word.len() == lowered.len(),
        !text::is_white_space(word[0]),
        !text::is_white_space(word.last()),
        forall|i: int| 0 <= i < word.len() ==> #[trigger] lowered[i] == text::ascii_lower(word[i]),
    ensures
        text::lower(text::trim(word)) == lowered,
{
    assert(text::trim(word) == word);
    assert(text::lower(word) =~= lowered);
}

/// The browser's own names of the points in the life of a page are understood.
pub proof fn law_event_names_are_understood(wait_until: WaitUntil)
    ensures
        wait_until_of(Some(lifecycle_event(wait_until))) == Some(wait_until),
{
    reveal_strlit("load");
    reveal_strlit("DOMContentLoaded");
    reveal_strlit("domcontentloaded");
    reveal_strlit("networkIdle");
    reveal_strlit("networkidle");
    reveal_strlit("networkidle0");
    reveal_strlit("networkAlmostIdle");
    reveal_strlit("networkalmostidle");
    let name = lifecycle_event(wait_until);
    match wait_until {
        WaitUntil::Load => {
            lemma_plain_word(name, "load"@);
        },
        WaitUntil::DomContentLoaded => {
            lemma_plain_word(name, "domcontentloaded"@);
            assert("domcontentloaded"@.len() != "load"@.len());
        },
        WaitUntil::NetworkIdle => {
            lemma_plain_word(name, "networkidle"@);
            assert("networkidle"@.len() != "load"@.len());
            assert("networkidle"@.len() != "domcontentloaded"@.len());
        },
        WaitUntil::NetworkAlmostIdle => {
            lemma_plain_word(name, "networkalmostidle"@);
            assert("networkalmostidle"@.len() != "load"@.len());
            assert("networkalmostidle"@.len() != "domcontentloaded"@.len());
            assert("networkalmostidle"@.len() != "networkidle"@.len());
            assert("networkalmostidle"@.len() != "networkidle0"@.len());
        },
    }
}

/// The names under which pictures are asked for are understood.
pub proof fn law_format_names_are_understood(format: ScreenshotFormat)
    ensures
        screenshot_format_of(Some(format_name(format))) == Some(format),
{
    reveal_strlit("png");
    reveal_strlit("jpeg");
    lemma_plain_word(format_name(format), format_name(format));
    assert("png"@.len() != "jpeg"@.len());
}

/// A point in the life of a page is asked for by the browser's name for it or by the
/// names that are common for it, in any case and with white space around it. Without a
/// word it is the load event, and no other word stands for one.
pub proof fn law_wait_words(word: Seq<char>)
    ensures
        wait_until_of(None) == Some(WaitUntil::Load),
        ({
            let name = text::lower(text::trim(word));
            let meant = wait_until_of(Some(word));
            &&& name == "load"@ <==> meant == Some(WaitUntil::Load)
            &&& name == "domcontentloaded"@ <==> meant == Some(WaitUntil::DomContentLoaded)
            &&& name == "networkidle"@ || name == "networkidle0"@ <==> meant == Some(
                WaitUntil::NetworkIdle,
            )
            &&& name == "networkalmostidle"@ || name == "networkidle2"@ <==> meant == Some(
                WaitUntil::NetworkAlmostIdle,
            )
        }),
        screenshot_format_of(None) == Some(ScreenshotFormat::Png),
        ({
            let name = text::lower(text::trim(word));
            let meant = screenshot_format_of(Some(word));
            &&& name == "png"@ <==> meant == Some(ScreenshotFormat::Png)
            &&& name == "jpeg"@ || name == "jpg"@ <==> meant == Some(ScreenshotFormat::Jpeg)
        }),
{
    reveal_strlit("load");
    reveal_strlit("domcontentloaded");
    reveal_strlit("networkidle");
    reveal_strlit("networkidle0");
    reveal_strlit("networkidle2");
    reveal_strlit("networkalmostidle");
    reveal_strlit("png");
    reveal_strlit("jpeg");
    reveal_strlit("jpg");
    assert("load"@.len() == 4);
    assert("domcontentloaded"@.len() == 16);
    assert("networkidle"@.len() == 11);
    assert("networkidle0"@.len() == 12);
    assert("networkidle2"@.len() == 12);
    assert("networkidle0"@[11] != "networkidle2"@[11]);
    assert("networkalmostidle"@.len() == 17);
    assert("jpeg"@.len() == 4);
    assert("png"@.len() == 3);
    assert("png"@[0] != "jpg"@[0]);
}

/// The points in the life of a page have four names, under which the browser tells of them.
pub proof fn law_events_are_told_apart(one: WaitUntil, other: WaitUntil)
    ensures
        lifecycle_event(WaitUntil::Load) == "load"@,
        lifecycle_event(WaitUntil::DomContentLoaded) == "DOMContentLoaded"@,
        lifecycle_event(WaitUntil::NetworkIdle) == "networkIdle"@,
        lifecycle_event(WaitUntil::NetworkAlmostIdle) == "networkAlmostIdle"@,
        lifecycle_event(one) == lifecycle_event(other) ==> one == other,
{
    law_event_names_are_understood(one);
    law_event_names_are_understood(other);
}

/// A job that waits for its page goes on as soon as a message of its session leaves the
/// awaited point in the life of the page known, whichever point that is and whether this
/// message told of it or an earlier one did.
pub proof fn law_loaded_pages_are_taken_up(
    job: JobView,
    members: Map<Seq<char>, JsonView>,
    params: Map<Seq<char>, JsonView>,
    error: Option<Seq<char>>,
)
    requires
        job.stage is Load,
        json::has(members, "sessionId"@, JsonView::Text(job.session_id)),
        ({
            let event = match job.wait_until {
                WaitUntil::Load => "load"@,
                WaitUntil::DomContentLoaded => "DOMContentLoaded"@,
                WaitUntil::NetworkIdle => "networkIdle"@,
                WaitUntil::NetworkAlmostIdle => "networkAlmostIdle"@,
            };
            ||| job.connection.events.contains(event)
            ||| {
                &&& json::has(members, "method"@, JsonView::Text("Page.lifecycleEvent"@))
                &&& json::has(members, "params"@, JsonView::Object(params))
                &&& json::has(params, "name"@, JsonView::Text(event))
            }
        }),
    ensures
        ({
            let after = after_message(job, JsonView::Object(members), error);
            let sent = after.1->Send_0->Object_0;
            &&& after.1 is Send && after.1->Send_0 is Object
            &&& json::has(sent, "id"@, JsonView::Integer(job.connection.next_id))
            &&& json::has(sent, "sessionId"@, JsonView::Text(job.session_id))
            &&& after.0.pending == job.connection.next_id
            &&& after.0.task == job.task && after.0.session_id == job.session_id
            &&& match job.task {
                PageTask::Scrape => after.0.stage is Finish && json::has(
                    sent,
                    "method"@,
                    JsonView::Text("Runtime.evaluate"@),
                ),
                PageTask::Screenshot { full_page: true, .. } => after.0.stage is Measure
                    && json::has(sent, "method"@, JsonView::Text("Page.getLayoutMetrics"@)),
                PageTask::Screenshot { full_page: false, .. } => after.0.stage is Finish
                    && json::has(sent, "method"@, JsonView::Text("Page.captureScreenshot"@)),
                PageTask::Pdf(_) => after.0.stage is Finish && json::has(
                    sent,
                    "method"@,
                    JsonView::Text("Page.printToPDF"@),
                ),
            }
        }),
{
    match job.task {
        PageTask::Screenshot { full_page: true, .. } => {
            cdp::law_requests_say_the_command(job.connection.next_id, get_layout(job.session_id));
        },
        _ => {
            cdp::law_requests_say_the_command(
                job.connection.next_id,
                task_command(job.session_id, job.task),
            );
        },
    }
}

/// A job that waits for its page goes on waiting at messages of other sessions, and as
/// long as the awaited point in the life of the page is not known.
pub proof fn law_unloaded_pages_are_waited_for(
    job: JobView,
    members: Map<Seq<char>, JsonView>,
    params: Map<Seq<char>, JsonView>,
    told: Seq<char>,
    error: Option<Seq<char>>,
)
    requires
        job.stage is Load,
        json::has(members, "method"@, JsonView::Text("Page.lifecycleEvent"@)),
        json::has(members, "params"@, JsonView::Object(params)),
        json::has(params, "name"@, JsonView::Text(told)),
        ({
            let event = match job.wait_until {
                WaitUntil::Load => "load"@,
                WaitUntil::DomContentLoaded => "DOMContentLoaded"@,
                WaitUntil::NetworkIdle => "networkIdle"@,
                WaitUntil::NetworkAlmostIdle => "networkAlmostIdle"@,
            };
            ||| !json::has(members, "sessionId"@, JsonView::Text(job.session_id))
            ||| !job.connection.events.contains(event) && told != event
        }),
    ensures
        ({
            let after = after_message(job, JsonView::Object(members), error);
            &&& after.1 is Wait
            &&& after.0.stage is Load
            &&& after.0.connection.events == job.connection.events.insert(told)
        }),
{
}

/// Points in the life of the page are learnt of from the browser's events alone, and are
/// not forgotten once the navigation has begun.
pub proof fn law_events_are_learnt(events: Set<Seq<char>>, body: JsonView, name: Seq<char>)
    ensures
        events.contains(name) ==> known_after(events, body).contains(name),
        known_after(events, body).contains(name) && !events.contains(name) <==> {
            let params = body->Object_0["params"@];
            &&& !events.contains(name)
            &&& body is Object && json::has(
                body->Object_0,
                "method"@,
                JsonView::Text("Page.lifecycleEvent"@),
            )
            &&& body->Object_0.contains_key("params"@) && params is Object
            &&& json::has(params->Object_0, "name"@, JsonView::Text(name))
        },
{
}

/// The form in which a picture is asked for is the one that was wished for: its name is
/// understood as that form and agrees with the media type, and the picture reaches beyond
/// the window just where the full page was wished for.
pub proof fn law_pictures_have_the_form_asked_for(
    session_id: Seq<char>,
    format: ScreenshotFormat,
    full_page: bool,
)
    ensures
        ({
            let command = task_command(
                session_id,
                (PageTask::Screenshot { format, full_page }),
            );
            let params = command.params->Object_0;
            let name = params["format"@]->Text_0;
            &&& command.method == "Page.captureScreenshot"@
            &&& command.session_id == Some(session_id)
            &&& command.params is Object
            &&& json::has(params, "format"@, JsonView::Text(name))
            &&& screenshot_format_of(Some(name)) == Some(format)
            &&& "image/"@ + name == format_media_type(format)
            &&& format is Png ==> name == "png"@ && format_media_type(format) == "image/png"@
            &&& format is Jpeg ==> name == "jpeg"@ && format_media_type(format) == "image/jpeg"@
            &&& json::has(params, "fromSurface"@, JsonView::Bool(true))
            &&& json::has(params, "captureBeyondViewport"@, JsonView::Bool(full_page))
        }),
{
    law_format_names_are_understood(format);
    reveal_strlit("format");
    reveal_strlit("fromSurface");
    reveal_strlit("captureBeyondViewport");
    assert("format"@.len() == 6 && "fromSurface"@.len() == 11);
    assert("captureBeyondViewport"@.len() == 21);
    reveal_strlit("image/");
    reveal_strlit("image/png");
    reveal_strlit("image/jpeg");
    reveal_strlit("png");
    reveal_strlit("jpeg");
    assert("image/"@ + "png"@ =~= "image/png"@);
    assert("image/"@ + "jpeg"@ =~= "image/jpeg"@);
}

/// A page is scraped by a script whose value comes back whole.
pub proof fn law_pages_are_scraped_by_script(session_id: Seq<char>)
    ensures
        ({
            let command = task_command(session_id, PageTask::Scrape);
            let params = command.params->Object_0;
            &&& command.session_id == Some(session_id)
            &&& command.method == "Runtime.evaluate"@
            &&& command.params is Object
            &&& json::has(params, "expression"@, JsonView::Text(SCRAPE_SCRIPT@))
            &&& json::has(params, "returnByValue"@, JsonView::Bool(true))
        }),
{
    reveal_strlit("expression");
    reveal_strlit("returnByValue");
    assert("expression"@.len() != "returnByValue"@.len());
}

/// A page is printed as the options say: turned, with its background, and on a paper
/// only where one was named.
pub proof fn law_prints_follow_the_options(
    session_id: Seq<char>,
    options: PrintOptions,
    landscape: bool,
    background: bool,
    size: Option<(Seq<char>, Seq<char>)>,
)
    requires
        options.params_view() == print_params(landscape, background, size),
    ensures
        ({
            let command = task_command(session_id, PageTask::Pdf(options));
            let params = command.params->Object_0;
            &&& command.session_id == Some(session_id)
            &&& command.method == "Page.printToPDF"@
            &&& command.params is Object
            &&& json::has(params, "landscape"@, JsonView::Bool(landscape))
            &&& json::has(params, "printBackground"@, JsonView::Bool(background))
            &&& json::has(params, "transferMode"@, JsonView::Text("ReturnAsBase64"@))
            &&& match size {
                Some((width, height)) => json::has(params, "paperWidth"@, JsonView::Decimal(width))
                    && json::has(params, "paperHeight"@, JsonView::Decimal(height)),
                None => !params.contains_key("paperWidth"@) && !params.contains_key(
                    "paperHeight"@,
                ),
            }
        }),
{
    reveal_strlit("landscape");
    reveal_strlit("printBackground");
    reveal_strlit("transferMode");
    reveal_strlit("paperWidth");
    reveal_strlit("paperHeight");
    assert("landscape"@.len() == 9);
    assert("printBackground"@.len() == 15);
    assert("transferMode"@.len() == 12);
    assert("paperWidth"@.len() == 10);
    assert("paperHeight"@.len() == 11);
}

/// A flag that was left out is not set.
pub proof fn law_flags_are_off_by_default(flag: bool)
    ensures
        is_set(Some(flag)) == flag,
        !is_set(None),
{
}

/// Each A format is half the one before it: as wide as the next is high.
pub proof fn law_papers_are_halved(larger: Seq<char>, smaller: Seq<char>)
    requires
        ({
            let one = text::lower(text::trim(larger));
            let half = text::lower(text::trim(smaller));
            ||| one == "a0"@ && half == "a1"@
            ||| one == "a1"@ && half == "a2"@
            ||| one == "a2"@ && half == "a3"@
            ||| one == "a3"@ && half == "a4"@
            ||| one == "a4"@ && half == "a5"@
            ||| one == "a5"@ && half == "a6"@
        }),
    ensures
        paper_size(larger) is Some,
        paper_size(smaller) is Some,
        paper_size(larger)->Some_0.0 == paper_size(smaller)->Some_0.1,
{
    lemma_papers_differ();
}

proof fn lemma_papers_differ()
    ensures
        "a0"@.len() == 2 && "a1"@.len() == 2 && "a2"@.len() == 2 && "a3"@.len() == 2 && "a4"@.len()
            == 2 && "a5"@.len() == 2 && "a6"@.len() == 2,
        "a0"@[1] == '0' && "a1"@[1] == '1' && "a2"@[1] == '2' && "a3"@[1] == '3' && "a4"@[1] == '4'
            && "a5"@[1] == '5' && "a6"@[1] == '6',
        "letter"@.len() == 6,
        "legal"@.len() == 5,
        "tabloid"@.len() == 7,
        "ledger"@.len() == 6,
        "letter"@ != "ledger"@,
{
    reveal_strlit("a0");
    reveal_strlit("a1");
    reveal_strlit("a2");
    reveal_strlit("a3");
    reveal_strlit("a4");
    reveal_strlit("a5");
    reveal_strlit("a6");
    reveal_strlit("letter");
    reveal_strlit("legal");
    reveal_strlit("tabloid");
    reveal_strlit("ledger");
    assert("letter"@[2] != "ledger"@[2]);
}

/// The papers that are known by name, in inches.
pub proof fn law_papers_have_their_size(format: Seq<char>)
    ensures
        ({
            let name = text::lower(text::trim(format));
            let size = paper_size(format);
            &&& name == "letter"@ <==> size == Some(("8.5"@, "11.0"@))
            &&& name == "legal"@ <==> size == Some(("8.5"@, "14.0"@))
            &&& name == "tabloid"@ || name == "ledger"@ <==> size == Some(("11.0"@, "17.0"@))
            &&& name == "a0"@ <==> size == Some(("33.1"@, "46.8"@))
            &&& name == "a4"@ <==> size == Some(("8.27"@, "11.7"@))
            &&& name == "a6"@ <==> size == Some(("4.13"@, "5.83"@))
            &&& size is Some <==> {
                ||| name == "letter"@ || name == "legal"@ || name == "tabloid"@ || name
                    == "ledger"@
                ||| name == "a0"@ || name == "a1"@ || name == "a2"@ || name == "a3"@
                ||| name == "a4"@ || name == "a5"@ || name == "a6"@
            }
        }),
{
    lemma_papers_differ();
    reveal_strlit("8.5");
    reveal_strlit("11.0");
    reveal_strlit("14.0");
    reveal_strlit("17.0");
    reveal_strlit("33.1");
    reveal_strlit("46.8");
    reveal_strlit("23.4");
    reveal_strlit("16.54");
    reveal_strlit("11.7");
    reveal_strlit("8.27");
    reveal_strlit("5.83");
    reveal_strlit("4.13");
    assert("8.5"@.len() == 3);
    assert("11.0"@.len() == 4 && "14.0"@.len() == 4 && "17.0"@.len() == 4);
    assert("11.0"@[1] != "14.0"@[1] && "11.0"@[1] != "17.0"@[1]);
    assert("11.0"@[0] == '1' && "33.1"@[0] == '3' && "23.4"@[0] == '2' && "11.7"@[0] == '1');
    assert("8.27"@[0] == '8' && "5.83"@[0] == '5' && "4.13"@[0] == '4');
    assert("11.0"@[3] == '0' && "11.7"@[3] == '7' && "16.54"@.len() == 5);
    assert("8.27"@.len() == 4 && "5.83"@.len() == 4 && "4.13"@.len() == 4 && "33.1"@.len() == 4
        && "23.4"@.len() == 4 && "11.7"@.len() == 4);
}

/// A page is loaded from the address without the white space around it, in the time
/// that the request gives or else in half a minute. A request without an address or
/// without time is refused, and so is an unknown point in the life of the page, in
/// that order.
pub proof fn law_page_requests_are_read(
    url: Seq<char>,
    word: Option<Seq<char>>,
    timeout_ms: Option<u64>,
    options: PageLoadOptions,
)
    ensures
        ({
            let fault = load_fault(url, word, timeout_ms);
            let no_url = text::trim(url).len() == 0;
            let no_time = timeout_ms == Some(0u64);
            &&& no_url ==> fault == Some("url is required"@)
            &&& !no_url && no_time ==> fault == Some("timeoutMs must be greater than 0"@)
            &&& !no_url && !no_time && word is Some && wait_until_of(word) is None ==> fault
                == Some("unsupported waitUntil value: "@ + word->Some_0)
            &&& fault is None <==> !no_url && !no_time && (word is None || wait_until_of(word)
                is Some)
            &&& loads(options, url, word, timeout_ms) ==> {
                &&& options.url@ == text::trim(url)
                &&& timeout_ms is None ==> options.timeout.total() == 30_000_000_000
                &&& timeout_ms is Some ==> options.timeout.total() == timeout_ms->Some_0
                    * 1_000_000
                &&& word is None ==> options.wait_until is Load
                &&& word is Some ==> wait_until_of(word) == Some(options.wait_until)
            }
        }),
{
}

/// The bytes that an answer carries are those of its base-64 data; an answer without
/// data, or with data that is no text, is refused.
pub proof fn law_data_is_decoded(members: Map<Seq<char>, JsonView>, data: Seq<char>)
    ensures
        json::has(members, "data"@, JsonView::Text(data)) ==> match base64_bytes(data) {
            Ok(bytes) => carried_bytes(JsonView::Object(members)) == Ok::<
                Seq<u8>,
                RestErrorView,
            >(bytes),
            Err(words) => carried_bytes(JsonView::Object(members)) == Err::<
                Seq<u8>,
                RestErrorView,
            >(RestErrorView::Decode(words)),
        },
        !members.contains_key("data"@) || !(members["data"@] is Text) ==> carried_bytes(
            JsonView::Object(members),
        ) == Err::<Seq<u8>, RestErrorView>(
            RestErrorView::InvalidCdpResponse("CDP result missing data"@),
        ),
{
}

/// A size is read from a number of either kind, and from nothing else.
pub proof fn law_numbers_are_read(members: Map<Seq<char>, JsonView>, name: Seq<char>, number: int)
    ensures
        json::has(members, name, JsonView::Integer(number)) && number >= 0 ==> member_number(
            JsonView::Object(members),
            name,
        ) == Some(text::decimal(number as nat)),
        json::has(members, name, JsonView::Integer(number)) && number < 0 ==> member_number(
            JsonView::Object(members),
            name,
        ) == Some("-"@ + text::decimal((-number) as nat)),
        members.contains_key(name) && members[name] is Decimal ==> member_number(
            JsonView::Object(members),
            name,
        ) == Some(members[name]->Decimal_0),
        !members.contains_key(name) || !(members[name] is Integer || members[name] is Decimal)
            ==> member_number(JsonView::Object(members), name) is None,
{
}

/// What a scraped page says is the texts of its three members, empty where one is not
/// there; a picture or a print is the bytes that the answer carries.
pub proof fn law_results_are_handed_out(
    result: Map<Seq<char>, JsonView>,
    evaluated: Map<Seq<char>, JsonView>,
    value: Map<Seq<char>, JsonView>,
    html: Seq<char>,
    title: Seq<char>,
    url: Seq<char>,
    bytes: Seq<u8>,
)
    requires
        json::has(result, "result"@, JsonView::Object(evaluated)),
        json::has(evaluated, "value"@, JsonView::Object(value)),
        json::has(value, "html"@, JsonView::Text(html)) || !(value.contains_key(
            "html"@,
        ) && value["html"@] is Text) && html == Seq::<char>::empty(),
        json::has(value, "title"@, JsonView::Text(title)) || !(value.contains_key(
            "title"@,
        ) && value["title"@] is Text) && title == Seq::<char>::empty(),
        json::has(value, "url"@, JsonView::Text(url)) || !(value.contains_key(
            "url"@,
        ) && value["url"@] is Text) && url == Seq::<char>::empty(),
    ensures
        task_outcome(PageTask::Scrape, JsonView::Object(result)) == Ok::<
            OutcomeView,
            RestErrorView,
        >((OutcomeView::Scraped { html, title, url })),
        forall|task: PageTask|
            !(task is Scrape) && result.contains_key("data"@) && result["data"@] is Text
                && base64_bytes(result["data"@]->Text_0) == Ok::<Seq<u8>, Seq<char>>(bytes)
                ==> #[trigger] task_outcome(task, JsonView::Object(result)) == Ok::<
                OutcomeView,
                RestErrorView,
            >(OutcomeView::Bytes(bytes)),
{
}

/// A page whose script gave no value is refused, and so is an answer without bytes.
pub proof fn law_empty_results_are_refused(
    result: Map<Seq<char>, JsonView>,
    task: PageTask,
)
    ensures
        !result.contains_key("result"@) || !(result["result"@] is Object)
            || !result["result"@]->Object_0.contains_key("value"@) ==> task_outcome(
            PageTask::Scrape,
            JsonView::Object(result),
        ) == Err::<OutcomeView, RestErrorView>(
            RestErrorView::InvalidCdpResponse("Runtime.evaluate missing result.value"@),
        ),
        !(task is Scrape) && !result.contains_key("data"@) ==> task_outcome(
            task,
            JsonView::Object(result),
        ) == Err::<OutcomeView, RestErrorView>(
            RestErrorView::InvalidCdpResponse("CDP result missing data"@),
        ),
{
}

/// A job begins by asking for an empty page, with nothing known of it.
pub proof fn law_jobs_begin_with_an_empty_page(options: PageLoadOptions, task: PageTask)
    ensures
        ({
            let job = started(options, task);
            let first = create_target();
            &&& job.stage is Create
            &&& job.pending == 1 && job.connection.next_id == 2
            &&& job.connection.events == Set::<Seq<char>>::empty()
            &&& job.url == options.url@
            &&& job.wait_until == options.wait_until
            &&& job.timeout == options.timeout
            &&& job.task == task
            &&& first.session_id is None
            &&& first.method == "Target.createTarget"@
            &&& first.params is Object
            &&& json::has(first.params->Object_0, "url"@, JsonView::Text("about:blank"@))
        }),
{
}

/// An answer to the command that a job waits for makes it send its next command: attach
/// to the page, have its events told, have its life told, go to the address.
pub proof fn law_pages_are_opened(
    job: JobView,
    members: Map<Seq<char>, JsonView>,
    result: Map<Seq<char>, JsonView>,
    given: Seq<char>,
)
    requires
        job.stage is Create || job.stage is Attach || job.stage is Enable || job.stage is Listen,
        0 <= job.pending <= u64::MAX,
        json::has(members, "id"@, JsonView::Integer(job.pending)),
        json::has(members, "result"@, JsonView::Object(result)),
        job.stage is Create ==> json::has(result, "targetId"@, JsonView::Text(given)),
        job.stage is Attach ==> json::has(result, "sessionId"@, JsonView::Text(given)),
    ensures
        ({
            let after = after_message(job, JsonView::Object(members), None);
            let sent = after.1->Send_0->Object_0;
            let params = sent["params"@]->Object_0;
            &&& after.1 is Send && after.1->Send_0 is Object
            &&& json::has(sent, "id"@, JsonView::Integer(job.connection.next_id))
            &&& after.0.pending == job.connection.next_id
            &&& after.0.url == job.url && after.0.task == job.task && after.0.wait_until
                == job.wait_until && after.0.timeout == job.timeout
            &&& after.0.session_id == if job.stage is Attach {
                given
            } else {
                job.session_id
            }
            &&& job.stage is Create ==> {
                &&& after.0.stage is Attach
                &&& !sent.contains_key("sessionId"@)
                &&& json::has(sent, "method"@, JsonView::Text("Target.attachToTarget"@))
                &&& json::has(params, "targetId"@, JsonView::Text(given))
                &&& json::has(params, "flatten"@, JsonView::Bool(true))
            }
            &&& job.stage is Attach ==> {
                &&& after.0.stage is Enable
                &&& json::has(sent, "sessionId"@, JsonView::Text(given))
                &&& json::has(sent, "method"@, JsonView::Text("Page.enable"@))
            }
            &&& job.stage is Enable ==> {
                &&& after.0.stage is Listen
                &&& json::has(sent, "sessionId"@, JsonView::Text(job.session_id))
                &&& json::has(sent, "method"@, JsonView::Text("Page.setLifecycleEventsEnabled"@))
                &&& json::has(params, "enabled"@, JsonView::Bool(true))
            }
            &&& job.stage is Listen ==> {
                &&& after.0.stage is Navigate
                &&& after.0.connection.events == Set::<Seq<char>>::empty()
                &&& json::has(sent, "sessionId"@, JsonView::Text(job.session_id))
                &&& json::has(sent, "method"@, JsonView::Text("Page.navigate"@))
                &&& json::has(params, "url"@, JsonView::Text(job.url))
            }
        }),
{
    reveal_strlit("targetId");
    reveal_strlit("flatten");
    assert("targetId"@.len() != "flatten"@.len());
    let id = job.connection.next_id;
    cdp::law_requests_say_the_command(id, cdp::attach(given));
    cdp::law_requests_say_the_command(id, cdp::enable_page(Some(given)));
    cdp::law_requests_say_the_command(id, enable_lifecycle(job.session_id));
    cdp::law_requests_say_the_command(id, navigate(job.session_id, job.url));
    assert(cdp::answer_of(JsonView::Object(members), None, job.pending)
        == cdp::AnswerView::Done(JsonView::Object(result)));
}

/// A job whose new page has no target or no session fails.
pub proof fn law_pages_must_be_named(
    job: JobView,
    members: Map<Seq<char>, JsonView>,
    result: Map<Seq<char>, JsonView>,
)
    requires
        0 <= job.pending <= u64::MAX,
        json::has(members, "id"@, JsonView::Integer(job.pending)),
        json::has(members, "result"@, JsonView::Object(result)),
        ({
            ||| job.stage is Create && !(result.contains_key("targetId"@)
                && result["targetId"@] is Text)
            ||| job.stage is Attach && !(result.contains_key("sessionId"@)
                && result["sessionId"@] is Text)
        }),
    ensures
        ({
            let after = after_message(job, JsonView::Object(members), None);
            &&& after.0.stage is Over
            &&& after.1 is Failed && after.1->Failed_0 is InvalidCdpResponse
            &&& after.1->Failed_0->InvalidCdpResponse_0 == "CDP result missing "@ + if job.stage
                is Create {
                "targetId"@
            } else {
                "sessionId"@
            }
        }),
{
    assert(cdp::answer_of(JsonView::Object(members), None, job.pending)
        == cdp::AnswerView::Done(JsonView::Object(result)));
}

/// A job whose navigation was answered fails with the reason that the answer gives;
/// without one it goes on at once where the awaited point in the life of the page is
/// known already, and waits for it otherwise.
pub proof fn law_navigations_are_followed(
    job: JobView,
    members: Map<Seq<char>, JsonView>,
    result: Map<Seq<char>, JsonView>,
    reason: Seq<char>,
)
    requires
        job.stage is Navigate,
        0 <= job.pending <= u64::MAX,
        json::has(members, "id"@, JsonView::Integer(job.pending)),
        json::has(members, "result"@, JsonView::Object(result)),
        !members.contains_key("method"@),
    ensures
        ({
            let event = match job.wait_until {
                WaitUntil::Load => "load"@,
                WaitUntil::DomContentLoaded => "DOMContentLoaded"@,
                WaitUntil::NetworkIdle => "networkIdle"@,
                WaitUntil::NetworkAlmostIdle => "networkAlmostIdle"@,
            };
            let after = after_message(job, JsonView::Object(members), None);
            let refused = json::has(result, "errorText"@, JsonView::Text(reason));
            let clear = !(result.contains_key("errorText"@) && result["errorText"@] is Text);
            &&& refused ==> after.0.stage is Over && after.1 == StepView::Failed(
                RestErrorView::CdpProtocol("Page.navigate failed: "@ + reason),
            )
            &&& clear && job.connection.events.contains(event) ==> after.1 is Send && (
            after.0.stage is Measure || after.0.stage is Finish)
            &&& clear && !job.connection.events.contains(event) ==> after.1 is AwaitLoad
                && after.0.stage is Load
        }),
{
    assert(cdp::answer_of(JsonView::Object(members), None, job.pending)
        == cdp::AnswerView::Done(JsonView::Object(result)));
}

/// The size of a full page is that of its content in the page's own pixels where the
/// browser gives it, and otherwise of its content.
pub proof fn law_full_pages_are_measured(
    job: JobView,
    members: Map<Seq<char>, JsonView>,
    result: Map<Seq<char>, JsonView>,
    size: Map<Seq<char>, JsonView>,
    width: nat,
    height: nat,
)
    requires
        job.stage is Measure,
        0 <= job.pending <= u64::MAX,
        json::has(members, "id"@, JsonView::Integer(job.pending)),
        json::has(members, "result"@, JsonView::Object(result)),
        json::has(result, "cssContentSize"@, JsonView::Object(size))
            || !result.contains_key("cssContentSize"@) && json::has(
            result,
            "contentSize"@,
            JsonView::Object(size),
        ),
        json::has(size, "width"@, JsonView::Integer(width as int)),
        json::has(size, "height"@, JsonView::Integer(height as int)),
    ensures
        ({
            let after = after_message(job, JsonView::Object(members), None);
            &&& after.0.stage is Resize
            &&& after.1 == (StepView::Round {
                width: text::decimal(width),
                height: text::decimal(height),
            })
        }),
{
    assert(cdp::answer_of(JsonView::Object(members), None, job.pending)
        == cdp::AnswerView::Done(JsonView::Object(result)));
}

/// A layout without a size, or with a size that is not made of numbers, is refused.
pub proof fn law_layouts_must_have_a_size(
    result: Map<Seq<char>, JsonView>,
    size: Map<Seq<char>, JsonView>,
)
    ensures
        !result.contains_key("cssContentSize"@) && !result.contains_key("contentSize"@)
            ==> measured(JsonView::Object(result)) == Err::<(Seq<char>, Seq<char>), Seq<char>>(
            "Page.getLayoutMetrics missing content size"@,
        ),
        json::has(result, "cssContentSize"@, JsonView::Object(size)) && !size.contains_key(
            "width"@,
        ) ==> measured(JsonView::Object(result)) == Err::<(Seq<char>, Seq<char>), Seq<char>>(
            "Page.getLayoutMetrics missing numeric "@ + "width"@,
        ),
        json::has(result, "cssContentSize"@, JsonView::Object(size)) && size.contains_key(
            "width"@,
        ) && size["width"@] is Integer && !size.contains_key("height"@) ==> measured(
            JsonView::Object(result),
        ) == Err::<(Seq<char>, Seq<char>), Seq<char>>(
            "Page.getLayoutMetrics missing numeric "@ + "height"@,
        ),
{
}

/// A full page is shown whole, unscaled and as on a desk, and then taken a picture of.
pub proof fn law_full_pages_are_shown_whole(
    job: JobView,
    width: u64,
    height: u64,
    members: Map<Seq<char>, JsonView>,
)
    requires
        job.stage is Resize,
        0 <= job.connection.next_id <= u64::MAX,
        json::has(members, "id"@, JsonView::Integer(job.connection.next_id)),
    ensures
        ({
            let shown = after_size(job, width, height);
            let sent = shown.1->Send_0->Object_0;
            let params = sent["params"@]->Object_0;
            let taken = after_message(shown.0, JsonView::Object(members), None);
            let last = taken.1->Send_0->Object_0;
            &&& shown.1 is Send && shown.0.stage is Override
            &&& json::has(sent, "sessionId"@, JsonView::Text(job.session_id))
            &&& json::has(
                sent,
                "method"@,
                JsonView::Text("Emulation.setDeviceMetricsOverride"@),
            )
            &&& json::has(params, "mobile"@, JsonView::Bool(false))
            &&& json::has(params, "width"@, JsonView::Integer(width as int))
            &&& json::has(params, "height"@, JsonView::Integer(height as int))
            &&& json::has(params, "deviceScaleFactor"@, JsonView::Integer(1))
            &&& json::has(params, "screenWidth"@, JsonView::Integer(width as int))
            &&& json::has(params, "screenHeight"@, JsonView::Integer(height as int))
            &&& taken.1 is Send && taken.0.stage is Finish
            &&& json::has(last, "sessionId"@, JsonView::Text(job.session_id))
            &&& job.task is Screenshot ==> json::has(
                last,
                "method"@,
                JsonView::Text("Page.captureScreenshot"@),
            )
        }),
{
    reveal_strlit("mobile");
    reveal_strlit("width");
    reveal_strlit("height");
    reveal_strlit("deviceScaleFactor");
    reveal_strlit("screenWidth");
    reveal_strlit("screenHeight");
    assert("mobile"@.len() == 6 && "mobile"@[0] == 'm');
    assert("width"@.len() == 5);
    assert("height"@.len() == 6 && "height"@[0] == 'h');
    assert("deviceScaleFactor"@.len() == 17);
    assert("screenWidth"@.len() == 11);
    assert("screenHeight"@.len() == 12);
    let id = job.connection.next_id;
    cdp::law_requests_say_the_command(id, set_size(job.session_id, width, height));
    let shown = after_size(job, width, height).0;
    cdp::law_requests_say_the_command(
        shown.connection.next_id,
        task_command(job.session_id, job.task),
    );
    assert(shown.pending == id);
    assert(!(cdp::answer_of(JsonView::Object(members), None, id) is Other));
}

/// A size that was not asked for changes nothing.
pub proof fn law_sizes_are_taken_once(job: JobView, width: u64, height: u64)
    requires
        !(job.stage is Resize),
    ensures
        after_size(job, width, height) == (job, StepView::Wait),
{
}

/// The answer to the last command is the outcome of the job, and ends it.
pub proof fn law_last_answers_end_jobs(
    job: JobView,
    members: Map<Seq<char>, JsonView>,
    result: JsonView,
)
    requires
        job.stage is Finish,
        0 <= job.pending <= u64::MAX,
        json::has(members, "id"@, JsonView::Integer(job.pending)),
        json::has(members, "result"@, result),
    ensures
        ({
            let after = after_message(job, JsonView::Object(members), None);
            &&& after.0.stage is Over
            &&& match task_outcome(job.task, result) {
                Ok(outcome) => after.1 == StepView::Done(outcome),
                Err(error) => after.1 == StepView::Failed(error),
            }
        }),
{
    assert(cdp::answer_of(JsonView::Object(members), None, job.pending)
        == cdp::AnswerView::Done(result));
}

/// A job fails where its command was refused, with the browser's words, and takes no
/// notice of the answers to other commands.
pub proof fn law_refusals_end_jobs(job: JobView, body: JsonView, error: Option<Seq<char>>)
    requires
        !(job.stage is Load || job.stage is Resize || job.stage is Over),
        0 <= job.pending <= u64::MAX,
    ensures
        ({
            let mine = body is Object && json::has(
                body->Object_0,
                "id"@,
                JsonView::Integer(job.pending),
            );
            let after = after_message(job, body, error);
            &&& mine && error is Some ==> after.0.stage is Over && after.1 == StepView::Failed(
                RestErrorView::CdpProtocol(error->Some_0),
            )
            &&& !mine ==> after.1 is Wait && after.0.stage == job.stage && after.0.pending
                == job.pending
        }),
{
}

/// What ends a job from without: a socket that fails, closes or says nothing in time, and
/// a text that cannot be read. Other frames change nothing.
pub proof fn law_sockets_end_jobs(job: JobView, words: String, source: String)
    requires
        !(job.stage is Resize || job.stage is Over),
    ensures
        job_after(job, SocketEvent::Other) == (job, StepView::Wait),
        job_after(job, SocketEvent::Failed(words)).1 == StepView::Failed(
            RestErrorView::CdpWebSocket(words@),
        ),
        job_after(job, SocketEvent::Failed(words)).0.stage is Over,
        job_after(job, SocketEvent::Closed).1 == StepView::Failed(
            RestErrorView::CdpProtocol("CDP websocket closed"@),
        ),
        job_after(job, SocketEvent::Closed).0.stage is Over,
        job_after(job, SocketEvent::TimedOut).0.stage is Over,
        match json::json_value(source@) {
            Ok(body) => job_after(job, SocketEvent::Text(source)) == after_message(
                job,
                body,
                json::error_text(body),
            ),
            Err(fault) => job_after(job, SocketEvent::Text(source)).0.stage is Over && job_after(
                job,
                SocketEvent::Text(source),
            ).1 == StepView::Failed(RestErrorView::CdpProtocol(fault)),
        },
        job_after(job, SocketEvent::TimedOut).1 == StepView::Failed(
            RestErrorView::CdpTimeout(
                match job.stage {
                    Stage::Create => "Target.createTarget"@,
                    Stage::Attach => "Target.attachToTarget"@,
                    Stage::Enable => "Page.enable"@,
                    Stage::Listen => "Page.setLifecycleEventsEnabled"@,
                    Stage::Navigate => "Page.navigate"@,
                    Stage::Load => "Page.lifecycleEvent"@,
                    Stage::Measure => "Page.getLayoutMetrics"@,
                    Stage::Override => "Emulation.setDeviceMetricsOverride"@,
                    _ => match job.task {
                        PageTask::Scrape => "Runtime.evaluate"@,
                        PageTask::Screenshot { .. } => "Page.captureScreenshot"@,
                        PageTask::Pdf(_) => "Page.printToPDF"@,
                    },
                },
            ),
        ),
{
}

/// Every command of a job has the next number, and its answer is waited for under it.
pub proof fn law_commands_are_numbered(job: JobView, stage: Stage, command: CommandView)
    requires
        0 <= job.connection.next_id <= u64::MAX,
    ensures
        ({
            let asked = asks(job, stage, command);
            let id = job.connection.next_id;
            &&& asked.0.pending == id
            &&& asked.0.connection.next_id == if id < u64::MAX {
                id + 1
            } else {
                0
            }
            &&& asked.0.connection.events == job.connection.events
            &&& asked.0.stage == stage
            &&& asked.1 is Send && asked.1->Send_0 is Object && json::has(
                asked.1->Send_0->Object_0,
                "id"@,
                JsonView::Integer(id),
            )
            &&& asked.0.session_id == job.session_id && asked.0.task == job.task
        }),
{
    cdp::law_requests_say_the_command(job.connection.next_id, command);
}

/// A step is the one that is meant: of the same kind, with the same words, and a text that
/// is sent says the message that is meant.
pub proof fn law_steps_are_the_ones_meant(step: JobStep, view: StepView)
    requires
        takes_step(step, view),
    ensures
        step is Wait <==> view is Wait,
        step is Send <==> view is Send,
        step is AwaitLoad <==> view is AwaitLoad,
        step is Round <==> view is Round,
        step is Done <==> view is Done,
        step is Failed <==> view is Failed,
        step is Send ==> step->Send_0@ == json::json_text(view->Send_0) && json::json_value(
            step->Send_0@,
        ) == Ok::<JsonView, Seq<char>>(view->Send_0),
        step is Round ==> step->Round_width@ == view->Round_width && step->Round_height@
            == view->Round_height,
        step is Done ==> step->Done_0@ == view->Done_0,
        step is Failed ==> step->Failed_0@ == view->Failed_0,
{
}

}

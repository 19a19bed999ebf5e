//! The requests of the HTTP interface: who may make them, what they ask for and how
//! they are answered.
use vstd::prelude::*;
use crate::config::AppConfig;
use crate::id;
use crate::json;
use crate::json::Json;
use crate::json::JsonView;
use crate::metrics;
use crate::metrics::PoolMetrics;
use crate::pool;
use crate::pool::LaunchPlan;
use crate::pool::PoolError;
use crate::pool::PoolReadiness;
use crate::pool::ResourceSample;
use crate::pool::SessionEntry;
use crate::pool::SessionHandle;
use crate::pool::SessionInfo;
use crate::pool::SessionOverrides;
use crate::pool::SessionPool;
use crate::rest;
use crate::rest::PageLoadOptions;
use crate::rest::PageTask;
use crate::rest::RestEndpointError;
use crate::rest::RestErrorView;
use crate::rest::ScreenshotFormat;
use crate::span::Now;
use crate::span::WallClock;
use crate::text;

verus! {

/// The headers of a request that matter here, each where it is readable text.
#[derive(Clone, Debug)]
pub struct RequestHeaders {
    pub authorization: Option<String>,
    pub host: Option<String>,
    pub forwarded_proto: Option<String>,
}

/// What the query part of an address says.
#[derive(Clone, Debug)]
pub struct SessionQuery {
    pub token: Option<String>,
    pub stealth: Option<bool>,
    pub launch: Option<String>,
    pub proxy: Option<String>,
    pub extension_paths: Option<String>,
    pub persistent_profile_id: Option<String>,
}

/// What the body of a request for a session says.
#[derive(Clone, Debug)]
pub struct CreateSessionRequest {
    pub stealth_enabled: Option<bool>,
    pub extra_chrome_args: Option<Vec<String>>,
    pub proxy: Option<String>,
    pub extension_paths: Option<Vec<String>>,
    pub persistent_profile_id: Option<String>,
}

/// What the body of a request to scrape a page says.
#[derive(Clone, Debug)]
pub struct ScrapeRequest {
    pub url: String,
    pub wait_until: Option<String>,
    pub timeout_ms: Option<u64>,
    pub proxy: Option<String>,
    pub extension_paths: Option<Vec<String>>,
    pub persistent_profile_id: Option<String>,
}

/// What the body of a request for a picture of a page says.
#[derive(Clone, Debug)]
pub struct ScreenshotRequest {
    pub url: String,
    pub wait_until: Option<String>,
    pub timeout_ms: Option<u64>,
    pub full_page: Option<bool>,
    pub format: Option<String>,
    pub proxy: Option<String>,
    pub extension_paths: Option<Vec<String>>,
    pub persistent_profile_id: Option<String>,
}

/// What the body of a request to print a page says.
#[derive(Clone, Debug)]
pub struct PdfRequest {
    pub url: String,
    pub wait_until: Option<String>,
    pub timeout_ms: Option<u64>,
    pub format: Option<String>,
    pub landscape: Option<bool>,
    pub print_background: Option<bool>,
    pub proxy: Option<String>,
    pub extension_paths: Option<Vec<String>>,
    pub persistent_profile_id: Option<String>,
}

/// What the parameter `launch` of an address says.
#[derive(Clone, Debug)]
pub struct LaunchQuery {
    pub args: Option<Vec<String>>,
    pub stealth: Option<bool>,
    pub proxy: Option<String>,
    pub extension_paths: Option<Vec<String>>,
    pub persistent_profile_id: Option<String>,
}

/// What the parameter `launch` of an address says.
#[verifier::ext_equal]
pub struct LaunchView {
    pub args: Option<Seq<Seq<char>>>,
    pub stealth: Option<bool>,
    pub proxy: Option<Seq<char>>,
    pub extension_paths: Option<Seq<Seq<char>>>,
    pub persistent_profile_id: Option<Seq<char>>,
}

impl View for LaunchQuery {
    type V = LaunchView;

    open spec fn view(&self) -> LaunchView {
        LaunchView {
            args: json::opt_texts(self.args),
            stealth: self.stealth,
            proxy: text::opt_text(self.proxy),
            extension_paths: json::opt_texts(self.extension_paths),
            persistent_profile_id: text::opt_text(self.persistent_profile_id),
        }
    }
}

/// What five values say as the parts of a launch parameter.
pub open spec fn launch_parts(
    args: Option<Seq<Seq<char>>>,
    stealth: Option<bool>,
    proxy: Option<Seq<char>>,
    extension_paths: Option<Seq<Seq<char>>>,
    persistent_profile_id: Option<Seq<char>>,
) -> LaunchView {
    LaunchView { args, stealth, proxy, extension_paths, persistent_profile_id }
}

/// What an object says as a launch parameter, or the words that refuse the member that
/// is first in the order of names.
pub open spec fn named_launch(value: JsonView) -> Result<LaunchView, Seq<char>> {
    match json::optional_texts(json::member_or_null(value, "args"@), "a string"@) {
        Err(words) => Err(words),
        Ok(args) => match json::optional_texts(
            json::member_or_null(value, "extensionPaths"@),
            "path string"@,
        ) {
            Err(words) => Err(words),
            Ok(paths) => match json::optional_text(
                json::member_or_null(value, "persistentProfileId"@),
            ) {
                Err(words) => Err(words),
                Ok(profile) => match json::optional_text(json::member_or_null(value, "proxy"@)) {
                    Err(words) => Err(words),
                    Ok(proxy) => match json::optional_bool(
                        json::member_or_null(value, "stealth"@),
                    ) {
                        Err(words) => Err(words),
                        Ok(stealth) => Ok(launch_parts(args, stealth, proxy, paths, profile)),
                    },
                },
            },
        },
    }
}

/// The words of an error in the length of an array.
pub open spec fn length_error(len: nat, expected: Seq<char>) -> Seq<char> {
    "invalid length "@ + text::decimal(len) + ", expected "@ + expected
}

/// The item at a place of an array that should have five, or null; behind the end, what
/// is wrong with the length.
pub open spec fn item_at(items: Seq<JsonView>, at: int) -> Result<JsonView, Seq<char>> {
    if at < items.len() {
        Ok(items[at])
    } else {
        Err(length_error(items.len(), "struct LaunchQuery with 5 elements"@))
    }
}

/// What is read of an item that may not be there.
pub open spec fn read_item<T>(
    item: Result<JsonView, Seq<char>>,
    read: spec_fn(JsonView) -> Result<T, Seq<char>>,
) -> Result<T, Seq<char>> {
    match item {
        Ok(value) => read(value),
        Err(words) => Err(words),
    }
}

/// What an array says as a launch parameter, or the words that refuse its first bad
/// item or its length: its items are the arguments, the disguise, the proxy, the
/// extensions and the profile.
pub open spec fn listed_launch(items: Seq<JsonView>) -> Result<LaunchView, Seq<char>> {
    let strings = |value: JsonView| json::optional_texts(value, "a string"@);
    let paths = |value: JsonView| json::optional_texts(value, "path string"@);
    let string = |value: JsonView| json::optional_text(value);
    let flag = |value: JsonView| json::optional_bool(value);
    match read_item(item_at(items, 0), strings) {
        Err(words) => Err(words),
        Ok(args) => match read_item(item_at(items, 1), flag) {
            Err(words) => Err(words),
            Ok(stealth) => match read_item(item_at(items, 2), string) {
                Err(words) => Err(words),
                Ok(proxy) => match read_item(item_at(items, 3), paths) {
                    Err(words) => Err(words),
                    Ok(extensions) => match read_item(item_at(items, 4), string) {
                        Err(words) => Err(words),
                        Ok(profile) => if items.len() > 5 {
                            Err(length_error(items.len(), "fewer elements in array"@))
                        } else {
                            Ok(launch_parts(args, stealth, proxy, extensions, profile))
                        },
                    },
                },
            },
        },
    }
}

/// What a value says as a launch parameter, or the words that refuse it.
pub open spec fn launch_of(value: JsonView) -> Result<LaunchView, Seq<char>> {
    match value {
        JsonView::Object(_) => named_launch(value),
        JsonView::Array(items) => listed_launch(items),
        _ => Err(json::type_error(value, "struct LaunchQuery"@)),
    }
}

fn texts_member(value: &Json, name: &str, expected: &str) -> (res: Result<
    Option<Vec<String>>,
    String,
>)
    ensures
        match json::optional_texts(json::member_or_null(value@, name@), expected@) {
            Ok(list) => res is Ok && json::opt_texts(res->Ok_0) == list,
            Err(words) => res is Err && res->Err_0@ == words,
        },
{
    match value.get(name) {
        Some(found) => found.to_texts(expected),
        None => Ok(None),
    }
}

fn text_member(value: &Json, name: &str) -> (res: Result<Option<String>, String>)
    ensures
        match json::optional_text(json::member_or_null(value@, name@)) {
            Ok(read) => res is Ok && text::opt_text(res->Ok_0) == read,
            Err(words) => res is Err && res->Err_0@ == words,
        },
{
    match value.get(name) {
        Some(found) => found.to_text(),
        None => Ok(None),
    }
}

fn read_named_launch(value: &Json) -> (res: Result<LaunchQuery, String>)
    ensures
        match named_launch(value@) {
            Ok(launch) => res is Ok && res->Ok_0@ == launch,
            Err(words) => res is Err && res->Err_0@ == words,
        },
{
    let args = match texts_member(value, "args", "a string") {
        Ok(args) => args,
        Err(words) => return Err(words),
    };
    let extension_paths = match texts_member(value, "extensionPaths", "path string") {
        Ok(paths) => paths,
        Err(words) => return Err(words),
    };
    let persistent_profile_id = match text_member(value, "persistentProfileId") {
        Ok(profile) => profile,
        Err(words) => return Err(words),
    };
    let proxy = match text_member(value, "proxy") {
        Ok(proxy) => proxy,
        Err(words) => return Err(words),
    };
    let read = match value.get("stealth") {
        Some(found) => found.to_bool(),
        None => Ok(None),
    };
    match read {
        Ok(stealth) => Ok(
            LaunchQuery { args, stealth, proxy, extension_paths, persistent_profile_id },
        ),
        Err(words) => Err(words),
    }
}

fn length_words(len: usize, expected: &str) -> (res: String)
    ensures
        res@ == length_error(len as nat, expected@),
{
    let mut words = "invalid length ".to_owned();
    text::push_decimal(&mut words, len as u64);
    words.append(", expected ");
    words.append(expected);
    words
}

fn find_item(items: &Vec<Json>, at: usize) -> (res: Result<&Json, String>)
    ensures
        match item_at(json::items_view(items@), at as int) {
            Ok(item) => res is Ok && res->Ok_0@ == item,
            Err(words) => res is Err && res->Err_0@ == words,
        },
{
    proof {
        json::lemma_items_len(items@);
    }
    if at < items.len() {
        proof {
            json::lemma_item(items@, at as int);
        }
        Ok(&items[at])
    } else {
        Err(length_words(items.len(), "struct LaunchQuery with 5 elements"))
    }
}

fn read_listed_launch(items: &Vec<Json>) -> (res: Result<LaunchQuery, String>)
    ensures
        match listed_launch(json::items_view(items@)) {
            Ok(launch) => res is Ok && res->Ok_0@ == launch,
            Err(words) => res is Err && res->Err_0@ == words,
        },
{
    let read = match find_item(items, 0) {
        Ok(item) => item.to_texts("a string"),
        Err(words) => Err(words),
    };
    let args = match read {
        Ok(args) => args,
        Err(words) => return Err(words),
    };
    let read = match find_item(items, 1) {
        Ok(item) => item.to_bool(),
        Err(words) => Err(words),
    };
    let stealth = match read {
        Ok(stealth) => stealth,
        Err(words) => return Err(words),
    };
    let read = match find_item(items, 2) {
        Ok(item) => item.to_text(),
        Err(words) => Err(words),
    };
    let proxy = match read {
        Ok(proxy) => proxy,
        Err(words) => return Err(words),
    };
    let read = match find_item(items, 3) {
        Ok(item) => item.to_texts("path string"),
        Err(words) => Err(words),
    };
    let extension_paths = match read {
        Ok(paths) => paths,
        Err(words) => return Err(words),
    };
    let read = match find_item(items, 4) {
        Ok(item) => item.to_text(),
        Err(words) => Err(words),
    };
    let persistent_profile_id = match read {
        Ok(profile) => profile,
        Err(words) => return Err(words),
    };
    proof {
        json::lemma_items_len(items@);
    }
    if items.len() > 5 {
        return Err(length_words(items.len(), "fewer elements in array"));
    }
    Ok(LaunchQuery { args, stealth, proxy, extension_paths, persistent_profile_id })
}

/// What a value says as a launch parameter, or the words that refuse it.
pub fn read_launch(value: &Json) -> (res: Result<LaunchQuery, String>)
    ensures
        match launch_of(value@) {
            Ok(launch) => res is Ok && res->Ok_0@ == launch,
            Err(words) => res is Err && res->Err_0@ == words,
        },
{
    match value {
        Json::Object(_) => read_named_launch(value),
        Json::Array(items) => read_listed_launch(items),
        _ => Err(value.refuse("struct LaunchQuery")),
    }
}

/// What the parameter `launch` of an address says, where it is there and not blank,
/// or the words of an error in it.
pub open spec fn launch_parameter(raw: Option<Seq<char>>) -> Result<Option<LaunchView>, Seq<char>> {
    match raw {
        None => Ok(None),
        Some(source) => if text::is_blank(source) {
            Ok(None)
        } else {
            match json::json_value(source) {
                Err(words) => Err("invalid launch query JSON: "@ + words),
                Ok(value) => match launch_of(value) {
                    Ok(launch) => Ok(Some(launch)),
                    Err(words) => Err("invalid launch query shape: "@ + words),
                },
            }
        },
    }
}

/// What an optional launch parameter says.
pub open spec fn opt_launch(launch: Option<LaunchQuery>) -> Option<LaunchView> {
    match launch {
        Some(query) => Some(query@),
        None => None,
    }
}

/// What the parameter `launch` of an address says.
pub fn parse_launch_query(raw_launch: Option<&str>) -> (res: Result<Option<LaunchQuery>, String>)
    ensures
        match launch_parameter(text::opt_str(raw_launch)) {
            Ok(launch) => res is Ok && opt_launch(res->Ok_0) == launch,
            Err(words) => res is Err && res->Err_0@ == words,
        },
{
    let source = match raw_launch {
        Some(source) => source,
        None => return Ok(None),
    };
    if text::blank(source) {
        return Ok(None);
    }
    let value = match json::parse(source) {
        Ok(value) => value,
        Err(words) => return Err("invalid launch query JSON: ".to_owned().concat(words.as_str())),
    };
    match read_launch(&value) {
        Ok(launch) => Ok(Some(launch)),
        Err(words) => Err("invalid launch query shape: ".to_owned().concat(words.as_str())),
    }
}

/// A text without the white space around it, where something is left of it.
pub open spec fn filled(value: Option<Seq<char>>) -> Option<Seq<char>> {
    match value {
        Some(given) => if text::is_blank(given) {
            None
        } else {
            Some(text::trim(given))
        },
        None => None,
    }
}

/// The first of two values that is there.
pub open spec fn either<A>(first: Option<A>, second: Option<A>) -> Option<A> {
    match first {
        Some(value) => Some(value),
        None => second,
    }
}

/// A list, or the empty one where there is none.
pub open spec fn list_or_empty(list: Option<Seq<Seq<char>>>) -> Seq<Seq<char>> {
    match list {
        Some(items) => items,
        None => Seq::empty(),
    }
}

/// The first of two lists that is not empty.
pub open spec fn first_list(first: Seq<Seq<char>>, second: Seq<Seq<char>>) -> Seq<Seq<char>> {
    if first.len() > 0 {
        first
    } else {
        second
    }
}

/// What a caller wants of a session.
#[verifier::ext_equal]
pub struct WishView {
    pub stealth_enabled: Option<bool>,
    pub extra_chrome_args: Seq<Seq<char>>,
    pub proxy: Option<Seq<char>>,
    pub extension_paths: Seq<Seq<char>>,
    pub persistent_profile_id: Option<Seq<char>>,
}

/// What a caller wants of a session.
pub open spec fn wish_view(wanted: SessionOverrides) -> WishView {
    WishView {
        stealth_enabled: wanted.stealth_enabled,
        extra_chrome_args: text::texts(wanted.extra_chrome_args@),
        proxy: text::opt_text(wanted.proxy),
        extension_paths: text::texts(wanted.extension_paths@),
        persistent_profile_id: text::opt_text(wanted.persistent_profile_id),
    }
}

/// The wishes of the launch parameter alone.
pub open spec fn launch_wishes(launch: Option<LaunchView>) -> WishView {
    match launch {
        Some(given) => WishView {
            stealth_enabled: given.stealth,
            extra_chrome_args: list_or_empty(given.args),
            proxy: filled(given.proxy),
            extension_paths: text::non_empty(list_or_empty(given.extension_paths)),
            persistent_profile_id: filled(given.persistent_profile_id),
        },
        None => no_wishes(),
    }
}

/// The wishes of the other parameters of an address alone.
pub open spec fn query_wishes(query: SessionQuery) -> WishView {
    WishView {
        stealth_enabled: query.stealth,
        extra_chrome_args: Seq::empty(),
        proxy: filled(text::opt_text(query.proxy)),
        extension_paths: match query.extension_paths {
            Some(list) => text::comma_parts(list@),
            None => Seq::empty(),
        },
        persistent_profile_id: filled(text::opt_text(query.persistent_profile_id)),
    }
}

/// The wishes of the body of a request alone.
pub open spec fn payload_wishes(payload: Option<CreateSessionRequest>) -> WishView {
    match payload {
        Some(given) => WishView {
            stealth_enabled: given.stealth_enabled,
            extra_chrome_args: list_or_empty(json::opt_texts(given.extra_chrome_args)),
            proxy: filled(text::opt_text(given.proxy)),
            extension_paths: text::non_empty(list_or_empty(json::opt_texts(given.extension_paths))),
            persistent_profile_id: filled(text::opt_text(given.persistent_profile_id)),
        },
        None => no_wishes(),
    }
}

/// No wishes.
pub open spec fn no_wishes() -> WishView {
    WishView {
        stealth_enabled: None,
        extra_chrome_args: Seq::empty(),
        proxy: None,
        extension_paths: Seq::empty(),
        persistent_profile_id: None,
    }
}

/// Two wishes, of which the first comes before the second wherever both say something;
/// extra arguments add up, those of the second in front.
pub open spec fn over(first: WishView, second: WishView) -> WishView {
    WishView {
        stealth_enabled: either(first.stealth_enabled, second.stealth_enabled),
        extra_chrome_args: second.extra_chrome_args + first.extra_chrome_args,
        proxy: either(first.proxy, second.proxy),
        extension_paths: first_list(first.extension_paths, second.extension_paths),
        persistent_profile_id: either(first.persistent_profile_id, second.persistent_profile_id),
    }
}

/// What a request wants of a session: the body comes before the parameters of the
/// address, and these before the launch parameter.
pub open spec fn wishes(
    query: SessionQuery,
    launch: Option<LaunchView>,
    payload: Option<CreateSessionRequest>,
) -> WishView {
    over(payload_wishes(payload), over(query_wishes(query), launch_wishes(launch)))
}

/// A text without the white space around it, where something is left of it.
pub fn trimmed_optional(value: Option<&str>) -> (res: Option<String>)
    ensures
        text::opt_text(res) == filled(text::opt_str(value)),
{
    match value {
        Some(given) => {
            let trimmed = text::trimmed(given);
            if trimmed.as_str().is_empty() {
                None
            } else {
                Some(trimmed)
            }
        },
        None => None,
    }
}

fn trimmed_string(value: &Option<String>) -> (res: Option<String>)
    ensures
        text::opt_text(res) == filled(text::opt_text(*value)),
{
    match value {
        Some(given) => trimmed_optional(Some(given.as_str())),
        None => None,
    }
}

fn first_given(first: Option<String>, second: Option<String>) -> (res: Option<String>)
    ensures
        text::opt_text(res) == either(text::opt_text(first), text::opt_text(second)),
{
    match first {
        Some(value) => Some(value),
        None => second,
    }
}

/// The paths of a comma-separated list.
pub fn parse_query_extension_paths(value: Option<&str>) -> (res: Vec<String>)
    ensures
        text::texts(res@) == match value {
            Some(list) => text::comma_parts(list@),
            None => Seq::empty(),
        },
{
    match value {
        Some(list) => text::comma_separated(list),
        None => {
            let none: Vec<String> = Vec::new();
            assert(text::texts(none@) =~= Seq::<Seq<char>>::empty());
            none
        },
    }
}

/// The paths that are not empty.
pub fn clean_extension_paths(paths: &Vec<String>) -> (res: Vec<String>)
    ensures
        text::texts(res@) == text::non_empty(text::texts(paths@)),
{
    let ghost all = text::texts(paths@);
    let mut kept: Vec<String> = Vec::new();
    let mut i: usize = 0;
    assert(text::texts(kept@) =~= text::non_empty(all.take(0))) by {
        reveal(Seq::filter);
    }
    while i < paths.len()
        invariant
            i <= paths.len(),
            all == text::texts(paths@),
            text::texts(kept@) == text::non_empty(all.take(i as int)),
        decreases paths.len() - i,
    {
        assert(text::non_empty(all.take(i + 1)) == if all[i as int].len() > 0 {
            text::non_empty(all.take(i as int)).push(all[i as int])
        } else {
            text::non_empty(all.take(i as int))
        }) by {
            reveal(Seq::filter);
            assert(all.take(i + 1).drop_last() =~= all.take(i as int));
            assert(all.take(i + 1).last() == all[i as int]);
        }
        if !paths[i].as_str().is_empty() {
            text::push_text(&mut kept, paths[i].as_str());
        }
        i += 1;
    }
    assert(all.take(paths.len() as int) =~= all);
    kept
}

fn clean_optional_paths(paths: &Option<Vec<String>>) -> (res: Vec<String>)
    ensures
        text::texts(res@) == text::non_empty(list_or_empty(json::opt_texts(*paths))),
{
    match paths {
        Some(list) => clean_extension_paths(list),
        None => {
            let none: Vec<String> = Vec::new();
            assert(text::texts(none@) =~= text::non_empty(Seq::<Seq<char>>::empty())) by {
                reveal(Seq::filter);
            }
            none
        },
    }
}

/// What a request wants of a session, given what its launch parameter says.
pub fn combine_wishes(
    query: &SessionQuery,
    launch: Option<LaunchQuery>,
    payload: Option<CreateSessionRequest>,
) -> (res: SessionOverrides)
    ensures
        wish_view(res) == wishes(*query, opt_launch(launch), payload),
{
    assert(text::non_empty(Seq::<Seq<char>>::empty()) =~= Seq::<Seq<char>>::empty()) by {
        reveal(Seq::filter);
    }
    let mut extra_chrome_args: Vec<String> = Vec::new();
    let mut stealth_enabled: Option<bool> = None;
    let mut proxy: Option<String> = None;
    let mut extension_paths: Vec<String> = Vec::new();
    let mut persistent_profile_id: Option<String> = None;
    assert(text::texts(extra_chrome_args@) =~= Seq::<Seq<char>>::empty());
    assert(text::texts(extension_paths@) =~= Seq::<Seq<char>>::empty());
    match launch {
        Some(given) => {
            match given.args {
                Some(args) => {
                    extra_chrome_args = args;
                },
                None => {},
            }
            stealth_enabled = given.stealth;
            proxy = trimmed_string(&given.proxy);
            extension_paths = clean_optional_paths(&given.extension_paths);
            persistent_profile_id = trimmed_string(&given.persistent_profile_id);
        },
        None => {},
    }
    match query.stealth {
        Some(enabled) => {
            stealth_enabled = Some(enabled);
        },
        None => {},
    }
    proxy = first_given(trimmed_string(&query.proxy), proxy);
    let listed = match &query.extension_paths {
        Some(list) => parse_query_extension_paths(Some(list.as_str())),
        None => parse_query_extension_paths(None),
    };
    if listed.len() > 0 {
        extension_paths = listed;
    }
    persistent_profile_id = first_given(
        trimmed_string(&query.persistent_profile_id),
        persistent_profile_id,
    );
    let ghost below = over(query_wishes(*query), launch_wishes(opt_launch(launch)));
    assert(text::texts(extra_chrome_args@) =~= below.extra_chrome_args);
    assert(text::texts(extension_paths@) == below.extension_paths);
    match payload {
        Some(given) => {
            match given.stealth_enabled {
                Some(enabled) => {
                    stealth_enabled = Some(enabled);
                },
                None => {},
            }
            proxy = first_given(trimmed_string(&given.proxy), proxy);
            let own = clean_optional_paths(&given.extension_paths);
            if own.len() > 0 {
                extension_paths = own;
            }
            persistent_profile_id = first_given(
                trimmed_string(&given.persistent_profile_id),
                persistent_profile_id,
            );
            match given.extra_chrome_args {
                Some(args) => {
                    text::push_texts(&mut extra_chrome_args, &args);
                },
                None => {},
            }
        },
        None => {},
    }
    let wanted = SessionOverrides {
        stealth_enabled,
        extra_chrome_args,
        proxy,
        extension_paths,
        persistent_profile_id,
    };
    assert(wish_view(wanted) =~= wishes(*query, opt_launch(launch), payload));
    wanted
}

/// What a request wants of a session, or the words of an error in its launch parameter.
pub fn session_overrides(query: &SessionQuery, payload: Option<CreateSessionRequest>) -> (res: Result<
    SessionOverrides,
    String,
>)
    ensures
        match launch_parameter(text::opt_text(query.launch)) {
            Ok(launch) => res is Ok && wish_view(res->Ok_0) == wishes(*query, launch, payload),
            Err(words) => res is Err && res->Err_0@ == words,
        },
{
    let parsed = match &query.launch {
        Some(source) => parse_launch_query(Some(source.as_str())),
        None => parse_launch_query(None),
    };
    match parsed {
        Ok(launch) => Ok(combine_wishes(query, launch, payload)),
        Err(words) => Err(words),
    }
}

/// The body of a request for a session that says what the body of a request for a page
/// says of its session.
pub open spec fn page_payload(
    proxy: Option<String>,
    extension_paths: Option<Vec<String>>,
    persistent_profile_id: Option<String>,
) -> CreateSessionRequest {
    CreateSessionRequest {
        stealth_enabled: None,
        extra_chrome_args: None,
        proxy,
        extension_paths,
        persistent_profile_id,
    }
}

/// What a request for a page wants of its session.
pub fn rest_session_overrides(
    query: &SessionQuery,
    proxy: Option<String>,
    extension_paths: Option<Vec<String>>,
    persistent_profile_id: Option<String>,
) -> (res: Result<SessionOverrides, String>)
    ensures
        match launch_parameter(text::opt_text(query.launch)) {
            Ok(launch) => res is Ok && wish_view(res->Ok_0) == wishes(
                *query,
                launch,
                Some(page_payload(proxy, extension_paths, persistent_profile_id)),
            ),
            Err(words) => res is Err && res->Err_0@ == words,
        },
{
    let payload = if proxy.is_some() || extension_paths.is_some()
        || persistent_profile_id.is_some() {
        Some(
            CreateSessionRequest {
                stealth_enabled: None,
                extra_chrome_args: None,
                proxy,
                extension_paths,
                persistent_profile_id,
            },
        )
    } else {
        assert(text::non_empty(Seq::<Seq<char>>::empty()) =~= Seq::<Seq<char>>::empty()) by {
            reveal(Seq::filter);
        }
        assert(payload_wishes(Some(page_payload(proxy, extension_paths, persistent_profile_id)))
            =~= no_wishes());
        None
    };
    session_overrides(query, payload)
}

/// The answer to a request that is not met: a status of HTTP and words.
#[derive(Clone, Debug)]
pub struct ApiError {
    pub status: u16,
    pub error: String,
}

/// The answer to a request that is not met.
#[verifier::ext_equal]
pub struct ApiErrorView {
    pub status: int,
    pub error: Seq<char>,
}

impl View for ApiError {
    type V = ApiErrorView;

    open spec fn view(&self) -> ApiErrorView {
        ApiErrorView { status: self.status as int, error: self.error@ }
    }
}

/// The answer to one who may not make a request.
pub open spec fn unauthorized() -> ApiErrorView {
    ApiErrorView { status: 401, error: "unauthorized"@ }
}

/// The answer to one who asks for a session that is not there.
pub open spec fn not_found() -> ApiErrorView {
    ApiErrorView { status: 404, error: "session not found"@ }
}

/// The status that an error of the pool is answered with.
pub open spec fn pool_status(error: PoolError) -> int {
    match error {
        PoolError::AtCapacity | PoolError::CapacityTimeout => 503,
        PoolError::PersistentProfilesDisabled | PoolError::InvalidPersistentProfileId(_) => 400,
        PoolError::NotFound(_) => 404,
        PoolError::NotConnectable(_) => 409,
        PoolError::Browser(_) => 500,
    }
}

/// What an error of the pool is answered with.
pub open spec fn pool_reply(error: PoolError) -> ApiErrorView {
    ApiErrorView { status: pool_status(error), error: error.words() }
}

/// What an error of a job on a page is answered with.
pub open spec fn rest_reply(error: RestErrorView) -> ApiErrorView {
    match error {
        RestErrorView::BadRequest(words) => ApiErrorView { status: 400, error: words },
        RestErrorView::Pool(error) => pool_reply(error),
        RestErrorView::CdpTimeout(method) => ApiErrorView {
            status: 504,
            error: method + " timed out"@,
        },
        RestErrorView::CdpWebSocket(words) => ApiErrorView {
            status: 502,
            error: "CDP websocket failed: "@ + words,
        },
        RestErrorView::CdpProtocol(words) => ApiErrorView {
            status: 502,
            error: "CDP command failed: "@ + words,
        },
        RestErrorView::InvalidCdpResponse(words) => ApiErrorView { status: 502, error: words },
        RestErrorView::Decode(words) => ApiErrorView {
            status: 502,
            error: "CDP base64 decode failed: "@ + words,
        },
    }
}

fn api_error(status: u16, error: &str) -> (res: ApiError)
    ensures
        res@ == (ApiErrorView { status: status as int, error: error@ }),
{
    ApiError { status, error: error.to_owned() }
}

/// What an error of the pool is answered with.
pub fn pool_error(error: &PoolError) -> (res: ApiError)
    ensures
        res@ == pool_reply(*error),
{
    let status: u16 = match error {
        PoolError::AtCapacity | PoolError::CapacityTimeout => 503,
        PoolError::PersistentProfilesDisabled | PoolError::InvalidPersistentProfileId(_) => 400,
        PoolError::NotFound(_) => 404,
        PoolError::NotConnectable(_) => 409,
        PoolError::Browser(_) => 500,
    };
    ApiError { status, error: error.message() }
}

/// What an error of a job on a page is answered with.
pub fn rest_endpoint_error(error: RestEndpointError) -> (res: ApiError)
    ensures
        res@ == rest_reply(error@),
{
    match error {
        RestEndpointError::BadRequest(words) => ApiError { status: 400, error: words },
        RestEndpointError::Pool(error) => pool_error(&error),
        RestEndpointError::CdpTimeout(method) => {
            let mut words = method.to_owned();
            words.append(" timed out");
            ApiError { status: 504, error: words }
        },
        RestEndpointError::CdpWebSocket(words) => ApiError {
            status: 502,
            error: "CDP websocket failed: ".to_owned().concat(words.as_str()),
        },
        RestEndpointError::CdpProtocol(words) => ApiError {
            status: 502,
            error: "CDP command failed: ".to_owned().concat(words.as_str()),
        },
        RestEndpointError::InvalidCdpResponse(words) => ApiError { status: 502, error: words },
        RestEndpointError::Decode(words) => ApiError {
            status: 502,
            error: "CDP base64 decode failed: ".to_owned().concat(words.as_str()),
        },
    }
}

/// The token that a header brings.
pub open spec fn bearer_token(headers: RequestHeaders) -> Option<Seq<char>> {
    match headers.authorization {
        Some(value) => text::after_prefix(value@, "Bearer "@),
        None => None,
    }
}

/// Whether a request may be made: no token is expected, or the address or a header
/// brings the one that is.
pub open spec fn may_ask(
    secret: Option<Seq<char>>,
    headers: RequestHeaders,
    query_token: Option<Seq<char>>,
) -> bool {
    match secret {
        None => true,
        Some(_) => query_token == secret || bearer_token(headers) == secret,
    }
}

/// The token of a request: that of the address, else that of the header.
pub open spec fn token_of(
    headers: RequestHeaders,
    query_token: Option<Seq<char>>,
) -> Option<Seq<char>> {
    either(query_token, bearer_token(headers))
}

fn header_token(headers: &RequestHeaders) -> (res: Option<String>)
    ensures
        text::opt_text(res) == bearer_token(*headers),
{
    match &headers.authorization {
        Some(value) => text::strip_prefix(value.as_str(), "Bearer "),
        None => None,
    }
}

/// Whether a request may be made where `secret` is expected.
pub fn authorized(secret: Option<&str>, headers: &RequestHeaders, query_token: Option<&str>) -> (res:
    bool)
    ensures
        res == may_ask(text::opt_str(secret), *headers, text::opt_str(query_token)),
{
    let expected = match secret {
        Some(expected) => expected,
        None => return true,
    };
    match query_token {
        Some(token) => if text::str_eq(token, expected) {
            return true;
        },
        None => {},
    }
    match header_token(headers) {
        Some(token) => text::str_eq(token.as_str(), expected),
        None => false,
    }
}

/// The token of a request.
pub fn request_token(headers: &RequestHeaders, query_token: Option<&str>) -> (res: Option<String>)
    ensures
        text::opt_text(res) == token_of(*headers, text::opt_str(query_token)),
{
    match query_token {
        Some(token) => Some(token.to_owned()),
        None => header_token(headers),
    }
}

/// Whether a byte stands for itself in an address.
pub open spec fn is_unreserved(byte: u8) -> bool {
    ||| 48 <= byte <= 57
    ||| 65 <= byte <= 90
    ||| 97 <= byte <= 122
    ||| byte == 45
    ||| byte == 46
    ||| byte == 95
    ||| byte == 126
}

/// A hexadecimal digit, in upper case.
pub open spec fn upper_hex(digit: u8) -> char {
    if digit < 10 {
        (48 + digit) as char
    } else {
        (55 + digit) as char
    }
}

/// A byte as it stands in an address.
pub open spec fn byte_in_address(byte: u8) -> Seq<char> {
    if is_unreserved(byte) {
        seq![byte as char]
    } else {
        seq!['%', upper_hex(byte / 16), upper_hex(byte % 16)]
    }
}

/// Bytes as they stand in an address.
pub open spec fn bytes_in_address(bytes: Seq<u8>) -> Seq<char>
    decreases bytes.len(),
{
    if bytes.len() == 0 {
        Seq::empty()
    } else {
        bytes_in_address(bytes.drop_last()) + byte_in_address(bytes.last())
    }
}

/// A text as it stands in an address.
pub open spec fn text_in_address(value: Seq<char>) -> Seq<char> {
    bytes_in_address(vstd::utf8::encode_utf8(value))
}

/// Calls `urlencoding::encode`: of the UTF-8 bytes of a text, ASCII letters and digits
/// and the four marks `-`, `.`, `_` and `~` stay, and every other becomes a percent
/// sign and two hexadecimal digits in upper case.
#[verifier::external_body]
fn percent_encode(value: &str) -> (res: String)
    ensures
        res@ == text_in_address(value@),
{
    urlencoding::encode(value).into_owned()
}

/// The scheme of a socket behind a proxy that was asked over a protocol.
pub open spec fn socket_scheme(forwarded_proto: Option<Seq<char>>) -> Seq<char> {
    match forwarded_proto {
        Some(proto) => if text::lower(proto) == "https"@ {
            "wss"@
        } else {
            "ws"@
        },
        None => "ws"@,
    }
}

/// Where a request was sent to.
pub open spec fn asked_host(host: Option<Seq<char>>) -> Seq<char> {
    match host {
        Some(name) => name,
        None => "127.0.0.1:3000"@,
    }
}

/// The address of the socket of a session, for one who asked with these headers, with
/// a token where one is given.
pub open spec fn session_address(
    headers: RequestHeaders,
    id: u128,
    token: Option<Seq<char>>,
) -> Seq<char> {
    let address = socket_scheme(text::opt_text(headers.forwarded_proto)) + "://"@ + asked_host(
        text::opt_text(headers.host),
    ) + "/sessions/"@ + id::id_name(id) + "/cdp"@;
    match token {
        Some(given) => address + "?token="@ + text_in_address(given),
        None => address,
    }
}

/// The address of the socket of a session.
pub fn cdp_ws_url(headers: &RequestHeaders, id: u128, token: Option<&str>) -> (res: String)
    ensures
        res@ == session_address(*headers, id, text::opt_str(token)),
{
    let secure = match &headers.forwarded_proto {
        Some(proto) => text::str_eq(text::lowered(proto.as_str()).as_str(), "https"),
        None => false,
    };
    let mut url = if secure {
        "wss".to_owned()
    } else {
        "ws".to_owned()
    };
    url.append("://");
    match &headers.host {
        Some(host) => {
            url.append(host.as_str());
        },
        None => {
            url.append("127.0.0.1:3000");
        },
    }
    url.append("/sessions/");
    url.append(id::name_text(id).as_str());
    url.append("/cdp");
    match token {
        Some(given) => {
            url.append("?token=");
            url.append(percent_encode(given).as_str());
        },
        None => {},
    }
    url
}

/// A character as it stands in the text of an HTML page.
pub open spec fn html_char(c: char) -> Seq<char> {
    if c == '&' {
        "&amp;"@
    } else if c == '<' {
        "&lt;"@
    } else if c == '>' {
        "&gt;"@
    } else if c == '"' {
        "&quot;"@
    } else {
        seq![c]
    }
}

/// A text as it stands in an HTML page.
pub open spec fn html_text(value: Seq<char>) -> Seq<char>
    decreases value.len(),
{
    if value.len() == 0 {
        Seq::empty()
    } else {
        html_text(value.drop_last()) + html_char(value.last())
    }
}

/// A text as it stands in an HTML page.
pub fn escape_html(value: &str) -> (res: String)
    ensures
        res@ == html_text(value@),
{
    let mut out = String::new();
    for c in it: value.chars()
        invariant
            it.seq() == value@,
            out@ == html_text(value@.take(it.index() as int)),
    {
        assert(value@.take(it.index() + 1).drop_last() =~= value@.take(it.index() as int));
        let ghost before = out@;
        if c == '&' {
            out.append("&amp;");
        } else if c == '<' {
            out.append("&lt;");
        } else if c == '>' {
            out.append("&gt;");
        } else if c == '"' {
            out.append("&quot;");
        } else {
            out.push(c);
        }
        assert(out@ =~= before + html_char(c));
    }
    assert(value@.take(value@.len() as int) =~= value@);
    out
}

/// A page or another target that a browser lists.
#[derive(Clone, Debug)]
pub struct CdpTargetDescriptor {
    pub target_type: String,
    pub devtools_frontend_url: Option<String>,
}

/// What follows the scheme in the address of a socket.
pub open spec fn after_socket_scheme(url: Seq<char>) -> Option<Seq<char>> {
    either(text::after_prefix(url, "ws://"@), text::after_prefix(url, "wss://"@))
}

/// The address of the HTTP server beside the socket of a browser.
pub open spec fn http_base(browser_ws_url: Seq<char>) -> Option<Seq<char>> {
    match after_socket_scheme(browser_ws_url) {
        Some(rest) => match text::cut_at(rest, "/devtools/"@) {
            Some(halves) => Some("http://"@ + halves.0),
            None => None,
        },
        None => None,
    }
}

/// The address of the developer tools for a socket.
pub open spec fn inspector(socket: Seq<char>) -> Seq<char> {
    "devtools://devtools/bundled/inspector.html?ws="@ + socket
}

/// The address of the developer tools for the socket of a browser.
pub open spec fn inspector_of(ws_url: Seq<char>) -> Option<Seq<char>> {
    match after_socket_scheme(ws_url) {
        Some(socket) => Some(inspector(socket)),
        None => None,
    }
}

/// The address of the developer tools for the first page that a browser lists.
pub open spec fn inspector_of_page(targets: Seq<CdpTargetDescriptor>) -> Option<Seq<char>>
    decreases targets.len(),
{
    if targets.len() == 0 {
        None
    } else if targets[0].target_type@ == "page"@ {
        match targets[0].devtools_frontend_url {
            Some(url) => match text::cut_at(url@, "ws="@) {
                Some(halves) => Some(inspector(halves.1)),
                None => None,
            },
            None => None,
        }
    } else {
        inspector_of_page(targets.skip(1))
    }
}

fn without_socket_scheme(url: &str) -> (res: Option<String>)
    ensures
        text::opt_text(res) == after_socket_scheme(url@),
{
    match text::strip_prefix(url, "ws://") {
        Some(rest) => Some(rest),
        None => text::strip_prefix(url, "wss://"),
    }
}

/// The address of the HTTP server beside the socket of a browser.
pub fn cdp_http_base_url(browser_ws_url: &str) -> (res: Option<String>)
    ensures
        text::opt_text(res) == http_base(browser_ws_url@),
{
    match without_socket_scheme(browser_ws_url) {
        Some(rest) => match text::split_once(rest.as_str(), "/devtools/") {
            Some(halves) => Some("http://".to_owned().concat(halves.0.as_str())),
            None => None,
        },
        None => None,
    }
}

/// The address of the developer tools for the socket of a browser.
pub fn devtools_url_from_ws(ws_url: &str) -> (res: Option<String>)
    ensures
        text::opt_text(res) == inspector_of(ws_url@),
{
    match without_socket_scheme(ws_url) {
        Some(socket) => Some(
            "devtools://devtools/bundled/inspector.html?ws=".to_owned().concat(socket.as_str()),
        ),
        None => None,
    }
}

/// The address of the developer tools for the first page that a browser lists.
pub fn target_devtools_link(targets: &Vec<CdpTargetDescriptor>) -> (res: Option<String>)
    ensures
        text::opt_text(res) == inspector_of_page(targets@),
{
    let mut i: usize = 0;
    assert(targets@.skip(0) =~= targets@);
    while i < targets.len()
        invariant
            i <= targets.len(),
            inspector_of_page(targets@) == inspector_of_page(targets@.skip(i as int)),
        decreases targets.len() - i,
    {
        assert(targets@.skip(i as int).skip(1) =~= targets@.skip(i + 1));
        assert(targets@.skip(i as int)[0] == targets@[i as int]);
        if text::str_eq(targets[i].target_type.as_str(), "page") {
            return match &targets[i].devtools_frontend_url {
                Some(url) => match text::split_once(url.as_str(), "ws=") {
                    Some(halves) => Some(
                        "devtools://devtools/bundled/inspector.html?ws=".to_owned().concat(
                            halves.1.as_str(),
                        ),
                    ),
                    None => None,
                },
                None => None,
            };
        }
        i += 1;
    }
    None
}

/// The address of the developer tools for a session: that of its first page where the
/// targets could be listed and have one, else that of its browser.
pub open spec fn session_inspector(
    browser_ws_url: Option<Seq<char>>,
    targets: Option<Vec<CdpTargetDescriptor>>,
) -> Option<Seq<char>> {
    match browser_ws_url {
        Some(ws_url) => {
            let of_page = match (http_base(ws_url), targets) {
                (Some(_), Some(listed)) => inspector_of_page(listed@),
                _ => None,
            };
            either(of_page, inspector_of(ws_url))
        },
        None => None,
    }
}

/// The address of the developer tools for a session, given the targets that its
/// browser lists.
pub fn session_devtools_link(
    browser_ws_url: Option<&str>,
    targets: &Option<Vec<CdpTargetDescriptor>>,
) -> (res: Option<String>)
    ensures
        text::opt_text(res) == session_inspector(text::opt_str(browser_ws_url), *targets),
{
    let ws_url = match browser_ws_url {
        Some(ws_url) => ws_url,
        None => return None,
    };
    match cdp_http_base_url(ws_url) {
        Some(_) => match targets {
            Some(listed) => match target_devtools_link(listed) {
                Some(link) => return Some(link),
                None => {},
            },
            None => {},
        },
        None => {},
    }
    devtools_url_from_ws(ws_url)
}

/// What the page of all sessions begins with.
pub const PAGE_HEAD: &'static str =
    r#"<!doctype html><html><head><meta charset="utf-8"><title>Eiger Sessions</title><style>body{font-family:system-ui,sans-serif;margin:24px;color:#111827}table{border-collapse:collapse;width:100%}th,td{border-bottom:1px solid #e5e7eb;padding:8px;text-align:left}th{font-size:12px;text-transform:uppercase;color:#6b7280}td{font-variant-numeric:tabular-nums}a{color:#0369a1}</style></head><body><h1>Sessions</h1><table><thead><tr><th>id</th><th>state</th><th>age</th><th>idle</th><th>rss</th><th>cpu</th><th>pid</th><th>devtools</th></tr></thead><tbody>"#;

/// What the page of all sessions ends with.
pub const PAGE_FOOT: &'static str = "</tbody></table></body></html>";

/// A session on the page of all sessions, with the address of its developer tools.
#[derive(Debug)]
pub struct SessionRow {
    pub info: SessionInfo,
    pub devtools: Option<String>,
}

/// A cell of a table.
pub open spec fn cell(content: Seq<char>) -> Seq<char> {
    "<td>"@ + content + "</td>"@
}

/// A number in digits, or nothing.
pub open spec fn digits_or_nothing(number: Option<nat>) -> Seq<char> {
    match number {
        Some(value) => text::decimal(value),
        None => Seq::empty(),
    }
}

/// The row of a session.
pub open spec fn row_html(row: SessionRow) -> Seq<char> {
    let info = row.info;
    "<tr>"@ + cell(html_text(id::id_name(info.id))) + cell(html_text(pool::state_name(info.state)))
        + cell(text::decimal(info.age_seconds as nat)) + cell(
        text::decimal(info.idle_seconds as nat),
    ) + cell(
        digits_or_nothing(
            match info.rss_bytes {
                Some(bytes) => Some(bytes as nat),
                None => None,
            },
        ),
    ) + cell(
        match info.cpu_percent {
            Some(cpu) => cpu.rounded@,
            None => Seq::empty(),
        },
    ) + cell(
        digits_or_nothing(
            match info.pid {
                Some(pid) => Some(pid as nat),
                None => None,
            },
        ),
    ) + cell(
        "<a href=\""@ + html_text(
            match row.devtools {
                Some(link) => link@,
                None => "#"@,
            },
        ) + "\">devtools</a>"@,
    ) + "</tr>"@
}

/// The rows of some sessions.
pub open spec fn rows_html(rows: Seq<SessionRow>) -> Seq<char>
    decreases rows.len(),
{
    if rows.len() == 0 {
        Seq::empty()
    } else {
        rows_html(rows.drop_last()) + row_html(rows.last())
    }
}

/// The page of some sessions.
pub open spec fn page_html(rows: Seq<SessionRow>) -> Seq<char> {
    PAGE_HEAD@ + rows_html(rows) + PAGE_FOOT@
}

fn push_cell(out: &mut String, content: &str)
    ensures
        final(out)@ == old(out)@ + cell(content@),
{
    let ghost before = out@;
    out.append("<td>");
    out.append(content);
    out.append("</td>");
    assert(out@ =~= before + cell(content@));
}

fn opt_digits(number: Option<u64>) -> (res: String)
    ensures
        res@ == digits_or_nothing(
            match number {
                Some(value) => Some(value as nat),
                None => None,
            },
        ),
{
    match number {
        Some(value) => text::decimal_text(value),
        None => String::new(),
    }
}

fn row_text(row: &SessionRow) -> (res: String)
    ensures
        res@ == row_html(*row),
{
    let info = &row.info;
    let mut out = "<tr>".to_owned();
    push_cell(&mut out, escape_html(id::name_text(info.id).as_str()).as_str());
    push_cell(&mut out, escape_html(info.state.text()).as_str());
    push_cell(&mut out, text::decimal_text(info.age_seconds).as_str());
    push_cell(&mut out, text::decimal_text(info.idle_seconds).as_str());
    push_cell(&mut out, opt_digits(info.rss_bytes).as_str());
    let cpu = match &info.cpu_percent {
        Some(cpu) => cpu.rounded.clone(),
        None => String::new(),
    };
    push_cell(&mut out, cpu.as_str());
    let pid = match info.pid {
        Some(pid) => text::decimal_text(pid as u64),
        None => String::new(),
    };
    push_cell(&mut out, pid.as_str());
    let link = match &row.devtools {
        Some(link) => escape_html(link.as_str()),
        None => escape_html("#"),
    };
    let mut anchor = "<a href=\"".to_owned();
    anchor.append(link.as_str());
    anchor.append("\">devtools</a>");
    push_cell(&mut out, anchor.as_str());
    out.append("</tr>");
    out
}

/// The page of some sessions.
pub fn sessions_page(rows: &Vec<SessionRow>) -> (res: String)
    ensures
        res@ == page_html(rows@),
{
    let mut html = PAGE_HEAD.to_owned();
    let mut i: usize = 0;
    assert(html@ =~= PAGE_HEAD@ + rows_html(rows@.take(0)));
    while i < rows.len()
        invariant
            i <= rows.len(),
            html@ == PAGE_HEAD@ + rows_html(rows@.take(i as int)),
        decreases rows.len() - i,
    {
        assert(rows@.take(i + 1).drop_last() =~= rows@.take(i as int));
        html.append(row_text(&rows[i]).as_str());
        assert(html@ =~= PAGE_HEAD@ + rows_html(rows@.take(i + 1)));
        i += 1;
    }
    assert(rows@.take(rows.len() as int) =~= rows@);
    html.append(PAGE_FOOT);
    html
}

/// The first of some links that was made for a session.
pub open spec fn link_of(links: Seq<(u128, String)>, id: u128) -> Option<Seq<char>>
    decreases links.len(),
{
    if links.len() == 0 {
        None
    } else if links[0].0 == id {
        Some(links[0].1@)
    } else {
        link_of(links.skip(1), id)
    }
}

fn find_link(links: &Vec<(u128, String)>, id: u128) -> (res: Option<String>)
    ensures
        text::opt_text(res) == link_of(links@, id),
{
    let mut i: usize = 0;
    assert(links@.skip(0) =~= links@);
    while i < links.len()
        invariant
            i <= links.len(),
            link_of(links@, id) == link_of(links@.skip(i as int), id),
        decreases links.len() - i,
    {
        assert(links@.skip(i as int).skip(1) =~= links@.skip(i + 1));
        if links[i].0 == id {
            return Some(links[i].1.clone());
        }
        i += 1;
    }
    None
}

/// The sessions of some rows.
pub open spec fn row_infos(rows: Seq<SessionRow>) -> Seq<SessionInfo> {
    Seq::new(rows.len(), |i: int| rows[i].info)
}

/// Whether each row has the link that was made for its session.
pub open spec fn rows_are_linked(rows: Seq<SessionRow>, links: Seq<(u128, String)>) -> bool {
    forall|i: int|
        0 <= i < rows.len() ==> text::opt_text((#[trigger] rows[i]).devtools) == link_of(
            links,
            rows[i].info.id,
        )
}

/// What is reported of a session that was created.
#[derive(Clone, Debug)]
pub struct CreatedSessionResponse {
    pub id: u128,
    pub pid: u32,
    pub cdp_ws_url: String,
    pub created_at: WallClock,
}

/// A job on a page that a request asks for: how its session is launched, how its page
/// is loaded and what is done with it.
#[derive(Debug)]
pub struct PageRequest {
    pub plan: LaunchPlan,
    pub options: PageLoadOptions,
    pub task: PageTask,
}

/// Why a session is ended that a client has left.
pub const REASON_DISCONNECTED: &'static str = "cdp websocket disconnected";

/// Why a session is ended whose job is done.
pub const REASON_COMPLETED: &'static str = "rest endpoint completed";

/// Why a session is ended that someone has deleted.
pub const REASON_DELETED: &'static str = "delete requested";

/// What the HTTP interface works with: the pool, and the token that is expected.
pub struct ApiState {
    pub pool: SessionPool,
    pub token: Option<String>,
}

/// Whether a session is launched as a request wants it, or the error with which the
/// request is answered.
pub open spec fn launches(
    outcome: Result<LaunchPlan, ApiErrorView>,
    pool: SessionPool,
    query: SessionQuery,
    payload: Option<CreateSessionRequest>,
) -> bool {
    match launch_parameter(text::opt_text(query.launch)) {
        Err(words) => outcome == Err::<LaunchPlan, ApiErrorView>(
            ApiErrorView { status: 400, error: words },
        ),
        Ok(launch) => exists|wanted: SessionOverrides, planned: Result<LaunchPlan, PoolError>|
            {
                &&& wish_view(wanted) == wishes(query, launch, payload)
                &&& #[trigger] pool::plans(planned, pool.limits(), pool.launch_base(), wanted)
                &&& outcome == match planned {
                    Ok(plan) => Ok::<LaunchPlan, ApiErrorView>(plan),
                    Err(error) => Err(pool_reply(error)),
                }
            },
    }
}

/// The status of an answer to the question whether the service is ready.
pub open spec fn ready_status(ready: bool) -> int {
    if ready {
        200
    } else {
        503
    }
}

/// Whether a response tells of a new session.
pub open spec fn tells(
    response: CreatedSessionResponse,
    handle: pool::HandleView,
    entry: Option<SessionEntry>,
    address: Seq<char>,
    now: Now,
) -> bool {
    &&& response.id == handle.id
    &&& response.pid == handle.pid
    &&& response.cdp_ws_url@ == address
    &&& response.created_at == match entry {
        Some(found) => found.created_at,
        None => now.wall,
    }
}

/// Whether a job is the one that a request to scrape a page asks for.
pub open spec fn asks_to_scrape(request: PageRequest, payload: ScrapeRequest) -> bool {
    &&& rest::loads(
        request.options,
        payload.url@,
        text::opt_text(payload.wait_until),
        payload.timeout_ms,
    )
    &&& request.task == PageTask::Scrape
}

/// Whether a job is the one that a request for a picture asks for.
pub open spec fn asks_for_picture(request: PageRequest, payload: ScreenshotRequest) -> bool {
    &&& rest::loads(
        request.options,
        payload.url@,
        text::opt_text(payload.wait_until),
        payload.timeout_ms,
    )
    &&& request.task is Screenshot
    &&& rest::screenshot_format_of(text::opt_text(payload.format)) == Some(
        request.task->Screenshot_format,
    )
    &&& request.task->Screenshot_full_page == rest::is_set(payload.full_page)
}

/// Whether a job is the one that a request for a print asks for.
pub open spec fn asks_for_print(request: PageRequest, payload: PdfRequest) -> bool {
    &&& rest::loads(
        request.options,
        payload.url@,
        text::opt_text(payload.wait_until),
        payload.timeout_ms,
    )
    &&& request.task is Pdf
    &&& paper_of(payload.format) is Ok
    &&& request.task->Pdf_0.params_view() == rest::print_params(
        rest::is_set(payload.landscape),
        rest::is_set(payload.print_background),
        paper_of(payload.format)->Ok_0,
    )
}

/// An outcome, with what an error says.
pub open spec fn told<T>(outcome: Result<T, ApiError>) -> Result<T, ApiErrorView> {
    match outcome {
        Ok(value) => Ok(value),
        Err(error) => Err(error@),
    }
}

/// The part of an outcome that says how a session is launched.
pub open spec fn plan_part(outcome: Result<PageRequest, ApiError>) -> Result<LaunchPlan, ApiErrorView> {
    match outcome {
        Ok(request) => Ok(request.plan),
        Err(error) => Err(error@),
    }
}

/// The body of a request for a page as far as it speaks of the session.
pub open spec fn scrape_payload(payload: ScrapeRequest) -> CreateSessionRequest {
    page_payload(payload.proxy, payload.extension_paths, payload.persistent_profile_id)
}

/// The body of a request for a picture as far as it speaks of the session.
pub open spec fn screenshot_payload(payload: ScreenshotRequest) -> CreateSessionRequest {
    page_payload(payload.proxy, payload.extension_paths, payload.persistent_profile_id)
}

/// The body of a request to print as far as it speaks of the session.
pub open spec fn pdf_payload(payload: PdfRequest) -> CreateSessionRequest {
    page_payload(payload.proxy, payload.extension_paths, payload.persistent_profile_id)
}

fn opt_as_str(value: &Option<String>) -> (res: Option<&str>)
    ensures
        text::opt_str(res) == text::opt_text(*value),
{
    match value {
        Some(given) => Some(given.as_str()),
        None => None,
    }
}

impl ApiState {
    /// The token that is expected.
    pub open spec fn secret(self) -> Option<Seq<char>> {
        text::opt_text(self.token)
    }

    /// Whether a request may be made.
    pub open spec fn admits(self, headers: RequestHeaders, query: SessionQuery) -> bool {
        may_ask(self.secret(), headers, text::opt_text(query.token))
    }

    /// An interface to a pool, with the token of a configuration.
    pub fn new(pool: SessionPool, config: &AppConfig) -> (res: ApiState)
        ensures
            res.pool == pool,
            res.secret() == text::opt_text(config.auth.token),
    {
        ApiState { pool, token: text::clone_opt(&config.auth.token) }
    }

    /// Whether a request that may not be made is answered as such.
    pub open spec fn refuses<T>(
        self,
        headers: RequestHeaders,
        query: SessionQuery,
        outcome: Result<T, ApiErrorView>,
    ) -> bool {
        !self.admits(headers, query) ==> outcome == Err::<T, ApiErrorView>(unauthorized())
    }

    /// Whether a request for a session that is not there is answered as such.
    pub open spec fn misses<T>(
        self,
        headers: RequestHeaders,
        query: SessionQuery,
        id: u128,
        outcome: Result<T, ApiErrorView>,
    ) -> bool {
        self.admits(headers, query) && !self.pool@.sessions.contains_key(id) ==> outcome is Err
            && outcome->Err_0.status == 404
    }

    /// Lets a request through, or answers it.
    pub fn check(&self, headers: &RequestHeaders, query: &SessionQuery) -> (res: Result<(), ApiError>)
        ensures
            self.refuses(*headers, *query, told(res)),
            told(res) == if self.admits(*headers, *query) {
                Ok::<(), ApiErrorView>(())
            } else {
                Err(unauthorized())
            },
    {
        if authorized(opt_as_str(&self.token), headers, opt_as_str(&query.token)) {
            Ok(())
        } else {
            Err(api_error(401, "unauthorized"))
        }
    }

    /// Whether the pool is ready, with the status of HTTP that says so.
    pub fn ready(&self) -> (res: (u16, PoolReadiness))
        requires
            self.pool.wf(),
        ensures
            res.0 == if self.pool.room() > 0 && self.pool@.launch_ready {
                200
            } else {
                503int
            },
            res.1.can_accept_sessions == (self.pool.room() > 0 && self.pool@.launch_ready),
            res.0 == ready_status(
                pool::accepts(self.pool@, self.pool.limits().max_concurrent_sessions as nat),
            ),
            res.1.available_capacity == self.pool.room(),
            res.1.active_sessions == self.pool@.sessions.dom().len(),
            res.1.max_concurrent_sessions == self.pool.limits().max_concurrent_sessions,
            res.1.browser_launch_ready == self.pool@.launch_ready,
            text::opt_text(res.1.last_browser_launch_error) == self.pool@.launch_error,
            res.1.status@ == if res.1.can_accept_sessions {
                "ready"@
            } else {
                "not_ready"@
            },
    {
        let readiness = self.pool.readiness();
        let status: u16 = if readiness.can_accept_sessions {
            200
        } else {
            503
        };
        (status, readiness)
    }

    fn plan(&self, wanted: Result<SessionOverrides, String>) -> (res: Result<LaunchPlan, ApiError>)
        ensures
            match wanted {
                Err(words) => told(res) == Err::<LaunchPlan, ApiErrorView>(
                    ApiErrorView { status: 400, error: words@ },
                ),
                Ok(wishes) => exists|planned: Result<LaunchPlan, PoolError>|
                    {
                        &&& #[trigger] pool::plans(
                            planned,
                            self.pool.limits(),
                            self.pool.launch_base(),
                            wishes,
                        )
                        &&& told(res) == match planned {
                            Ok(plan) => Ok::<LaunchPlan, ApiErrorView>(plan),
                            Err(error) => Err(pool_reply(error)),
                        }
                    },
            },
    {
        match wanted {
            Ok(wanted) => match self.pool.plan_launch(wanted) {
                Ok(plan) => Ok(plan),
                Err(error) => Err(pool_error(&error)),
            },
            Err(words) => Err(ApiError { status: 400, error: words }),
        }
    }

    /// How the session is launched that a request asks for, or the answer to it.
    pub fn create_session(
        &self,
        headers: &RequestHeaders,
        query: &SessionQuery,
        payload: Option<CreateSessionRequest>,
    ) -> (res: Result<LaunchPlan, ApiError>)
        ensures
            self.refuses(*headers, *query, told(res)),
            if self.admits(*headers, *query) {
                launches(told(res), self.pool, *query, payload)
            } else {
                told(res) == Err::<LaunchPlan, ApiErrorView>(unauthorized())
            },
    {
        match self.check(headers, query) {
            Ok(_) => {},
            Err(error) => return Err(error),
        }
        self.plan(session_overrides(query, payload))
    }

    /// How the session is launched that a client wants to connect to right away, or
    /// the answer to the client.
    pub fn connect_new_session(&self, headers: &RequestHeaders, query: &SessionQuery) -> (res: Result<
        LaunchPlan,
        ApiError,
    >)
        ensures
            self.refuses(*headers, *query, told(res)),
            if self.admits(*headers, *query) {
                launches(told(res), self.pool, *query, None)
            } else {
                told(res) == Err::<LaunchPlan, ApiErrorView>(unauthorized())
            },
    {
        self.create_session(headers, query, None)
    }

    /// What is reported of a session that was created on a request. Where the session is
    /// gone already, it was created just now.
    pub fn created_session(
        &self,
        headers: &RequestHeaders,
        query: &SessionQuery,
        handle: &SessionHandle,
        now: Now,
    ) -> (res: CreatedSessionResponse)
        ensures
            res.id == handle@.id,
            res.pid == handle@.pid,
            res.cdp_ws_url@ == session_address(
                *headers,
                handle@.id,
                token_of(*headers, text::opt_text(query.token)),
            ),
            tells(
                res,
                handle@,
                self.pool@.sessions.get(handle@.id),
                session_address(
                    *headers,
                    handle@.id,
                    token_of(*headers, text::opt_text(query.token)),
                ),
                now,
            ),
            res.created_at == match self.pool@.sessions.get(handle@.id) {
                Some(entry) => entry.created_at,
                None => now.wall,
            },
    {
        let id: u128 = handle.id();
        let token = request_token(headers, opt_as_str(&query.token));
        let created_at = match self.pool.get_session(id, None, now) {
            Some(info) => info.created_at,
            None => now.wall,
        };
        CreatedSessionResponse {
            id,
            pid: handle.pid(),
            cdp_ws_url: cdp_ws_url(headers, id, opt_as_str(&token)),
            created_at,
        }
    }

    /// All sessions, or the answer to one who may not ask for them.
    pub fn list_sessions(
        &self,
        headers: &RequestHeaders,
        query: &SessionQuery,
        samples: &Vec<(u32, ResourceSample)>,
        now: Now,
    ) -> (res: Result<Vec<SessionInfo>, ApiError>)
        requires
            self.pool.wf(),
        ensures
            self.refuses(*headers, *query, told(res)),
            if self.admits(*headers, *query) {
                res is Ok && pool::lists(res->Ok_0@, self.pool@.sessions, samples@, now)
            } else {
                res is Err && res->Err_0@ == unauthorized()
            },
    {
        match self.check(headers, query) {
            Ok(_) => Ok(self.pool.list_sessions(samples, now)),
            Err(error) => Err(error),
        }
    }

    /// The page of all sessions, given the links to the developer tools of some, or the
    /// answer to one who may not ask for it.
    pub fn view_sessions(
        &self,
        headers: &RequestHeaders,
        query: &SessionQuery,
        samples: &Vec<(u32, ResourceSample)>,
        links: &Vec<(u128, String)>,
        now: Now,
    ) -> (res: Result<String, ApiError>)
        requires
            self.pool.wf(),
        ensures
            self.refuses(*headers, *query, told(res)),
            if self.admits(*headers, *query) {
                &&& res is Ok
                &&& exists|rows: Seq<SessionRow>|
                    {
                        &&& pool::lists(row_infos(rows), self.pool@.sessions, samples@, now)
                        &&& rows_are_linked(rows, links@)
                        &&& res->Ok_0@ == #[trigger] page_html(rows)
                    }
            } else {
                res is Err && res->Err_0@ == unauthorized()
            },
    {
        match self.check(headers, query) {
            Ok(_) => {},
            Err(error) => return Err(error),
        }
        let infos = self.pool.list_sessions(samples, now);
        let ghost listed = infos@;
        let mut rows: Vec<SessionRow> = Vec::new();
        for info in it: infos
            invariant
                it.seq() == listed,
                rows.len() == it.index(),
                forall|j: int| 0 <= j < rows.len() ==> (#[trigger] rows@[j]).info == listed[j],
                rows_are_linked(rows@, links@),
        {
            let devtools = find_link(links, info.id);
            rows.push(SessionRow { info, devtools });
        }
        assert(row_infos(rows@) =~= listed);
        Ok(sessions_page(&rows))
    }

    /// A session, or the answer where it is not there or one may not ask for it.
    pub fn get_session(
        &self,
        headers: &RequestHeaders,
        query: &SessionQuery,
        id: u128,
        sample: Option<ResourceSample>,
        now: Now,
    ) -> (res: Result<SessionInfo, ApiError>)
        ensures
            self.refuses(*headers, *query, told(res)),
            self.misses(*headers, *query, id, told(res)),
            if self.admits(*headers, *query) {
                match self.pool@.sessions.get(id) {
                    Some(entry) => res is Ok && pool::describes(res->Ok_0, entry, sample, now),
                    None => res is Err && res->Err_0@ == not_found(),
                }
            } else {
                res is Err && res->Err_0@ == unauthorized()
            },
    {
        match self.check(headers, query) {
            Ok(_) => {},
            Err(error) => return Err(error),
        }
        match self.pool.get_session(id, sample, now) {
            Some(info) => Ok(info),
            None => Err(api_error(404, "session not found")),
        }
    }

    /// Takes a session out of the pool, to be ended, or gives the answer where it is
    /// not there or one may not ask for it.
    pub fn delete_session(&mut self, headers: &RequestHeaders, query: &SessionQuery, id: u128) -> (res:
        Result<SessionEntry, ApiError>)
        requires
            old(self).pool.wf(),
        ensures
            old(self).refuses(*headers, *query, told(res)),
            old(self).misses(*headers, *query, id, told(res)),
            final(self).pool.wf(),
            final(self).pool.same_settings(old(self).pool),
            final(self).secret() == old(self).secret(),
            if old(self).admits(*headers, *query) {
                &&& final(self).pool@ == pool::after_terminate(old(self).pool@, id, REASON_DELETED@)
                &&& match old(self).pool@.sessions.get(id) {
                    Some(entry) => res is Ok && pool::ending(entry, res->Ok_0, REASON_DELETED@),
                    None => res is Err && res->Err_0@ == not_found(),
                }
            } else {
                &&& final(self).pool@ == old(self).pool@
                &&& res is Err
                &&& res->Err_0@ == unauthorized()
            },
    {
        match self.check(headers, query) {
            Ok(_) => {},
            Err(error) => return Err(error),
        }
        match self.pool.terminate_session(id, REASON_DELETED) {
            Some(entry) => Ok(entry),
            None => Err(api_error(404, "session not found")),
        }
    }

    /// The metrics in the text form of Prometheus, or the answer to one who may not
    /// ask for them.
    pub fn metrics(
        &self,
        headers: &RequestHeaders,
        query: &SessionQuery,
        samples: &Vec<(u32, ResourceSample)>,
        now: Now,
    ) -> (res: Result<String, ApiError>)
        requires
            self.pool.wf(),
        ensures
            self.refuses(*headers, *query, told(res)),
            if self.admits(*headers, *query) {
                &&& res is Ok
                &&& exists|taken: PoolMetrics|
                    {
                        &&& #[trigger] pool::measures(
                            taken,
                            self.pool@,
                            self.pool.limits(),
                            samples@,
                            now,
                        )
                        &&& res->Ok_0@ == metrics::prometheus_page(taken)
                    }
            } else {
                res is Err && res->Err_0@ == unauthorized()
            },
    {
        match self.check(headers, query) {
            Ok(_) => {
                let taken = self.pool.metrics(samples, now);
                Ok(metrics::render_prometheus(&taken))
            },
            Err(error) => Err(error),
        }
    }

    /// Takes a session into use for a client, or gives the answer to the client.
    pub fn connect_existing_session(
        &mut self,
        headers: &RequestHeaders,
        query: &SessionQuery,
        id: u128,
        now: Now,
    ) -> (res: Result<SessionHandle, ApiError>)
        requires
            old(self).pool.wf(),
        ensures
            old(self).refuses(*headers, *query, told(res)),
            old(self).misses(*headers, *query, id, told(res)),
            final(self).pool.wf(),
            final(self).pool.same_settings(old(self).pool),
            final(self).secret() == old(self).secret(),
            if old(self).admits(*headers, *query) {
                &&& final(self).pool@ == pool::after_connect(old(self).pool@, id, now)
                &&& match pool::connect_outcome(old(self).pool@, id) {
                    pool::ConnectOutcome::Connected => res is Ok && res->Ok_0@ == pool::handle_view(
                        old(self).pool@.sessions[id],
                    ),
                    pool::ConnectOutcome::NotConnectable => res is Err && res->Err_0@ == pool_reply(
                        PoolError::NotConnectable(id),
                    ),
                    pool::ConnectOutcome::NotFound => res is Err && res->Err_0@ == pool_reply(
                        PoolError::NotFound(id),
                    ),
                }
            } else {
                &&& final(self).pool@ == old(self).pool@
                &&& res is Err
                &&& res->Err_0@ == unauthorized()
            },
    {
        match self.check(headers, query) {
            Ok(_) => {},
            Err(error) => return Err(error),
        }
        match self.pool.connect_session(id, now) {
            Ok(handle) => Ok(handle),
            Err(error) => Err(pool_error(&error)),
        }
    }

    /// The job that a request to scrape a page asks for, or the answer to it.
    pub fn scrape(&self, headers: &RequestHeaders, query: &SessionQuery, payload: ScrapeRequest) -> (res:
        Result<PageRequest, ApiError>)
        ensures
            self.refuses(*headers, *query, told(res)),
            res is Ok ==> asks_to_scrape(res->Ok_0, payload),
            if !self.admits(*headers, *query) {
                res is Err && res->Err_0@ == unauthorized()
            } else {
                match rest::load_fault(
                    payload.url@,
                    text::opt_text(payload.wait_until),
                    payload.timeout_ms,
                ) {
                    Some(words) => res is Err && res->Err_0@ == rest_reply(
                        RestErrorView::BadRequest(words),
                    ),
                    None => {
                        &&& launches(
                            plan_part(res),
                            self.pool,
                            *query,
                            Some(scrape_payload(payload)),
                        )
                        &&& res is Ok ==> {
                            &&& rest::loads(
                                res->Ok_0.options,
                                payload.url@,
                                text::opt_text(payload.wait_until),
                                payload.timeout_ms,
                            )
                            &&& res->Ok_0.task == PageTask::Scrape
                        }
                    },
                }
            },
    {
        match self.check(headers, query) {
            Ok(_) => {},
            Err(error) => return Err(error),
        }
        let options = match rest::page_load_options(
            payload.url.as_str(),
            opt_as_str(&payload.wait_until),
            payload.timeout_ms,
        ) {
            Ok(options) => options,
            Err(error) => return Err(rest_endpoint_error(error)),
        };
        let wanted = rest_session_overrides(
            query,
            payload.proxy,
            payload.extension_paths,
            payload.persistent_profile_id,
        );
        match self.plan(wanted) {
            Ok(plan) => Ok(PageRequest { plan, options, task: PageTask::Scrape }),
            Err(error) => Err(error),
        }
    }

    /// The job that a request for a picture of a page asks for, or the answer to it.
    pub fn screenshot(
        &self,
        headers: &RequestHeaders,
        query: &SessionQuery,
        payload: ScreenshotRequest,
    ) -> (res: Result<PageRequest, ApiError>)
        ensures
            self.refuses(*headers, *query, told(res)),
            res is Ok ==> asks_for_picture(res->Ok_0, payload),
            if !self.admits(*headers, *query) {
                res is Err && res->Err_0@ == unauthorized()
            } else {
                match rest::load_fault(
                    payload.url@,
                    text::opt_text(payload.wait_until),
                    payload.timeout_ms,
                ) {
                    Some(words) => res is Err && res->Err_0@ == rest_reply(
                        RestErrorView::BadRequest(words),
                    ),
                    None => match rest::screenshot_format_of(text::opt_text(payload.format)) {
                        None => res is Err && res->Err_0@ == rest_reply(
                            RestErrorView::BadRequest(
                                "unsupported screenshot format: "@ + payload.format->Some_0@,
                            ),
                        ),
                        Some(format) => {
                            &&& launches(
                                plan_part(res),
                                self.pool,
                                *query,
                                Some(screenshot_payload(payload)),
                            )
                            &&& res is Ok ==> {
                                &&& rest::loads(
                                    res->Ok_0.options,
                                    payload.url@,
                                    text::opt_text(payload.wait_until),
                                    payload.timeout_ms,
                                )
                                &&& res->Ok_0.task == (PageTask::Screenshot {
                                    format,
                                    full_page: rest::is_set(payload.full_page),
                                })
                            }
                        },
                    },
                }
            },
    {
        match self.check(headers, query) {
            Ok(_) => {},
            Err(error) => return Err(error),
        }
        let options = match rest::page_load_options(
            payload.url.as_str(),
            opt_as_str(&payload.wait_until),
            payload.timeout_ms,
        ) {
            Ok(options) => options,
            Err(error) => return Err(rest_endpoint_error(error)),
        };
        let format = match ScreenshotFormat::parse(opt_as_str(&payload.format)) {
            Ok(format) => format,
            Err(error) => return Err(rest_endpoint_error(error)),
        };
        let full_page = match payload.full_page {
            Some(full_page) => full_page,
            None => false,
        };
        let wanted = rest_session_overrides(
            query,
            payload.proxy,
            payload.extension_paths,
            payload.persistent_profile_id,
        );
        match self.plan(wanted) {
            Ok(plan) => Ok(
                PageRequest { plan, options, task: PageTask::Screenshot { format, full_page } },
            ),
            Err(error) => Err(error),
        }
    }

    /// The job that a request to print a page asks for, or the answer to it.
    pub fn pdf(&self, headers: &RequestHeaders, query: &SessionQuery, payload: PdfRequest) -> (res: Result<
        PageRequest,
        ApiError,
    >)
        ensures
            self.refuses(*headers, *query, told(res)),
            res is Ok ==> asks_for_print(res->Ok_0, payload),
            if !self.admits(*headers, *query) {
                res is Err && res->Err_0@ == unauthorized()
            } else {
                match rest::load_fault(
                    payload.url@,
                    text::opt_text(payload.wait_until),
                    payload.timeout_ms,
                ) {
                    Some(words) => res is Err && res->Err_0@ == rest_reply(
                        RestErrorView::BadRequest(words),
                    ),
                    None => match paper_of(payload.format) {
                        Err(words) => res is Err && res->Err_0@ == rest_reply(
                            RestErrorView::BadRequest(words),
                        ),
                        Ok(paper) => {
                            &&& launches(
                                plan_part(res),
                                self.pool,
                                *query,
                                Some(pdf_payload(payload)),
                            )
                            &&& res is Ok ==> {
                                &&& rest::loads(
                                    res->Ok_0.options,
                                    payload.url@,
                                    text::opt_text(payload.wait_until),
                                    payload.timeout_ms,
                                )
                                &&& res->Ok_0.task is Pdf
                                &&& res->Ok_0.task->Pdf_0.params_view() == rest::print_params(
                                    rest::is_set(payload.landscape),
                                    rest::is_set(payload.print_background),
                                    paper,
                                )
                            }
                        },
                    },
                }
            },
    {
        match self.check(headers, query) {
            Ok(_) => {},
            Err(error) => return Err(error),
        }
        let options = match rest::page_load_options(
            payload.url.as_str(),
            opt_as_str(&payload.wait_until),
            payload.timeout_ms,
        ) {
            Ok(options) => options,
            Err(error) => return Err(rest_endpoint_error(error)),
        };
        let print_options = match rest::pdf_print_options(
            opt_as_str(&payload.format),
            payload.landscape,
            payload.print_background,
        ) {
            Ok(options) => options,
            Err(error) => return Err(rest_endpoint_error(error)),
        };
        let wanted = rest_session_overrides(
            query,
            payload.proxy,
            payload.extension_paths,
            payload.persistent_profile_id,
        );
        match self.plan(wanted) {
            Ok(plan) => Ok(PageRequest { plan, options, task: PageTask::Pdf(print_options) }),
            Err(error) => Err(error),
        }
    }
}

/// The paper that a request to print asks for, none where it asks for none, or what is
/// wrong with it.
pub open spec fn paper_of(format: Option<String>) -> Result<
    Option<(Seq<char>, Seq<char>)>,
    Seq<char>,
> {
    match format {
        None => Ok(None),
        Some(name) => match rest::paper_size(name@) {
            Some(size) => Ok(Some(size)),
            None => Err("unsupported pdf format: "@ + name@),
        },
    }
}

/// Where a token is expected, whoever does not bring it is refused.
pub proof fn law_token_is_needed(
    secret: Seq<char>,
    headers: RequestHeaders,
    query_token: Option<Seq<char>>,
)
    requires
        query_token != Some(secret),
        bearer_token(headers) != Some(secret),
    ensures
        !may_ask(Some(secret), headers, query_token),
{
}

/// Where no token is expected, nobody is refused.
pub proof fn law_no_token_no_refusal(headers: RequestHeaders, query_token: Option<Seq<char>>)
    ensures
        may_ask(None, headers, query_token),
{
}

/// Who was let through with a token, and did not bring another in the address, gets
/// it back in the address of the session.
pub proof fn law_address_brings_the_token(
    secret: Seq<char>,
    headers: RequestHeaders,
    query_token: Option<Seq<char>>,
    id: u128,
)
    requires
        may_ask(Some(secret), headers, query_token),
        query_token is None || query_token == Some(secret),
    ensures
        session_address(headers, id, token_of(headers, query_token)) == session_address(
            headers,
            id,
            None,
        ) + "?token="@ + text_in_address(secret),
{
}

/// What the body of a request says comes before what its address says, and that before
/// what the launch parameter says; the arguments of both add up.
pub proof fn law_precedence(
    query: SessionQuery,
    launch: Option<LaunchView>,
    payload: Option<CreateSessionRequest>,
)
    ensures
        ({
            let all = wishes(query, launch, payload);
            let body = payload_wishes(payload);
            let address = query_wishes(query);
            let parameter = launch_wishes(launch);
            &&& all.stealth_enabled == either(
                body.stealth_enabled,
                either(address.stealth_enabled, parameter.stealth_enabled),
            )
            &&& all.proxy == either(body.proxy, either(address.proxy, parameter.proxy))
            &&& all.persistent_profile_id == either(
                body.persistent_profile_id,
                either(address.persistent_profile_id, parameter.persistent_profile_id),
            )
            &&& all.extension_paths == first_list(
                body.extension_paths,
                first_list(address.extension_paths, parameter.extension_paths),
            )
            &&& all.extra_chrome_args == parameter.extra_chrome_args + body.extra_chrome_args
        }),
{
    assert(wishes(query, launch, payload).extra_chrome_args =~= launch_wishes(
        launch,
    ).extra_chrome_args + payload_wishes(payload).extra_chrome_args);
}

/// Every error is answered with a status of HTTP that says so.
pub proof fn law_errors_have_error_statuses(error: RestErrorView)
    ensures
        400 <= rest_reply(error).status < 600,
{
}

/// Whether a character stands for itself in an address or begins an escape.
pub open spec fn is_address_char(c: char) -> bool {
    c == '%' || (c as u32 <= 255 && is_unreserved(c as u8))
}

proof fn lemma_byte_in_address(byte: u8)
    ensures
        forall|i: int|
            0 <= i < byte_in_address(byte).len() ==> is_address_char(
                #[trigger] byte_in_address(byte)[i],
            ),
{
}

/// A token adds nothing to an address but letters, digits, the four marks and escapes:
/// it cannot end the parameter that it stands in.
pub proof fn law_token_stays_in_its_parameter(bytes: Seq<u8>)
    ensures
        forall|i: int|
            0 <= i < bytes_in_address(bytes).len() ==> is_address_char(
                #[trigger] bytes_in_address(bytes)[i],
            ),
    decreases bytes.len(),
{
    if bytes.len() > 0 {
        let before = bytes_in_address(bytes.drop_last());
        let last = byte_in_address(bytes.last());
        law_token_stays_in_its_parameter(bytes.drop_last());
        lemma_byte_in_address(bytes.last());
        assert forall|i: int| 0 <= i < (before + last).len() implies is_address_char(
            #[trigger] (before + last)[i],
        ) by {
            if i < before.len() {
                assert(is_address_char(before[i]));
            } else {
                assert(is_address_char(last[i - before.len()]));
            }
        }
    }
}

proof fn lemma_address_from_left(bytes: Seq<u8>)
    requires
        bytes.len() > 0,
    ensures
        bytes_in_address(bytes) == byte_in_address(bytes[0]) + bytes_in_address(bytes.skip(1)),
    decreases bytes.len(),
{
    if bytes.len() == 1 {
        assert(bytes.drop_last() =~= Seq::<u8>::empty());
        assert(bytes.skip(1) =~= Seq::<u8>::empty());
    } else {
        lemma_address_from_left(bytes.drop_last());
        assert(bytes.drop_last().skip(1) =~= bytes.skip(1).drop_last());
    }
    assert(bytes_in_address(bytes) =~= byte_in_address(bytes[0]) + bytes_in_address(bytes.skip(1)));
}

proof fn lemma_upper_hex(left: u8, right: u8)
    requires
        left < 16,
        right < 16,
        upper_hex(left) == upper_hex(right),
    ensures
        left == right,
{
}

proof fn lemma_addresses_differ(left: Seq<u8>, right: Seq<u8>)
    requires
        bytes_in_address(left) == bytes_in_address(right),
    ensures
        left == right,
    decreases left.len(),
{
    let all = bytes_in_address(left);
    if left.len() > 0 {
        lemma_address_from_left(left);
        assert(all[0] == byte_in_address(left[0])[0]);
    }
    if right.len() > 0 {
        lemma_address_from_left(right);
        assert(all[0] == byte_in_address(right[0])[0]);
    }
    if left.len() == 0 || right.len() == 0 {
        assert(all.len() == 0);
        assert(left =~= right);
    } else {
        let l = left[0];
        let r = right[0];
        assert(is_unreserved(l) == (all[0] != '%'));
        assert(is_unreserved(r) == (all[0] != '%'));
        let step = byte_in_address(l).len() as int;
        if !is_unreserved(l) {
            assert(all[1] == byte_in_address(l)[1] && all[1] == byte_in_address(r)[1]);
            assert(all[2] == byte_in_address(l)[2] && all[2] == byte_in_address(r)[2]);
            lemma_upper_hex(l / 16, r / 16);
            lemma_upper_hex(l % 16, r % 16);
        }
        assert(l == r);
        assert(all.skip(step) =~= bytes_in_address(left.skip(1)));
        assert(all.skip(step) =~= bytes_in_address(right.skip(1)));
        lemma_addresses_differ(left.skip(1), right.skip(1));
        assert(left =~= seq![l] + left.skip(1));
        assert(right =~= seq![r] + right.skip(1));
    }
}

/// Different tokens give different addresses.
pub proof fn law_tokens_are_kept_apart(left: Seq<char>, right: Seq<char>)
    ensures
        text_in_address(left) == text_in_address(right) ==> left == right,
{
    if text_in_address(left) == text_in_address(right) {
        lemma_addresses_differ(vstd::utf8::encode_utf8(left), vstd::utf8::encode_utf8(right));
        vstd::utf8::encode_utf8_decode_utf8(left);
        vstd::utf8::encode_utf8_decode_utf8(right);
    }
}

/// Whatever a text holds, it opens and closes no tag and no attribute on a page.
pub proof fn law_escaped_text_is_inert(value: Seq<char>)
    ensures
        forall|i: int|
            0 <= i < html_text(value).len() ==> {
                let c = #[trigger] html_text(value)[i];
                c != '<' && c != '>' && c != '"'
            },
    decreases value.len(),
{
    if value.len() > 0 {
        let before = html_text(value.drop_last());
        let last = html_char(value.last());
        law_escaped_text_is_inert(value.drop_last());
        reveal_strlit("&amp;");
        reveal_strlit("&lt;");
        reveal_strlit("&gt;");
        reveal_strlit("&quot;");
        assert forall|i: int| 0 <= i < (before + last).len() implies {
            let c = #[trigger] (before + last)[i];
            c != '<' && c != '>' && c != '"'
        } by {
            if i < before.len() {
                assert((before + last)[i] == before[i]);
            } else {
                assert((before + last)[i] == last[i - before.len()]);
            }
        }
    }
}

/// What the body of a request says counts, whatever the address and the launch parameter
/// say: its disguise, its proxy, its extensions and its profile where it names them, and
/// its arguments last.
pub proof fn law_body_counts_first(
    query: SessionQuery,
    launch: Option<LaunchView>,
    body: CreateSessionRequest,
)
    ensures
        ({
            let all = wishes(query, launch, Some(body));
            let paths = text::texts(body.extension_paths->Some_0@);
            let args = text::texts(body.extra_chrome_args->Some_0@);
            &&& body.stealth_enabled is Some ==> all.stealth_enabled == body.stealth_enabled
            &&& body.proxy is Some && text::trim(body.proxy->Some_0@).len() > 0 ==> all.proxy
                == Some(text::trim(body.proxy->Some_0@))
            &&& body.persistent_profile_id is Some && text::trim(
                body.persistent_profile_id->Some_0@,
            ).len() > 0 ==> all.persistent_profile_id == Some(
                text::trim(body.persistent_profile_id->Some_0@),
            )
            &&& body.extension_paths is Some && paths.len() > 0 && (forall|i: int|
                0 <= i < paths.len() ==> (#[trigger] paths[i]).len() > 0) ==> all.extension_paths
                == paths
            &&& body.extra_chrome_args is Some && (launch is None || launch->Some_0.args is None)
                ==> all.extra_chrome_args == args
            &&& body.extra_chrome_args is Some && launch is Some && launch->Some_0.args is Some
                ==> all.extra_chrome_args == launch->Some_0.args->Some_0 + args
        }),
{
    if body.extension_paths is Some {
        lemma_full_lists_stay(text::texts(body.extension_paths->Some_0@));
    }
    assert(wishes(query, launch, Some(body)).extra_chrome_args =~= launch_wishes(
        launch,
    ).extra_chrome_args + payload_wishes(Some(body)).extra_chrome_args);
    if body.extra_chrome_args is Some {
        let args = text::texts(body.extra_chrome_args->Some_0@);
        assert(Seq::<Seq<char>>::empty() + args =~= args);
    }
}

proof fn lemma_full_lists_stay(parts: Seq<Seq<char>>)
    ensures
        (forall|i: int| 0 <= i < parts.len() ==> (#[trigger] parts[i]).len() > 0)
            ==> text::non_empty(parts) == parts,
    decreases parts.len(),
{
    reveal(Seq::filter);
    if parts.len() > 0 {
        lemma_full_lists_stay(parts.drop_last());
        if forall|i: int| 0 <= i < parts.len() ==> (#[trigger] parts[i]).len() > 0 {
            assert forall|i: int| 0 <= i < parts.drop_last().len() implies (
            #[trigger] parts.drop_last()[i]).len() > 0 by {
                assert(parts.drop_last()[i] == parts[i]);
            }
            assert(parts[parts.len() - 1].len() > 0);
            assert(parts.drop_last().push(parts.last()) =~= parts);
        }
    } else {
        assert(parts =~= Seq::empty());
    }
}

/// What the address says counts where the body is silent, whatever the launch parameter
/// says.
pub proof fn law_address_counts_next(
    query: SessionQuery,
    launch: Option<LaunchView>,
    payload: Option<CreateSessionRequest>,
)
    ensures
        ({
            let all = wishes(query, launch, payload);
            let body = payload->Some_0;
            let paths = text::comma_parts(query.extension_paths->Some_0@);
            &&& (payload is None || body.stealth_enabled is None) && query.stealth is Some
                ==> all.stealth_enabled == query.stealth
            &&& (payload is None || body.proxy is None || text::trim(body.proxy->Some_0@).len()
                == 0) && query.proxy is Some && text::trim(query.proxy->Some_0@).len() > 0
                ==> all.proxy == Some(text::trim(query.proxy->Some_0@))
            &&& (payload is None || body.persistent_profile_id is None || text::trim(
                body.persistent_profile_id->Some_0@,
            ).len() == 0) && query.persistent_profile_id is Some && text::trim(
                query.persistent_profile_id->Some_0@,
            ).len() > 0 ==> all.persistent_profile_id == Some(
                text::trim(query.persistent_profile_id->Some_0@),
            )
            &&& (payload is None || body.extension_paths is None) && query.extension_paths is Some
                && paths.len() > 0 ==> all.extension_paths == paths
        }),
{
    lemma_full_lists_stay(Seq::empty());
}

/// What the launch parameter says counts where neither the body nor the address says
/// anything; where nothing is said, nothing is wished for.
pub proof fn law_launch_counts_last(
    query: SessionQuery,
    launch: Option<LaunchView>,
    payload: Option<CreateSessionRequest>,
)
    requires
        query.stealth is None && query.proxy is None && query.extension_paths is None
            && query.persistent_profile_id is None,
        payload is Some ==> payload->Some_0.stealth_enabled is None && payload->Some_0.proxy is None
            && payload->Some_0.extension_paths is None
            && payload->Some_0.persistent_profile_id is None
            && payload->Some_0.extra_chrome_args is None,
    ensures
        ({
            let all = wishes(query, launch, payload);
            let given = launch->Some_0;
            &&& launch is None ==> {
                &&& all.stealth_enabled is None && all.proxy is None
                &&& all.persistent_profile_id is None
                &&& all.extension_paths.len() == 0 && all.extra_chrome_args.len() == 0
            }
            &&& launch is Some ==> {
                &&& all.stealth_enabled == given.stealth
                &&& given.proxy is Some && text::trim(given.proxy->Some_0).len() > 0 ==> all.proxy
                    == Some(text::trim(given.proxy->Some_0))
                &&& given.proxy is None ==> all.proxy is None
                &&& given.persistent_profile_id is Some && text::trim(
                    given.persistent_profile_id->Some_0,
                ).len() > 0 ==> all.persistent_profile_id == Some(
                    text::trim(given.persistent_profile_id->Some_0),
                )
                &&& given.persistent_profile_id is None ==> all.persistent_profile_id is None
                &&& given.args is Some ==> all.extra_chrome_args == given.args->Some_0
                &&& given.args is None ==> all.extra_chrome_args.len() == 0
                &&& given.extension_paths is Some && (forall|i: int|
                    0 <= i < given.extension_paths->Some_0.len() ==> (
                    #[trigger] given.extension_paths->Some_0[i]).len() > 0) ==> all.extension_paths
                    == given.extension_paths->Some_0
            }
        }),
{
    lemma_full_lists_stay(Seq::empty());
    if launch is Some && launch->Some_0.extension_paths is Some {
        lemma_full_lists_stay(launch->Some_0.extension_paths->Some_0);
    }
    if launch is Some && launch->Some_0.args is Some {
        let args = launch->Some_0.args->Some_0;
        assert(args + Seq::<Seq<char>>::empty() + Seq::<Seq<char>>::empty() =~= args);
        assert(args + Seq::<Seq<char>>::empty() =~= args);
    }
}

/// A blank proxy or profile is none, in the body as in the address.
pub proof fn law_blank_is_nothing(value: Seq<char>)
    ensures
        text::trim(value).len() == 0 ==> filled(Some(value)) is None,
        text::trim(value).len() > 0 ==> filled(Some(value)) == Some(text::trim(value)),
        filled(None) is None,
{
}

/// Whether an object has a list of texts under a name, or has nothing there where none is
/// meant.
pub open spec fn has_list(
    members: Map<Seq<char>, JsonView>,
    name: Seq<char>,
    list: Option<Seq<Seq<char>>>,
) -> bool {
    match list {
        Some(items) => members.contains_key(name) && holds_list(members[name], items),
        None => !members.contains_key(name) || members[name] == JsonView::Null,
    }
}

/// Whether a value is a list of texts.
pub open spec fn holds_list(value: JsonView, items: Seq<Seq<char>>) -> bool {
    &&& value is Array
    &&& value->Array_0.len() == items.len()
    &&& forall|i: int| 0 <= i < items.len() ==> value->Array_0[i] == JsonView::Text(
        #[trigger] items[i],
    )
}

/// Whether an object has a text under a name, or has nothing there where none is meant.
pub open spec fn has_text(
    members: Map<Seq<char>, JsonView>,
    name: Seq<char>,
    value: Option<Seq<char>>,
) -> bool {
    match value {
        Some(found) => json::has(members, name, JsonView::Text(found)),
        None => !members.contains_key(name) || members[name] == JsonView::Null,
    }
}

proof fn lemma_list_is_read(value: JsonView, items: Seq<Seq<char>>, expected: Seq<char>)
    requires
        holds_list(value, items),
    ensures
        json::optional_texts(value, expected) == Ok::<Option<Seq<Seq<char>>>, Seq<char>>(
            Some(items),
        ),
{
    json::law_text_lists_are_read(value, expected);
    assert forall|i: int| 0 <= i < value->Array_0.len() implies (
    #[trigger] value->Array_0[i]) is Text by {
        assert(value->Array_0[i] == JsonView::Text(items[i]));
    }
    match json::optional_texts(value, expected) {
        Ok(Some(found)) => {
            assert forall|i: int| 0 <= i < found.len() implies #[trigger] found[i] == items[i] by {
                assert(value->Array_0[i] == JsonView::Text(items[i]));
                assert(value->Array_0[i] == JsonView::Text(found[i]));
            }
            assert(found =~= items);
        },
        _ => {},
    }
}

/// A launch is read from the members of an object, each under its own name, and members
/// that are not there or null are not given.
pub proof fn law_launches_are_read(members: Map<Seq<char>, JsonView>, launch: LaunchView)
    requires
        has_list(members, "args"@, launch.args),
        has_list(members, "extensionPaths"@, launch.extension_paths),
        has_text(members, "proxy"@, launch.proxy),
        has_text(members, "persistentProfileId"@, launch.persistent_profile_id),
        match launch.stealth {
            Some(flag) => json::has(members, "stealth"@, JsonView::Bool(flag)),
            None => !members.contains_key("stealth"@) || members["stealth"@] == JsonView::Null,
        },
    ensures
        launch_of(JsonView::Object(members)) == Ok::<LaunchView, Seq<char>>(launch),
{
    if launch.args is Some {
        lemma_list_is_read(members["args"@], launch.args->Some_0, "a string"@);
    }
    if launch.extension_paths is Some {
        lemma_list_is_read(
            members["extensionPaths"@],
            launch.extension_paths->Some_0,
            "path string"@,
        );
    }
}

/// A launch is read from a list as well: its arguments, its disguise, its proxy, its
/// extensions and its profile, in this order.
pub proof fn law_launches_are_read_in_order(items: Seq<JsonView>, launch: LaunchView)
    requires
        items.len() == 5,
        launch.args is Some ==> holds_list(items[0], launch.args->Some_0),
        launch.args is None ==> items[0] == JsonView::Null,
        launch.stealth is Some ==> items[1] == JsonView::Bool(launch.stealth->Some_0),
        launch.stealth is None ==> items[1] == JsonView::Null,
        launch.proxy is Some ==> items[2] == JsonView::Text(launch.proxy->Some_0),
        launch.proxy is None ==> items[2] == JsonView::Null,
        launch.extension_paths is Some ==> holds_list(items[3], launch.extension_paths->Some_0),
        launch.extension_paths is None ==> items[3] == JsonView::Null,
        launch.persistent_profile_id is Some ==> items[4] == JsonView::Text(
            launch.persistent_profile_id->Some_0,
        ),
        launch.persistent_profile_id is None ==> items[4] == JsonView::Null,
    ensures
        launch_of(JsonView::Array(items)) == Ok::<LaunchView, Seq<char>>(launch),
{
    if launch.args is Some {
        lemma_list_is_read(items[0], launch.args->Some_0, "a string"@);
    }
    if launch.extension_paths is Some {
        lemma_list_is_read(items[3], launch.extension_paths->Some_0, "path string"@);
    }
}

/// A list that is too short or too long is no launch, and neither is anything but a list
/// or an object.
pub proof fn law_other_launches_are_refused(value: JsonView)
    ensures
        value is Array && value->Array_0.len() != 5 ==> launch_of(value) is Err,
        !(value is Array || value is Object) ==> launch_of(value) == Err::<LaunchView, Seq<char>>(
            json::type_error(value, "struct LaunchQuery"@),
        ),
        value is Array && value->Array_0.len() == 0 ==> launch_of(value) == Err::<
            LaunchView,
            Seq<char>,
        >("invalid length "@ + text::decimal(0) + ", expected "@
            + "struct LaunchQuery with 5 elements"@),
{
}

/// A launch parameter that is left out or blank is none; otherwise it is JSON, and the
/// refusal says whether it cannot be read or does not fit.
pub proof fn law_launch_parameters_are_read(source: Seq<char>)
    ensures
        launch_parameter(None) == Ok::<Option<LaunchView>, Seq<char>>(None),
        text::trim(source).len() == 0 ==> launch_parameter(Some(source)) == Ok::<
            Option<LaunchView>,
            Seq<char>,
        >(None),
        text::trim(source).len() > 0 ==> match json::json_value(source) {
            Ok(value) => match launch_of(value) {
                Ok(launch) => launch_parameter(Some(source)) == Ok::<
                    Option<LaunchView>,
                    Seq<char>,
                >(Some(launch)),
                Err(words) => launch_parameter(Some(source)) == Err::<
                    Option<LaunchView>,
                    Seq<char>,
                >("invalid launch query shape: "@ + words),
            },
            Err(words) => launch_parameter(Some(source)) == Err::<Option<LaunchView>, Seq<char>>(
                "invalid launch query JSON: "@ + words,
            ),
        },
{
}

/// A session that is launched on request gets what the request wishes for: the body before
/// the address before the launch parameter, and the pool's own ways where none of them
/// says anything.
pub proof fn law_launches_grant_the_wishes(
    plan: LaunchPlan,
    pool: SessionPool,
    query: SessionQuery,
    payload: Option<CreateSessionRequest>,
)
    requires
        launches(Ok(plan), pool, query, payload),
    ensures
        ({
            let launch = launch_parameter(text::opt_text(query.launch));
            let all = wishes(query, launch->Ok_0, payload);
            let base = pool.launch_base();
            let options = plan.options;
            &&& launch is Ok
            &&& all.stealth_enabled is Some ==> options.stealth.enabled
                == all.stealth_enabled->Some_0
            &&& all.stealth_enabled is None ==> options.stealth.enabled == base.stealth.enabled
            &&& payload is Some && payload->Some_0.stealth_enabled is Some
                ==> options.stealth.enabled == payload->Some_0.stealth_enabled->Some_0
            &&& text::opt_text(options.proxy) == all.proxy
            &&& text::texts(options.extension_paths@) == all.extension_paths
            &&& text::texts(options.additional_args@) == text::texts(base.additional_args@)
                + all.extra_chrome_args
            &&& all.persistent_profile_id is None ==> plan.profile_dir is None
            &&& all.persistent_profile_id is Some ==> plan.profile_dir is Some
                && pool.limits().profile_storage_dir is Some && plan.profile_dir->Some_0@
                == pool.limits().profile_storage_dir->Some_0@ + "/"@
                + all.persistent_profile_id->Some_0
        }),
{
    let launch = launch_parameter(text::opt_text(query.launch))->Ok_0;
    let (wanted, planned) = choose|wanted: SessionOverrides, planned: Result<LaunchPlan, PoolError>|
        {
            &&& wish_view(wanted) == wishes(query, launch, payload)
            &&& #[trigger] pool::plans(planned, pool.limits(), pool.launch_base(), wanted)
            &&& Ok::<LaunchPlan, ApiErrorView>(plan) == match planned {
                Ok(plan) => Ok::<LaunchPlan, ApiErrorView>(plan),
                Err(error) => Err(pool_reply(error)),
            }
        };
    pool::law_wishes_are_granted(plan, pool.limits(), pool.launch_base(), wanted);
}

/// A request with a launch parameter that cannot be read is a bad one.
pub proof fn law_bad_launches_are_refused(
    outcome: Result<LaunchPlan, ApiErrorView>,
    pool: SessionPool,
    query: SessionQuery,
    payload: Option<CreateSessionRequest>,
)
    requires
        launches(outcome, pool, query, payload),
        launch_parameter(text::opt_text(query.launch)) is Err,
    ensures
        outcome is Err && outcome->Err_0.status == 400,
        outcome->Err_0.error == launch_parameter(text::opt_text(query.launch))->Err_0,
{
}

/// A job on a page wishes for the proxy, the extensions and the profile of its request, and
/// for nothing else.
pub proof fn law_page_jobs_have_wishes(
    scraped: ScrapeRequest,
    pictured: ScreenshotRequest,
    printed: PdfRequest,
)
    ensures
        scrape_payload(scraped).proxy == scraped.proxy,
        scrape_payload(scraped).extension_paths == scraped.extension_paths,
        scrape_payload(scraped).persistent_profile_id == scraped.persistent_profile_id,
        scrape_payload(scraped).stealth_enabled is None,
        scrape_payload(scraped).extra_chrome_args is None,
        screenshot_payload(pictured).proxy == pictured.proxy,
        screenshot_payload(pictured).extension_paths == pictured.extension_paths,
        screenshot_payload(pictured).persistent_profile_id == pictured.persistent_profile_id,
        screenshot_payload(pictured).stealth_enabled is None,
        screenshot_payload(pictured).extra_chrome_args is None,
        pdf_payload(printed).proxy == printed.proxy,
        pdf_payload(printed).extension_paths == printed.extension_paths,
        pdf_payload(printed).persistent_profile_id == printed.persistent_profile_id,
        pdf_payload(printed).stealth_enabled is None,
        pdf_payload(printed).extra_chrome_args is None,
{
}

/// The statuses under which errors are told.
pub proof fn law_errors_have_their_status(
    id: u128,
    name: String,
    fault: crate::browser::BrowserError,
    words: Seq<char>,
    error: PoolError,
)
    ensures
        unauthorized() == (ApiErrorView { status: 401, error: "unauthorized"@ }),
        not_found() == (ApiErrorView { status: 404, error: "session not found"@ }),
        pool_reply(PoolError::AtCapacity).status == 503,
        pool_reply(PoolError::CapacityTimeout).status == 503,
        pool_reply(PoolError::PersistentProfilesDisabled).status == 400,
        pool_reply(PoolError::InvalidPersistentProfileId(name)).status == 400,
        pool_reply(PoolError::NotFound(id)).status == 404,
        pool_reply(PoolError::NotConnectable(id)).status == 409,
        pool_reply(PoolError::Browser(fault)).status == 500,
        pool_reply(error).error == error.words(),
        rest_reply(RestErrorView::BadRequest(words)) == (ApiErrorView {
            status: 400,
            error: words,
        }),
        rest_reply(RestErrorView::Pool(error)) == pool_reply(error),
        rest_reply(RestErrorView::CdpTimeout(words)) == (ApiErrorView {
            status: 504,
            error: words + " timed out"@,
        }),
        rest_reply(RestErrorView::CdpWebSocket(words)) == (ApiErrorView {
            status: 502,
            error: "CDP websocket failed: "@ + words,
        }),
        rest_reply(RestErrorView::CdpProtocol(words)) == (ApiErrorView {
            status: 502,
            error: "CDP command failed: "@ + words,
        }),
        rest_reply(RestErrorView::InvalidCdpResponse(words)) == (ApiErrorView {
            status: 502,
            error: words,
        }),
        rest_reply(RestErrorView::Decode(words)) == (ApiErrorView {
            status: 502,
            error: "CDP base64 decode failed: "@ + words,
        }),
        ready_status(true) == 200 && ready_status(false) == 503,
{
}

/// Where there is a secret, a request needs it, in its address or behind the word Bearer;
/// any other is answered that it may not be made.
pub proof fn law_requests_need_the_secret<T>(
    state: ApiState,
    headers: RequestHeaders,
    query: SessionQuery,
    outcome: Result<T, ApiErrorView>,
    secret: Seq<char>,
)
    requires
        state.token is Some && state.token->Some_0@ == secret,
    ensures
        ({
            let in_address = query.token is Some && query.token->Some_0@ == secret;
            let in_header = headers.authorization is Some && headers.authorization->Some_0@
                == "Bearer "@ + secret;
            &&& state.admits(headers, query) <==> in_address || in_header
            &&& state.refuses(headers, query, outcome) && !in_address && !in_header ==> outcome
                is Err && outcome->Err_0.status == 401 && outcome->Err_0.error == "unauthorized"@
        }),
{
    if headers.authorization is Some {
        text::law_beginnings_are_taken_off(headers.authorization->Some_0@, "Bearer "@, secret);
    }
}

/// The token of a request is that of its address, or else the one behind the word Bearer.
pub proof fn law_tokens_are_found(
    headers: RequestHeaders,
    query_token: Option<Seq<char>>,
    token: Seq<char>,
)
    ensures
        query_token is Some ==> token_of(headers, query_token) == query_token,
        query_token is None && headers.authorization is None ==> token_of(headers, query_token)
            is None,
        query_token is None && headers.authorization is Some ==> (token_of(headers, query_token)
            == Some(token) <==> headers.authorization->Some_0@ == "Bearer "@ + token),
{
    if headers.authorization is Some {
        text::law_beginnings_are_taken_off(headers.authorization->Some_0@, "Bearer "@, token);
    }
}

/// The address of a session leads to the host that was asked, by the scheme that was used,
/// to the session, and brings the token where there is one.
pub proof fn law_sessions_have_addresses(
    headers: RequestHeaders,
    id: u128,
    token: Option<Seq<char>>,
)
    ensures
        ({
            let secure = headers.forwarded_proto is Some && text::lower(
                headers.forwarded_proto->Some_0@,
            ) == "https"@;
            let scheme = if secure {
                "wss"@
            } else {
                "ws"@
            };
            let host = if headers.host is Some {
                headers.host->Some_0@
            } else {
                "127.0.0.1:3000"@
            };
            let address = scheme + "://"@ + host + "/sessions/"@ + id::id_name(id) + "/cdp"@;
            &&& token is None ==> session_address(headers, id, token) == address
            &&& token is Some ==> session_address(headers, id, token) == address + "?token="@
                + bytes_in_address(vstd::utf8::encode_utf8(token->Some_0))
        }),
{
}

/// A byte stands in an address as itself where it is a letter, a digit or one of four
/// marks, and otherwise as its two hexadecimal digits.
pub proof fn law_bytes_are_spelled(byte: u8)
    ensures
        ({
            let spelled = byte_in_address(byte);
            let c = byte as char;
            let plain = 'a' as u8 <= byte <= 'z' as u8 || 'A' as u8 <= byte <= 'Z' as u8 || '0' as u8
                <= byte <= '9' as u8 || c == '-' || c == '.' || c == '_' || c == '~';
            let value = |digit: char| -> int
                {
                    if '0' as u32 <= digit as u32 <= '9' as u32 {
                        digit as u32 - '0' as u32
                    } else {
                        digit as u32 - 'A' as u32 + 10
                    }
                };
            &&& plain ==> spelled == seq![c]
            &&& !plain ==> spelled.len() == 3 && spelled[0] == '%' && 16 * value(spelled[1])
                + value(spelled[2]) == byte
            &&& !plain ==> {
                &&& '0' as u32 <= spelled[1] as u32 <= '9' as u32 || 'A' as u32 <= spelled[1] as u32
                    <= 'F' as u32
                &&& '0' as u32 <= spelled[2] as u32 <= '9' as u32 || 'A' as u32 <= spelled[2] as u32
                    <= 'F' as u32
            }
        }),
{
}

/// Bytes are spelled one after the other.
pub proof fn law_bytes_are_spelled_in_turn(left: Seq<u8>, right: Seq<u8>, byte: u8)
    ensures
        bytes_in_address(left + right) == bytes_in_address(left) + bytes_in_address(right),
        bytes_in_address(seq![byte]) == byte_in_address(byte),
        bytes_in_address(Seq::empty()).len() == 0,
    decreases right.len(),
{
    assert(seq![byte].drop_last() =~= Seq::<u8>::empty());
    assert(bytes_in_address(seq![byte].drop_last()) =~= Seq::<char>::empty());
    assert(bytes_in_address(seq![byte]) =~= byte_in_address(byte));
    if right.len() == 0 {
        assert(left + right =~= left);
        assert(bytes_in_address(left + right) =~= bytes_in_address(left) + bytes_in_address(right));
    } else {
        law_bytes_are_spelled_in_turn(left, right.drop_last(), byte);
        assert((left + right).drop_last() =~= left + right.drop_last());
        assert(bytes_in_address(left + right) =~= bytes_in_address(left) + bytes_in_address(right));
    }
}

/// Four signs of a text are written by name in a page, and all others as they are, one
/// after the other.
pub proof fn law_texts_are_escaped(left: Seq<char>, right: Seq<char>, c: char)
    ensures
        html_text(left + right) == html_text(left) + html_text(right),
        html_text(Seq::empty()).len() == 0,
        html_text(seq!['&']) == "&amp;"@,
        html_text(seq!['<']) == "&lt;"@,
        html_text(seq!['>']) == "&gt;"@,
        html_text(seq!['"']) == "&quot;"@,
        c != '&' && c != '<' && c != '>' && c != '"' ==> html_text(seq![c]) == seq![c],
    decreases right.len(),
{
    lemma_one_sign('&');
    lemma_one_sign('<');
    lemma_one_sign('>');
    lemma_one_sign('"');
    lemma_one_sign(c);
    if right.len() == 0 {
        assert(left + right =~= left);
        assert(html_text(left + right) =~= html_text(left) + html_text(right));
    } else {
        law_texts_are_escaped(left, right.drop_last(), c);
        assert((left + right).drop_last() =~= left + right.drop_last());
        assert(html_text(left + right) =~= html_text(left) + html_text(right));
    }
}

proof fn lemma_one_sign(c: char)
    ensures
        html_text(seq![c]) == html_char(c),
{
    assert(seq![c].drop_last() =~= Seq::<char>::empty());
    assert(html_text(seq![c].drop_last()) =~= Seq::<char>::empty());
    assert(html_text(seq![c]) =~= html_char(c));
}

/// The inspector of a socket is the browser's own, at the socket without its scheme.
pub proof fn law_sockets_have_inspectors(socket: Seq<char>)
    ensures
        inspector_of("ws://"@ + socket) == Some(
            "devtools://devtools/bundled/inspector.html?ws="@ + socket,
        ),
        inspector_of("wss://"@ + socket) == Some(
            "devtools://devtools/bundled/inspector.html?ws="@ + socket,
        ),
        inspector_of("http://"@ + socket) is None,
{
    lemma_schemes(socket);
}

proof fn lemma_schemes(rest: Seq<char>)
    ensures
        after_socket_scheme("ws://"@ + rest) == Some(rest),
        after_socket_scheme("wss://"@ + rest) == Some(rest),
        after_socket_scheme("http://"@ + rest) is None,
{
    reveal_strlit("ws://");
    reveal_strlit("wss://");
    reveal_strlit("http://");
    text::law_beginnings_are_taken_off("ws://"@ + rest, "ws://"@, rest);
    text::law_beginnings_are_taken_off("wss://"@ + rest, "wss://"@, rest);
    let secure = "wss://"@ + rest;
    assert(secure[2] == 's');
    assert("ws://"@[2] == ':');
    if text::has_prefix(secure, "ws://"@) {
        assert(secure.subrange(0, 5)[2] == secure[2]);
    }
    let plain = "http://"@ + rest;
    assert(plain[0] == 'h');
    if text::has_prefix(plain, "ws://"@) {
        assert(plain.subrange(0, 5)[0] == plain[0]);
    }
    if text::has_prefix(plain, "wss://"@) {
        assert(plain.subrange(0, 6)[0] == plain[0]);
    }
}

/// The pages of a browser are listed at its host: what stands before the path to its
/// inspector.
pub proof fn law_browsers_list_their_pages(host: Seq<char>, path: Seq<char>)
    requires
        !host.contains('/'),
    ensures
        http_base("ws://"@ + (host + "/devtools/"@ + path)) == Some("http://"@ + host),
        http_base("wss://"@ + (host + "/devtools/"@ + path)) == Some("http://"@ + host),
        http_base("ws://"@ + host) is None,
{
    let rest = host + "/devtools/"@ + path;
    lemma_schemes(rest);
    lemma_schemes(host);
    reveal_strlit("/devtools/");
    assert forall|at: int| 0 <= at < host.len() implies !#[trigger] text::occurs_at(
        rest,
        "/devtools/"@,
        at,
    ) by {
        if text::occurs_at(rest, "/devtools/"@, at) {
            assert(rest.subrange(at, at + 10)[0] == rest[at]);
            assert(rest[at] == host[at]);
            assert(host.contains(host[at]));
        }
    }
    assert forall|at: int| !#[trigger] text::occurs_at(host, "/devtools/"@, at) by {
        if text::occurs_at(host, "/devtools/"@, at) {
            assert(host.subrange(at, at + 10)[0] == host[at]);
            assert(host.contains(host[at]));
        }
    }
    text::law_texts_are_cut(host, "/devtools/"@, path, host);
}

/// A session is inspected at the first page of its browser, at the socket that the browser
/// names for it, and at the browser itself where there is no page.
pub proof fn law_pages_are_inspected(
    targets: Vec<CdpTargetDescriptor>,
    k: int,
    ws_url: Seq<char>,
    head: Seq<char>,
    socket: Seq<char>,
)
    requires
        0 <= k <= targets@.len(),
        forall|i: int| 0 <= i < k ==> (#[trigger] targets@[i]).target_type@ != "page"@,
        k < targets@.len() ==> {
            &&& targets@[k].target_type@ == "page"@
            &&& targets@[k].devtools_frontend_url is Some
            &&& targets@[k].devtools_frontend_url->Some_0@ == head + "ws="@ + socket
        },
        forall|at: int|
            0 <= at < head.len() ==> !#[trigger] text::occurs_at(head + "ws="@ + socket, "ws="@, at),
    ensures
        k < targets@.len() && http_base(ws_url) is Some ==> session_inspector(
            Some(ws_url),
            Some(targets),
        ) == Some("devtools://devtools/bundled/inspector.html?ws="@ + socket),
        k == targets@.len() ==> session_inspector(Some(ws_url), Some(targets)) == inspector_of(
            ws_url,
        ),
        session_inspector(Some(ws_url), None) == inspector_of(ws_url),
        session_inspector(None, Some(targets)) is None,
{
    text::law_texts_are_cut(head, "ws="@, socket, head);
    lemma_first_page(targets@, k);
}

proof fn lemma_first_page(targets: Seq<CdpTargetDescriptor>, k: int)
    requires
        0 <= k <= targets.len(),
        forall|i: int| 0 <= i < k ==> (#[trigger] targets[i]).target_type@ != "page"@,
    ensures
        inspector_of_page(targets) == inspector_of_page(targets.skip(k)),
    decreases k,
{
    if k == 0 {
        assert(targets.skip(0) =~= targets);
    } else {
        assert(targets[0].target_type@ != "page"@);
        let rest = targets.skip(1);
        assert forall|i: int| 0 <= i < k - 1 implies (#[trigger] rest[i]).target_type@
            != "page"@ by {
            assert(rest[i] == targets[i + 1]);
        }
        lemma_first_page(rest, k - 1);
        assert(rest.skip(k - 1) =~= targets.skip(k));
    }
}

/// A row of the list of sessions has eight cells: the number, the state, the age, the idle
/// time, the memory, the processor, the process and the link, with nothing for what is not
/// known.
pub proof fn law_rows_have_eight_cells(row: SessionRow, content: Seq<char>)
    ensures
        cell(content) == "<td>"@ + content + "</td>"@,
        ({
            let info = row.info;
            let memory = if info.rss_bytes is Some {
                text::decimal(info.rss_bytes->Some_0 as nat)
            } else {
                Seq::empty()
            };
            let processor = if info.cpu_percent is Some {
                info.cpu_percent->Some_0.rounded@
            } else {
                Seq::empty()
            };
            let process = if info.pid is Some {
                text::decimal(info.pid->Some_0 as nat)
            } else {
                Seq::empty()
            };
            let link = if row.devtools is Some {
                row.devtools->Some_0@
            } else {
                "#"@
            };
            row_html(row) == "<tr>"@ + cell(html_text(id::id_name(info.id))) + cell(
                html_text(pool::state_name(info.state)),
            ) + cell(text::decimal(info.age_seconds as nat)) + cell(
                text::decimal(info.idle_seconds as nat),
            ) + cell(memory) + cell(processor) + cell(process) + cell(
                "<a href=\""@ + html_text(link) + "\">devtools</a>"@,
            ) + "</tr>"@
        }),
{
}

/// The rows of the list follow each other between the head and the foot of the page.
pub proof fn law_rows_follow_each_other(left: Seq<SessionRow>, right: Seq<SessionRow>, row: SessionRow)
    ensures
        rows_html(left + right) == rows_html(left) + rows_html(right),
        rows_html(seq![row]) == row_html(row),
        page_html(left) == PAGE_HEAD@ + rows_html(left) + PAGE_FOOT@,
    decreases right.len(),
{
    assert(seq![row].drop_last() =~= Seq::<SessionRow>::empty());
    assert(rows_html(seq![row].drop_last()) =~= Seq::<char>::empty());
    assert(rows_html(seq![row]) =~= row_html(row));
    if right.len() == 0 {
        assert(left + right =~= left);
        assert(rows_html(left + right) =~= rows_html(left) + rows_html(right));
    } else {
        law_rows_follow_each_other(left, right.drop_last(), row);
        assert((left + right).drop_last() =~= left + right.drop_last());
        assert(rows_html(left + right) =~= rows_html(left) + rows_html(right));
    }
}

/// The link of a session is the first that stands under its number.
pub proof fn law_links_are_found(links: Seq<(u128, String)>, id: u128, k: int)
    requires
        0 <= k <= links.len(),
        forall|i: int| 0 <= i < k ==> (#[trigger] links[i]).0 != id,
        k < links.len() ==> links[k].0 == id,
    ensures
        k < links.len() ==> link_of(links, id) == Some(links[k].1@),
        k == links.len() ==> link_of(links, id) is None,
    decreases k,
{
    if k > 0 {
        assert(links[0].0 != id);
        let rest = links.skip(1);
        assert forall|i: int| 0 <= i < k - 1 implies (#[trigger] rest[i]).0 != id by {
            assert(rest[i] == links[i + 1]);
        }
        law_links_are_found(rest, id, k - 1);
    }
}

/// What is told of a new session is its number, its process, its address and the time at
/// which the pool made it.
pub proof fn law_new_sessions_are_told(
    response: CreatedSessionResponse,
    handle: pool::HandleView,
    entry: SessionEntry,
    address: Seq<char>,
    now: Now,
)
    requires
        tells(response, handle, Some(entry), address, now),
    ensures
        response.id == handle.id,
        response.pid == handle.pid,
        response.cdp_ws_url@ == address,
        response.created_at == entry.created_at,
{
}

/// A paper that is not named is left to the browser; one that is unknown is refused by
/// its name.
pub proof fn law_papers_are_known(name: String)
    ensures
        paper_of(None) == Ok::<Option<(Seq<char>, Seq<char>)>, Seq<char>>(None),
        match rest::paper_size(name@) {
            Some(size) => paper_of(Some(name)) == Ok::<
                Option<(Seq<char>, Seq<char>)>,
                Seq<char>,
            >(Some(size)),
            None => paper_of(Some(name)) == Err::<Option<(Seq<char>, Seq<char>)>, Seq<char>>(
                "unsupported pdf format: "@ + name@,
            ),
        },
        REASON_DELETED@ == "delete requested"@,
{
}

/// A job on a page loads the address of its request in the time of its request, up to the
/// point that it names, and does what was asked: a picture in the form that was named, of
/// the full page just where that was said; a print that is turned and has its background
/// just where that was said, on the paper that was named.
pub proof fn law_page_jobs_do_what_was_asked(
    request: PageRequest,
    scraped: ScrapeRequest,
    pictured: ScreenshotRequest,
    printed: PdfRequest,
)
    ensures
        asks_to_scrape(request, scraped) ==> {
            &&& request.task is Scrape
            &&& request.options.url@ == text::trim(scraped.url@)
            &&& scraped.timeout_ms is Some ==> request.options.timeout.total()
                == scraped.timeout_ms->Some_0 * 1_000_000
            &&& scraped.wait_until is None ==> request.options.wait_until is Load
            &&& scraped.wait_until is Some ==> rest::wait_until_of(
                Some(scraped.wait_until->Some_0@),
            ) == Some(request.options.wait_until)
        },
        asks_for_picture(request, pictured) ==> {
            &&& request.task is Screenshot
            &&& request.task->Screenshot_full_page == (pictured.full_page == Some(true))
            &&& pictured.format is None ==> request.task->Screenshot_format is Png
            &&& pictured.format is Some ==> rest::screenshot_format_of(
                Some(pictured.format->Some_0@),
            ) == Some(request.task->Screenshot_format)
            &&& request.options.url@ == text::trim(pictured.url@)
            &&& pictured.timeout_ms is Some ==> request.options.timeout.total()
                == pictured.timeout_ms->Some_0 * 1_000_000
            &&& pictured.wait_until is Some ==> rest::wait_until_of(
                Some(pictured.wait_until->Some_0@),
            ) == Some(request.options.wait_until)
        },
        asks_for_print(request, printed) ==> {
            let params = rest::task_command(Seq::empty(), request.task).params->Object_0;
            &&& request.task is Pdf
            &&& json::has(
                params,
                "landscape"@,
                JsonView::Bool(printed.landscape == Some(true)),
            )
            &&& json::has(
                params,
                "printBackground"@,
                JsonView::Bool(printed.print_background == Some(true)),
            )
            &&& printed.format is None ==> !params.contains_key("paperWidth"@)
                && !params.contains_key("paperHeight"@)
            &&& printed.format is Some ==> {
                let size = rest::paper_size(printed.format->Some_0@);
                &&& size is Some
                &&& json::has(params, "paperWidth"@, JsonView::Decimal(size->Some_0.0))
                &&& json::has(params, "paperHeight"@, JsonView::Decimal(size->Some_0.1))
            }
            &&& request.options.url@ == text::trim(printed.url@)
            &&& printed.timeout_ms is Some ==> request.options.timeout.total()
                == printed.timeout_ms->Some_0 * 1_000_000
            &&& printed.wait_until is Some ==> rest::wait_until_of(
                Some(printed.wait_until->Some_0@),
            ) == Some(request.options.wait_until)
        },
{
    if asks_for_print(request, printed) {
        rest::law_prints_follow_the_options(
            Seq::empty(),
            request.task->Pdf_0,
            printed.landscape == Some(true),
            printed.print_background == Some(true),
            paper_of(printed.format)->Ok_0,
        );
    }
}

/// Each row of the list has the link of its own session.
pub proof fn law_rows_have_their_links(rows: Seq<SessionRow>, links: Seq<(u128, String)>, i: int)
    requires
        rows_are_linked(rows, links),
        0 <= i < rows.len(),
    ensures
        link_of(links, rows[i].info.id) is None ==> rows[i].devtools is None,
        link_of(links, rows[i].info.id) is Some ==> rows[i].devtools is Some
            && rows[i].devtools->Some_0@ == link_of(links, rows[i].info.id)->Some_0,
        row_infos(rows).len() == rows.len(),
        row_infos(rows)[i] == rows[i].info,
{
}

/// A list that would be a launch but for its length is refused with its length.
pub proof fn law_long_launches_are_refused(items: Seq<JsonView>)
    requires
        items.len() > 5,
        forall|i: int| 0 <= i < 5 ==> #[trigger] items[i] == JsonView::Null,
    ensures
        launch_of(JsonView::Array(items)) == Err::<LaunchView, Seq<char>>(
            "invalid length "@ + text::decimal(items.len()) + ", expected "@
                + "fewer elements in array"@,
        ),
{
    assert(items[0] == JsonView::Null && items[1] == JsonView::Null && items[2] == JsonView::Null
        && items[3] == JsonView::Null && items[4] == JsonView::Null);
}

/// A request for a session that is not there is answered with the status for that, wherever
/// the request may be made.
pub proof fn law_missing_sessions_are_not_found<T>(
    state: ApiState,
    headers: RequestHeaders,
    query: SessionQuery,
    id: u128,
    outcome: Result<T, ApiErrorView>,
)
    requires
        state.misses(headers, query, id, outcome),
        !state.pool@.sessions.contains_key(id),
        state.token is None || query.token is Some && query.token->Some_0@
            == state.token->Some_0@,
    ensures
        outcome is Err,
        outcome->Err_0.status == 404,
{
}

}

//! JSON values, and their text form as `serde_json` reads and writes it.
use vstd::prelude::*;
use serde::de::Unexpected;
use crate::text;

verus! {

/// A JSON value.
#[derive(Debug)]
pub enum Json {
    Null,
    Bool(bool),
    Unsigned(u64),
    Negative(i64),
    /// A number with a fraction or an exponent, by its text.
    Decimal(String),
    Text(String),
    Array(Vec<Json>),
    /// The members of an object; of two with one name the later counts.
    Object(Vec<(String, Json)>),
}

/// What a JSON value is, apart from how it is held.
#[verifier::ext_equal]
pub enum JsonView {
    Null,
    Bool(bool),
    Integer(int),
    Decimal(Seq<char>),
    Text(Seq<char>),
    Array(Seq<JsonView>),
    Object(Map<Seq<char>, JsonView>),
}

/// The members of an object by name; of two with one name the later counts.
pub open spec fn members_view(members: Seq<(String, Json)>) -> Map<Seq<char>, JsonView>
    decreases members,
{
    if members.len() == 0 {
        Map::empty()
    } else {
        members_view(members.drop_last()).insert(members.last().0@, members.last().1.value())
    }
}

/// The items of an array.
pub open spec fn items_view(items: Seq<Json>) -> Seq<JsonView>
    decreases items,
{
    if items.len() == 0 {
        Seq::empty()
    } else {
        items_view(items.drop_last()).push(items.last().value())
    }
}

impl Json {
    /// What the value is.
    pub open spec fn value(self) -> JsonView
        decreases self,
    {
        match self {
            Json::Null => JsonView::Null,
            Json::Bool(value) => JsonView::Bool(value),
            Json::Unsigned(value) => JsonView::Integer(value as int),
            Json::Negative(value) => JsonView::Integer(value as int),
            Json::Decimal(value) => JsonView::Decimal(value@),
            Json::Text(value) => JsonView::Text(value@),
            Json::Array(items) => JsonView::Array(items_view(items@)),
            Json::Object(members) => JsonView::Object(members_view(members@)),
        }
    }
}

impl View for Json {
    type V = JsonView;

    open spec fn view(&self) -> JsonView {
        self.value()
    }
}

/// The member called `name`, if the value is an object that has one.
pub open spec fn member(value: JsonView, name: Seq<char>) -> Option<JsonView> {
    match value {
        JsonView::Object(members) => if members.contains_key(name) {
            Some(members[name])
        } else {
            None
        },
        _ => None,
    }
}

/// Whether some members hold a value under a name.
pub open spec fn has(members: Map<Seq<char>, JsonView>, name: Seq<char>, value: JsonView) -> bool {
    members.contains_key(name) && members[name] == value
}

/// The text of a value that is a text.
pub open spec fn as_text(value: JsonView) -> Option<Seq<char>> {
    match value {
        JsonView::Text(text) => Some(text),
        _ => None,
    }
}

/// The number of a value that is an integer of 64 bits without sign.
pub open spec fn as_unsigned(value: JsonView) -> Option<int> {
    match value {
        JsonView::Integer(number) => if 0 <= number <= u64::MAX {
            Some(number)
        } else {
            None
        },
        _ => None,
    }
}

/// The text of the member called `name`, if that is a text.
pub open spec fn member_text(value: JsonView, name: Seq<char>) -> Option<Seq<char>> {
    match member(value, name) {
        Some(found) => as_text(found),
        None => None,
    }
}

/// The member `inner` of the member `outer`.
pub open spec fn nested(value: JsonView, outer: Seq<char>, inner: Seq<char>) -> Option<JsonView> {
    match member(value, outer) {
        Some(found) => member(found, inner),
        None => None,
    }
}

/// An optional value as what it is.
pub open spec fn opt_json(value: Option<Json>) -> Option<JsonView> {
    match value {
        Some(json) => Some(json@),
        None => None,
    }
}

/// An optional reference to a value as what it is.
pub open spec fn opt_json_ref(value: Option<&Json>) -> Option<JsonView> {
    match value {
        Some(json) => Some(json@),
        None => None,
    }
}

/// A decimal fraction that has one shortest spelling: at most three digits
/// before the point, one or two behind it, and no superfluous zero.
pub open spec fn short_decimal(text: Seq<char>) -> bool {
    exists|point: int|
        {
            &&& 1 <= point <= 3
            &&& point + 2 <= text.len() <= point + 3
            &&& #[trigger] text[point] == '.'
            &&& text::all_digits(text.take(point))
            &&& text::all_digits(text.skip(point + 1))
            &&& (text[0] != '0' || point == 1)
            &&& (text.last() != '0' || text.len() == point + 2)
        }
}

/// Whether a member name is one that its text gives back: it does not begin with `$`.
pub open spec fn plain_name(name: Seq<char>) -> bool {
    !(name.len() > 0 && name[0] == '$')
}

/// A value that its text gives back: containers nested at most `depth` deep,
/// integers of 64 bits, short decimals, and no member name that begins with `$`.
pub open spec fn plain(value: JsonView, depth: nat) -> bool
    decreases depth,
{
    match value {
        JsonView::Null => true,
        JsonView::Bool(_) => true,
        JsonView::Integer(number) => i64::MIN <= number <= u64::MAX,
        JsonView::Decimal(text) => short_decimal(text),
        JsonView::Text(_) => true,
        JsonView::Array(items) => depth > 0 && forall|i: int|
            0 <= i < items.len() ==> plain(#[trigger] items[i], (depth - 1) as nat),
        JsonView::Object(members) => depth > 0 && forall|name: Seq<char>|
            #[trigger] members.contains_key(name) ==> plain_name(name) && plain(
                members[name],
                (depth - 1) as nat,
            ),
    }
}

/// Whether everything that is held is plain: also each of several members that have one
/// name, of which only the last counts.
pub open spec fn holds_plain(json: Json, depth: nat) -> bool
    decreases depth,
{
    match json {
        Json::Decimal(digits) => short_decimal(digits@),
        Json::Array(items) => depth > 0 && forall|i: int|
            0 <= i < items@.len() ==> holds_plain(#[trigger] items@[i], (depth - 1) as nat),
        Json::Object(members) => depth > 0 && forall|i: int|
            0 <= i < members@.len() ==> plain_name((#[trigger] members@[i]).0@) && holds_plain(
                members@[i].1,
                (depth - 1) as nat,
            ),
        _ => true,
    }
}

/// Whether each of some members has a plain name and holds nothing that is not plain.
pub open spec fn members_plain(members: Seq<(String, Json)>, depth: nat) -> bool {
    forall|i: int|
        0 <= i < members.len() ==> plain_name((#[trigger] members[i]).0@) && holds_plain(
            members[i].1,
            depth,
        )
}

/// How deep containers may be nested in a text that is read.
pub const MAX_DEPTH: usize = 127;

/// A value of the outside crate `serde_json`.
#[verifier::external_type_specification]
#[verifier::external_body]
pub struct ExValue(serde_json::Value);

/// What a `serde_json::Value` holds.
pub uninterp spec fn value_contents(value: serde_json::Value) -> JsonView;

/// What `serde_json::from_str` makes of a text: the value, or the words of its error.
pub uninterp spec fn json_value(text: Seq<char>) -> Result<JsonView, Seq<char>>;

/// What `serde_json::Value` is written as by its `Display`: compact JSON.
pub uninterp spec fn json_text(value: JsonView) -> Seq<char>;

/// Calls `serde_json::from_str` for a `serde_json::Value`. Its result depends on
/// the text alone; of an error the words are kept.
#[verifier::external_body]
fn parse_value(text: &str) -> (res: Result<serde_json::Value, String>)
    ensures
        match res {
            Ok(value) => json_value(text@) == Ok::<JsonView, Seq<char>>(value_contents(value)),
            Err(words) => json_value(text@) == Err::<JsonView, Seq<char>>(words@),
        },
{
    serde_json::from_str::<serde_json::Value>(text).map_err(|error| error.to_string())
}

/// Takes a `serde_json::Value` apart, one variant for one; of a number that is
/// no integer the text is kept that `serde_json::Number` displays.
#[verifier::external_body]
fn json_from_value(value: serde_json::Value) -> (res: Json)
    ensures
        res@ == value_contents(value),
{
    match value {
        serde_json::Value::Null => Json::Null,
        serde_json::Value::Bool(value) => Json::Bool(value),
        serde_json::Value::Number(value) => match (value.as_u64(), value.as_i64()) {
            (Some(number), _) => Json::Unsigned(number),
            (None, Some(number)) => Json::Negative(number),
            (None, None) => Json::Decimal(value.to_string()),
        },
        serde_json::Value::String(value) => Json::Text(value),
        serde_json::Value::Array(items) => Json::Array(items.into_iter().map(json_from_value).collect()),
        serde_json::Value::Object(members) => Json::Object(members.into_iter().map(|member| (member.0, json_from_value(member.1))).collect()),
    }
}

/// Builds a `serde_json::Value`, one variant for one; of members with one name the last
/// stays. A short decimal is read by `serde_json::Number::from_str`, which keeps it as it
/// is; other texts, which it may refuse, stand nowhere in the value.
#[verifier::external_body]
fn value_from_json(json: &Json) -> (res: serde_json::Value)
    requires
        holds_plain(*json, MAX_DEPTH as nat),
    ensures
        value_contents(res) == json@,
{
    match json {
        Json::Null => serde_json::Value::Null,
        Json::Bool(value) => serde_json::Value::Bool(*value),
        Json::Unsigned(value) => serde_json::Value::from(*value),
        Json::Negative(value) => serde_json::Value::from(*value),
        Json::Decimal(value) => serde_json::Value::Number(value.parse().unwrap()),
        Json::Text(value) => serde_json::Value::String(value.clone()),
        Json::Array(items) => serde_json::Value::Array(items.iter().map(value_from_json).collect()),
        Json::Object(members) => serde_json::Value::Object(members.iter().map(|member| (member.0.clone(), value_from_json(&member.1))).collect()),
    }
}

/// Calls `serde_json::Value::to_string`. The text is a function of what the value
/// holds, and reading the text of a plain value gives that value back.
#[verifier::external_body]
fn value_text(value: &serde_json::Value) -> (res: String)
    ensures
        res@ == json_text(value_contents(*value)),
        plain(value_contents(*value), MAX_DEPTH as nat) ==> json_value(res@) is Ok && json_value(
            res@,
        )->Ok_0 == value_contents(*value),
{
    value.to_string()
}

/// Calls `serde_json::Value::get` with a member name, and copies the member.
#[verifier::external_body]
fn value_member(value: &serde_json::Value, name: &str) -> (res: Option<serde_json::Value>)
    ensures
        match res {
            Some(found) => member(value_contents(*value), name@) == Some(value_contents(found)),
            None => member(value_contents(*value), name@) is None,
        },
{
    value.get(name).cloned()
}

/// The words with which `serde_json::Error` says that a value is not of the type that
/// is expected.
pub uninterp spec fn type_error(value: JsonView, expected: Seq<char>) -> Seq<char>;

/// Calls `invalid_type` of `serde::de::Error` for `serde_json::Error`, and writes the
/// error down. The words depend on the value and on what is expected alone. A decimal
/// is taken as the number that its text stands for, or as zero where it is no number.
#[verifier::external_body]
fn refuse_type(value: &Json, expected: &str) -> (res: String)
    ensures
        res@ == type_error(value@, expected@),
{
    let found = match value {
        Json::Null => Unexpected::Unit,
        Json::Bool(flag) => Unexpected::Bool(*flag),
        Json::Unsigned(number) => Unexpected::Unsigned(*number),
        Json::Negative(number) => Unexpected::Signed(*number),
        Json::Decimal(digits) => Unexpected::Float(digits.parse().unwrap_or_default()),
        Json::Text(content) => Unexpected::Str(content),
        Json::Array(_) => Unexpected::Seq,
        Json::Object(_) => Unexpected::Map,
    };
    <serde_json::Error as serde::de::Error>::invalid_type(found, &expected).to_string()
}

proof fn lemma_members_push(members: Seq<(String, Json)>, added: (String, Json))
    ensures
        members_view(members.push(added)) == members_view(members).insert(added.0@, added.1@),
{
    assert(members.push(added).drop_last() =~= members);
}

/// Adds a member to an object under construction.
pub fn put(members: &mut Vec<(String, Json)>, name: &str, value: Json)
    ensures
        members_view(final(members)@) == members_view(old(members)@).insert(name@, value@),
        forall|depth: nat| #[trigger]
            members_plain(final(members)@, depth) == (members_plain(old(members)@, depth)
                && plain_name(name@) && holds_plain(value, depth)),
{
    let ghost before = members@;
    let added: (String, Json) = (name.to_owned(), value);
    proof {
        lemma_members_push(members@, added);
    }
    members.push(added);
    assert forall|depth: nat| #[trigger] members_plain(members@, depth) == (members_plain(
        before,
        depth,
    ) && plain_name(name@) && holds_plain(value, depth)) by {
        if members_plain(members@, depth) {
            assert forall|i: int| 0 <= i < before.len() implies plain_name(
                (#[trigger] before[i]).0@,
            ) && holds_plain(before[i].1, depth) by {
                assert(members@[i] == before[i]);
            }
            assert(members@[before.len() as int] == added);
        }
    }
}

proof fn lemma_absent(members: Seq<(String, Json)>, name: Seq<char>)
    requires
        forall|i: int| 0 <= i < members.len() ==> (#[trigger] members[i]).0@ != name,
    ensures
        !members_view(members).contains_key(name),
    decreases members.len(),
{
    if members.len() > 0 {
        assert(members.last() == members[members.len() - 1]);
        lemma_absent(members.drop_last(), name);
    }
}

proof fn lemma_found(members: Seq<(String, Json)>, name: Seq<char>, at: int)
    requires
        0 <= at < members.len(),
        members[at].0@ == name,
        forall|i: int| at < i < members.len() ==> (#[trigger] members[i]).0@ != name,
    ensures
        members_view(members).contains_key(name),
        members_view(members)[name] == members[at].1@,
    decreases members.len(),
{
    if at < members.len() - 1 {
        assert(members.last() == members[members.len() - 1]);
        lemma_found(members.drop_last(), name, at);
    }
}

proof fn lemma_items_view(items: Seq<Json>, at: int)
    requires
        0 <= at < items.len(),
    ensures
        items_view(items.take(at + 1)) == items_view(items.take(at)).push(items[at]@),
{
    assert(items.take(at + 1).drop_last() =~= items.take(at));
}

/// An array has as many items as it holds.
pub proof fn lemma_items_len(items: Seq<Json>)
    ensures
        items_view(items).len() == items.len(),
    decreases items.len(),
{
    if items.len() > 0 {
        lemma_items_len(items.drop_last());
    }
}

/// The items of an array are those that it holds.
pub proof fn lemma_item(items: Seq<Json>, at: int)
    requires
        0 <= at < items.len(),
    ensures
        items_view(items).len() == items.len(),
        items_view(items)[at] == items[at]@,
    decreases items.len(),
{
    lemma_items_len(items);
    lemma_items_len(items.drop_last());
    if at < items.len() - 1 {
        lemma_item(items.drop_last(), at);
        assert(items_view(items)[at] == items_view(items.drop_last())[at]);
    }
}

/// Where the texts before an item are read and the item is no text, the whole list is
/// refused for this item.
proof fn lemma_first_refused(items: Seq<Json>, at: int, expected: Seq<char>)
    requires
        0 <= at < items.len(),
        texts_of(items_view(items.take(at)), expected) is Ok,
        as_text(items[at]@) is None,
    ensures
        texts_of(items_view(items), expected) == Err::<Seq<Seq<char>>, Seq<char>>(
            type_error(items[at]@, expected),
        ),
    decreases items.len() - at,
{
    lemma_items_view(items, at);
    assert(items_view(items.take(at + 1)).drop_last() =~= items_view(items.take(at)));
    lemma_refused_stays(items, at + 1, expected);
}

proof fn lemma_refused_stays(items: Seq<Json>, upto: int, expected: Seq<char>)
    requires
        0 <= upto <= items.len(),
        texts_of(items_view(items.take(upto)), expected) is Err,
    ensures
        texts_of(items_view(items), expected) == texts_of(items_view(items.take(upto)), expected),
    decreases items.len() - upto,
{
    if upto == items.len() {
        assert(items.take(upto) =~= items);
    } else {
        lemma_items_view(items, upto);
        assert(items_view(items.take(upto + 1)).drop_last() =~= items_view(items.take(upto)));
        lemma_refused_stays(items, upto + 1, expected);
    }
}

proof fn lemma_member_held(members: Seq<(String, Json)>, name: Seq<char>)
    requires
        members_view(members).contains_key(name),
    ensures
        exists|i: int|
            {
                &&& 0 <= i < members.len()
                &&& (#[trigger] members[i]).0@ == name
                &&& members_view(members)[name] == members[i].1@
            },
    decreases members.len(),
{
    let before = members.drop_last();
    if members.last().0@ == name {
        assert(members[members.len() - 1].0@ == name);
    } else {
        lemma_member_held(before, name);
        let i = choose|i: int|
            {
                &&& 0 <= i < before.len()
                &&& (#[trigger] before[i]).0@ == name
                &&& members_view(before)[name] == before[i].1@
            };
        assert(members[i] == before[i]);
    }
}

/// A value that holds nothing that is not plain is plain.
pub proof fn lemma_held_plain(json: Json, depth: nat)
    requires
        holds_plain(json, depth),
    ensures
        plain(json@, depth),
    decreases depth,
{
    match json {
        Json::Array(items) => {
            let below = (depth - 1) as nat;
            lemma_items_len(items@);
            assert forall|i: int| 0 <= i < items_view(items@).len() implies plain(
                #[trigger] items_view(items@)[i],
                below,
            ) by {
                lemma_item(items@, i);
                lemma_held_plain(items@[i], below);
            }
        },
        Json::Object(members) => {
            let below = (depth - 1) as nat;
            let view = members_view(members@);
            assert forall|name: Seq<char>| #[trigger] view.contains_key(name) implies plain_name(
                name,
            ) && plain(view[name], below) by {
                lemma_member_held(members@, name);
                let i = choose|i: int|
                    {
                        &&& 0 <= i < members@.len()
                        &&& (#[trigger] members@[i]).0@ == name
                        &&& view[name] == members@[i].1@
                    };
                lemma_held_plain(members@[i].1, below);
            }
        },
        _ => {},
    }
}

/// The empty object.
pub fn empty_object() -> (res: Json)
    ensures
        res@ == JsonView::Object(Map::empty()),
        forall|depth: nat| depth > 0 ==> #[trigger] holds_plain(res, depth),
{
    Json::Object(Vec::new())
}

/// A text as a JSON value.
pub fn text(value: &str) -> (res: Json)
    ensures
        res@ == JsonView::Text(value@),
{
    Json::Text(value.to_owned())
}

/// An optional list of strings as the texts in it.
pub open spec fn opt_texts(value: Option<Vec<String>>) -> Option<Seq<Seq<char>>> {
    match value {
        Some(list) => Some(text::texts(list@)),
        None => None,
    }
}

/// The texts of some values, or the words that refuse the first that is no text and
/// say what was expected of it.
pub open spec fn texts_of(items: Seq<JsonView>, expected: Seq<char>) -> Result<
    Seq<Seq<char>>,
    Seq<char>,
>
    decreases items.len(),
{
    if items.len() == 0 {
        Ok(Seq::empty())
    } else {
        match texts_of(items.drop_last(), expected) {
            Ok(before) => match as_text(items.last()) {
                Some(last) => Ok(before.push(last)),
                None => Err(type_error(items.last(), expected)),
            },
            Err(words) => Err(words),
        }
    }
}

/// An optional list of texts, or the words that refuse a value as one: null stands for
/// none.
pub open spec fn optional_texts(value: JsonView, expected: Seq<char>) -> Result<
    Option<Seq<Seq<char>>>,
    Seq<char>,
> {
    match value {
        JsonView::Null => Ok(None),
        JsonView::Array(items) => match texts_of(items, expected) {
            Ok(found) => Ok(Some(found)),
            Err(words) => Err(words),
        },
        _ => Err(type_error(value, "a sequence"@)),
    }
}

/// An optional boolean, or the words that refuse a value as one: null stands for none.
pub open spec fn optional_bool(value: JsonView) -> Result<Option<bool>, Seq<char>> {
    match value {
        JsonView::Null => Ok(None),
        JsonView::Bool(flag) => Ok(Some(flag)),
        _ => Err(type_error(value, "a boolean"@)),
    }
}

/// An optional text, or the words that refuse a value as one: null stands for none.
pub open spec fn optional_text(value: JsonView) -> Result<Option<Seq<char>>, Seq<char>> {
    match value {
        JsonView::Null => Ok(None),
        JsonView::Text(found) => Ok(Some(found)),
        _ => Err(type_error(value, "a string"@)),
    }
}

/// A member of an object, or null where there is none.
pub open spec fn member_or_null(value: JsonView, name: Seq<char>) -> JsonView {
    match member(value, name) {
        Some(found) => found,
        None => JsonView::Null,
    }
}

impl Json {
    /// The words that refuse the value where something else is expected.
    pub fn refuse(&self, expected: &str) -> (res: String)
        ensures
            res@ == type_error(self@, expected@),
    {
        refuse_type(self, expected)
    }

    /// The value as an optional list of texts, of which something is expected.
    pub fn to_texts(&self, expected: &str) -> (res: Result<Option<Vec<String>>, String>)
        ensures
            match optional_texts(self@, expected@) {
                Ok(found) => res is Ok && opt_texts(res->Ok_0) == found,
                Err(words) => res is Err && res->Err_0@ == words,
            },
    {
        let items = match self {
            Json::Null => return Ok(None),
            Json::Array(items) => items,
            _ => return Err(self.refuse("a sequence")),
        };
        let mut found: Vec<String> = Vec::new();
        let mut i: usize = 0;
        assert(text::texts(found@) =~= Seq::<Seq<char>>::empty());
        assert(items_view(items@.take(0)) =~= Seq::<JsonView>::empty());
        while i < items.len()
            invariant
                i <= items.len(),
                self@ == JsonView::Array(items_view(items@)),
                texts_of(items_view(items@.take(i as int)), expected@) == Ok::<
                    Seq<Seq<char>>,
                    Seq<char>,
                >(text::texts(found@)),
            decreases items.len() - i,
        {
            proof {
                lemma_items_view(items@, i as int);
                assert(items_view(items@.take(i + 1)).drop_last() =~= items_view(
                    items@.take(i as int),
                ));
            }
            match items[i].as_str() {
                Some(item) => {
                    text::push_text(&mut found, item);
                },
                None => {
                    proof {
                        lemma_first_refused(items@, i as int, expected@);
                    }
                    return Err(items[i].refuse(expected));
                },
            }
            i += 1;
        }
        assert(items@.take(items.len() as int) =~= items@);
        Ok(Some(found))
    }

    /// The value as an optional boolean.
    pub fn to_bool(&self) -> (res: Result<Option<bool>, String>)
        ensures
            match optional_bool(self@) {
                Ok(found) => res is Ok && res->Ok_0 == found,
                Err(words) => res is Err && res->Err_0@ == words,
            },
    {
        match self {
            Json::Null => Ok(None),
            Json::Bool(flag) => Ok(Some(*flag)),
            _ => Err(self.refuse("a boolean")),
        }
    }

    /// The value as an optional text.
    pub fn to_text(&self) -> (res: Result<Option<String>, String>)
        ensures
            match optional_text(self@) {
                Ok(found) => res is Ok && text::opt_text(res->Ok_0) == found,
                Err(words) => res is Err && res->Err_0@ == words,
            },
    {
        match self {
            Json::Null => Ok(None),
            Json::Text(content) => Ok(Some(content.clone())),
            _ => Err(self.refuse("a string")),
        }
    }

    /// The member called `name`, if the value is an object that has one.
    pub fn get(&self, name: &str) -> (res: Option<&Json>)
        ensures
            opt_json_ref(res) == member(self@, name@),
    {
        match self {
            Json::Object(members) => {
                let mut i: usize = members.len();
                while i > 0
                    invariant
                        i <= members.len(),
                        self@ == JsonView::Object(members_view(members@)),
                        forall|j: int| i <= j < members.len() ==> (#[trigger] members@[j]).0@ != name@,
                    decreases i,
                {
                    i -= 1;
                    if text::str_eq(members[i].0.as_str(), name) {
                        proof {
                            lemma_found(members@, name@, i as int);
                        }
                        return Some(&members[i].1);
                    }
                }
                proof {
                    lemma_absent(members@, name@);
                }
                None
            },
            _ => None,
        }
    }

    /// The text of a value that is a text.
    pub fn as_str(&self) -> (res: Option<&str>)
        ensures
            text::opt_str(res) == as_text(self@),
    {
        match self {
            Json::Text(value) => Some(value.as_str()),
            _ => None,
        }
    }

    /// The number of a value that is an integer of 64 bits without sign.
    pub fn as_u64(&self) -> (res: Option<u64>)
        ensures
            match res {
                Some(number) => as_unsigned(self@) == Some(number as int),
                None => as_unsigned(self@) is None,
            },
    {
        match self {
            Json::Unsigned(number) => Some(*number),
            Json::Negative(number) => if *number >= 0 {
                Some(*number as u64)
            } else {
                None
            },
            _ => None,
        }
    }

    /// The text of the member called `name`, if that is a text.
    pub fn get_str(&self, name: &str) -> (res: Option<&str>)
        ensures
            text::opt_str(res) == member_text(self@, name@),
    {
        match self.get(name) {
            Some(found) => found.as_str(),
            None => None,
        }
    }

    /// The member `inner` of the member `outer`.
    pub fn get_nested(&self, outer: &str, inner: &str) -> (res: Option<&Json>)
        ensures
            opt_json_ref(res) == nested(self@, outer@, inner@),
    {
        match self.get(outer) {
            Some(found) => found.get(inner),
            None => None,
        }
    }

    /// The member called `name`, taken out of the value.
    pub fn into_member(self, name: &str) -> (res: Option<Json>)
        ensures
            opt_json(res) == member(self@, name@),
    {
        let ghost whole = self;
        match self {
            Json::Object(rest) => {
                let mut members = rest;
                let ghost all = members@;
                while members.len() > 0
                    invariant
                        members.len() <= all.len(),
                        members@ == all.take(members.len() as int),
                        whole == self,
                        whole@ == JsonView::Object(members_view(all)),
                        forall|j: int| members.len() <= j < all.len() ==> (#[trigger] all[j]).0@ != name@,
                    decreases members.len(),
                {
                    match members.pop() {
                        Some(last) => {
                            let ghost at = members.len() as int;
                            assert(last == all[at]);
                            if text::str_eq(last.0.as_str(), name) {
                                proof {
                                    lemma_found(all, name@, at);
                                }
                                return Some(last.1);
                            }
                        },
                        None => {},
                    }
                }
                proof {
                    lemma_absent(all, name@);
                }
                None
            },
            _ => None,
        }
    }
}

/// Reads a JSON text. The error is the one of `serde_json`, in its words.
pub fn parse(source: &str) -> (res: Result<Json, String>)
    ensures
        match res {
            Ok(value) => json_value(source@) == Ok::<JsonView, Seq<char>>(value@),
            Err(words) => json_value(source@) == Err::<JsonView, Seq<char>>(words@),
        },
{
    match parse_value(source) {
        Ok(value) => Ok(json_from_value(value)),
        Err(words) => Err(words),
    }
}

/// The compact JSON text of a value that holds nothing that is not plain. Reading it gives the value back.
pub fn render(value: &Json) -> (res: String)
    requires
        holds_plain(*value, MAX_DEPTH as nat),
    ensures
        res@ == json_text(value@),
        json_value(res@) == Ok::<JsonView, Seq<char>>(value@),
{
    proof {
        lemma_held_plain(*value, MAX_DEPTH as nat);
    }
    let held = value_from_json(value);
    value_text(&held)
}

/// A JSON value that was read, with the text of its member `error`.
#[derive(Debug)]
pub struct Message {
    pub body: Json,
    pub error: Option<String>,
}

/// The text of the member `error` of a value that was read.
pub open spec fn error_text(value: JsonView) -> Option<Seq<char>> {
    match member(value, "error"@) {
        Some(error) => Some(json_text(error)),
        None => None,
    }
}

impl Message {
    /// Whether the error text is the one of the body.
    pub open spec fn faithful(self) -> bool {
        text::opt_text(self.error) == error_text(self.body@)
    }
}

/// Reads a JSON text and keeps the text of its member `error` beside it.
pub fn parse_message(source: &str) -> (res: Result<Message, String>)
    ensures
        match res {
            Ok(message) => json_value(source@) == Ok::<JsonView, Seq<char>>(message.body@)
                && message.faithful(),
            Err(words) => json_value(source@) == Err::<JsonView, Seq<char>>(words@),
        },
{
    match parse_value(source) {
        Ok(value) => {
            let error = match value_member(&value, "error") {
                Some(found) => Some(value_text(&found)),
                None => None,
            };
            Ok(Message { body: json_from_value(value), error })
        },
        Err(words) => Err(words),
    }
}

/// What is put into an object last under a name is what the object has under it, and
/// every other member stays.
pub proof fn law_last_member_counts(members: Vec<(String, Json)>, more: Vec<(String, Json)>)
    requires
        more@.len() == members@.len() + 1,
        more@.drop_last() == members@,
    ensures
        ({
            let added = more@.last();
            let old = Json::Object(members)@;
            let new = Json::Object(more)@;
            &&& member(new, added.0@) == Some(added.1@)
            &&& forall|name: Seq<char>|
                name != added.0@ ==> #[trigger] member(new, name) == member(old, name)
        }),
{
}

/// Only an object has members, and it has those that it holds.
pub proof fn law_members_are_found(value: JsonView, name: Seq<char>, found: JsonView)
    ensures
        member(value, name) == Some(found) <==> value is Object && has(
            value->Object_0,
            name,
            found,
        ),
        member(value, name) is None <==> !(value is Object && value->Object_0.contains_key(name)),
{
}

/// A member is a text where it is there and a text, and a number of 64 bits without sign
/// where it is there and such a number.
pub proof fn law_members_are_typed(value: JsonView, name: Seq<char>, words: Seq<char>, number: int)
    ensures
        member_text(value, name) == Some(words) <==> member(value, name) == Some(
            JsonView::Text(words),
        ),
        as_unsigned(value) == Some(number) <==> value == JsonView::Integer(number) && 0 <= number
            < 0x1_0000_0000_0000_0000,
        as_text(value) == Some(words) <==> value == JsonView::Text(words),
{
}

/// The member of a member is found by way of an object in an object.
pub proof fn law_nested_members_are_found(
    value: JsonView,
    outer: Seq<char>,
    inner: Seq<char>,
    found: JsonView,
)
    ensures
        nested(value, outer, inner) == Some(found) <==> exists|middle: JsonView|
            member(value, outer) == Some(middle) && #[trigger] member(middle, inner) == Some(found),
{
    match member(value, outer) {
        Some(middle) => {
            assert(member(middle, inner) == nested(value, outer, inner));
        },
        None => {},
    }
}

/// What a JSON value is, tells apart what kind of value is held: nulls, flags, numbers,
/// texts, lists and objects never come to the same.
pub proof fn law_kinds_are_kept(flag: bool, number: u64, signed: i64, words: String, digits: String)
    ensures
        Json::Null@ == JsonView::Null,
        Json::Bool(flag)@ == JsonView::Bool(flag),
        Json::Unsigned(number)@ == JsonView::Integer(number as int),
        Json::Negative(signed)@ == JsonView::Integer(signed as int),
        Json::Text(words)@ == JsonView::Text(words@),
        Json::Decimal(digits)@ == JsonView::Decimal(digits@),
{
}

/// A list is read as texts just where each of its items is a text, and then they are
/// these; null is read as none, and nothing else is read.
pub proof fn law_text_lists_are_read(value: JsonView, expected: Seq<char>)
    ensures
        match optional_texts(value, expected) {
            Ok(None) => value == JsonView::Null,
            Ok(Some(found)) => value is Array && value->Array_0 =~= Seq::new(
                found.len(),
                |i: int| JsonView::Text(found[i]),
            ),
            Err(_) => value != JsonView::Null && !(value is Array && forall|i: int|
                0 <= i < value->Array_0.len() ==> (#[trigger] value->Array_0[i]) is Text),
        },
{
    if value is Array {
        lemma_texts_are_read(value->Array_0, expected);
    }
}

proof fn lemma_texts_are_read(items: Seq<JsonView>, expected: Seq<char>)
    ensures
        match texts_of(items, expected) {
            Ok(found) => items =~= Seq::new(found.len(), |i: int| JsonView::Text(found[i])),
            Err(_) => exists|i: int| 0 <= i < items.len() && !((#[trigger] items[i]) is Text),
        },
    decreases items.len(),
{
    if items.len() > 0 {
        let before = items.drop_last();
        lemma_texts_are_read(before, expected);
        match texts_of(before, expected) {
            Ok(found) => {
                assert(items.last() == items[items.len() - 1]);
                assert forall|i: int| 0 <= i < before.len() implies items[i] == JsonView::Text(
                    #[trigger] found[i],
                ) by {
                    assert(before[i] == items[i]);
                }
            },
            Err(_) => {
                let i = choose|i: int| 0 <= i < before.len() && !((#[trigger] before[i]) is Text);
                assert(!(items[i] is Text));
            },
        }
    }
}

/// A list that is not read as texts is refused for the first item that is no text, and a
/// value of another kind for being no list.
pub proof fn law_first_fault_is_told(value: JsonView, expected: Seq<char>, at: int)
    requires
        value is Array ==> {
            &&& 0 <= at < value->Array_0.len()
            &&& !(value->Array_0[at] is Text)
            &&& forall|i: int| 0 <= i < at ==> (#[trigger] value->Array_0[i]) is Text
        },
        value != JsonView::Null,
    ensures
        optional_texts(value, expected) == Err::<Option<Seq<Seq<char>>>, Seq<char>>(
            if value is Array {
                type_error(value->Array_0[at], expected)
            } else {
                type_error(value, "a sequence"@)
            },
        ),
{
    if value is Array {
        lemma_first_fault(value->Array_0, expected, at);
    }
}

proof fn lemma_first_fault(items: Seq<JsonView>, expected: Seq<char>, at: int)
    requires
        0 <= at < items.len(),
        !(items[at] is Text),
        forall|i: int| 0 <= i < at ==> (#[trigger] items[i]) is Text,
    ensures
        texts_of(items, expected) == Err::<Seq<Seq<char>>, Seq<char>>(
            type_error(items[at], expected),
        ),
    decreases items.len(),
{
    let before = items.drop_last();
    if at < before.len() {
        assert forall|i: int| 0 <= i < at implies (#[trigger] before[i]) is Text by {
            assert(items[i] == before[i]);
        }
        lemma_first_fault(before, expected, at);
    } else {
        lemma_texts_are_read(before, expected);
        match texts_of(before, expected) {
            Err(_) => {
                let i = choose|i: int| 0 <= i < before.len() && !((#[trigger] before[i]) is Text);
                assert(items[i] == before[i]);
            },
            _ => {},
        }
    }
}

/// A flag and a text are read where they are there, null as none, and a value of another
/// kind is refused for what it is.
pub proof fn law_flags_and_texts_are_read(value: JsonView)
    ensures
        match optional_bool(value) {
            Ok(None) => value == JsonView::Null,
            Ok(Some(flag)) => value == JsonView::Bool(flag),
            Err(words) => !(value is Null || value is Bool) && words == type_error(
                value,
                "a boolean"@,
            ),
        },
        match optional_text(value) {
            Ok(None) => value == JsonView::Null,
            Ok(Some(found)) => value == JsonView::Text(found),
            Err(words) => !(value is Null || value is Text) && words == type_error(
                value,
                "a string"@,
            ),
        },
{
}

/// The error of a message is the text of its member `error`, where it has one.
pub proof fn law_errors_are_told(members: Map<Seq<char>, JsonView>)
    ensures
        error_text(JsonView::Object(members)) == if members.contains_key("error"@) {
            Some(json_text(members["error"@]))
        } else {
            None
        },
{
}

/// A message that is taken apart faithfully has its error in words where it has one.
pub proof fn law_messages_are_faithful(message: Message, members: Map<Seq<char>, JsonView>)
    requires
        message.faithful(),
        message.body@ == JsonView::Object(members),
    ensures
        message.error is Some <==> members.contains_key("error"@),
        message.error is Some ==> message.error->Some_0@ == json_text(members["error"@]),
{
}

/// The items of a list are kept in their order.
pub proof fn law_lists_are_kept(items: Vec<Json>, i: int)
    requires
        0 <= i < items@.len(),
    ensures
        Json::Array(items)@ is Array,
        Json::Array(items)@->Array_0.len() == items@.len(),
        Json::Array(items)@->Array_0[i] == items@[i]@,
{
    lemma_items_are_kept(items@, i);
}

proof fn lemma_items_are_kept(items: Seq<Json>, i: int)
    ensures
        items_view(items).len() == items.len(),
        0 <= i < items.len() ==> items_view(items)[i] == items[i]@,
    decreases items.len(),
{
    if items.len() > 0 {
        lemma_items_are_kept(items.drop_last(), i);
        if 0 <= i < items.len() - 1 {
            assert(items.drop_last()[i] == items[i]);
        }
    }
}

}

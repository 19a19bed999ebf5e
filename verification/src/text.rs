//! Text as sequences of characters: trimming, splitting, searching, replacing
//! and decimal numbers.
use vstd::prelude::*;

verus! {

/// `String::push` appends one character to the end of the string.
pub assume_specification[ String::push ](s: &mut String, c: char)
    ensures
        final(s)@ == old(s)@.push(c),
;

/// The texts of a sequence of strings, in order.
pub open spec fn texts(strings: Seq<String>) -> Seq<Seq<char>> {
    Seq::new(strings.len(), |i: int| strings[i]@)
}

/// The text of an optional string.
pub open spec fn opt_text(value: Option<String>) -> Option<Seq<char>> {
    match value {
        Some(text) => Some(text@),
        None => None,
    }
}

/// The text of an optional string slice.
pub open spec fn opt_str(value: Option<&str>) -> Option<Seq<char>> {
    match value {
        Some(text) => Some(text@),
        None => None,
    }
}

/// The characters with the Unicode property White_Space.
pub open spec fn is_white_space(c: char) -> bool {
    let code = c as u32;
    ||| 0x9 <= code <= 0xd
    ||| code == 0x20
    ||| code == 0x85
    ||| code == 0xa0
    ||| code == 0x1680
    ||| 0x2000 <= code <= 0x200a
    ||| code == 0x2028
    ||| code == 0x2029
    ||| code == 0x202f
    ||| code == 0x205f
    ||| code == 0x3000
}

/// `text` without its leading white space.
pub open spec fn trim_start(text: Seq<char>) -> Seq<char>
    decreases text.len(),
{
    if text.len() > 0 && is_white_space(text[0]) {
        trim_start(text.skip(1))
    } else {
        text
    }
}

/// `text` without its trailing white space.
pub open spec fn trim_end(text: Seq<char>) -> Seq<char>
    decreases text.len(),
{
    if text.len() > 0 && is_white_space(text.last()) {
        trim_end(text.drop_last())
    } else {
        text
    }
}

/// `text` without white space at either end.
pub open spec fn trim(text: Seq<char>) -> Seq<char> {
    trim_end(trim_start(text))
}

/// Nothing but white space.
pub open spec fn is_blank(text: Seq<char>) -> bool {
    trim(text).len() == 0
}

/// The lower-case form of an ASCII capital, any other character as it is.
pub open spec fn ascii_lower(c: char) -> char {
    if 'A' as u32 <= c as u32 <= 'Z' as u32 {
        ((c as u32 + 32) as u32) as char
    } else {
        c
    }
}

/// `text` with its ASCII capitals in lower case.
pub open spec fn lower(text: Seq<char>) -> Seq<char> {
    text.map_values(|c: char| ascii_lower(c))
}

/// What ends a piece of a text that is cut into pieces.
#[derive(Clone, Copy)]
pub enum Separator {
    /// One given character.
    Is(char),
    /// Any white space.
    WhiteSpace,
}

/// Whether `c` ends a piece.
pub open spec fn separates(separator: Separator, c: char) -> bool {
    match separator {
        Separator::Is(expected) => c == expected,
        Separator::WhiteSpace => is_white_space(c),
    }
}

/// The pieces of `text` between separators: one more than there are separators.
pub open spec fn pieces(text: Seq<char>, separator: Separator) -> Seq<Seq<char>>
    decreases text.len(),
{
    if text.len() == 0 {
        seq![Seq::<char>::empty()]
    } else {
        let before = pieces(text.drop_last(), separator);
        if separates(separator, text.last()) {
            before.push(Seq::<char>::empty())
        } else {
            before.drop_last().push(before.last().push(text.last()))
        }
    }
}

/// The pieces that are not empty, in order.
pub open spec fn non_empty(parts: Seq<Seq<char>>) -> Seq<Seq<char>> {
    parts.filter(|part: Seq<char>| part.len() > 0)
}

/// The words of `text`: its maximal runs of characters that are not white space.
pub open spec fn words(text: Seq<char>) -> Seq<Seq<char>> {
    non_empty(pieces(text, Separator::WhiteSpace))
}

/// The parts of a comma-separated list, each trimmed, without the empty ones.
pub open spec fn comma_parts(text: Seq<char>) -> Seq<Seq<char>> {
    non_empty(pieces(text, Separator::Is(',')).map_values(|part: Seq<char>| trim(part)))
}

/// Whether `part` stands in `text` at position `at`.
pub open spec fn occurs_at(text: Seq<char>, part: Seq<char>, at: int) -> bool {
    0 <= at && at + part.len() <= text.len() && text.subrange(at, at + part.len()) == part
}

/// Whether `part` stands anywhere in `text`.
pub open spec fn contains_text(text: Seq<char>, part: Seq<char>) -> bool {
    exists|at: int| occurs_at(text, part, at)
}

/// Whether `text` begins with `prefix`.
pub open spec fn has_prefix(text: Seq<char>, prefix: Seq<char>) -> bool {
    occurs_at(text, prefix, 0)
}

/// What follows `prefix` at the beginning of `text`.
pub open spec fn after_prefix(text: Seq<char>, prefix: Seq<char>) -> Option<Seq<char>> {
    if has_prefix(text, prefix) {
        Some(text.skip(prefix.len() as int))
    } else {
        None
    }
}

/// The first position, not before `from`, at which `part` stands in `text`.
pub open spec fn find_from(text: Seq<char>, part: Seq<char>, from: int) -> Option<int>
    decreases text.len() + 1 - from,
{
    if from < 0 || from + part.len() > text.len() {
        None
    } else if occurs_at(text, part, from) {
        Some(from)
    } else {
        find_from(text, part, from + 1)
    }
}

/// The text before and after the first occurrence of `part`.
pub open spec fn cut_at(text: Seq<char>, part: Seq<char>) -> Option<(Seq<char>, Seq<char>)> {
    match find_from(text, part, 0) {
        Some(at) => Some((text.take(at), text.skip(at + part.len()))),
        None => None,
    }
}

/// `text` from position `from` on, with each occurrence of `part`, taken from
/// the left and without overlaps, replaced by `with`.
pub open spec fn replaced_from(text: Seq<char>, part: Seq<char>, with: Seq<char>, from: int) -> Seq<char>
    decreases text.len() - from,
{
    if from < 0 || from >= text.len() {
        Seq::<char>::empty()
    } else if part.len() > 0 && occurs_at(text, part, from) {
        with + replaced_from(text, part, with, from + part.len())
    } else {
        seq![text[from]] + replaced_from(text, part, with, from + 1)
    }
}

/// `text` with each occurrence of `part` replaced by `with`.
pub open spec fn replaced(text: Seq<char>, part: Seq<char>, with: Seq<char>) -> Seq<char> {
    replaced_from(text, part, with, 0)
}

/// The character of a decimal digit.
pub open spec fn digit_char(digit: nat) -> char {
    (('0' as u32 + digit) as u32) as char
}

/// A number in decimal, without leading zeros.
pub open spec fn decimal(number: nat) -> Seq<char>
    decreases number,
{
    if number < 10 {
        seq![digit_char(number)]
    } else {
        decimal(number / 10).push(digit_char(number % 10))
    }
}

/// Whether `c` is an ASCII digit.
pub open spec fn is_digit(c: char) -> bool {
    '0' as u32 <= c as u32 <= '9' as u32
}

/// Whether `text` is made of ASCII digits alone.
pub open spec fn all_digits(text: Seq<char>) -> bool {
    forall|i: int| 0 <= i < text.len() ==> is_digit(#[trigger] text[i])
}

/// The number that a sequence of digits stands for.
pub open spec fn digits_value(text: Seq<char>) -> nat
    decreases text.len(),
{
    if text.len() == 0 {
        0
    } else {
        10 * digits_value(text.drop_last()) + (text.last() as u32 - '0' as u32) as nat
    }
}

/// `text` without a leading plus sign.
pub open spec fn unsigned_digits(text: Seq<char>) -> Seq<char> {
    if text.len() > 0 && text[0] == '+' {
        text.skip(1)
    } else {
        text
    }
}

/// The unsigned number written in `text`: an optional plus sign and at least
/// one digit, with a value of at most `max`.
pub open spec fn parsed_number(text: Seq<char>, max: nat) -> Option<nat> {
    let digits = unsigned_digits(text);
    if digits.len() > 0 && all_digits(digits) && digits_value(digits) <= max {
        Some(digits_value(digits))
    } else {
        None
    }
}

/// The boolean written in `text`.
pub open spec fn parsed_bool(text: Seq<char>) -> Option<bool> {
    if text == "true"@ {
        Some(true)
    } else if text == "false"@ {
        Some(false)
    } else {
        None
    }
}

/// Whether two texts are the same.
pub fn str_eq(left: &str, right: &str) -> (res: bool)
    ensures
        res == (left@ == right@),
{
    left.to_owned() == right.to_owned()
}

/// The characters of a text.
pub fn chars_of(text: &str) -> (res: Vec<char>)
    ensures
        res@ == text@,
{
    let mut res: Vec<char> = Vec::new();
    for c in it: text.chars()
        invariant
            res@ == text@.take(it.index() as int),
            it.seq() == text@,
    {
        res.push(c);
    }
    res
}

/// The text made of `chars[from..to]`.
pub fn text_of(chars: &Vec<char>, from: usize, to: usize) -> (res: String)
    requires
        from <= to <= chars.len(),
    ensures
        res@ == chars@.subrange(from as int, to as int),
{
    let mut res = String::new();
    let mut i: usize = from;
    while i < to
        invariant
            from <= i <= to <= chars.len(),
            res@ == chars@.subrange(from as int, i as int),
        decreases to - i,
    {
        res.push(chars[i]);
        i += 1;
    }
    res
}

/// Appends a copy of a text to a list.
pub fn push_text(list: &mut Vec<String>, value: &str)
    ensures
        texts(final(list)@) == texts(old(list)@).push(value@),
{
    let ghost before = texts(list@);
    list.push(value.to_owned());
    assert(texts(list@) =~= before.push(value@));
}

/// Appends copies of some texts to a list.
pub fn push_texts(list: &mut Vec<String>, values: &Vec<String>)
    ensures
        texts(final(list)@) == texts(old(list)@) + texts(values@),
{
    let ghost before = texts(list@);
    let mut i: usize = 0;
    assert(texts(list@) =~= before + texts(values@).take(0));
    while i < values.len()
        invariant
            i <= values.len(),
            texts(list@) == before + texts(values@).take(i as int),
        decreases values.len() - i,
    {
        push_text(list, values[i].as_str());
        assert(texts(list@) =~= before + texts(values@).take(i + 1));
        i += 1;
    }
    assert(texts(values@).take(values.len() as int) =~= texts(values@));
}

/// A copy of an optional text.
pub fn clone_opt(value: &Option<String>) -> (res: Option<String>)
    ensures
        res == *value,
{
    match value {
        Some(given) => Some(given.clone()),
        None => None,
    }
}

/// A copy of a list of strings.
pub fn clone_texts(strings: &Vec<String>) -> (res: Vec<String>)
    ensures
        res@ == strings@,
{
    let mut res: Vec<String> = Vec::new();
    let mut i: usize = 0;
    while i < strings.len()
        invariant
            i <= strings.len(),
            res@ == strings@.take(i as int),
        decreases strings.len() - i,
    {
        res.push(strings[i].clone());
        i += 1;
    }
    res
}

/// Whether a list of strings holds `text`.
pub fn holds_text(strings: &Vec<String>, text: &str) -> (res: bool)
    ensures
        res == texts(strings@).contains(text@),
{
    let mut i: usize = 0;
    while i < strings.len()
        invariant
            i <= strings.len(),
            forall|j: int| 0 <= j < i ==> (#[trigger] strings@[j])@ != text@,
        decreases strings.len() - i,
    {
        if str_eq(strings[i].as_str(), text) {
            assert(texts(strings@)[i as int] == text@);
            return true;
        }
        i += 1;
    }
    assert forall|j: int| 0 <= j < texts(strings@).len() implies texts(strings@)[j] != text@ by {
        assert(strings@[j]@ != text@);
    }
    false
}

/// Whether a character has the Unicode property White_Space.
pub fn white_space(c: char) -> (res: bool)
    ensures
        res == is_white_space(c),
{
    let code: u32 = c as u32;
    (0x9 <= code && code <= 0xd) || code == 0x20 || code == 0x85 || code == 0xa0 || code == 0x1680
        || (0x2000 <= code && code <= 0x200a) || code == 0x2028 || code == 0x2029 || code == 0x202f
        || code == 0x205f || code == 0x3000
}

/// A copy of `text` without white space at either end.
pub fn trimmed(text: &str) -> (res: String)
    ensures
        res@ == trim(text@),
{
    let chars = chars_of(text);
    let mut from: usize = 0;
    assert(text@.skip(0) =~= text@);
    while from < chars.len() && white_space(chars[from])
        invariant
            from <= chars.len(),
            chars@ == text@,
            trim_start(text@) == trim_start(text@.skip(from as int)),
        decreases chars.len() - from,
    {
        assert(text@.skip(from as int).skip(1) =~= text@.skip(from + 1));
        from += 1;
    }
    let ghost rest = text@.skip(from as int);
    assert(trim_start(text@) == rest);
    let mut to: usize = chars.len();
    assert(text@.subrange(from as int, to as int) =~= rest);
    while from < to && white_space(chars[to - 1])
        invariant
            from <= to <= chars.len(),
            chars@ == text@,
            trim_end(rest) == trim_end(text@.subrange(from as int, to as int)),
        decreases to,
    {
        assert(text@.subrange(from as int, to as int).drop_last() =~= text@.subrange(
            from as int,
            to - 1,
        ));
        to -= 1;
    }
    text_of(&chars, from, to)
}

/// Whether `text` is nothing but white space.
pub fn blank(text: &str) -> (res: bool)
    ensures
        res == is_blank(text@),
{
    trimmed(text).as_str().is_empty()
}

/// The lower-case form of an ASCII capital, any other character as it is.
pub fn lower_char(c: char) -> (res: char)
    ensures
        res == ascii_lower(c),
{
    if c >= 'A' && c <= 'Z' {
        ((c as u8) + 32) as char
    } else {
        c
    }
}

/// A copy of `text` with its ASCII capitals in lower case.
pub fn lowered(text: &str) -> (res: String)
    ensures
        res@ == lower(text@),
{
    let mut res = String::new();
    for c in it: text.chars()
        invariant
            it.seq() == text@,
            res@ == lower(text@.take(it.index() as int)),
    {
        res.push(lower_char(c));
        assert(res@ =~= lower(text@.take(it.index() + 1)));
    }
    assert(text@.take(text@.len() as int) =~= text@);
    res
}

fn ends_piece(separator: Separator, c: char) -> (res: bool)
    ensures
        res == separates(separator, c),
{
    match separator {
        Separator::Is(expected) => c == expected,
        Separator::WhiteSpace => white_space(c),
    }
}

/// The pieces of `text` between separators.
pub fn split(text: &str, separator: Separator) -> (res: Vec<String>)
    ensures
        texts(res@) == pieces(text@, separator),
        res.len() > 0,
{
    let mut done: Vec<String> = Vec::new();
    let mut current = String::new();
    assert(pieces(text@.take(0), separator) =~= texts(done@).push(current@));
    for c in it: text.chars()
        invariant
            it.seq() == text@,
            pieces(text@.take(it.index() as int), separator) == texts(done@).push(current@),
    {
        let ghost before = text@.take(it.index() as int);
        let ghost after = text@.take(it.index() + 1);
        assert(after.drop_last() =~= before);
        let ghost old_done = texts(done@);
        let ghost old_current = current@;
        assert(pieces(before, separator).drop_last() =~= old_done);
        if ends_piece(separator, c) {
            done.push(current);
            current = String::new();
            assert(texts(done@) =~= old_done.push(old_current));
        } else {
            current.push(c);
        }
        assert(pieces(after, separator) =~= texts(done@).push(current@));
    }
    assert(text@.take(text@.len() as int) =~= text@);
    let ghost all = texts(done@).push(current@);
    done.push(current);
    assert(texts(done@) =~= all);
    done
}

/// The parts of a comma-separated list, each trimmed, without the empty ones.
pub fn comma_separated(value: &str) -> (res: Vec<String>)
    ensures
        texts(res@) == comma_parts(value@),
{
    let parts = split(value, Separator::Is(','));
    let ghost trimmed_parts = pieces(value@, Separator::Is(',')).map_values(
        |part: Seq<char>| trim(part),
    );
    let mut res: Vec<String> = Vec::new();
    let mut i: usize = 0;
    assert(texts(res@) =~= non_empty(trimmed_parts.take(0))) by {
        reveal(Seq::filter);
    }
    while i < parts.len()
        invariant
            i <= parts.len(),
            texts(parts@) == pieces(value@, Separator::Is(',')),
            trimmed_parts == pieces(value@, Separator::Is(',')).map_values(
                |part: Seq<char>| trim(part),
            ),
            texts(res@) == non_empty(trimmed_parts.take(i as int)),
        decreases parts.len() - i,
    {
        assert(texts(parts@)[i as int] == parts@[i as int]@);
        let part = trimmed(parts[i].as_str());
        assert(part@ == trimmed_parts[i as int]);
        proof {
            reveal(Seq::filter);
            assert(trimmed_parts.take(i + 1).drop_last() =~= trimmed_parts.take(i as int));
        }
        let ghost before = texts(res@);
        if !part.as_str().is_empty() {
            res.push(part);
            assert(texts(res@) =~= before.push(trimmed_parts[i as int]));
        }
        i += 1;
    }
    assert(trimmed_parts.take(parts.len() as int) =~= trimmed_parts);
    res
}

/// The words of `text`.
pub fn split_words(text: &str) -> (res: Vec<String>)
    ensures
        texts(res@) == words(text@),
{
    let parts = split(text, Separator::WhiteSpace);
    let ghost all = pieces(text@, Separator::WhiteSpace);
    let mut res: Vec<String> = Vec::new();
    let mut i: usize = 0;
    assert(texts(res@) =~= non_empty(all.take(0))) by {
        reveal(Seq::filter);
    }
    while i < parts.len()
        invariant
            i <= parts.len(),
            texts(parts@) == all,
            all == pieces(text@, Separator::WhiteSpace),
            texts(res@) == non_empty(all.take(i as int)),
        decreases parts.len() - i,
    {
        assert(all[i as int] == parts@[i as int]@);
        proof {
            reveal(Seq::filter);
            assert(all.take(i + 1).drop_last() =~= all.take(i as int));
        }
        let ghost before = texts(res@);
        if !parts[i].as_str().is_empty() {
            res.push(parts[i].clone());
            assert(texts(res@) =~= before.push(all[i as int]));
        }
        i += 1;
    }
    assert(all.take(parts.len() as int) =~= all);
    res
}

/// Whether `part` stands in `chars` at position `at`.
fn stands_at(chars: &Vec<char>, part: &Vec<char>, at: usize) -> (res: bool)
    requires
        at <= chars.len(),
    ensures
        res == occurs_at(chars@, part@, at as int),
{
    if part.len() > chars.len() - at {
        return false;
    }
    let mut i: usize = 0;
    while i < part.len()
        invariant
            i <= part.len() <= chars.len() - at,
            at <= chars.len(),
            forall|j: int| 0 <= j < i ==> #[trigger] part@[j] == chars@[at + j],
        decreases part.len() - i,
    {
        if chars[at + i] != part[i] {
            assert(chars@.subrange(at as int, at + part.len())[i as int] != part@[i as int]);
            return false;
        }
        i += 1;
    }
    assert(chars@.subrange(at as int, at + part.len()) =~= part@);
    true
}

/// Whether `text` begins with `prefix`.
pub fn starts_with(text: &str, prefix: &str) -> (res: bool)
    ensures
        res == has_prefix(text@, prefix@),
{
    let chars = chars_of(text);
    let part = chars_of(prefix);
    stands_at(&chars, &part, 0)
}

/// Whether `part` stands anywhere in `text`.
pub fn contains(text: &str, part: &str) -> (res: bool)
    ensures
        res == contains_text(text@, part@),
{
    let chars = chars_of(text);
    let wanted = chars_of(part);
    let mut at: usize = 0;
    while at < chars.len()
        invariant
            at <= chars.len(),
            chars@ == text@,
            wanted@ == part@,
            forall|i: int| 0 <= i < at ==> !occurs_at(text@, part@, i),
        decreases chars.len() - at,
    {
        if stands_at(&chars, &wanted, at) {
            return true;
        }
        at += 1;
    }
    stands_at(&chars, &wanted, at)
}

/// What follows `prefix` at the beginning of `text`.
pub fn strip_prefix(text: &str, prefix: &str) -> (res: Option<String>)
    ensures
        opt_text(res) == after_prefix(text@, prefix@),
{
    let chars = chars_of(text);
    let part = chars_of(prefix);
    if stands_at(&chars, &part, 0) {
        Some(text_of(&chars, part.len(), chars.len()))
    } else {
        None
    }
}

/// The text before and after the first occurrence of `part`.
pub fn split_once(text: &str, part: &str) -> (res: Option<(String, String)>)
    ensures
        match res {
            Some(halves) => cut_at(text@, part@) == Some((halves.0@, halves.1@)),
            None => cut_at(text@, part@) is None,
        },
{
    let chars = chars_of(text);
    let wanted = chars_of(part);
    if wanted.len() > chars.len() {
        return None;
    }
    let last: usize = chars.len() - wanted.len();
    let mut at: usize = 0;
    loop
        invariant
            chars@ == text@,
            wanted@ == part@,
            at <= last,
            last == chars.len() - wanted.len(),
            find_from(text@, part@, 0) == find_from(text@, part@, at as int),
        decreases last - at,
    {
        if stands_at(&chars, &wanted, at) {
            let before = text_of(&chars, 0, at);
            let after = text_of(&chars, at + wanted.len(), chars.len());
            return Some((before, after));
        }
        if at == last {
            assert(find_from(text@, part@, at + 1) is None);
            return None;
        }
        at += 1;
    }
}

/// A copy of `text` with each occurrence of `part` replaced by `with`.
pub fn replace(text: &str, part: &str, with: &str) -> (res: String)
    requires
        part@.len() > 0,
    ensures
        res@ == replaced(text@, part@, with@),
{
    let chars = chars_of(text);
    let wanted = chars_of(part);
    let mut res = String::new();
    let mut at: usize = 0;
    assert(res@ + replaced_from(text@, part@, with@, 0) =~= replaced(text@, part@, with@));
    while at < chars.len()
        invariant
            at <= chars.len(),
            chars@ == text@,
            wanted@ == part@,
            part@.len() > 0,
            res@ + replaced_from(text@, part@, with@, at as int) == replaced(text@, part@, with@),
        decreases chars.len() - at,
    {
        let ghost before = res@;
        if stands_at(&chars, &wanted, at) {
            res.append(with);
            at += wanted.len();
            assert(res@ + replaced_from(text@, part@, with@, at as int) =~= before + (with@
                + replaced_from(text@, part@, with@, at as int)));
        } else {
            res.push(chars[at]);
            at += 1;
            assert(res@ + replaced_from(text@, part@, with@, at as int) =~= before + (
            seq![text@[at - 1]] + replaced_from(text@, part@, with@, at as int)));
        }
    }
    assert(res@ + replaced_from(text@, part@, with@, at as int) =~= res@);
    res
}

/// To replace a text by a shorter one never lengthens what it stands in, and shortens it
/// where the text occurs.
pub proof fn lemma_replacing_shortens(
    text: Seq<char>,
    part: Seq<char>,
    with: Seq<char>,
    from: int,
    at: int,
)
    requires
        0 <= from <= text.len(),
        with.len() < part.len(),
    ensures
        replaced_from(text, part, with, from).len() <= text.len() - from,
        from <= at && occurs_at(text, part, at) ==> replaced_from(text, part, with, from).len()
            < text.len() - from,
    decreases text.len() - from,
{
    if from < text.len() {
        if occurs_at(text, part, from) {
            lemma_replacing_shortens(text, part, with, from + part.len(), at);
        } else {
            lemma_replacing_shortens(text, part, with, from + 1, at);
        }
    }
}

/// Appends a number in decimal.
pub fn push_decimal(out: &mut String, number: u64)
    ensures
        final(out)@ == old(out)@ + decimal(number as nat),
    decreases number,
{
    let digit: char = (48u8 + (number % 10) as u8) as char;
    let ghost start = out@;
    if number >= 10 {
        push_decimal(out, number / 10);
    }
    let ghost middle = out@;
    out.push(digit);
    assert(out@ =~= start + decimal(number as nat));
}

/// A number in decimal.
pub fn decimal_text(number: u64) -> (res: String)
    ensures
        res@ == decimal(number as nat),
{
    let mut res = String::new();
    push_decimal(&mut res, number);
    assert(Seq::<char>::empty() + decimal(number as nat) =~= decimal(number as nat));
    res
}

proof fn lemma_digits_grow(text: Seq<char>, to: int)
    requires
        all_digits(text),
        0 <= to <= text.len(),
    ensures
        digits_value(text.take(to)) <= digits_value(text),
    decreases text.len() - to,
{
    if to < text.len() {
        lemma_digits_grow(text, to + 1);
        assert(text.take(to + 1).drop_last() =~= text.take(to));
        assert(is_digit(text[to]));
    } else {
        assert(text.take(to) =~= text);
    }
}

/// The unsigned number of at most `max` written in `text`.
pub fn parse_number(text: &str, max: u64) -> (res: Option<u64>)
    ensures
        match res {
            Some(number) => parsed_number(text@, max as nat) == Some(number as nat),
            None => parsed_number(text@, max as nat) is None,
        },
{
    let chars = chars_of(text);
    let mut from: usize = 0;
    if chars.len() > 0 && chars[0] == '+' {
        from = 1;
    }
    let ghost digits = unsigned_digits(text@);
    assert(chars@.skip(from as int) =~= digits);
    if from == chars.len() {
        return None;
    }
    let mut value: u64 = 0;
    let mut i: usize = from;
    while i < chars.len()
        invariant
            from <= i <= chars.len(),
            digits == chars@.skip(from as int),
            digits == unsigned_digits(text@),
            all_digits(digits.take(i - from)),
            value == digits_value(digits.take(i - from)),
            value <= max,
        decreases chars.len() - i,
    {
        let c = chars[i];
        let ghost at = i - from;
        assert(digits[at] == c);
        let code: u32 = c as u32;
        if code < 48 || code > 57 {
            assert(!is_digit(digits[at]));
            return None;
        }
        let digit: u64 = (code - 48) as u64;
        let wide: u128 = value as u128 * 10 + digit as u128;
        assert(digits.take(at + 1).drop_last() =~= digits.take(at));
        assert(wide == digits_value(digits.take(at + 1)));
        if wide > max as u128 {
            proof {
                if all_digits(digits) {
                    lemma_digits_grow(digits, at + 1);
                }
            }
            return None;
        }
        value = wide as u64;
        i += 1;
        assert(all_digits(digits.take(at + 1))) by {
            assert forall|j: int| 0 <= j < at + 1 implies is_digit(#[trigger] digits.take(at + 1)[j]) by {
                if j < at {
                    assert(is_digit(digits.take(at)[j]));
                }
            }
        }
    }
    assert(digits.take(i - from) =~= digits);
    Some(value)
}

/// The boolean written in `text`.
pub fn parse_bool(text: &str) -> (res: Option<bool>)
    ensures
        res == parsed_bool(text@),
{
    if str_eq(text, "true") {
        Some(true)
    } else if str_eq(text, "false") {
        Some(false)
    } else {
        None
    }
}

/// A number in decimal is made of digits that stand for it.
pub proof fn lemma_decimal_digits(number: nat)
    ensures
        decimal(number).len() > 0,
        all_digits(decimal(number)),
        digits_value(decimal(number)) == number,
    decreases number,
{
    if number >= 10 {
        lemma_decimal_digits(number / 10);
        let before = decimal(number / 10);
        assert(decimal(number).drop_last() =~= before);
        assert forall|i: int| 0 <= i < decimal(number).len() implies is_digit(
            #[trigger] decimal(number)[i],
        ) by {
            if i < before.len() {
                assert(decimal(number)[i] == before[i]);
            }
        }
    } else {
        assert(decimal(number).drop_last() =~= Seq::<char>::empty());
        assert(digits_value(Seq::<char>::empty()) == 0);
    }
}

/// A number that is written down is read as the same number.
pub proof fn law_numbers_read_back(number: nat, max: nat)
    requires
        number <= max,
    ensures
        parsed_number(decimal(number), max) == Some(number),
{
    lemma_decimal_digits(number);
    assert(is_digit(decimal(number)[0]));
}

/// The white space of Unicode.
pub proof fn law_white_space(c: char)
    ensures
        is_white_space(c) <==> {
            ||| c == '\t' || c == '\n' || c == '\u{b}' || c == '\u{c}' || c == '\r' || c == ' '
            ||| c == '\u{85}' || c == '\u{a0}' || c == '\u{1680}'
            ||| '\u{2000}' as u32 <= c as u32 <= '\u{200a}' as u32
            ||| c == '\u{2028}' || c == '\u{2029}' || c == '\u{202f}' || c == '\u{205f}' || c
                == '\u{3000}'
        },
{
}

/// Trimming takes the white space off both ends of a text and leaves what stands between.
pub proof fn law_trimming(before: Seq<char>, middle: Seq<char>, behind: Seq<char>)
    requires
        forall|i: int| 0 <= i < before.len() ==> is_white_space(#[trigger] before[i]),
        forall|i: int| 0 <= i < behind.len() ==> is_white_space(#[trigger] behind[i]),
        middle.len() > 0 ==> !is_white_space(middle[0]) && !is_white_space(middle.last()),
    ensures
        trim(before + middle + behind) == middle,
        middle.len() > 0 ==> !is_blank(before + middle + behind),
        is_blank(before + behind),
    decreases before.len(),
{
    lemma_trim_start(before, middle + behind);
    lemma_trim_start(before, behind);
    assert(before + middle + behind =~= before + (middle + behind));
    lemma_trim_end(middle, behind);
    lemma_trim_start(behind, Seq::empty());
    assert(behind + Seq::<char>::empty() =~= behind);
    if middle.len() == 0 {
        assert(middle + behind =~= behind);
        assert(middle =~= Seq::<char>::empty());
    } else {
        assert((middle + behind)[0] == middle[0]);
    }
}

proof fn lemma_trim_start(before: Seq<char>, rest: Seq<char>)
    requires
        forall|i: int| 0 <= i < before.len() ==> is_white_space(#[trigger] before[i]),
    ensures
        trim_start(before + rest) == trim_start(rest),
    decreases before.len(),
{
    if before.len() == 0 {
        assert(before + rest =~= rest);
    } else {
        assert((before + rest)[0] == before[0]);
        assert((before + rest).skip(1) =~= before.skip(1) + rest);
        assert forall|i: int| 0 <= i < before.skip(1).len() implies is_white_space(
            #[trigger] before.skip(1)[i],
        ) by {
            assert(before.skip(1)[i] == before[i + 1]);
        }
        lemma_trim_start(before.skip(1), rest);
    }
}

proof fn lemma_trim_end(middle: Seq<char>, behind: Seq<char>)
    requires
        forall|i: int| 0 <= i < behind.len() ==> is_white_space(#[trigger] behind[i]),
        middle.len() > 0 ==> !is_white_space(middle.last()),
    ensures
        trim_end(middle + behind) == middle,
    decreases behind.len(),
{
    if behind.len() == 0 {
        assert(middle + behind =~= middle);
    } else {
        assert((middle + behind).last() == behind.last());
        assert((middle + behind).drop_last() =~= middle + behind.drop_last());
        lemma_trim_end(middle, behind.drop_last());
    }
}

/// Lowering changes the capital letters of ASCII to small ones, and nothing else.
pub proof fn law_lowering(text: Seq<char>, i: int)
    requires
        0 <= i < text.len(),
    ensures
        lower(text).len() == text.len(),
        'A' as u32 <= text[i] as u32 <= 'Z' as u32 ==> lower(text)[i] as u32 == text[i] as u32
            + ('a' as u32 - 'A' as u32),
        !('A' as u32 <= text[i] as u32 <= 'Z' as u32) ==> lower(text)[i] == text[i],
{
}

/// The pieces of a text are those on the left of any separator and then those on the right
/// of it.
pub proof fn law_pieces_are_split(left: Seq<char>, c: char, right: Seq<char>, separator: Separator)
    requires
        separates(separator, c),
    ensures
        pieces(left.push(c) + right, separator) == pieces(left, separator) + pieces(
            right,
            separator,
        ),
        pieces(right, separator).len() > 0,
    decreases right.len(),
{
    let whole = left.push(c) + right;
    if right.len() == 0 {
        assert(whole =~= left.push(c));
        assert(left.push(c).drop_last() =~= left);
        assert(pieces(whole, separator) =~= pieces(left, separator) + pieces(right, separator));
    } else {
        law_pieces_are_split(left, c, right.drop_last(), separator);
        assert(whole.drop_last() =~= left.push(c) + right.drop_last());
        assert(whole.last() == right.last());
        let before = pieces(right.drop_last(), separator);
        let all = pieces(left, separator) + before;
        assert(all.last() == before.last());
        assert(all.drop_last() =~= pieces(left, separator) + before.drop_last());
        assert(pieces(whole, separator) =~= pieces(left, separator) + pieces(right, separator));
    }
}

/// A text without a separator is one piece.
pub proof fn law_one_piece(text: Seq<char>, separator: Separator)
    requires
        forall|i: int| 0 <= i < text.len() ==> !separates(separator, #[trigger] text[i]),
    ensures
        pieces(text, separator) == seq![text],
    decreases text.len(),
{
    if text.len() == 0 {
        assert(text =~= Seq::<char>::empty());
    } else {
        law_one_piece(text.drop_last(), separator);
        assert(text[text.len() - 1] == text.last());
        assert(text.drop_last().push(text.last()) =~= text);
        assert(pieces(text, separator) =~= seq![text]);
    }
}

/// The words of a text are what stands between white space: those on the left of any
/// white space and then those on the right of it.
pub proof fn law_words_are_split(left: Seq<char>, space: char, right: Seq<char>)
    requires
        is_white_space(space),
    ensures
        words(left.push(space) + right) == words(left) + words(right),
{
    let separator = Separator::WhiteSpace;
    law_pieces_are_split(left, space, right, separator);
    Seq::filter_distributes_over_add(
        pieces(left, separator),
        pieces(right, separator),
        |part: Seq<char>| part.len() > 0,
    );
}

/// A text without white space is one word, and an empty text has none.
pub proof fn law_one_word(text: Seq<char>)
    requires
        forall|i: int| 0 <= i < text.len() ==> !is_white_space(#[trigger] text[i]),
    ensures
        text.len() > 0 ==> words(text) == seq![text],
        text.len() == 0 ==> words(text).len() == 0,
{
    law_one_piece(text, Separator::WhiteSpace);
    lemma_filter_one(text);
}

proof fn lemma_filter_one(part: Seq<char>)
    ensures
        non_empty(seq![part]) == if part.len() > 0 {
            seq![part]
        } else {
            Seq::empty()
        },
{
    let pred = |part: Seq<char>| part.len() > 0;
    reveal(Seq::filter);
    assert(seq![part].drop_last() =~= Seq::<Seq<char>>::empty());
    assert(seq![part].drop_last().filter(pred) =~= Seq::<Seq<char>>::empty());
    assert(seq![part].last() == part);
    assert(Seq::<Seq<char>>::empty().push(part) =~= seq![part]);
}

/// The parts of a list are what stands between commas: those on the left of any comma and
/// then those on the right of it.
pub proof fn law_lists_are_split(left: Seq<char>, right: Seq<char>)
    ensures
        comma_parts(left.push(',') + right) == comma_parts(left) + comma_parts(right),
{
    let separator = Separator::Is(',');
    law_pieces_are_split(left, ',', right, separator);
    let trims = |part: Seq<char>| trim(part);
    let a = pieces(left, separator);
    let b = pieces(right, separator);
    assert((a + b).map_values(trims) =~= a.map_values(trims) + b.map_values(trims));
    Seq::filter_distributes_over_add(
        a.map_values(trims),
        b.map_values(trims),
        |part: Seq<char>| part.len() > 0,
    );
}

/// A list without a comma is one part, without the white space around it, or none where
/// it is blank.
pub proof fn law_one_part(text: Seq<char>)
    requires
        !text.contains(','),
    ensures
        trim(text).len() > 0 ==> comma_parts(text) == seq![trim(text)],
        trim(text).len() == 0 ==> comma_parts(text).len() == 0,
{
    let separator = Separator::Is(',');
    assert forall|i: int| 0 <= i < text.len() implies !separates(separator, #[trigger] text[i]) by {
        assert(text.contains(text[i]));
    }
    law_one_piece(text, separator);
    let trims = |part: Seq<char>| trim(part);
    assert(seq![text].map_values(trims) =~= seq![trim(text)]);
    lemma_filter_one(trim(text));
}

/// What follows a beginning is the rest of a text that begins so, and of no other.
pub proof fn law_beginnings_are_taken_off(text: Seq<char>, start: Seq<char>, rest: Seq<char>)
    ensures
        after_prefix(text, start) == Some(rest) <==> text == start + rest,
        after_prefix(start + rest, start) == Some(rest),
{
    assert((start + rest).subrange(0, start.len() as int) =~= start);
    assert((start + rest).skip(start.len() as int) =~= rest);
    if has_prefix(text, start) {
        assert(text =~= text.subrange(0, start.len() as int) + text.skip(start.len() as int));
    }
}

proof fn lemma_first_found(text: Seq<char>, part: Seq<char>, from: int, at: int)
    requires
        0 <= from <= at,
        occurs_at(text, part, at),
        forall|i: int| from <= i < at ==> !#[trigger] occurs_at(text, part, i),
    ensures
        find_from(text, part, from) == Some(at),
    decreases at - from,
{
    if from < at {
        assert(!occurs_at(text, part, from));
        lemma_first_found(text, part, from + 1, at);
    }
}

proof fn lemma_none_found(text: Seq<char>, part: Seq<char>, from: int)
    requires
        0 <= from,
        forall|i: int| from <= i ==> !#[trigger] occurs_at(text, part, i),
    ensures
        find_from(text, part, from) is None,
    decreases text.len() + 1 - from,
{
    if from + part.len() <= text.len() {
        assert(!occurs_at(text, part, from));
        lemma_none_found(text, part, from + 1);
    }
}

/// A text is cut where a part first occurs in it, and the part falls away; a text in which
/// it does not occur is not cut.
pub proof fn law_texts_are_cut(head: Seq<char>, part: Seq<char>, tail: Seq<char>, other: Seq<char>)
    requires
        forall|at: int|
            0 <= at < head.len() ==> !#[trigger] occurs_at(head + part + tail, part, at),
    ensures
        cut_at(head + part + tail, part) == Some((head, tail)),
        !contains_text(other, part) <==> cut_at(other, part) is None,
{
    let whole = head + part + tail;
    let at = head.len() as int;
    assert(whole.subrange(at, at + part.len()) =~= part);
    lemma_first_found(whole, part, 0, at);
    assert(whole.take(at) =~= head);
    assert(whole.skip(at + part.len()) =~= tail);
    if contains_text(other, part) {
        let some = choose|i: int| occurs_at(other, part, i);
        lemma_some_found(other, part, 0, some);
    } else {
        lemma_none_found(other, part, 0);
    }
}

proof fn lemma_some_found(text: Seq<char>, part: Seq<char>, from: int, at: int)
    requires
        0 <= from <= at,
        occurs_at(text, part, at),
    ensures
        find_from(text, part, from) is Some,
    decreases at - from,
{
    if !occurs_at(text, part, from) {
        lemma_some_found(text, part, from + 1, at);
    }
}

proof fn lemma_replacing_shifts(
    text: Seq<char>,
    part: Seq<char>,
    with: Seq<char>,
    shift: int,
    from: int,
)
    requires
        0 <= shift <= text.len(),
        0 <= from,
    ensures
        replaced_from(text.skip(shift), part, with, from) == replaced_from(
            text,
            part,
            with,
            shift + from,
        ),
    decreases text.len() - shift - from,
{
    let rest = text.skip(shift);
    if from < rest.len() {
        assert(rest[from] == text[shift + from]);
        if from + part.len() <= rest.len() {
            assert(rest.subrange(from, from + part.len()) =~= text.subrange(
                shift + from,
                shift + from + part.len(),
            ));
        }
        assert(occurs_at(rest, part, from) == occurs_at(text, part, shift + from));
        if part.len() > 0 && occurs_at(rest, part, from) {
            lemma_replacing_shifts(text, part, with, shift, from + part.len());
        } else {
            lemma_replacing_shifts(text, part, with, shift, from + 1);
        }
    }
}

proof fn lemma_replacing_reaches(
    text: Seq<char>,
    part: Seq<char>,
    with: Seq<char>,
    from: int,
    at: int,
)
    requires
        0 <= from <= at <= text.len(),
        forall|i: int| from <= i < at ==> !#[trigger] occurs_at(text, part, i),
    ensures
        replaced_from(text, part, with, from) == text.subrange(from, at) + replaced_from(
            text,
            part,
            with,
            at,
        ),
    decreases at - from,
{
    if from == at {
        assert(text.subrange(from, at) =~= Seq::<char>::empty());
        assert(replaced_from(text, part, with, from) =~= text.subrange(from, at) + replaced_from(
            text,
            part,
            with,
            at,
        ));
    } else {
        assert(!occurs_at(text, part, from));
        lemma_replacing_reaches(text, part, with, from + 1, at);
        assert(text.subrange(from, at) =~= seq![text[from]] + text.subrange(from + 1, at));
        assert(replaced_from(text, part, with, from) =~= text.subrange(from, at) + replaced_from(
            text,
            part,
            with,
            at,
        ));
    }
}

/// A part is replaced where it first occurs, and then in what follows; a text in which it
/// does not occur stays as it is.
pub proof fn law_parts_are_replaced(
    head: Seq<char>,
    part: Seq<char>,
    with: Seq<char>,
    tail: Seq<char>,
    other: Seq<char>,
)
    requires
        part.len() > 0,
        forall|at: int|
            0 <= at < head.len() ==> !#[trigger] occurs_at(head + part + tail, part, at),
    ensures
        replaced(head + part + tail, part, with) == head + with + replaced(tail, part, with),
        !contains_text(other, part) ==> replaced(other, part, with) == other,
{
    let whole = head + part + tail;
    let at = head.len() as int;
    assert(whole.subrange(at, at + part.len()) =~= part);
    lemma_replacing_reaches(whole, part, with, 0, at);
    assert(whole.subrange(0, at) =~= head);
    assert(occurs_at(whole, part, at));
    assert(whole.skip(at + part.len()) =~= tail);
    lemma_replacing_shifts(whole, part, with, at + part.len(), 0);
    assert(replaced(whole, part, with) =~= head + with + replaced(tail, part, with));
    if !contains_text(other, part) {
        lemma_replacing_reaches(other, part, with, 0, other.len() as int);
        assert(replaced(other, part, with) =~= other);
    }
}

/// A flag is one of two words.
pub proof fn law_flags_are_words(text: Seq<char>)
    ensures
        parsed_bool(text) == Some(true) <==> text == "true"@,
        parsed_bool(text) == Some(false) <==> text == "false"@,
{
    reveal_strlit("true");
    reveal_strlit("false");
    assert("true"@.len() != "false"@.len());
}

/// A number is digits, with a plus before them or not, and leading zeros do not count; it
/// is not above the largest, and anything else is no number.
pub proof fn law_numbers_are_digits(text: Seq<char>, max: nat)
    ensures
        parsed_number(Seq::empty(), max) is None,
        parsed_number(text, max) is Some ==> parsed_number(text, max)->Some_0 <= max,
        text.len() > 0 && text[0] != '+' ==> parsed_number(seq!['+'] + text, max) == parsed_number(
            text,
            max,
        ),
        text.len() > 0 && text[0] != '+' ==> parsed_number(seq!['0'] + text, max) == parsed_number(
            text,
            max,
        ),
        (exists|i: int|
            1 <= i < text.len() && !('0' as u32 <= (#[trigger] text[i]) as u32 <= '9' as u32))
            ==> parsed_number(text, max) is None,
{
    if text.len() > 0 && text[0] != '+' {
        assert((seq!['+'] + text).skip(1) =~= text);
        let padded = seq!['0'] + text;
        assert(padded[0] == '0');
        lemma_leading_zero(text);
        if all_digits(text) {
            assert(all_digits(padded));
        }
        if all_digits(padded) {
            assert forall|i: int| 0 <= i < text.len() implies is_digit(#[trigger] text[i]) by {
                assert(padded[i + 1] == text[i]);
            }
        }
    }
    if exists|i: int|
        1 <= i < text.len() && !('0' as u32 <= (#[trigger] text[i]) as u32 <= '9' as u32) {
        let i = choose|i: int|
            1 <= i < text.len() && !('0' as u32 <= (#[trigger] text[i]) as u32 <= '9' as u32);
        let digits = unsigned_digits(text);
        if text[0] == '+' {
            assert(digits[i - 1] == text[i]);
        } else {
            assert(digits[i] == text[i]);
        }
        assert(!all_digits(digits));
    }
}

proof fn lemma_leading_zero(text: Seq<char>)
    ensures
        digits_value(seq!['0'] + text) == digits_value(text),
    decreases text.len(),
{
    let padded = seq!['0'] + text;
    if text.len() == 0 {
        assert(padded =~= seq!['0']);
        assert(padded.drop_last() =~= Seq::<char>::empty());
        assert(padded.last() == '0');
        assert(digits_value(padded.drop_last()) == 0);
        assert(digits_value(padded) == 0);
    } else {
        assert(padded.drop_last() =~= seq!['0'] + text.drop_last());
        assert(padded.last() == text.last());
        lemma_leading_zero(text.drop_last());
    }
}

}

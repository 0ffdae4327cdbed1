//! The outer layer of a JSON text: the members of an object and the elements of an array, each
//! still as text.
//!
//! Strings and whole values are read and written by `serde_json`. What is done here is to cut an
//! object or an array into its parts without losing a repeated member, which must be refused later
//! on and which `serde_json::Value` would silently drop. What is cut may also be bytes that are not
//! UTF-8: then each byte stands as one character, and `serde_json` reads the bytes of the parts.
use vstd::prelude::*;
use crate::bytes::{bytes_of, low_bytes};
use crate::text::{characters, joined, optional_text, same_text, texts, utf8_text};

verus! {

// ---------------------------------------------------------------------------------------------
// What serde_json decides
// ---------------------------------------------------------------------------------------------

/// What `serde_json::from_str` reads from a text as a `String`.
pub uninterp spec fn json_string(text: Seq<char>) -> Option<Seq<char>>;

/// Whether `serde_json::from_str` reads a text as a `serde_json::Value`.
pub uninterp spec fn json_value(text: Seq<char>) -> bool;

/// Whether `serde_json::from_slice` reads bytes as a `serde::de::IgnoredAny`.
pub uninterp spec fn json_ignorable(bytes: Seq<u8>) -> bool;

/// What `serde_json::to_string_pretty` writes for the `serde_json::Value` read from a text.
pub uninterp spec fn json_pretty(text: Seq<char>) -> Option<Seq<char>>;

/// Calls `serde_json::from_str::<String>`: the content of the JSON string that `text` holds, or
/// nothing where `text` is not one JSON string with at most JSON white space around it. Which texts
/// are JSON strings, and what their escapes stand for, is left to `serde_json`.
#[verifier::external_body]
pub(crate) fn read_string(text: &str) -> (content: Option<String>)
    ensures
        optional_text(content) == json_string(text@),
{
    serde_json::from_str::<String>(text).ok()
}

/// Calls `serde_json::from_str::<serde_json::Value>` and says whether it succeeded: `text` is one
/// JSON value, nested no deeper than `serde_json` allows, with numbers in range and strings that
/// decode.
#[verifier::external_body]
pub(crate) fn is_value(text: &str) -> (b: bool)
    ensures
        b == json_value(text@),
{
    serde_json::from_str::<serde_json::Value>(text).is_ok()
}

/// Calls `serde_json::from_slice::<serde::de::IgnoredAny>` and says whether it succeeded: `bytes`
/// are one JSON value that a reader may skip. Strings in it need not be UTF-8.
#[verifier::external_body]
fn is_ignorable(bytes: &[u8]) -> (b: bool)
    ensures
        b == json_ignorable(bytes@),
{
    serde_json::from_slice::<serde::de::IgnoredAny>(bytes).is_ok()
}

/// Calls `serde_json::to_string` on a string, which never fails. It writes a quotation mark, the
/// content with quotation marks, reverse solidi and control characters escaped, and a quotation
/// mark; and `serde_json::from_str` reads that back as the content.
#[verifier::external_body]
pub(crate) fn quote(content: &str) -> (text: String)
    ensures
        text@ == quoted(content@),
        json_string(text@) == Some(content@),
{
    serde_json::to_string(content).unwrap()
}

/// Calls `serde_json::to_string_pretty` on the `serde_json::Value` that `serde_json::from_str`
/// reads from `text`. How the lines are broken and indented is left to `serde_json`.
#[verifier::external_body]
pub(crate) fn pretty(text: &str) -> (indented: Option<String>)
    ensures
        optional_text(indented) == json_pretty(text@),
{
    match serde_json::from_str::<serde_json::Value>(text) {
        Ok(value) => serde_json::to_string_pretty(&value).ok(),
        Err(_) => None,
    }
}

/// A digit of a hexadecimal number.
pub open spec fn hex_digit(n: int) -> char {
    seq!['0', '1', '2', '3', '4', '5', '6', '7', '8', '9', 'a', 'b', 'c', 'd', 'e', 'f'][n]
}

/// How a character is written inside a JSON string.
pub open spec fn escaped(c: char) -> Seq<char> {
    if c == '"' {
        seq!['\\', '"']
    } else if c == '\\' {
        seq!['\\', '\\']
    } else if c == '\u{8}' {
        seq!['\\', 'b']
    } else if c == '\t' {
        seq!['\\', 't']
    } else if c == '\n' {
        seq!['\\', 'n']
    } else if c == '\u{c}' {
        seq!['\\', 'f']
    } else if c == '\r' {
        seq!['\\', 'r']
    } else if (c as u32) < 0x20 {
        seq!['\\', 'u', '0', '0', hex_digit(c as int / 16), hex_digit(c as int % 16)]
    } else {
        seq![c]
    }
}

/// How a text is written inside a JSON string.
pub open spec fn escapes(content: Seq<char>) -> Seq<char>
    decreases content.len(),
{
    if content.len() == 0 {
        Seq::empty()
    } else {
        escapes(content.drop_last()) + escaped(content.last())
    }
}

/// The JSON string that holds a text.
pub open spec fn quoted(content: Seq<char>) -> Seq<char> {
    seq!['"'] + escapes(content) + seq!['"']
}

// ---------------------------------------------------------------------------------------------
// Texts and bytes
// ---------------------------------------------------------------------------------------------

/// What the characters of a JSON text stand for: themselves, or one byte each. The structure of a
/// JSON text is the same either way, since every character that matters to it is one byte.
#[derive(Clone, Copy, Debug, PartialEq)]
pub enum Coding {
    Text,
    Bytes,
}

/// The bytes that a JSON text stands for.
pub open spec fn coded_bytes(coding: Coding, text: Seq<char>) -> Seq<u8> {
    match coding {
        Coding::Text => vstd::utf8::encode_utf8(text),
        Coding::Bytes => bytes_of(text),
    }
}

/// What `serde_json` reads as a `String` from what a JSON text stands for. Bytes that are not UTF-8
/// are no string.
pub open spec fn coded_string(coding: Coding, text: Seq<char>) -> Option<Seq<char>> {
    match coding {
        Coding::Text => json_string(text),
        Coding::Bytes => if vstd::utf8::valid_utf8(bytes_of(text)) {
            json_string(vstd::utf8::decode_utf8(bytes_of(text)))
        } else {
            None
        },
    }
}

/// Whether a reader may skip what a JSON text stands for.
pub open spec fn skippable(coding: Coding, text: Seq<char>) -> bool {
    json_ignorable(coded_bytes(coding, text))
}

/// Whether a reader may skip what a JSON text stands for.
pub(crate) fn may_skip(coding: Coding, text: &str) -> (b: bool)
    ensures
        b == skippable(coding, text@),
{
    match coding {
        Coding::Text => is_ignorable(text.as_bytes()),
        Coding::Bytes => is_ignorable(low_bytes(text).as_slice()),
    }
}

/// The content of the JSON string that `text` stands for.
pub(crate) fn read_coded_string(coding: Coding, text: &str) -> (content: Option<String>)
    ensures
        optional_text(content) == coded_string(coding, text@),
{
    match coding {
        Coding::Text => read_string(text),
        Coding::Bytes => match utf8_text(low_bytes(text)) {
            Some(t) => read_string(t.as_str()),
            None => None,
        },
    }
}

// ---------------------------------------------------------------------------------------------
// Scanning
// ---------------------------------------------------------------------------------------------

/// Where a scan of a JSON text stands: how many brackets are open, whether a string is open, and
/// whether the next character of that string is escaped.
pub struct Place {
    pub depth: int,
    pub quoted: bool,
    pub escaped: bool,
}

/// The place before the first character.
pub open spec fn outset() -> Place {
    Place { depth: 0, quoted: false, escaped: false }
}

/// The place after one more character.
pub open spec fn advance(p: Place, c: char) -> Place {
    if p.quoted {
        if p.escaped {
            Place { escaped: false, ..p }
        } else if c == '\\' {
            Place { escaped: true, ..p }
        } else if c == '"' {
            Place { quoted: false, ..p }
        } else {
            p
        }
    } else if c == '"' {
        Place { quoted: true, ..p }
    } else if c == '{' || c == '[' {
        Place { depth: p.depth + 1, ..p }
    } else if c == '}' || c == ']' {
        Place { depth: p.depth - 1, ..p }
    } else {
        p
    }
}

/// The place after the first `i` characters of `s`.
pub open spec fn place_at(s: Seq<char>, i: int) -> Place
    decreases i,
{
    if i <= 0 {
        outset()
    } else {
        advance(place_at(s, i - 1), s[i - 1])
    }
}

/// Outside every bracket and string.
pub open spec fn outermost(p: Place) -> bool {
    !p.quoted && p.depth == 0
}

/// `s[i]` is a `separator` outside every bracket and string of `s`.
pub open spec fn separates(s: Seq<char>, separator: char, i: int) -> bool {
    0 <= i < s.len() && s[i] == separator && outermost(place_at(s, i))
}

/// The first position from `i` on at which `separator` separates, or the length of `s`.
pub open spec fn separator_from(s: Seq<char>, separator: char, i: int) -> int
    decreases s.len() - i,
{
    if i >= s.len() {
        s.len() as int
    } else if separates(s, separator, i) {
        i
    } else {
        separator_from(s, separator, i + 1)
    }
}

/// `s` cut at every position at which `separator` separates.
pub open spec fn pieces(s: Seq<char>, separator: char) -> Seq<Seq<char>>
    decreases s.len(),
{
    let k = separator_from(s, separator, 0);
    if 0 <= k < s.len() {
        seq![s.take(k)] + pieces(s.skip(k + 1), separator)
    } else {
        seq![s]
    }
}

/// The white space of JSON.
pub open spec fn json_space(c: char) -> bool {
    c == ' ' || c == '\t' || c == '\n' || c == '\r'
}

/// `s` without leading JSON white space.
pub open spec fn bare_start(s: Seq<char>) -> Seq<char>
    decreases s.len(),
{
    if s.len() > 0 && json_space(s.first()) {
        bare_start(s.drop_first())
    } else {
        s
    }
}

/// `s` without trailing JSON white space.
pub open spec fn bare_end(s: Seq<char>) -> Seq<char>
    decreases s.len(),
{
    if s.len() > 0 && json_space(s.last()) {
        bare_end(s.drop_last())
    } else {
        s
    }
}

/// `s` without the JSON white space around it.
pub open spec fn bare(s: Seq<char>) -> Seq<char> {
    bare_end(bare_start(s))
}

/// What stands between the brackets `open` and `close`, where `text` is enclosed in them.
pub open spec fn enclosed(text: Seq<char>, open: char, close: char) -> Option<Seq<char>> {
    let t = bare(text);
    if t.len() >= 2 && t.first() == open && t.last() == close {
        Some(t.subrange(1, t.len() - 1))
    } else {
        None
    }
}

/// The parts of what stands between two brackets.
pub open spec fn parts_of(inner: Seq<char>) -> Seq<Seq<char>> {
    if bare_start(inner).len() == 0 {
        Seq::empty()
    } else {
        pieces(inner, ',')
    }
}

/// The texts of the elements of the JSON array `text`.
pub open spec fn elements_of(text: Seq<char>) -> Option<Seq<Seq<char>>> {
    match enclosed(text, '[', ']') {
        Some(inner) => Some(parts_of(inner)),
        None => None,
    }
}

/// One member of a JSON object: its name, and the text of its value.
pub struct MemberView {
    pub name: Seq<char>,
    pub value: Seq<char>,
}

/// The member that a part of an object holds.
pub open spec fn member_of(coding: Coding, part: Seq<char>) -> Option<MemberView> {
    let k = separator_from(part, ':', 0);
    if k < part.len() {
        match coded_string(coding, part.take(k)) {
            Some(name) => Some(MemberView { name, value: part.skip(k + 1) }),
            None => None,
        }
    } else {
        None
    }
}

/// The members that the parts of an object hold, where each holds one.
pub open spec fn members_in(coding: Coding, parts: Seq<Seq<char>>) -> Option<Seq<MemberView>>
    decreases parts.len(),
{
    if parts.len() == 0 {
        Some(Seq::empty())
    } else {
        match (members_in(coding, parts.drop_last()), member_of(coding, parts.last())) {
            (Some(ms), Some(m)) => Some(ms.push(m)),
            _ => None,
        }
    }
}

/// The members of the JSON object `text`, in order, repeated ones included.
pub open spec fn members_of(coding: Coding, text: Seq<char>) -> Option<Seq<MemberView>> {
    match enclosed(text, '{', '}') {
        Some(inner) => members_in(coding, parts_of(inner)),
        None => None,
    }
}

/// The strings that `parts` hold, where each is a JSON string.
pub open spec fn strings_in(parts: Seq<Seq<char>>) -> Option<Seq<Seq<char>>>
    decreases parts.len(),
{
    if parts.len() == 0 {
        Some(Seq::empty())
    } else {
        match (strings_in(parts.drop_last()), json_string(parts.last())) {
            (Some(ss), Some(s)) => Some(ss.push(s)),
            _ => None,
        }
    }
}

/// The strings of the JSON array `text`.
pub open spec fn strings_of(text: Seq<char>) -> Option<Seq<Seq<char>>> {
    match elements_of(text) {
        Some(parts) => strings_in(parts),
        None => None,
    }
}

/// How often an object has a member of some name.
pub enum FieldView {
    Absent,
    Once(Seq<char>),
    Repeated,
}

/// The member `name` among `members`.
pub open spec fn field_of(members: Seq<MemberView>, name: Seq<char>) -> FieldView
    decreases members.len(),
{
    if members.len() == 0 {
        FieldView::Absent
    } else if members.last().name != name {
        field_of(members.drop_last(), name)
    } else if field_of(members.drop_last(), name) is Absent {
        FieldView::Once(members.last().value)
    } else {
        FieldView::Repeated
    }
}

/// The JSON string that the only member `name` holds.
pub open spec fn string_field(
    coding: Coding,
    members: Seq<MemberView>,
    name: Seq<char>,
) -> Option<Seq<char>> {
    match field_of(members, name) {
        FieldView::Once(value) => coded_string(coding, value),
        _ => None,
    }
}

// ---------------------------------------------------------------------------------------------
// Reading
// ---------------------------------------------------------------------------------------------

/// One member of a JSON object: its name, and the text of its value.
pub struct Member {
    pub name: String,
    pub value: String,
}

impl View for Member {
    type V = MemberView;

    open spec fn view(&self) -> MemberView {
        MemberView { name: self.name@, value: self.value@ }
    }
}

/// The members that a list holds.
pub open spec fn member_views(list: Seq<Member>) -> Seq<MemberView> {
    list.map_values(|m: Member| m@)
}

/// The members of an optional list.
pub open spec fn optional_members(list: Option<Vec<Member>>) -> Option<Seq<MemberView>> {
    match list {
        Some(v) => Some(member_views(v@)),
        None => None,
    }
}

/// The texts of an optional list.
pub open spec fn optional_texts(list: Option<Vec<String>>) -> Option<Seq<Seq<char>>> {
    match list {
        Some(v) => Some(texts(v@)),
        None => None,
    }
}

/// How often an object has a member of some name.
pub enum Field {
    Absent,
    Once(String),
    Repeated,
}

impl View for Field {
    type V = FieldView;

    open spec fn view(&self) -> FieldView {
        match self {
            Field::Absent => FieldView::Absent,
            Field::Once(value) => FieldView::Once(value@),
            Field::Repeated => FieldView::Repeated,
        }
    }
}

/// The first position at which `separator` separates in what follows `start`.
fn find_separator(chars: &Vec<char>, separator: char, start: usize) -> (end: usize)
    requires
        start <= chars.len(),
    ensures
        start <= end <= chars.len(),
        end - start == separator_from(chars@.skip(start as int), separator, 0),
{
    let ghost s = chars@.skip(start as int);
    let mut depth: i128 = 0;
    let mut quoted: bool = false;
    let mut escaped: bool = false;
    let mut i: usize = start;
    while i < chars.len()
        invariant
            start <= i <= chars.len(),
            s == chars@.skip(start as int),
            place_at(s, i - start) == (Place { depth: depth as int, quoted, escaped }),
            separator_from(s, separator, 0) == separator_from(s, separator, i - start),
            -(i - start) <= depth <= i - start,
        decreases chars.len() - i,
    {
        let c = chars[i];
        if c == separator && !quoted && depth == 0 {
            return i;
        }
        if quoted {
            if escaped {
                escaped = false;
            } else if c == '\\' {
                escaped = true;
            } else if c == '"' {
                quoted = false;
            }
        } else if c == '"' {
            quoted = true;
        } else if c == '{' || c == '[' {
            depth = depth + 1;
        } else if c == '}' || c == ']' {
            depth = depth - 1;
        }
        i = i + 1;
    }
    i
}

/// `text` cut at every position at which `separator` separates.
fn cut(text: &str, separator: char) -> (list: Vec<String>)
    ensures
        texts(list@) == pieces(text@, separator),
{
    let chars = characters(text);
    let n: usize = chars.len();
    let mut list: Vec<String> = Vec::new();
    let mut start: usize = 0;
    assert(text@.skip(0) == text@);
    loop
        invariant
            n == chars.len(),
            chars@ == text@,
            start <= n,
            pieces(text@, separator) == texts(list@) + pieces(text@.skip(start as int), separator),
        decreases n - start,
    {
        let ghost rest = text@.skip(start as int);
        let ghost before = texts(list@);
        let end: usize = find_separator(&chars, separator, start);
        list.push(text.substring_char(start, end).to_string());
        assert(texts(list@) == before.push(text@.subrange(start as int, end as int)));
        if end == n {
            assert(text@.subrange(start as int, end as int) == rest);
            assert(pieces(rest, separator) == seq![rest]);
            assert(before + seq![rest] == before.push(rest));
            return list;
        }
        assert(rest.take(end - start) == text@.subrange(start as int, end as int));
        assert(rest.skip(end - start + 1) == text@.skip(end + 1));
        assert(before + (seq![rest.take(end - start)] + pieces(text@.skip(end + 1), separator))
            == before.push(rest.take(end - start)) + pieces(text@.skip(end + 1), separator));
        start = end + 1;
    }
}

/// Whether `c` is JSON white space.
fn is_json_space(c: char) -> (b: bool)
    ensures
        b == json_space(c),
{
    c == ' ' || c == '\t' || c == '\n' || c == '\r'
}

/// `text` without the JSON white space around it.
pub(crate) fn strip_space<'a>(text: &'a str) -> (inner: &'a str)
    ensures
        inner@ == bare(text@),
{
    let chars = characters(text);
    let n: usize = chars.len();
    let mut start: usize = 0;
    assert(text@.skip(0) == text@);
    while start < n && is_json_space(chars[start])
        invariant
            start <= n,
            n == chars.len(),
            chars@ == text@,
            bare_start(text@) == bare_start(text@.skip(start as int)),
        decreases n - start,
    {
        assert(text@.skip(start as int).drop_first() == text@.skip(start + 1));
        start = start + 1;
    }
    let mut end: usize = n;
    assert(text@.skip(start as int) == text@.subrange(start as int, end as int));
    while start < end && is_json_space(chars[end - 1])
        invariant
            start <= end <= n,
            n == chars.len(),
            chars@ == text@,
            bare_end(text@.skip(start as int)) == bare_end(
                text@.subrange(start as int, end as int),
            ),
        decreases end,
    {
        assert(text@.subrange(start as int, end as int).drop_last() == text@.subrange(
            start as int,
            end - 1,
        ));
        end = end - 1;
    }
    text.substring_char(start, end)
}

/// What stands between the brackets `open` and `close`, where `text` is enclosed in them.
fn between<'a>(text: &'a str, open: char, close: char) -> (inner: Option<&'a str>)
    ensures
        inner is Some <==> enclosed(text@, open, close) is Some,
        inner matches Some(t) ==> enclosed(text@, open, close) == Some(t@),
{
    let stripped = strip_space(text);
    let n: usize = stripped.unicode_len();
    if n >= 2 && stripped.get_char(0) == open && stripped.get_char(n - 1) == close {
        Some(stripped.substring_char(1, n - 1))
    } else {
        None
    }
}

/// Whether `s` holds nothing but JSON white space.
fn is_bare(s: &str) -> (b: bool)
    ensures
        b == (bare_start(s@).len() == 0),
{
    let chars = characters(s);
    let mut start: usize = 0;
    assert(s@.skip(0) == s@);
    while start < chars.len() && is_json_space(chars[start])
        invariant
            start <= chars.len(),
            chars@ == s@,
            bare_start(s@) == bare_start(s@.skip(start as int)),
        decreases chars.len() - start,
    {
        assert(s@.skip(start as int).drop_first() == s@.skip(start + 1));
        start = start + 1;
    }
    start == chars.len()
}

/// The parts of what stands between two brackets.
fn parts(inner: &str) -> (list: Vec<String>)
    ensures
        texts(list@) == parts_of(inner@),
{
    if is_bare(inner) {
        let list: Vec<String> = Vec::new();
        assert(texts(list@) == Seq::<Seq<char>>::empty());
        list
    } else {
        cut(inner, ',')
    }
}

/// The texts of the elements of the JSON array `text`.
pub fn read_elements(text: &str) -> (elements: Option<Vec<String>>)
    ensures
        optional_texts(elements) == elements_of(text@),
{
    match between(text, '[', ']') {
        Some(inner) => Some(parts(inner)),
        None => None,
    }
}

/// The member that a part of an object holds.
fn read_member(coding: Coding, part: &str) -> (member: Option<Member>)
    ensures
        member is Some <==> member_of(coding, part@) is Some,
        member matches Some(m) ==> member_of(coding, part@) == Some(m@),
{
    let chars = characters(part);
    let n: usize = chars.len();
    let k: usize = find_separator(&chars, ':', 0);
    assert(part@.skip(0) == part@);
    if k == n {
        return None;
    }
    assert(part@.subrange(0, k as int) == part@.take(k as int));
    assert(part@.subrange(k + 1, n as int) == part@.skip(k + 1));
    match read_coded_string(coding, part.substring_char(0, k)) {
        Some(name) => Some(Member { name, value: part.substring_char(k + 1, n).to_string() }),
        None => None,
    }
}

/// The members of the JSON object `text`, in order, repeated ones included.
pub fn read_members(coding: Coding, text: &str) -> (members: Option<Vec<Member>>)
    ensures
        optional_members(members) == members_of(coding, text@),
{
    let inner = match between(text, '{', '}') {
        Some(inner) => inner,
        None => return None,
    };
    let list = parts(inner);
    let ghost all = texts(list@);
    let mut members: Vec<Member> = Vec::new();
    let mut i: usize = 0;
    assert(member_views(members@) == Seq::<MemberView>::empty());
    while i < list.len()
        invariant
            i <= list.len(),
            all == texts(list@),
            members_of(coding, text@) == members_in(coding, all),
            members_in(coding, all.take(i as int)) == Some(member_views(members@)),
        decreases list.len() - i,
    {
        let ghost before = member_views(members@);
        assert(all.take(i + 1).drop_last() == all.take(i as int));
        match read_member(coding, list[i].as_str()) {
            Some(m) => {
                members.push(m);
                assert(member_views(members@) == before.push(m@));
            },
            None => {
                proof {
                    lemma_unreadable_member(coding, all, i as int);
                }
                return None;
            },
        }
        i = i + 1;
    }
    assert(all.take(all.len() as int) == all);
    Some(members)
}

/// One part that holds no member leaves the whole object unread.
proof fn lemma_unreadable_member(coding: Coding, all: Seq<Seq<char>>, i: int)
    requires
        0 <= i < all.len(),
        member_of(coding, all[i]) is None,
    ensures
        members_in(coding, all) is None,
    decreases all.len(),
{
    if i < all.len() - 1 {
        lemma_unreadable_member(coding, all.drop_last(), i);
    }
}

/// One part that is no string leaves the whole list unread.
proof fn lemma_unreadable_string(all: Seq<Seq<char>>, i: int)
    requires
        0 <= i < all.len(),
        json_string(all[i]) is None,
    ensures
        strings_in(all) is None,
    decreases all.len(),
{
    if i < all.len() - 1 {
        lemma_unreadable_string(all.drop_last(), i);
    }
}

/// The strings of the JSON array `text`.
pub fn read_strings(text: &str) -> (strings: Option<Vec<String>>)
    ensures
        optional_texts(strings) == strings_of(text@),
{
    let list = match read_elements(text) {
        Some(list) => list,
        None => return None,
    };
    let ghost all = texts(list@);
    let mut strings: Vec<String> = Vec::new();
    let mut i: usize = 0;
    assert(texts(strings@) == Seq::<Seq<char>>::empty());
    while i < list.len()
        invariant
            i <= list.len(),
            all == texts(list@),
            strings_of(text@) == strings_in(all),
            strings_in(all.take(i as int)) == Some(texts(strings@)),
        decreases list.len() - i,
    {
        let ghost before = texts(strings@);
        assert(all.take(i + 1).drop_last() == all.take(i as int));
        match read_string(list[i].as_str()) {
            Some(s) => {
                strings.push(s);
                assert(texts(strings@) == before.push(s@));
            },
            None => {
                proof {
                    lemma_unreadable_string(all, i as int);
                }
                return None;
            },
        }
        i = i + 1;
    }
    assert(all.take(all.len() as int) == all);
    Some(strings)
}

/// The member `name` among `members`.
pub fn read_field(members: &Vec<Member>, name: &str) -> (field: Field)
    ensures
        field@ == field_of(member_views(members@), name@),
{
    let ghost all = member_views(members@);
    let mut field = Field::Absent;
    let mut i: usize = 0;
    while i < members.len()
        invariant
            i <= members.len(),
            all == member_views(members@),
            field@ == field_of(all.take(i as int), name@),
        decreases members.len() - i,
    {
        assert(all.take(i + 1).drop_last() == all.take(i as int));
        assert(all.take(i + 1).last() == members@[i as int]@);
        if same_text(members[i].name.as_str(), name) {
            field = match field {
                Field::Absent => Field::Once(members[i].value.clone()),
                _ => Field::Repeated,
            };
        }
        i = i + 1;
    }
    assert(all.take(all.len() as int) == all);
    field
}

/// The JSON string that the only member `name` holds.
pub fn read_string_field(coding: Coding, members: &Vec<Member>, name: &str) -> (content: Option<
    String,
>)
    ensures
        optional_text(content) == string_field(coding, member_views(members@), name@),
{
    match read_field(members, name) {
        Field::Once(value) => read_coded_string(coding, value.as_str()),
        _ => None,
    }
}

// ---------------------------------------------------------------------------------------------
// Writing
// ---------------------------------------------------------------------------------------------

/// The text of a member.
pub open spec fn member_text(m: MemberView) -> Seq<char> {
    quoted(m.name) + seq![':'] + m.value
}

/// The text of an object.
pub open spec fn object_text(members: Seq<MemberView>) -> Seq<char> {
    seq!['{'] + joined(members.map_values(|m: MemberView| member_text(m)), seq![',']) + seq!['}']
}

/// The text of an array.
pub open spec fn array_text(elements: Seq<Seq<char>>) -> Seq<char> {
    seq!['['] + joined(elements, seq![',']) + seq![']']
}

/// The JSON string that holds `content` is read as `content`.
pub open spec fn reads_back(content: Seq<char>) -> bool {
    json_string(quoted(content)) == Some(content)
}

/// The text of an array of `elements`.
pub fn write_array(elements: &Vec<String>) -> (text: String)
    ensures
        text@ == array_text(texts(elements@)),
{
    proof {
        reveal_strlit("[");
        reveal_strlit(",");
        reveal_strlit("]");
        assert("["@ == seq!['[']);
        assert(","@ == seq![',']);
        assert("]"@ == seq![']']);
    }
    let mut text = "[".to_string();
    text.append(crate::text::join(elements, ",").as_str());
    text.append("]");
    text
}

/// The text of an object of `members`, whose names read back.
pub fn write_object(members: &Vec<Member>) -> (text: String)
    ensures
        text@ == object_text(member_views(members@)),
        forall|i: int| 0 <= i < members@.len() ==> reads_back((#[trigger] members@[i]).name@),
{
    let ghost views = member_views(members@);
    let mut list: Vec<String> = Vec::new();
    let mut i: usize = 0;
    while i < members.len()
        invariant
            i <= members.len(),
            list.len() == i,
            views == member_views(members@),
            forall|k: int| 0 <= k < i ==> (#[trigger] list@[k])@ == member_text(views[k]),
            forall|k: int| 0 <= k < i ==> reads_back((#[trigger] members@[k]).name@),
        decreases members.len() - i,
    {
        let mut part = quote(members[i].name.as_str());
        proof {
            reveal_strlit(":");
            assert(":"@ == seq![':']);
        }
        part.append(":");
        part.append(members[i].value.as_str());
        list.push(part);
        i = i + 1;
    }
    proof {
        reveal_strlit("{");
        reveal_strlit(",");
        reveal_strlit("}");
        assert("{"@ == seq!['{']);
        assert(","@ == seq![',']);
        assert("}"@ == seq!['}']);
        assert(texts(list@) == views.map_values(|m: MemberView| member_text(m)));
    }
    let mut text = "{".to_string();
    text.append(crate::text::join(&list, ",").as_str());
    text.append("}");
    text
}

} // verus!

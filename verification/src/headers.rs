//! Header maps, as `http::HeaderMap` keeps them, seen as a sequence of
//! name and value pairs.
//!
//! A map may hold several values under one name. Names are stored in lower
//! case and looked up without regard to case; values are raw bytes.

use http::{HeaderMap, HeaderName, HeaderValue};
use vstd::prelude::*;

verus! {

/// `http::HeaderValue`. Nothing inside it is visible here.
#[verifier::external_type_specification]
#[verifier::external_body]
pub struct ExHeaderValue(http::HeaderValue);

/// `http::HeaderMap`. What it holds is spoken of through
/// [`header_entries`].
#[verifier::external_type_specification]
#[verifier::external_body]
#[verifier::reject_recursive_types(T)]
pub struct ExHeaderMap<T>(http::HeaderMap<T>);

/// One header as plain data: its name and the bytes of its value.
pub type Entry = (Seq<char>, Seq<u8>);

/// The headers that a map holds, in the order in which the map is walked.
pub uninterp spec fn header_entries(map: HeaderMap<HeaderValue>) -> Seq<Entry>;

/// The values found under `name`, in the order of `entries`.
pub open spec fn values_named(entries: Seq<Entry>, name: Seq<char>) -> Seq<Seq<u8>>
    decreases entries.len(),
{
    if entries.len() == 0 {
        Seq::empty()
    } else if entries.last().0 == name {
        values_named(entries.drop_last(), name).push(entries.last().1)
    } else {
        values_named(entries.drop_last(), name)
    }
}

/// Whether some header in `entries` has the name `name`.
pub open spec fn has_name(entries: Seq<Entry>, name: Seq<char>) -> bool {
    values_named(entries, name).len() > 0
}

/// The first value under `name`, if there is one.
pub open spec fn first_named(entries: Seq<Entry>, name: Seq<char>) -> Option<Seq<u8>> {
    if has_name(entries, name) {
        Some(values_named(entries, name).first())
    } else {
        None
    }
}

/// Whether `after` is `before` with every value under a name in `names`
/// taken out, and the values under every other name as they were.
pub open spec fn is_stripped(after: Seq<Entry>, before: Seq<Entry>, names: Set<Seq<char>>) -> bool {
    forall|name: Seq<char>| #[trigger] values_named(after, name) == if names.contains(name) {
        Seq::<Seq<u8>>::empty()
    } else {
        values_named(before, name)
    }
}

/// Whether `after` is `before` with every value under `name` taken out.
pub open spec fn is_without(after: Seq<Entry>, before: Seq<Entry>, name: Seq<char>) -> bool {
    is_stripped(after, before, set![name])
}

/// Whether `after` is `before` with `value` as the only value under `name`.
pub open spec fn is_with(after: Seq<Entry>, before: Seq<Entry>, name: Seq<char>, value: Seq<u8>) -> bool {
    forall|other: Seq<char>| #[trigger] values_named(after, other) == if other == name {
        seq![value]
    } else {
        values_named(before, other)
    }
}

/// Whether `after` is `before` with `value` added behind the values under
/// `name`.
pub open spec fn is_appended(after: Seq<Entry>, before: Seq<Entry>, name: Seq<char>, value: Seq<u8>) -> bool {
    forall|other: Seq<char>| #[trigger] values_named(after, other) == if other == name {
        values_named(before, other).push(value)
    } else {
        values_named(before, other)
    }
}

/// The lower-case form of one character, ASCII letters only.
pub open spec fn lower_char(c: char) -> char {
    if 'A' <= c && c <= 'Z' {
        ((c as u8) + 32) as char
    } else {
        c
    }
}

/// The name under which a header called `name` is stored and found.
pub open spec fn stored_name(name: Seq<char>) -> Seq<char> {
    name.map_values(|c: char| lower_char(c))
}

/// Whether `name` has no upper-case ASCII letter.
pub open spec fn is_lower(name: Seq<char>) -> bool {
    forall|i: int| 0 <= i < name.len() ==> !('A' <= #[trigger] name[i] && name[i] <= 'Z')
}

/// A name without upper-case letters is stored as it is.
pub proof fn lemma_stored_name_of_lower(name: Seq<char>)
    requires
        is_lower(name),
    ensures
        stored_name(name) == name,
{
}

/// The plain form of a list of headers.
pub open spec fn entries_of(list: Seq<(String, Vec<u8>)>) -> Seq<Entry> {
    list.map_values(|pair: (String, Vec<u8>)| (pair.0@, pair.1@))
}

/// `HeaderMap::new` makes a map without headers.
pub assume_specification[ HeaderMap::<HeaderValue>::new ]() -> (map: HeaderMap<HeaderValue>)
    ensures
        header_entries(map) == Seq::<Entry>::empty(),
;

/// `Clone::clone` on a `HeaderMap`: a map with the same headers in the same
/// order.
#[verifier::external_body]
pub(crate) fn header_clone(map: &HeaderMap) -> (copy: HeaderMap)
    ensures
        header_entries(copy) == header_entries(*map),
{
    map.clone()
}

/// Whether the character may stand in the name of a header: an ASCII letter
/// or digit, or one of `!` `#` `$` `%` `&` `'` `*` `+` `-` `.` `^` `_` `` ` ``
/// `|` `~`.
pub open spec fn is_name_char(c: char) -> bool {
    ('a' <= c && c <= 'z') || ('A' <= c && c <= 'Z') || ('0' <= c && c <= '9') || c == '!' || c == '#' || c == '$'
        || c == '%' || c == '&' || c == '\'' || c == '*' || c == '+' || c == '-' || c == '.' || c == '^' || c == '_'
        || c == '`' || c == '|' || c == '~'
}

/// Whether the text can be the name of a header: between one and 65535
/// characters, each of which may stand in a name.
pub open spec fn is_header_name(name: Seq<char>) -> bool {
    &&& 1 <= name.len() <= 65535
    &&& forall|i: int| 0 <= i < name.len() ==> is_name_char(#[trigger] name[i])
}

/// Whether the byte may stand in the value of a header: a tab, or any byte
/// from the space on but the delete character.
pub open spec fn is_value_byte(byte: u8) -> bool {
    (byte >= 32 && byte != 127) || byte == 9
}

/// Whether the bytes can be the value of a header.
pub open spec fn is_header_value(bytes: Seq<u8>) -> bool {
    forall|i: int| 0 <= i < bytes.len() ==> is_value_byte(#[trigger] bytes[i])
}

/// Whether a map with these headers is sure to have room for one more. A map
/// refuses a valid header only where it would have to grow past 32768 slots,
/// which it never has to while it holds fewer than 6554 names.
pub open spec fn has_room(entries: Seq<Entry>) -> bool {
    entries.len() < 6554
}

/// Whether a map with the headers `entries` is sure to have room for as
/// many more as `more` holds, one after another.
pub open spec fn have_room(entries: Seq<Entry>, more: Seq<Entry>) -> bool {
    entries.len() + more.len() < 6554
}

/// Text of printable ASCII characters is, as UTF-8, the value of a header,
/// byte for character.
pub proof fn lemma_printable_text_is_value(text: Seq<char>)
    requires
        forall|i: int| 0 <= i < text.len() ==> ' ' <= #[trigger] text[i] && text[i] <= '~',
    ensures
        is_header_value(vstd::utf8::encode_utf8(text)),
        vstd::utf8::encode_utf8(text).len() == text.len(),
{
    vstd::utf8::is_ascii_chars_encode_utf8(text);
    let bytes = vstd::utf8::encode_utf8(text);
    assert forall|i: int| 0 <= i < bytes.len() implies is_value_byte(#[trigger] bytes[i]) by {
        assert(bytes[i] == text[i] as u8);
    }
}

/// Walks the map with `HeaderMap::iter` and copies each header out: the name
/// by `HeaderName::as_str`, which is always lower case, the value by
/// `HeaderValue::as_bytes`. What a map holds are names and values that a map
/// accepts.
#[verifier::external_body]
pub(crate) fn header_list(map: &HeaderMap) -> (list: Vec<(String, Vec<u8>)>)
    ensures
        entries_of(list@) == header_entries(*map),
        forall|i: int| 0 <= i < list@.len() ==> is_lower(#[trigger] list@[i].0@),
        forall|i: int| 0 <= i < list@.len() ==> is_header_name(#[trigger] list@[i].0@),
        forall|i: int| 0 <= i < list@.len() ==> is_header_value(#[trigger] list@[i].1@),
{
    map.iter().map(|(name, value)| (name.as_str().to_string(), value.as_bytes().to_vec())).collect()
}

/// `HeaderMap::get`: the first value stored under the name, whatever the
/// case in which the name is written.
#[verifier::external_body]
pub(crate) fn header_get(map: &HeaderMap, name: &str) -> (value: Option<Vec<u8>>)
    ensures
        value.is_some() == has_name(header_entries(*map), stored_name(name@)),
        value matches Some(bytes) ==> Some(bytes@) == first_named(header_entries(*map), stored_name(name@)),
{
    map.get(name).map(|value| value.as_bytes().to_vec())
}

/// `HeaderMap::get_all`: every value stored under the name, in the order in
/// which the map is walked.
#[verifier::external_body]
pub(crate) fn header_get_all(map: &HeaderMap, name: &str) -> (values: Vec<Vec<u8>>)
    ensures
        values@.map_values(|v: Vec<u8>| v@) == values_named(header_entries(*map), stored_name(name@)),
{
    map.get_all(name).iter().map(|value| value.as_bytes().to_vec()).collect()
}

/// `HeaderMap::remove`: takes out every value stored under the name and
/// leaves the values under other names as they were. Nothing is said of the
/// order in which the map is walked afterwards.
#[verifier::external_body]
pub(crate) fn header_remove(map: &mut HeaderMap, name: &str)
    ensures
        is_without(header_entries(*final(map)), header_entries(*old(map)), stored_name(name@)),
        header_entries(*final(map)).len() <= header_entries(*old(map)).len(),
{
    map.remove(name);
}

/// `HeaderMap::try_insert` with a name from `HeaderName::from_bytes` and a
/// value from `HeaderValue::from_bytes`. Where all three accept, the value
/// becomes the only one under the name and `true` is returned; else the map
/// stays as it was and `false` is returned.
///
/// `HeaderName::from_bytes` accepts what `is_header_name` describes and
/// `HeaderValue::from_bytes` what `is_header_value` describes, and no
/// others. `try_insert` refuses only for want of room, which a map that
/// `has_room` never lacks.
#[verifier::external_body]
pub(crate) fn header_set(map: &mut HeaderMap, name: &str, value: &[u8]) -> (stored: bool)
    ensures
        stored ==> is_with(header_entries(*final(map)), header_entries(*old(map)), stored_name(name@), value@),
        stored ==> header_entries(*final(map)).len() <= header_entries(*old(map)).len() + 1,
        stored ==> is_header_name(name@) && is_header_value(value@),
        is_header_name(name@) && is_header_value(value@) && has_room(header_entries(*old(map))) ==> stored,
        !stored ==> header_entries(*final(map)) == header_entries(*old(map)),
{
    match (HeaderName::from_bytes(name.as_bytes()), HeaderValue::from_bytes(value)) {
        (Ok(name), Ok(value)) => map.try_insert(name, value).is_ok(),
        _ => false,
    }
}

/// `HeaderMap::try_append` with a name from `HeaderName::from_bytes` and a
/// value from `HeaderValue::from_bytes`. Where all three accept, the value
/// comes behind those that the name already has and `true` is returned; else
/// the map stays as it was and `false` is returned. When each of the three
/// accepts is as for `header_set`.
#[verifier::external_body]
pub(crate) fn header_append(map: &mut HeaderMap, name: &str, value: &[u8]) -> (stored: bool)
    ensures
        stored ==> is_appended(header_entries(*final(map)), header_entries(*old(map)), stored_name(name@), value@),
        stored ==> header_entries(*final(map)).len() == header_entries(*old(map)).len() + 1,
        stored ==> is_header_name(name@) && is_header_value(value@),
        is_header_name(name@) && is_header_value(value@) && has_room(header_entries(*old(map))) ==> stored,
        !stored ==> header_entries(*final(map)) == header_entries(*old(map)),
{
    match (HeaderName::from_bytes(name.as_bytes()), HeaderValue::from_bytes(value)) {
        (Ok(name), Ok(value)) => map.try_append(name, value).is_ok(),
        _ => false,
    }
}

} // verus!

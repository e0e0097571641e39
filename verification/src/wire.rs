//! Headers on their way to and from a transport that speaks in text: what
//! goes out must be text, and what comes in must fit a header map.

use crate::error::{Error, Kind};
use crate::headers::{header_append, header_entries, header_list, is_header_name, is_header_value, stored_name, values_named, Entry};
use crate::text::utf8_text;
use http::HeaderMap;
use vstd::prelude::*;
use vstd::utf8::encode_utf8;

verus! {

/// Whether the byte is a tab or a printable ASCII character.
pub open spec fn is_visible(byte: u8) -> bool {
    (32 <= byte && byte < 127) || byte == 9
}

/// Whether every byte is a tab or a printable ASCII character.
pub open spec fn is_visible_text(bytes: Seq<u8>) -> bool {
    forall|i: int| 0 <= i < bytes.len() ==> is_visible(#[trigger] bytes[i])
}

/// Whether every value among the headers is visible text.
pub open spec fn all_visible(entries: Seq<Entry>) -> bool {
    forall|i: int| 0 <= i < entries.len() ==> is_visible_text((#[trigger] entries[i]).1)
}

/// The plain form of a list of headers written as text.
pub open spec fn texts_of(list: Seq<(String, String)>) -> Seq<Entry> {
    list.map_values(|pair: (String, String)| (pair.0@, encode_utf8(pair.1@)))
}

/// Visible text is well-formed UTF-8.
pub proof fn lemma_visible_is_utf8(bytes: Seq<u8>)
    requires
        is_visible_text(bytes),
    ensures
        vstd::utf8::valid_utf8(bytes),
{
    let chars = Seq::new(bytes.len(), |i: int| bytes[i] as char);
    assert(vstd::utf8::is_ascii_chars(chars)) by {
        assert forall|i: int| 0 <= i < chars.len() implies 0 <= (#[trigger] chars[i] as nat) < 128 by {
            assert(is_visible(bytes[i]));
        }
    }
    vstd::utf8::is_ascii_chars_encode_utf8(chars);
    assert(encode_utf8(chars) =~= bytes);
    vstd::utf8::encode_utf8_valid_utf8(chars);
}

fn is_visible_value(bytes: &[u8]) -> (visible: bool)
    ensures
        visible == is_visible_text(bytes@),
{
    let mut i: usize = 0;
    while i < bytes.len()
        invariant
            i <= bytes.len(),
            forall|k: int| 0 <= k < i ==> is_visible(#[trigger] bytes@[k]),
        decreases bytes.len() - i,
    {
        let byte = bytes[i];
        if !((32 <= byte && byte < 127) || byte == 9) {
            return false;
        }
        i = i + 1;
    }
    true
}

/// Writes the headers of a request as text, in the order in which the map
/// is walked. A value that is not visible text cannot be sent and gives an
/// error of kind `Builder`.
pub fn wire_headers(headers: &HeaderMap) -> (written: Result<Vec<(String, String)>, Error>)
    ensures
        written is Ok == all_visible(header_entries(*headers)),
        written matches Ok(list) ==> texts_of(list@) == header_entries(*headers),
        written matches Err(error) ==> error@.kind == Kind::Builder,
{
    let list = header_list(headers);
    let ghost all = header_entries(*headers);
    let mut written: Vec<(String, String)> = Vec::new();
    let mut i: usize = 0;
    while i < list.len()
        invariant
            i <= list.len(),
            crate::headers::entries_of(list@) == all,
            all == header_entries(*headers),
            all_visible(all.take(i as int)),
            texts_of(written@) == all.take(i as int),
        decreases list.len() - i,
    {
        assert(all[i as int] == (list@[i as int].0@, list@[i as int].1@));
        if !is_visible_value(list[i].1.as_slice()) {
            return Err(Error::new(Kind::Builder, "header value is not visible text".to_owned()));
        }
        proof {
            lemma_visible_is_utf8(list@[i as int].1@);
        }
        let ghost earlier = written@;
        match utf8_text(list[i].1.as_slice()) {
            Ok(text) => {
                proof {
                    vstd::utf8::decode_utf8_encode_utf8(list@[i as int].1@);
                }
                let pair = (list[i].0.clone(), text.to_owned());
                assert((pair.0@, encode_utf8(pair.1@)) == all[i as int]);
                written.push(pair);
                assert(texts_of(written@) =~= texts_of(earlier).push(all[i as int]));
            },
            Err(_) => {
                return Err(Error::new(Kind::Builder, "header value is not visible text".to_owned()));
            },
        }
        proof {
            assert(texts_of(written@) =~= all.take(i as int + 1));
            assert forall|k: int| 0 <= k < all.take(i as int + 1).len() implies is_visible_text(
                (#[trigger] all.take(i as int + 1)[k]).1,
            ) by {
                if k < i {
                    assert(all.take(i as int)[k] == all[k]);
                }
            }
        }
        i = i + 1;
    }
    assert(all.take(i as int) =~= all);
    Ok(written)
}

/// The values that a list of headers written as text has under `name`, a
/// name counting in its stored form.
pub open spec fn values_written(list: Seq<(String, String)>, name: Seq<char>) -> Seq<Seq<u8>>
    decreases list.len(),
{
    if list.len() == 0 {
        Seq::empty()
    } else if stored_name(list.last().0@) == name {
        values_written(list.drop_last(), name).push(encode_utf8(list.last().1@))
    } else {
        values_written(list.drop_last(), name)
    }
}

/// Whether `entries` hold, under every name, the values of the list.
pub open spec fn holds_written(entries: Seq<Entry>, list: Seq<(String, String)>) -> bool {
    forall|name: Seq<char>| #[trigger] values_named(entries, name) == values_written(list, name)
}

/// Whether every header of the list has a name and a value that a map
/// accepts.
pub open spec fn all_acceptable(list: Seq<(String, String)>) -> bool {
    forall|i: int| 0 <= i < list.len() ==> is_header_name((#[trigger] list[i]).0@) && is_header_value(encode_utf8(list[i].1@))
}

/// Collects the headers of a response, which the transport hands over as
/// text, into a map. Where a name or a value is none that a map accepts, the
/// response cannot be made sense of and an error of kind `Transport` is
/// returned; so too where the map has no room, which does not happen with
/// fewer than 6554 headers.
pub fn response_headers(list: &Vec<(String, String)>) -> (collected: Result<HeaderMap, Error>)
    ensures
        collected matches Ok(map) ==> holds_written(header_entries(map), list@) && header_entries(map).len() == list@.len(),
        collected matches Err(error) ==> error@.kind == Kind::Transport,
        collected is Ok ==> all_acceptable(list@),
        all_acceptable(list@) && list@.len() < 6554 ==> collected is Ok,
{
    let mut map = HeaderMap::new();
    let mut i: usize = 0;
    assert(list@.take(0) =~= Seq::empty());
    while i < list.len()
        invariant
            i <= list.len(),
            holds_written(header_entries(map), list@.take(i as int)),
            header_entries(map).len() == i,
            all_acceptable(list@.take(i as int)),
        decreases list.len() - i,
    {
        proof {
            assert(list@.take(i as int + 1).drop_last() =~= list@.take(i as int));
        }
        if !header_append(&mut map, list[i].0.as_str(), list[i].1.as_str().as_bytes()) {
            return Err(Error::new(Kind::Transport, "response header is not valid".to_owned()));
        }
        i = i + 1;
    }
    assert(list@.take(i as int) =~= list@);
    Ok(map)
}

} // verus!

use bytes::Bytes;
use http::{HeaderMap, HeaderValue};
use request_lifecycle::body::Body;
use request_lifecycle::buffer::buffer_to_vec;
use request_lifecycle::error::Kind;
use request_lifecycle::wire::{response_headers, wire_headers};

fn pair(name: &str, value: &str) -> (String, String) {
    (name.to_string(), value.to_string())
}

#[test]
fn wire_headers_writes_each_value_as_text() {
    let mut headers = HeaderMap::new();
    headers.append("accept", "*/*".parse().unwrap());
    headers.append("x-many", "first".parse().unwrap());
    headers.append("x-tab", "a\tb".parse().unwrap());
    headers.append("x-many", "second".parse().unwrap());
    assert_eq!(
        wire_headers(&headers).unwrap(),
        vec![pair("accept", "*/*"), pair("x-many", "first"), pair("x-many", "second"), pair("x-tab", "a\tb")]
    );
    assert_eq!(wire_headers(&HeaderMap::new()).unwrap(), Vec::new());
}

#[test]
fn wire_headers_refuses_what_is_no_visible_text() {
    let mut headers = HeaderMap::new();
    headers.append("accept", "*/*".parse().unwrap());
    headers.append("x-latin", HeaderValue::from_bytes(b"caf\xe9").unwrap());
    assert_eq!(wire_headers(&headers).unwrap_err().kind, Kind::Builder);
    let mut utf8 = HeaderMap::new();
    utf8.append("x-utf8", HeaderValue::from_bytes("café".as_bytes()).unwrap());
    assert_eq!(wire_headers(&utf8).unwrap_err().kind, Kind::Builder);
}

#[test]
fn response_headers_keeps_every_value_in_order() {
    let list = vec![
        pair("Set-Cookie", "a=b"),
        pair("content-type", "text/html"),
        pair("set-cookie", "c=d"),
        pair("SET-COOKIE", "e=f"),
    ];
    let map = response_headers(&list).unwrap();
    let cookies: Vec<_> = map.get_all("set-cookie").iter().collect();
    assert_eq!(cookies, vec!["a=b", "c=d", "e=f"]);
    assert_eq!(map.get("content-type").unwrap(), "text/html");
    assert_eq!(map.len(), 4);
    assert!(response_headers(&Vec::new()).unwrap().is_empty());
}

#[test]
fn response_headers_refuses_what_no_map_holds() {
    assert_eq!(response_headers(&vec![pair("bad name", "x")]).unwrap_err().kind, Kind::Transport);
    assert_eq!(response_headers(&vec![pair("ok", "x"), pair("x", "line\nbreak")]).unwrap_err().kind, Kind::Transport);
    assert_eq!(response_headers(&vec![pair("", "x")]).unwrap_err().kind, Kind::Transport);
}

#[test]
fn bodies_from_buffers_vectors_and_text() {
    let from_buffer = Body::from(Bytes::from_static(b"abc"));
    assert_eq!(from_buffer.content_length(), Some(3));
    assert_eq!(from_buffer.read_into_bytes().unwrap(), b"abc".to_vec());
    let from_vec = Body::from_vec(vec![1, 2, 3, 4]);
    assert_eq!(from_vec.content_length(), Some(4));
    assert_eq!(from_vec.read_into_bytes().unwrap(), vec![1, 2, 3, 4]);
    let from_text = Body::from_text("grüß");
    assert_eq!(from_text.content_length(), Some(6));
    assert_eq!(from_text.read_into_bytes().unwrap(), "grüß".as_bytes().to_vec());
    assert_eq!(buffer_to_vec(&Bytes::from_static(b"xyz")), b"xyz".to_vec());
}

#[test]
fn response_headers_takes_every_valid_header() {
    let list: Vec<(String, String)> = (0..2000).map(|i| (format!("X-Name-{}", i % 500), format!("value {}\t!", i))).collect();
    let map = response_headers(&list).unwrap();
    assert_eq!(map.len(), 2000);
    assert_eq!(map.keys_len(), 500);
    let third: Vec<_> = map.get_all("x-name-3").iter().collect();
    assert_eq!(third, vec!["value 3\t!", "value 503\t!", "value 1003\t!", "value 1503\t!"]);
}

#[test]
fn response_headers_refuses_names_and_values_that_no_map_takes() {
    for name in ["", "a b", "a:b", "a\"b", "(a)", "a,b", "a/b", "a;b", "a<b", "a=b", "a>b", "a?b", "a@b", "a[b", "a\\b", "a]b", "a{b", "a}b", "caf\u{e9}"] {
        assert!(response_headers(&vec![pair(name, "v")]).is_err(), "{:?}", name);
    }
    for name in ["a", "A", "0", "!#$%&'*+-.^_`|~", "Content-Type"] {
        assert!(response_headers(&vec![pair(name, "v")]).is_ok(), "{:?}", name);
    }
    assert!(response_headers(&vec![pair(&"n".repeat(65535), "v")]).is_ok());
    assert!(response_headers(&vec![pair(&"n".repeat(65536), "v")]).is_err());
    for value in ["\u{0}", "a\rb", "a\nb", "\u{7f}", "\u{1f}"] {
        assert!(response_headers(&vec![pair("n", value)]).is_err(), "{:?}", value);
    }
    for value in ["", " ", "\t", "~", "caf\u{e9}", "a b\tc"] {
        assert!(response_headers(&vec![pair("n", value)]).is_ok(), "{:?}", value);
    }
}

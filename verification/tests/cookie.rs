use http::HeaderMap;
use request_lifecycle::cookie::{
    attach_cookies, cookie_header_value, extract_response_cookies, response_cookies, valid_cookies, Cookie,
    CookieStore, SimpleCookieStore, UnixTime,
};
use request_lifecycle::url::Url;

fn parse(text: &str) -> Cookie {
    match Cookie::parse(text.as_bytes()) {
        Ok(cookie) => cookie,
        Err(error) => panic!("{}", error.message()),
    }
}

#[test]
fn new_cookie_has_only_name_and_value() {
    let cookie = Cookie::new("a", "b");
    assert_eq!(cookie.name(), "a");
    assert_eq!(cookie.value(), "b");
    assert!(!cookie.http_only());
    assert!(!cookie.secure());
    assert!(!cookie.same_site_lax());
    assert!(!cookie.same_site_strict());
    assert_eq!(cookie.path(), None);
    assert_eq!(cookie.domain(), None);
    assert_eq!(cookie.max_age(), None);
    assert_eq!(cookie.expires(), None);
    let raw = cookie.into_inner();
    assert_eq!(raw.name_value(), ("a", "b"));
}

#[test]
fn parsed_cookie_reports_its_attributes() {
    let cookie = parse("sid=abc; HttpOnly; Secure; SameSite=Lax; Path=/app; Domain=example.com; Max-Age=3600");
    assert_eq!(cookie.name(), "sid");
    assert_eq!(cookie.value(), "abc");
    assert!(cookie.http_only());
    assert!(cookie.secure());
    assert!(cookie.same_site_lax());
    assert!(!cookie.same_site_strict());
    assert_eq!(cookie.path(), Some("/app"));
    assert_eq!(cookie.domain(), Some("example.com"));
    assert_eq!(cookie.max_age(), Some(3600));
    assert_eq!(cookie.expires(), None);
}

#[test]
fn parsed_cookie_reports_strict_and_expiry() {
    let cookie = parse("a=b; SameSite=Strict; Expires=Wed, 21 Oct 2015 07:28:00 GMT");
    assert!(cookie.same_site_strict());
    assert!(!cookie.same_site_lax());
    assert_eq!(cookie.expires(), Some(UnixTime { after_epoch: true, distance: 1_445_412_480 }));
    let unrestricted = parse("a=b; SameSite=None");
    assert!(!unrestricted.same_site_strict());
    assert!(!unrestricted.same_site_lax());
}

#[test]
fn negative_max_age_counts_as_zero() {
    assert_eq!(parse("a=b; Max-Age=-5").max_age(), Some(0));
    assert_eq!(parse("a=b; Max-Age=0").max_age(), Some(0));
}

#[test]
fn unreadable_cookies_give_an_error() {
    assert!(Cookie::parse(b"no pair here").is_err());
    assert!(Cookie::parse(b"=value").is_err());
    let error = match Cookie::parse(b"\xff\xfe=1") {
        Ok(_) => panic!("accepted"),
        Err(error) => error,
    };
    assert!(!error.message().is_empty());
}

#[test]
fn unix_time_splits_direction_and_distance() {
    assert_eq!(UnixTime::from_seconds(0), UnixTime { after_epoch: false, distance: 0 });
    assert_eq!(UnixTime::from_seconds(1), UnixTime { after_epoch: true, distance: 1 });
    assert_eq!(UnixTime::from_seconds(-1), UnixTime { after_epoch: false, distance: 1 });
    assert_eq!(UnixTime::from_seconds(1_445_412_480), UnixTime { after_epoch: true, distance: 1_445_412_480 });
    assert_eq!(UnixTime::from_seconds(i64::MAX), UnixTime { after_epoch: true, distance: i64::MAX as u64 });
    assert_eq!(UnixTime::from_seconds(i64::MIN), UnixTime { after_epoch: false, distance: 1u64 << 63 });
}

#[test]
fn extract_response_cookies_reads_every_set_cookie() {
    let mut headers = HeaderMap::new();
    headers.append("set-cookie", "a=b; Path=/".parse().unwrap());
    headers.append("set-cookie", "broken".parse().unwrap());
    headers.append("set-cookie", "c=d".parse().unwrap());
    headers.append("x-other", "e=f".parse().unwrap());
    let parsed = extract_response_cookies(&headers);
    assert_eq!(parsed.len(), 3);
    assert!(parsed[0].is_ok());
    assert!(parsed[1].is_err());
    assert!(parsed[2].is_ok());
    let cookies = valid_cookies(parsed);
    assert_eq!(cookies.len(), 2);
    assert_eq!((cookies[0].name(), cookies[0].value()), ("a", "b"));
    assert_eq!((cookies[1].name(), cookies[1].value()), ("c", "d"));
    assert!(extract_response_cookies(&HeaderMap::new()).is_empty());
}

#[test]
fn cookie_header_value_joins_pairs() {
    assert_eq!(cookie_header_value(&Vec::new()), Vec::<u8>::new());
    assert_eq!(cookie_header_value(&vec![Cookie::new("a", "b")]), b"a=b".to_vec());
    assert_eq!(
        cookie_header_value(&vec![Cookie::new("name1", "value1"), Cookie::new("name2", "value2")]),
        b"name1=value1; name2=value2".to_vec()
    );
    assert_eq!(
        cookie_header_value(&vec![Cookie::new("a", ""), Cookie::new("b", "2"), Cookie::new("c", "3")]),
        b"a=; b=2; c=3".to_vec()
    );
}

#[test]
fn attach_cookies_sets_a_single_header() {
    let mut headers = HeaderMap::new();
    headers.append("cookie", "old=1".parse().unwrap());
    headers.append("cookie", "older=2".parse().unwrap());
    headers.append("accept", "*/*".parse().unwrap());
    assert!(attach_cookies(&mut headers, &vec![Cookie::new("a", "b"), Cookie::new("c", "d")]));
    let values: Vec<_> = headers.get_all("cookie").iter().collect();
    assert_eq!(values, vec!["a=b; c=d"]);
    assert_eq!(headers.get("accept").unwrap(), "*/*");
}

#[test]
fn attach_cookies_without_cookies_leaves_the_headers() {
    let mut headers = HeaderMap::new();
    headers.append("cookie", "old=1".parse().unwrap());
    assert!(!attach_cookies(&mut headers, &Vec::new()));
    assert_eq!(headers.get("cookie").unwrap(), "old=1");
    let mut none = HeaderMap::new();
    assert!(!attach_cookies(&mut none, &Vec::new()));
    assert!(none.is_empty());
}

#[test]
fn attach_cookies_is_refused_for_bytes_that_no_header_holds() {
    let mut headers = HeaderMap::new();
    headers.append("cookie", "old=1".parse().unwrap());
    assert!(!attach_cookies(&mut headers, &vec![Cookie::new("a", "line\nbreak")]));
    assert_eq!(headers.get("cookie").unwrap(), "old=1");
}

#[test]
fn simple_store_hands_back_what_matches() {
    let mut store = SimpleCookieStore::new();
    let site = Url::parse("http://example.com/app/index").unwrap();
    assert!(store.get_request_cookies(&site).is_empty());
    store.store_response_cookies(vec![parse("a=b; Path=/"), parse("deep=1; Path=/other")], &site);
    let found = store.get_request_cookies(&Url::parse("http://example.com/app/next").unwrap());
    assert_eq!(found.len(), 1);
    assert_eq!((found[0].name(), found[0].value()), ("a", "b"));
    assert_eq!(found[0].path(), Some("/"));
    assert!(store.get_request_cookies(&Url::parse("http://elsewhere.org/").unwrap()).is_empty());
    let other = store.get_request_cookies(&Url::parse("http://example.com/other/x").unwrap());
    assert_eq!(other.len(), 2);
}

#[test]
fn simple_store_overwrites_by_name_domain_and_path() {
    let mut store = SimpleCookieStore::default();
    let site = Url::parse("http://example.com/").unwrap();
    store.store_response_cookies(vec![parse("a=1; Path=/")], &site);
    store.store_response_cookies(vec![parse("a=2; Path=/")], &site);
    let found = store.get_request_cookies(&site);
    assert_eq!(found.len(), 1);
    assert_eq!(found[0].value(), "2");
    store.store_response_cookies(vec![parse("a=3; Path=/; Max-Age=0")], &site);
    assert!(store.get_request_cookies(&site).is_empty());
}

#[test]
fn new_store_hands_out_nothing() {
    let site = Url::parse("http://example.com/").unwrap();
    assert!(SimpleCookieStore::new().get_request_cookies(&site).is_empty());
    assert!(SimpleCookieStore::default().get_request_cookies(&site).is_empty());
}

#[test]
fn store_hands_out_only_what_it_was_given() {
    let mut store = SimpleCookieStore::new();
    let site = Url::parse("https://example.com/a/b").unwrap();
    let given = vec![
        parse("one=1; Path=/"),
        parse("two=2; Domain=elsewhere.org"),
        parse("three=3; Secure; HttpOnly; Path=/a"),
        Cookie::new("four", "4"),
    ];
    store.store_response_cookies(given, &site);
    let mut found: Vec<(String, String)> = store
        .get_request_cookies(&Url::parse("https://example.com/a/c").unwrap())
        .iter()
        .map(|cookie| (cookie.name().to_string(), cookie.value().to_string()))
        .collect();
    found.sort();
    assert_eq!(
        found,
        vec![
            ("four".to_string(), "4".to_string()),
            ("one".to_string(), "1".to_string()),
            ("three".to_string(), "3".to_string()),
        ]
    );
    let three = store
        .get_request_cookies(&site)
        .into_iter()
        .find(|cookie| cookie.name() == "three")
        .unwrap();
    assert!(three.secure());
    assert!(three.http_only());
    assert_eq!(three.path(), Some("/a"));
    assert_eq!(three.into_inner().name_value(), ("three", "3"));
}

#[test]
fn into_inner_gives_the_cookie_that_was_parsed() {
    let raw = parse("sid=abc; Path=/app; Max-Age=60").into_inner();
    assert_eq!(raw.name_value(), ("sid", "abc"));
    assert_eq!(raw.path(), Some("/app"));
    assert_eq!(raw.max_age().map(|age| age.whole_seconds()), Some(60));
}

#[test]
fn parse_fails_for_what_is_no_text() {
    assert!(Cookie::parse(b"a=\xff").is_err());
    assert!(Cookie::parse(b"\xc3=1").is_err());
    assert_eq!(
        Cookie::parse(b"a=\xff").unwrap_err().message(),
        "decoding the cookie's name or value resulted in invalid UTF-8"
    );
}

#[test]
fn parse_fails_without_a_pair_or_a_name() {
    for text in ["novalue", "", ";", "novalue; a=b", "=v", "  =v", "\t = v; Path=/", ";a=b"] {
        assert!(Cookie::parse(text.as_bytes()).is_err(), "{:?}", text);
    }
}

#[test]
fn parse_succeeds_with_a_name_before_the_sign() {
    for (text, name, value) in [
        ("a=b", "a", "b"),
        ("a=", "a", ""),
        (" a = b ; Path=/", "a", "b"),
        ("a=b=c; HttpOnly", "a", "b=c"),
        ("\u{e9}t\u{e9} x=1", "\u{e9}t\u{e9} x", "1"),
        ("~=;", "~", ""),
    ] {
        let cookie = parse(text);
        assert_eq!((cookie.name(), cookie.value()), (name, value), "{:?}", text);
    }
}

#[test]
fn response_cookies_are_the_readable_ones_in_order() {
    let mut headers = HeaderMap::new();
    headers.append("set-cookie", "a=1; Path=/".parse().unwrap());
    headers.append("x-other", "z=26".parse().unwrap());
    headers.append("set-cookie", "unreadable".parse().unwrap());
    headers.append("set-cookie", http::HeaderValue::from_bytes(b"b=\xff").unwrap());
    headers.append("set-cookie", "c=3; Secure".parse().unwrap());
    let cookies = response_cookies(&headers);
    let pairs: Vec<(&str, &str)> = cookies.iter().map(|cookie| (cookie.name(), cookie.value())).collect();
    assert_eq!(pairs, vec![("a", "1"), ("c", "3")]);
    assert_eq!(cookies[0].path(), Some("/"));
    assert!(cookies[1].secure());
    assert!(response_cookies(&HeaderMap::new()).is_empty());
}

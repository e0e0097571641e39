use http::HeaderMap;
use request_lifecycle::body::Body;
use request_lifecycle::error::Kind;
use request_lifecycle::multipart::{Form, Part, PartMetadata};
use request_lifecycle::percent::PercentEncoding;

fn read(form: Form) -> Vec<u8> {
    form.stream().read_into_bytes().unwrap()
}

fn one_chunk(text: &str) -> Body {
    Body::stream(vec![Ok(text.as_bytes().to_vec())])
}

#[test]
fn form_empty() {
    let form = Form::new();

    let body = form.stream();
    let out = body.read_into_bytes();

    assert_eq!(out.unwrap(), Vec::<u8>::new());
}

#[test]
fn stream_to_end() {
    let form = Form::with_boundary("boundary")
        .part("reader1", Part::stream(one_chunk("part1")))
        .part("key1", Part::text("value1"))
        .part("key2", Part::text("value2").mime_str(mime_guess::mime::IMAGE_BMP.as_ref()).unwrap())
        .part("reader2", Part::stream(one_chunk("part2")))
        .part("key3", Part::text("value3").file_name("filename"));
    let expected = "--boundary\r\n\
                    Content-Disposition: form-data; name=\"reader1\"\r\n\r\n\
                    part1\r\n\
                    --boundary\r\n\
                    Content-Disposition: form-data; name=\"key1\"\r\n\r\n\
                    value1\r\n\
                    --boundary\r\n\
                    Content-Disposition: form-data; name=\"key2\"\r\n\
                    Content-Type: image/bmp\r\n\r\n\
                    value2\r\n\
                    --boundary\r\n\
                    Content-Disposition: form-data; name=\"reader2\"\r\n\r\n\
                    part2\r\n\
                    --boundary\r\n\
                    Content-Disposition: form-data; name=\"key3\"; filename=\"filename\"\r\n\r\n\
                    value3\r\n--boundary--\r\n";
    let out = read(form);
    // These prints are for debug purposes in case the test fails
    println!("START REAL\n{}\nEND REAL", std::str::from_utf8(&out).unwrap());
    println!("START EXPECTED\n{}\nEND EXPECTED", expected);
    assert_eq!(std::str::from_utf8(&out).unwrap(), expected);
}

#[test]
fn stream_to_end_with_header() {
    let mut part = Part::text("value2").mime_str(mime_guess::mime::IMAGE_BMP.as_ref()).unwrap();
    part.meta.headers.insert("Hdr3", "/a/b/c".parse().unwrap());
    let form = Form::with_boundary("boundary").part("key2", part);
    let expected = "--boundary\r\n\
                    Content-Disposition: form-data; name=\"key2\"\r\n\
                    Content-Type: image/bmp\r\n\
                    hdr3: /a/b/c\r\n\
                    \r\n\
                    value2\r\n\
                    --boundary--\r\n";
    let out = read(form);
    // These prints are for debug purposes in case the test fails
    println!("START REAL\n{}\nEND REAL", std::str::from_utf8(&out).unwrap());
    println!("START EXPECTED\n{}\nEND EXPECTED", expected);
    assert_eq!(std::str::from_utf8(&out).unwrap(), expected);
}

#[test]
fn header_percent_encoding() {
    let name = "start%'\"\r\nßend";
    let field = Part::text("");

    assert_eq!(
        PercentEncoding::PathSegment.encode_headers(name, &field.meta),
        &b"Content-Disposition: form-data; name*=utf-8''start%25'%22%0D%0A%C3%9Fend"[..]
    );

    assert_eq!(
        PercentEncoding::AttrChar.encode_headers(name, &field.meta),
        &b"Content-Disposition: form-data; name*=utf-8''start%25%27%22%0D%0A%C3%9Fend"[..]
    );
}

#[test]
fn header_percent_encoding_of_wider_characters() {
    let name = "start%'\"\r\n√üend";
    let field = Part::text("");

    assert_eq!(
        PercentEncoding::PathSegment.encode_headers(name, &field.meta),
        &b"Content-Disposition: form-data; name*=utf-8''start%25'%22%0D%0A%E2%88%9A%C3%BCend"[..]
    );
    assert_eq!(
        PercentEncoding::NoOp.encode_headers(name, &field.meta),
        "Content-Disposition: form-data; name=\"start%'\"\r\n√üend\"".as_bytes()
    );
}

#[test]
fn plain_name_is_quoted_under_every_rule() {
    let meta = PartMetadata::new();
    let expected = &b"Content-Disposition: form-data; name=\"key1\""[..];
    assert_eq!(PercentEncoding::PathSegment.encode_headers("key1", &meta), expected);
    assert_eq!(PercentEncoding::AttrChar.encode_headers("key1", &meta), expected);
    assert_eq!(PercentEncoding::NoOp.encode_headers("key1", &meta), expected);
}

#[test]
fn format_parameter_switches_to_extended_form() {
    assert_eq!(PercentEncoding::PathSegment.format_parameter("name", "a b"), &b"name*=utf-8''a%20b"[..]);
    assert_eq!(PercentEncoding::AttrChar.format_parameter("name", "a'b"), &b"name*=utf-8''a%27b"[..]);
    assert_eq!(PercentEncoding::PathSegment.format_parameter("name", "a'b"), &b"name=\"a'b\""[..]);
    assert_eq!(PercentEncoding::NoOp.format_parameter("name", "a b"), &b"name=\"a b\""[..]);
    assert_eq!(PercentEncoding::AttrChar.format_parameter("name", "!#$&+-.^_`|~"), &b"name=\"!#$&+-.^_`|~\""[..]);
}

#[test]
fn path_segment_rule_escapes_its_set() {
    let escaped = PercentEncoding::PathSegment.encode(b" \"<>`#?{}/%\x00\x1f\x7f\x80\xff");
    assert_eq!(escaped, &b"%20%22%3C%3E%60%23%3F%7B%7D%2F%25%00%1F%7F%80%FF"[..]);
    let kept = PercentEncoding::PathSegment.encode(b"azAZ09!$&'()*+,-.:;=@[\\]^_|~");
    assert_eq!(kept, &b"azAZ09!$&'()*+,-.:;=@[\\]^_|~"[..]);
}

#[test]
fn attr_char_rule_keeps_only_attr_chars() {
    let kept = PercentEncoding::AttrChar.encode(b"azAZ09!#$&+-.^_`|~");
    assert_eq!(kept, &b"azAZ09!#$&+-.^_`|~"[..]);
    let escaped = PercentEncoding::AttrChar.encode(b" \"%'()*,/:;<=>?@[\\]{}\x7f\xc3");
    assert_eq!(escaped, &b"%20%22%25%27%28%29%2A%2C%2F%3A%3B%3C%3D%3E%3F%40%5B%5C%5D%7B%7D%7F%C3"[..]);
}

#[test]
fn noop_rule_escapes_nothing() {
    let all: Vec<u8> = (0u8..=255).collect();
    assert_eq!(PercentEncoding::NoOp.encode(&all), all);
    for byte in 0u8..=255 {
        assert!(!PercentEncoding::NoOp.should_escape(byte));
    }
}

#[test]
fn filename_is_backslashed_and_never_percent_encoded() {
    let expected = &b"filename=\"a\\\\b\\\"c\\\rd\\\ne f%\""[..];
    assert_eq!(PercentEncoding::PathSegment.format_filename("a\\b\"c\rd\ne f%"), expected);
    assert_eq!(PercentEncoding::AttrChar.format_filename("a\\b\"c\rd\ne f%"), expected);
    assert_eq!(PercentEncoding::NoOp.format_filename("a\\b\"c\rd\ne f%"), expected);
}

#[test]
fn file_name_and_mime_come_in_this_order() {
    let part = Part::text("x").mime_str("text/plain").unwrap().file_name("a b.txt");
    assert_eq!(
        PercentEncoding::PathSegment.encode_headers("up load", part.metadata()),
        &b"Content-Disposition: form-data; name*=utf-8''up%20load; filename=\"a b.txt\"\r\nContent-Type: text/plain"[..]
    );
}

#[test]
fn extra_headers_come_in_insertion_order() {
    let mut part = Part::text("x");
    part.meta.headers.insert("x-first", "1".parse().unwrap());
    part.meta.headers.insert("x-second", "2".parse().unwrap());
    part.meta.headers.append("x-first", "3".parse().unwrap());
    assert_eq!(
        PercentEncoding::PathSegment.encode_headers("k", part.metadata()),
        &b"Content-Disposition: form-data; name=\"k\"\r\nx-first: 1\r\nx-first: 3\r\nx-second: 2"[..]
    );
}

#[test]
fn mime_str_rejects_what_is_no_media_type() {
    let error = match Part::text("x").mime_str("not a mime") {
        Ok(_) => panic!("accepted"),
        Err(error) => error,
    };
    assert_eq!(error.kind, Kind::Builder);
    assert!(Part::bytes(vec![1, 2, 3]).mime_str("application/octet-stream").is_ok());
}

#[test]
fn mime_str_writes_the_media_type_in_lower_case() {
    let part = Part::text("x").mime_str("Text/Plain; Charset=UTF-8").unwrap();
    assert_eq!(
        PercentEncoding::PathSegment.encode_headers("k", part.metadata()),
        &b"Content-Disposition: form-data; name=\"k\"\r\nContent-Type: text/plain; charset=utf-8"[..]
    );
}

#[test]
fn metadata_is_built_step_by_step() {
    let meta = PartMetadata::new().mime("text/x-anything".to_string()).file_name("f.txt");
    assert_eq!(
        PercentEncoding::NoOp.encode_headers("k", &meta),
        &b"Content-Disposition: form-data; name=\"k\"; filename=\"f.txt\"\r\nContent-Type: text/x-anything"[..]
    );
}

#[test]
fn compute_length_of_empty_form_is_zero() {
    let mut form = Form::new();
    assert_eq!(form.compute_length(), Some(0));
    assert_eq!(read(form).len(), 0);
}

#[test]
fn compute_length_follows_the_formula() {
    let mut form = Form::with_boundary("boundary").text("key1", "value1");
    // 2 + 8 + 2, the header of 41 bytes, 4, the value of 6 bytes, 2, and 2 + 8 + 4 to close.
    let header = b"Content-Disposition: form-data; name=\"key1\"".len() as u64;
    assert_eq!(header, 43);
    assert_eq!(form.compute_length(), Some(2 + 8 + 2 + 43 + 4 + 6 + 2 + 2 + 8 + 4));
}

#[test]
fn compute_length_agrees_with_stream() {
    let mut part = Part::bytes(b"\x00\x01\x02binary".to_vec()).file_name("a\"b").mime_str("image/bmp").unwrap();
    part.meta.headers.insert("x-extra", "yes".parse().unwrap());
    let mut form = Form::with_boundary("----xyz")
        .text("key1", "value1")
        .text("empty", "")
        .part("file", part)
        .text("wei rd", "ß")
        .percent_encode_attr_chars();
    let predicted = form.compute_length().unwrap();
    let out = read(form);
    assert_eq!(predicted, out.len() as u64);
}

#[test]
fn compute_length_is_absent_with_a_streaming_field() {
    let mut form = Form::new().text("key1", "value1").part("reader", Part::stream(one_chunk("part"))).text("key2", "v");
    assert_eq!(form.compute_length(), None);
    let mut only = Form::new().part("reader", Part::stream(Body::stream(Vec::new())));
    assert_eq!(only.compute_length(), None);
}

#[test]
fn new_form_has_a_boundary_of_four_hex_groups() {
    let form = Form::new();
    let boundary = form.boundary();
    assert_eq!(boundary.len(), 67);
    for (i, c) in boundary.chars().enumerate() {
        if i == 16 || i == 33 || i == 50 {
            assert_eq!(c, '-');
        } else {
            assert!(c.is_ascii_digit() || ('a'..='f').contains(&c));
        }
    }
    assert_ne!(Form::new().boundary(), boundary);
}

#[test]
fn text_adds_a_text_part() {
    let form = Form::with_boundary("b").text("username", "seanmonstar").text("password", "secret");
    let expected = "--b\r\nContent-Disposition: form-data; name=\"username\"\r\n\r\nseanmonstar\r\n\
                    --b\r\nContent-Disposition: form-data; name=\"password\"\r\n\r\nsecret\r\n--b--\r\n";
    assert_eq!(std::str::from_utf8(&read(form)).unwrap(), expected);
}

#[test]
fn form_rule_applies_to_every_field() {
    let form = Form::with_boundary("b").text("a'b", "1").percent_encode_attr_chars().text("c'd", "2");
    let expected = "--b\r\nContent-Disposition: form-data; name*=utf-8''a%27b\r\n\r\n1\r\n\
                    --b\r\nContent-Disposition: form-data; name*=utf-8''c%27d\r\n\r\n2\r\n--b--\r\n";
    assert_eq!(std::str::from_utf8(&read(form)).unwrap(), expected);
    let form = Form::with_boundary("b").percent_encode_attr_chars().text("a b", "1").percent_encode_noop();
    let expected = "--b\r\nContent-Disposition: form-data; name=\"a b\"\r\n\r\n1\r\n--b--\r\n";
    assert_eq!(std::str::from_utf8(&read(form)).unwrap(), expected);
    let form = Form::with_boundary("b").percent_encode_noop().text("a b", "1").percent_encode_path_segment();
    let expected = "--b\r\nContent-Disposition: form-data; name*=utf-8''a%20b\r\n\r\n1\r\n--b--\r\n";
    assert_eq!(std::str::from_utf8(&read(form)).unwrap(), expected);
}

#[test]
fn stream_of_a_form_is_a_stream_of_chunks() {
    let form = Form::with_boundary("b").text("k", "v");
    let body = form.stream();
    assert_eq!(body.content_length(), None);
    let chunks = body.into_chunks();
    let texts: Vec<Vec<u8>> = chunks.into_iter().map(|chunk| chunk.unwrap().to_vec()).collect();
    assert_eq!(
        texts,
        vec![
            b"--b\r\n".to_vec(),
            b"Content-Disposition: form-data; name=\"k\"\r\n\r\n".to_vec(),
            b"v".to_vec(),
            b"\r\n".to_vec(),
            b"--b--\r\n".to_vec(),
        ]
    );
}

#[test]
fn failing_stream_in_a_form_fails_the_read() {
    let broken = Body::stream(vec![Ok(b"ab".to_vec()), Err("disk on fire".to_string()), Ok(b"cd".to_vec())]);
    let form = Form::with_boundary("b").part("reader", Part::stream(broken));
    let error = form.stream().read_into_bytes().unwrap_err();
    assert_eq!(error.kind, Kind::Body);
    assert_eq!(error.cause, "disk on fire");
    let _ = HeaderMap::new();
}

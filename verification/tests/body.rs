use bytes::Bytes;
use request_lifecycle::body::Body;
use request_lifecycle::error::{Error, Kind};

#[test]
fn empty_body_is_reusable_and_has_length_zero() {
    let body = Body::empty();
    assert_eq!(body.content_length(), Some(0));
    assert!(body.into_chunks().is_empty());
    assert_eq!(Body::empty().read_into_bytes().unwrap(), Vec::<u8>::new());
}

#[test]
fn reusable_body_knows_its_length() {
    let body = Body::reusable(Bytes::from(b"hello".to_vec()));
    assert_eq!(body.content_length(), Some(5));
}

#[test]
fn reusable_body_yields_itself_as_one_chunk() {
    let chunks = Body::reusable(Bytes::from(b"hello".to_vec())).into_chunks();
    assert_eq!(chunks.len(), 1);
    assert_eq!(chunks[0].as_ref().unwrap().as_ref(), b"hello");
}

#[test]
fn streaming_body_has_no_length() {
    let body = Body::stream(vec![Ok(b"hello".to_vec())]);
    assert_eq!(body.content_length(), None);
    assert_eq!(Body::stream(Vec::new()).content_length(), None);
    assert_eq!(Body::from_chunks(vec![Ok(Bytes::from(b"x".to_vec()))]).content_length(), None);
}

#[test]
fn streaming_body_yields_its_chunks_in_order() {
    let chunks = Body::stream(vec![Ok(b"ab".to_vec()), Ok(Vec::new()), Ok(b"cd".to_vec())]).into_chunks();
    let got: Vec<Vec<u8>> = chunks.into_iter().map(|chunk| chunk.unwrap().to_vec()).collect();
    assert_eq!(got, vec![b"ab".to_vec(), Vec::new(), b"cd".to_vec()]);
}

#[test]
fn producer_failure_becomes_a_body_error() {
    let chunks = Body::stream(vec![Ok(b"ab".to_vec()), Err("broken pipe".to_string())]).into_chunks();
    assert_eq!(chunks.len(), 2);
    let error = chunks[1].as_ref().unwrap_err();
    assert_eq!(error.kind, Kind::Body);
    assert_eq!(error.url, None);
    assert_eq!(error.cause, "broken pipe");
    assert!(error.is_body());
    assert!(!error.is_redirect());
    assert_eq!(error.kind(), Kind::Body);
}

#[test]
fn read_into_bytes_joins_the_chunks() {
    let body = Body::stream(vec![Ok(b"ab".to_vec()), Ok(b"cd".to_vec()), Ok(b"e".to_vec())]);
    assert_eq!(body.read_into_bytes().unwrap(), b"abcde".to_vec());
    let body = Body::reusable(Bytes::from(b"xyz".to_vec()));
    assert_eq!(body.read_into_bytes().unwrap(), b"xyz".to_vec());
}

#[test]
fn read_into_bytes_stops_at_the_first_failure() {
    let body = Body::stream(vec![
        Ok(b"ab".to_vec()),
        Err("first".to_string()),
        Ok(b"cd".to_vec()),
        Err("second".to_string()),
    ]);
    let error = body.read_into_bytes().unwrap_err();
    assert_eq!(error, Error { kind: Kind::Body, url: None, cause: "first".to_string() });
}

#[test]
fn try_reuse_of_a_buffer_gives_a_snapshot() {
    let (snapshot, body) = Body::reusable(Bytes::from(b"hello".to_vec())).try_reuse();
    assert_eq!(snapshot.unwrap().as_ref(), b"hello");
    assert_eq!(body.content_length(), Some(5));
    assert_eq!(body.read_into_bytes().unwrap(), b"hello".to_vec());
}

#[test]
fn try_reuse_of_a_stream_gives_no_snapshot() {
    let (snapshot, body) = Body::stream(vec![Ok(b"hello".to_vec())]).try_reuse();
    assert!(snapshot.is_none());
    assert_eq!(body.content_length(), None);
    assert_eq!(body.read_into_bytes().unwrap(), b"hello".to_vec());
}

#[test]
fn error_copies_are_equal() {
    let error = Error::redirect(Kind::LoopDetected, "http://a/".to_string());
    assert_eq!(error.duplicate(), error);
    assert!(error.is_redirect());
    assert_eq!(error.url.as_deref(), Some("http://a/"));
    let plain = Error::new(Kind::Transport, "refused".to_string());
    assert_eq!(plain.duplicate(), plain);
    assert!(!plain.is_redirect());
    assert!(Error::redirect(Kind::TooManyRedirects, String::new()).is_redirect());
}

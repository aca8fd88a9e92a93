//! Header lists and headers
use hydra::compression::Compression;
use hydra::header::{add_cookies, to_h2, to_hyper, to_status_and_headers, Headers, ParseError};
use hydra::http::HttpError;
use hydra::StatusCode;

fn list(headers: &[(&str, &str)]) -> Vec<(Vec<u8>, Vec<u8>)> {
    headers.iter().map(|(n, v)| (n.as_bytes().to_vec(), v.as_bytes().to_vec())).collect()
}

fn raw(values: &[&str]) -> Option<Vec<Vec<u8>>> {
    Some(values.iter().map(|v| v.as_bytes().to_vec()).collect())
}

#[test]
fn set_and_get() {
    let mut headers = Headers::new();
    assert_eq!(headers.get_raw("Accept"), None);
    headers.set_raw("Accept", vec![b"a".to_vec(), b"b".to_vec()]);
    headers.set_raw("X-Other", vec![b"c".to_vec()]);
    assert_eq!(headers.get_raw("aCCEPT"), raw(&["a", "b"]));
    headers.set_raw("ACCEPT", vec![b"d".to_vec()]);
    assert_eq!(headers.get_raw("accept"), raw(&["d"]));
    assert_eq!(headers.get_raw("x-other"), raw(&["c"]));
    // A header keeps its place, under the name it was given last.
    assert_eq!(to_h2(headers), list(&[("accept", "d"), ("x-other", "c")]));
}

#[test]
fn user_agent() {
    let mut headers = Headers::new();
    headers.set_raw("user-agent", vec![b"me".to_vec()]);
    headers.set_raw("Accept", vec![b"*/*".to_vec()]);
    headers.set_user_agent();
    assert_eq!(headers.get_raw("User-Agent"), raw(&["hydra/0.0.1"]));
    assert_eq!(to_h2(headers), list(&[("user-agent", "hydra/0.0.1"), ("accept", "*/*")]));
}

#[test]
fn lists_become_headers() {
    let headers =
        to_hyper(list(&[("Via", "one  "), ("server", "h2o"), ("via", " two"), ("VIA", "  ")]));
    let headers = headers.unwrap();
    assert_eq!(headers.get_raw("via"), raw(&["one", " two", ""]));
    assert_eq!(headers.get_raw("Server"), raw(&["h2o"]));
}

#[test]
fn names_have_to_be_text() {
    let headers = vec![(b"ok".to_vec(), vec![0xff]), (vec![0xff], b"value".to_vec())];
    match to_hyper(headers.clone()) {
        Err(ParseError::Utf8(cause)) => {
            assert!(cause.message.contains("invalid utf-8"));
        }
        _ => unreachable!(),
    }
    // Values can be anything.
    let headers = to_hyper(headers[..1].to_vec()).unwrap();
    assert_eq!(headers.get_raw("ok"), Some(vec![vec![0xff]]));
}

#[test]
fn status() {
    let (status, headers) =
        to_status_and_headers(list(&[(":status", "404"), ("server", "h2o")])).unwrap();
    assert_eq!(status, StatusCode(404));
    assert_eq!(headers.get_raw(":status"), raw(&["404"]));
    assert_eq!(headers.get_raw("server"), raw(&["h2o"]));

    for (text, number) in [("+200", 200), ("007", 7), ("65535", 65535), ("200 ", 200)] {
        let (status, _) = to_status_and_headers(list(&[(":status", text)])).unwrap();
        assert_eq!(status, StatusCode(number));
    }
    // The first one counts.
    let (status, _) =
        to_status_and_headers(list(&[(":status", "200"), (":STATUS", "x")])).unwrap();
    assert_eq!(status, StatusCode(200));
}

#[test]
fn status_errors() {
    for text in ["", "+", "-1", "65536", "20x", " 200", "2 0"] {
        match to_status_and_headers(list(&[(":status", text)])) {
            Err(err) => {
                assert_eq!(err.description(), ":status pseudo header not a number");
                assert!(err.cause().is_some());
                let text = "Failed to parse :status pseudo header as integer: ";
                assert!(err.message().starts_with(text));
                assert!(err.message().len() > text.len());
            }
            Ok(_) => unreachable!(),
        }
    }
    match to_status_and_headers(list(&[("status", "200")])) {
        Err(err) => {
            assert_eq!(err.description(), ":status pseudo header missing");
            assert_eq!(err.message(), ":status pseudo header was not included");
            assert!(err.cause().is_none());
        }
        Ok(_) => unreachable!(),
    }
    match to_status_and_headers(vec![(b":status".to_vec(), vec![0xc0])]) {
        Err(ParseError::Utf8(_)) => {}
        _ => unreachable!(),
    }
    match to_status_and_headers(vec![(vec![0xc0], vec![])]) {
        Err(err) => {
            assert!(err.message().starts_with("Failed parsing header name as utf8: invalid"));
        }
        Ok(_) => unreachable!(),
    }
}

#[test]
fn headers_become_lists() {
    let mut headers = Headers::new();
    headers.set_raw("Connection", vec![b"close".to_vec()]);
    headers.set_raw("X-MiXeD", vec![b"one".to_vec(), b"two\r\nthree".to_vec()]);
    headers.set_raw("Empty", vec![]);
    assert_eq!(to_h2(headers), list(&[("x-mixed", "one, two  three"), ("empty", "")]));
}

/// Whatever the case of its name, and however often it was given
#[test]
fn connection_stays_behind() {
    let mut headers = Headers::new();
    headers.set_raw("connection", vec![b"close".to_vec()]);
    headers.set_raw("CONNECTION", vec![b"keep-alive".to_vec(), b"close".to_vec()]);
    assert_eq!(to_h2(headers), vec![]);
    let given = list(&[("connection", "a"), ("x", "y"), ("Connection", "b")]);
    let headers = to_hyper(given).unwrap_or_else(|err| panic!("{}", err.message()));
    assert_eq!(to_h2(headers), list(&[("x", "y")]));
}

#[test]
fn cookies_go_last() {
    let mut headers = Headers::new();
    headers.set_raw(
        "set-cookie",
        vec![b"foo = bar; HTTPONLY".to_vec(), b"broken".to_vec(), b"baz=q; Path=/".to_vec()],
    );
    headers.set_raw("Server", vec![b"h2o".to_vec()]);
    assert_eq!(
        to_h2(headers),
        list(&[
            ("server", "h2o"),
            ("set-cookie", "foo=bar; HttpOnly"),
            ("set-cookie", "baz=q; Path=/"),
        ]),
    );
    let mut headers = Headers::new();
    headers.set_raw("Set-Cookie", vec![b"broken".to_vec()]);
    assert_eq!(to_h2(headers), list(&[]));
}

#[test]
fn cookies_by_hand() {
    let mut headers = list(&[("server", "h2o")]);
    add_cookies(&mut headers, &vec!["a=b".to_string(), "c=d".to_string()]);
    assert_eq!(
        headers,
        list(&[("server", "h2o"), ("set-cookie", "a=b"), ("set-cookie", "c=d")]),
    );
}

#[test]
fn sendable() {
    let mut headers = Headers::new();
    assert!(headers.is_sendable());
    headers.set_raw("connection", vec![vec![0xff]]);
    headers.set_raw("Set-Cookie", vec![vec![0xff]]);
    headers.set_raw("USER-AGENT", vec![vec![0xff]]);
    headers.set_raw("Accept", vec![b"a".to_vec()]);
    assert!(headers.is_sendable());
    headers.set_raw("Accept", vec![b"a".to_vec(), vec![0xff]]);
    assert!(!headers.is_sendable());
}

#[test]
fn compression_keeps_history() {
    let mut client = Compression::new();
    let mut server = Compression::new();
    let headers = list(&[(":method", "GET"), (":path", "/"), ("custom-key", "custom-value")]);
    let first = client.encode(&headers);
    assert_eq!(first[..2], [0x82, 0x84]);
    assert_eq!(first.len(), 2 + 1 + 1 + 10 + 1 + 12);
    // The second time the custom header is known.
    let second = client.encode(&headers);
    assert_eq!(second, vec![0x82, 0x84, 0x80 | 62]);
    assert_eq!(server.decode(&first).unwrap(), headers);
    assert_eq!(server.decode(&second).unwrap(), headers);
    // A decoder without that history does not know it.
    match Compression::new().decode(&second) {
        Err(HttpError::CompressionError) => {}
        _ => unreachable!(),
    }
}

#[test]
fn size_updates_cut_short() {
    let cut: [&[u8]; 4] = [
        &[0x3f],
        &[0x82, 0x3f, 0xff],
        &[0x3f, 0x80, 0x80, 0x80, 0x80, 0x01],
        &[0x40, 1, 65, 0, 0x3f],
    ];
    for block in cut {
        match Compression::new().decode(block) {
            Err(HttpError::CompressionError) => {}
            _ => unreachable!(),
        }
    }
    let headers = Compression::new().decode(&[0x3f, 0x80, 0x01, 0x20, 0x82]).unwrap();
    assert_eq!(headers, list(&[(":method", "GET")]));
    let headers = Compression::new().decode(&[0x0f, 0x2e, 1, 65]).unwrap();
    assert_eq!(headers.len(), 1);
    // What comes before the broken change counts for the blocks that follow.
    let mut compression = Compression::new();
    assert!(compression.decode(&[0x40, 1, 120, 1, 121, 0x3f]).is_err());
    assert_eq!(compression.decode(&[0xbe]).unwrap(), list(&[("x", "y")]));
    assert!(Compression::new().decode(&[0xbe]).is_err());
    // Other fields that are cut short are found by the decoder.
    let short: [&[u8]; 4] = [&[0xff], &[0x40, 1], &[0x40, 5, 65], &[0x0f]];
    for block in short {
        assert!(Compression::new().decode(block).is_err());
    }
}

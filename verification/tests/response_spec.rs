//! Checks of whole responses
use hydra::{Headers, Response, StatusCode};

struct BufferedResponse {
    response: Response,
    body: Vec<u8>,
}

fn check(
    res: &BufferedResponse,
    status: StatusCode,
    body_contains: &[&str],
    headers: &[(&str, &str)],
) {
    assert_eq!(res.response.status, status);
    let body = std::str::from_utf8(&res.body[..]).expect("utf8 body");
    println!("body: {}", body);
    for text in body_contains {
        assert!(body.contains(text));
    }
    for (name, value) in headers {
        let raw = res.response.headers.get_raw(name).unwrap();
        let utf8 = std::str::from_utf8(&raw[0][..]).unwrap();
        assert!(utf8.contains(value));
    }
}

fn response_spec_test_response() -> BufferedResponse {
    let mut headers = Headers::new();
    headers.set_raw("Server", vec![b"h2o/1.7.0".to_vec()]);
    BufferedResponse {
        body: "Hello, world!".as_bytes().to_vec(),
        response: Response { status: StatusCode(200), headers },
    }
}

#[test]
fn test_response_spec_macro() {
    check(
        &response_spec_test_response(),
        StatusCode(200),
        &["Hello", "world"],
        &[("Server", "h2o/1.7.0")],
    );
}

#[test]
#[should_panic]
fn test_response_spec_macro_body_doesnt_contain() {
    check(
        &response_spec_test_response(),
        StatusCode(200),
        &["Goodbye", "cruel", "world"],
        &[("Server", "h2o/1.7.0")],
    );
}

#[test]
#[should_panic]
fn test_response_spec_macro_different_status() {
    check(&response_spec_test_response(), StatusCode(404), &[], &[]);
}

#[test]
#[should_panic]
fn test_response_spec_macro_missing_header() {
    check(&response_spec_test_response(), StatusCode(200), &[], &[("NotAHeader", "Nope")]);
}

#[test]
#[should_panic]
fn test_response_spec_macro_header_wrong_value() {
    check(&response_spec_test_response(), StatusCode(200), &[], &[("Server", "Nope")]);
}

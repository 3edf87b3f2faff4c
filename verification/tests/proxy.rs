//! What the read socket refuses, forwards and answers.

use yaam::agent::error::Error;
use yaam::agent::proxy::{
    answer, peer_owns_socket, receive, refused, unreadable_body, Received, Response, MAX_BODY,
};
use yaam::agent::upstream::{read_verdict, Attempt, Credentials, ReadResponse, Upstream};

fn body(response: &Response) -> &str {
    std::str::from_utf8(&response.body).expect("text")
}

fn answered(status: u16) -> Result<ReadResponse, Error> {
    read_verdict(Attempt::Answered(ReadResponse {
        status,
        content_type: Some("text/plain".to_owned()),
        body: format!("stub says {status}").into_bytes(),
    }))
}

#[test]
fn a_read_is_signed_as_the_socket_owner_and_forwarded() {
    let Received::Forward { target } = receive("GET", &Some("/bundle?actor=reader".to_owned()))
    else {
        panic!("a read goes on");
    };
    assert_eq!(target, "/bundle?actor=reader");

    let response = answer(answered(200));
    assert_eq!(response.status, 200);
    assert_eq!(body(&response), "stub says 200");
    assert_eq!(response.content_type.as_deref(), Some("text/plain"));
    assert_eq!(response.allow, None);
}

#[test]
fn a_write_is_refused_and_never_reaches_the_service() {
    for method in ["POST", "PUT", "PATCH", "DELETE", "get", "HEAD"] {
        let Received::Refuse(response) = receive(method, &Some("/records".to_owned())) else {
            panic!("{method} must not be proxied at all");
        };
        assert_eq!(response.status, 405);
        assert_eq!(response.allow, Some("GET"));
        assert!(body(&response).contains("record socket"));
        assert_eq!(response.content_type.as_deref(), Some("application/json"));
    }
}

#[test]
fn a_request_without_a_path_is_left_to_the_one_guard_on_targets() {
    let Received::Forward { target } = receive("GET", &None) else {
        panic!("a read goes on");
    };
    assert_eq!(target, "");
}

#[test]
fn a_peer_that_does_not_own_the_socket_gets_nothing() {
    assert!(peer_owns_socket(1000, 1000));
    assert!(!peer_owns_socket(1000, 1001));
    assert!(!peer_owns_socket(0, 1000));
}

#[test]
fn an_unreachable_service_is_a_failed_read_not_a_queued_one() {
    let response = answer(read_verdict(Attempt::Broken {
        stage: "connect".to_owned(),
        cause: "Connection refused".to_owned(),
    }));
    assert_eq!(response.status, 503);
    assert_eq!(
        body(&response),
        r#"{"error":"the service could not be reached (connect: Connection refused); reads are never queued"}"#
    );
}

#[test]
fn the_services_own_refusal_is_what_the_caller_sees() {
    let response = answer(answered(403));
    assert_eq!(response.status, 403);
    assert_eq!(body(&response), "stub says 403");
}

#[test]
fn a_read_for_an_agent_with_no_key_is_this_sidecars_fault() {
    let upstream = Upstream {
        base_url: "http://127.0.0.1:8787".to_owned(),
        service_public_key: vec![0u8; 32],
        credentials: Credentials::new(),
    };
    let error = upstream.forward_read("reader", "/records").unwrap_err();
    let response = answer(Err(error));
    assert_eq!(response.status, 500);
    assert_eq!(
        body(&response),
        "{\"error\":\"this sidecar cannot proxy the read: rejected: no signing credential \
         configured for `reader`\"}"
    );
}

#[test]
fn a_body_larger_than_the_signer_will_buffer_is_refused() {
    assert_eq!(MAX_BODY, 1 << 20);
    let response = unreadable_body();
    assert_eq!(response.status, 413);
    assert_eq!(response.allow, None);
    assert!(body(&response).contains("larger than this sidecar will sign"));
}

#[test]
fn a_refusal_is_json_whatever_it_quotes() {
    let response = refused(500, "a \"quote\", a \\ and\na line\tand \u{1}\u{1f}\u{8}\u{c}\r é");
    assert_eq!(
        body(&response),
        "{\"error\":\"a \\\"quote\\\", a \\\\ and\\na line\\tand \\u0001\\u001f\\b\\f\\r é\"}"
    );
}

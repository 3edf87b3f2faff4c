//! Where a request goes, who it is signed as, and what its answer means.

use yaam::agent::error::Error;
use yaam::agent::upstream::{
    classify, classify_with, endpoint_from, read_verdict, snippet, write_verdict, Attempt,
    Credentials, ReadResponse, SigningKeys, UriParts, Upstream, MAX_READ_RESPONSE, REASON_LIMIT,
};

/// The key the service and the sidecar share.
const KEY: &[u8] = b"a-shared-signing-key";

/// An upstream pointed at `base_url`, able to sign as `writer`.
fn upstream(base_url: &str) -> Upstream {
    Upstream {
        base_url: base_url.to_owned(),
        service_public_key: vec![0u8; 32],
        credentials: Credentials::new().with("writer", SigningKeys { current: KEY.to_vec() }),
    }
}

fn answered(status: u16, body: &[u8]) -> Attempt {
    Attempt::Answered(ReadResponse {
        status,
        content_type: Some("text/plain".to_owned()),
        body: body.to_vec(),
    })
}

#[test]
fn success_is_acceptance() {
    for code in [200u16, 201, 202, 204] {
        classify(code, b"").unwrap();
    }
}

#[test]
fn client_errors_are_permanent() {
    for code in [400u16, 401, 403, 404, 409, 422] {
        let err = classify(code, b"no").unwrap_err();
        assert!(matches!(err, Error::Rejected(_)), "{code} must be rejected");
    }
}

#[test]
fn overload_and_server_errors_are_transient() {
    for code in [429u16, 500, 502, 503, 504] {
        let err = classify(code, b"later").unwrap_err();
        assert!(matches!(err, Error::Spooled), "{code} must be spooled");
    }
}

#[test]
fn an_unexpected_status_is_not_retried_forever() {
    for code in [100u16, 301, 302] {
        let err = classify(code, b"").unwrap_err();
        assert!(matches!(err, Error::Rejected(_)), "{code}");
    }
}

#[test]
fn the_reason_is_quoted_but_bounded() {
    let long = vec![b'x'; REASON_LIMIT * 2];
    let Err(Error::Rejected(why)) = classify(400, &long) else {
        panic!("expected a rejection");
    };
    assert!(why.contains("400"));
    assert!(why.len() < REASON_LIMIT + 40, "{why}");
}

#[test]
fn a_multiline_reason_becomes_one_line() {
    assert_eq!(snippet(b" bad\n  record\t"), "bad record");
}

#[test]
fn a_rejection_names_the_status_and_quotes_the_reason() {
    let why = |code, reason: &[u8]| classify(code, reason).unwrap_err().to_text();
    assert_eq!(
        why(422, b"no\nsuch kind"),
        "rejected: 422 Unprocessable Entity: no such kind"
    );
    assert_eq!(why(404, b""), "rejected: 404 Not Found: ");
    assert_eq!(why(299 + 100, b"x"), "rejected: 399 <unknown status code>: x");
    assert_eq!(
        classify_with(418, Some("Teapot"), b"short").unwrap_err().to_text(),
        "rejected: 418 Teapot: short"
    );
    assert_eq!(
        classify_with(418, None, b"").unwrap_err().to_text(),
        "rejected: 418 <unknown status code>: "
    );
}

#[test]
fn bytes_that_are_no_text_are_quoted_with_a_replacement() {
    assert_eq!(snippet(&[b'a', 0xff, b'b']), "a\u{fffd}b");
    assert_eq!(snippet(b""), "");
    assert_eq!(snippet("a\u{2003}b\u{a0}c".as_bytes()), "a b c");
}

#[test]
fn a_record_reaches_the_service() {
    let request = upstream("http://127.0.0.1:8787").post_record("writer").unwrap();
    assert_eq!(request.method, "POST");
    assert_eq!(request.endpoint.target, "/records");
    assert_eq!(request.endpoint.authority, "127.0.0.1:8787");
    assert_eq!(request.endpoint.host, "127.0.0.1");
    assert_eq!(request.endpoint.port, 8787);
}

#[test]
fn a_posted_record_carries_a_signature_over_method_path_agent_and_body() {
    let request = upstream("http://127.0.0.1:8787").post_record("writer").unwrap();
    assert_eq!(request.agent, "writer");
    assert_eq!(request.key, KEY);
    assert!(request.sealed, "the service has to be told the body is sealed");
}

#[test]
fn an_agent_with_no_credential_is_never_posted_unsigned() {
    let err = upstream("http://127.0.0.1:8787").post_record("auditor").unwrap_err();
    assert!(
        matches!(&err, Error::Rejected(why) if why.contains("auditor")),
        "{}",
        err.to_text()
    );
}

#[test]
fn a_client_error_from_the_wire_is_rejected() {
    let err = write_verdict(&answered(422, b"stub says 422")).unwrap_err();
    assert!(matches!(err, Error::Rejected(why) if why.contains("422")));
}

#[test]
fn a_server_error_from_the_wire_is_spooled() {
    for code in [429u16, 503] {
        let err = write_verdict(&answered(code, b"")).unwrap_err();
        assert!(matches!(err, Error::Spooled), "{code}");
    }
}

#[test]
fn an_unreachable_service_is_spooled() {
    let broken = Attempt::Broken {
        stage: "connect".to_owned(),
        cause: "refused".to_owned(),
    };
    assert!(matches!(write_verdict(&broken), Err(Error::Spooled)));
    assert!(matches!(write_verdict(&Attempt::TimedOut), Err(Error::Spooled)));
    assert_eq!(
        write_verdict(&Attempt::Unbuildable("bad header".to_owned())).unwrap_err().to_text(),
        "rejected: unbuildable request: bad header"
    );
    write_verdict(&answered(202, b"")).unwrap();
}

#[test]
fn a_url_without_a_host_is_a_configuration_error() {
    let err = upstream("not a url").post_record("writer").unwrap_err();
    assert!(matches!(err, Error::Rejected(_)), "{}", err.to_text());
    assert!(err.to_text().starts_with("rejected: unusable upstream url: "));

    let err = upstream("/records").post_record("writer").unwrap_err();
    assert!(matches!(err, Error::Rejected(why) if why.contains("no host")));
}

#[test]
fn a_read_is_signed_over_the_whole_request_target() {
    let request = upstream("http://127.0.0.1:8787")
        .forward_read("writer", "/records?limit=1")
        .unwrap();
    assert_eq!(request.method, "GET");
    assert_eq!(request.endpoint.target, "/records?limit=1");
    assert_eq!(request.agent, "writer");
    assert_eq!(request.key, KEY);
    assert!(!request.sealed);

    let answer = read_verdict(answered(200, b"stub says 200")).unwrap();
    assert_eq!(answer.status, 200);
    assert_eq!(answer.body, b"stub says 200");
    assert_eq!(answer.content_type.as_deref(), Some("text/plain"));
}

#[test]
fn a_read_that_never_gets_an_answer_fails_rather_than_hanging() {
    let err = read_verdict(Attempt::TimedOut).unwrap_err();
    assert!(
        matches!(&err, Error::Unreachable(why) if why.contains("in time")),
        "{}",
        err.to_text()
    );
}

#[test]
fn a_read_that_is_not_origin_form_is_never_signed() {
    for target in ["", "http://elsewhere/records", "records"] {
        let err = upstream("http://127.0.0.1:8787")
            .forward_read("writer", target)
            .unwrap_err();
        assert!(
            matches!(&err, Error::Rejected(why) if why.contains("origin-form")),
            "{target}: {}",
            err.to_text()
        );
    }
}

#[test]
fn an_unreachable_service_fails_a_read_rather_than_spooling_it() {
    let err = read_verdict(Attempt::Broken {
        stage: "connect".to_owned(),
        cause: "refused".to_owned(),
    })
    .unwrap_err();
    assert!(matches!(&err, Error::Unreachable(why) if why == "connect: refused"));
    assert!(matches!(
        read_verdict(Attempt::Unbuildable("x".to_owned())),
        Err(Error::Rejected(_))
    ));
}

#[test]
fn a_read_for_an_agent_with_no_credential_is_not_attempted() {
    let err = upstream("http://127.0.0.1:8787")
        .forward_read("auditor", "/records")
        .unwrap_err();
    assert!(
        matches!(&err, Error::Rejected(why) if why.contains("auditor")),
        "{}",
        err.to_text()
    );
}

#[test]
fn a_refusal_by_the_service_is_forwarded_rather_than_classified() {
    for code in [403u16, 503] {
        assert_eq!(read_verdict(answered(code, b"")).unwrap().status, code);
    }
}

#[test]
fn a_trailing_slash_does_not_double_up() {
    for base in ["http://127.0.0.1:8787/", "http://127.0.0.1:8787///"] {
        let request = upstream(base).post_record("writer").unwrap();
        assert_eq!(request.endpoint.target, "/records");
        assert_eq!(request.endpoint.authority, "127.0.0.1:8787");
    }
}

#[test]
fn a_signed_read_reaches_the_base_urls_own_authority_only() {
    let upstream = upstream("http://service.internal/base/");
    for target in ["//elsewhere/records", "/@elsewhere", "/http://elsewhere/x?y=http://z"] {
        let request = upstream.forward_read("writer", target).unwrap();
        assert_eq!(request.endpoint.authority, "service.internal", "{target}");
        assert_eq!(request.endpoint.host, "service.internal");
        assert_eq!(request.endpoint.target, format!("/base{target}"));
        assert_eq!(request.endpoint.port, 80, "the port a plain URL is served on");
    }
}

#[test]
fn an_endpoint_comes_out_of_the_parsed_parts() {
    let parts = |authority, port, target: Option<&str>| {
        Ok(UriParts { authority, port, target: target.map(str::to_owned) })
    };
    let named = || Some(("h:1".to_owned(), "h".to_owned()));
    let endpoint = endpoint_from("base", "/path", parts(named(), Some(1), Some("/t"))).unwrap();
    assert_eq!(
        (endpoint.authority.as_str(), endpoint.host.as_str(), endpoint.port),
        ("h:1", "h", 1)
    );
    assert_eq!(endpoint.target, "/t");
    let endpoint = endpoint_from("base", "/path", parts(named(), None, None)).unwrap();
    assert_eq!((endpoint.port, endpoint.target.as_str()), (80, "/path"));
    assert_eq!(
        endpoint_from("base", "/path", parts(None, None, None)).unwrap_err().to_text(),
        "rejected: upstream url has no host: base"
    );
    assert_eq!(
        endpoint_from("base", "/path", Err("bad".to_owned())).unwrap_err().to_text(),
        "rejected: unusable upstream url: bad"
    );
}

#[test]
fn credentials_hold_one_key_for_each_agent() {
    let key = |bytes: &[u8]| SigningKeys { current: bytes.to_vec() };
    let credentials = Credentials::new()
        .with("a", key(b"1"))
        .with("b", key(b"2"))
        .with("a", key(b"3"));
    assert_eq!(credentials.keys("a").unwrap().current, b"3");
    assert_eq!(credentials.keys("b").unwrap().current, b"2");
    assert!(credentials.keys("c").is_none());
    assert!(Credentials::new().keys("a").is_none());
    assert_eq!(MAX_READ_RESPONSE, 8 << 20);
}

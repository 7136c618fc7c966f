use geopard::client::{Client, ClientBuilder, ClientOptions, Error, FetchState, Response};
use geopard::codec::{decode_header, encode_request, ProtoError};
use geopard::status::{InvalidStatus, Status};

fn response_from_bytes(bytes: &[u8]) -> Result<Response, Error> {
    Response::from_bytes(bytes)
}

#[test]
fn client_builder() {
    let client = ClientBuilder::new().redirect(true).build();
    assert_eq!(client.options(), ClientOptions { redirect: true });
}

#[test]
fn basic_res() -> Result<(), Error> {
    let res = response_from_bytes(
        b"20 text/gemini\r\n\
            Basic example response from a dummy server",
    )?;
    assert_eq!(res.status(), Status::Success(20));
    Ok(())
}

#[test]
fn unexpected_body() -> Result<(), Error> {
    let res = response_from_bytes(
        b"31 gemini://gemini.circumlunar.space/\r\n\
            Unexpected body",
    )?;
    assert_eq!(res.status(), Status::Redirect(31));
    assert_eq!(res.meta(), "gemini://gemini.circumlunar.space/");
    assert!(res.body().is_none());
    Ok(())
}

#[test]
fn no_meta() -> Result<(), Error> {
    let res = response_from_bytes(
        b"20\r\n\
            Basic example response from a dummy server",
    );
    matches!(
        res,
        Err(Error::InvalidProtocolData(ProtoError::MetaNotFound))
    );
    Ok(())
}

#[test]
fn meta_too_long() -> Result<(), Error> {
    let mut bytes = Vec::from([b' '; 1030]);
    bytes[0] = b'2';
    bytes[1] = b'0';

    // max size of meta is 1024, we go over that
    for i in 2..1030 {
        bytes[i] = b'a';
    }

    let res = response_from_bytes(&bytes.clone());
    matches!(
        res,
        Err(Error::InvalidProtocolData(ProtoError::MetaNotFound))
    );
    Ok(())
}

#[test]
fn invalid_scheme() {
    let res = geopard::client::plan_request("http://gemini.circumlunar.space");
    assert!(res.is_err());
    assert!(matches!(res, Err(Error::SchemeNotSupported)));
}

#[test]
fn meta_too_long_is_an_error_not_a_panic() {
    // The spec's meta-cap example: 1030 bytes, "20" then 1028 'a's, no CRLF.
    let mut bytes = vec![b'a'; 1030];
    bytes[0] = b'2';
    bytes[1] = b'0';
    let res = response_from_bytes(&bytes);
    assert!(matches!(
        res,
        Err(Error::InvalidProtocolData(ProtoError::MetaNotFound))
    ));
}

#[test]
fn status_classification_whole_range() {
    for s in 0..=255u8 {
        let r = Status::try_from(s);
        if (10..70).contains(&s) {
            let status = r.unwrap();
            let expected = match s / 10 {
                1 => Status::Input(s),
                2 => Status::Success(s),
                3 => Status::Redirect(s),
                4 => Status::TempFail(s),
                5 => Status::PermFail(s),
                _ => Status::CertRequired(s),
            };
            assert_eq!(status, expected);
        } else {
            assert_eq!(r, Err(InvalidStatus));
        }
    }
}

#[test]
fn invalid_status_digits() {
    let res = response_from_bytes(b"99 meta\r\nbody");
    assert!(matches!(
        res,
        Err(Error::InvalidProtocolData(ProtoError::InvalidStatus(InvalidStatus)))
    ));
    let res = response_from_bytes(b"ab meta\r\nbody");
    assert!(matches!(
        res,
        Err(Error::InvalidProtocolData(ProtoError::InvalidStatus(InvalidStatus)))
    ));
}

#[test]
fn meta_of_exactly_the_cap_is_accepted() {
    // 2 status bytes, a space, 1024 meta bytes, then the terminator.
    let mut bytes = b"20 ".to_vec();
    bytes.extend_from_slice(&vec![b'm'; 1024]);
    bytes.extend_from_slice(b"\r\nbody");
    let res = response_from_bytes(&bytes).unwrap();
    assert_eq!(res.status(), Status::Success(20));
    assert_eq!(res.meta().len(), 1024);
    assert_eq!(res.body().unwrap(), b"body".to_vec());
}

#[test]
fn meta_one_past_the_cap_is_rejected() {
    let mut bytes = b"20 ".to_vec();
    bytes.extend_from_slice(&vec![b'm'; 1025]);
    bytes.extend_from_slice(b"\r\nbody");
    let res = response_from_bytes(&bytes);
    assert!(matches!(
        res,
        Err(Error::InvalidProtocolData(ProtoError::MetaNotFound))
    ));
}

#[test]
fn header_round_trip_exact() {
    let status: u8 = 20;
    let meta = "text/gemini";
    let body: &[u8] = b"# A page\nwith two lines";
    let wire = format!("{} {}\r\n", status, meta);
    let mut bytes = wire.into_bytes();
    bytes.extend_from_slice(body);

    let res = Response::from_bytes(&bytes).unwrap();
    assert_eq!(res.status(), Status::Success(20));
    assert_eq!(res.meta(), meta);
    assert_eq!(res.body().unwrap(), body.to_vec());
}

#[test]
fn empty_meta_with_space_round_trips() {
    let res = response_from_bytes(b"51 \r\n").unwrap();
    assert_eq!(res.status(), Status::PermFail(51));
    assert_eq!(res.meta(), "");
    assert!(res.body().is_none());
}

#[test]
fn body_bytes_preserved_exactly() {
    let res = response_from_bytes(b"20 application/octet-stream\r\n\x00\x01\xffrest").unwrap();
    assert_eq!(res.status(), Status::Success(20));
    let body = res.body().unwrap();
    assert_eq!(body, vec![0u8, 1u8, 255u8, b'r', b'e', b's', b't']);
}

#[test]
fn meta_owned_hands_out_the_meta() {
    let res = response_from_bytes(b"10 What would you like?\r\n").unwrap();
    assert_eq!(res.meta_owned(), "What would you like?");
}

#[test]
fn invalid_utf8_in_the_meta_is_replaced_not_fatal() {
    let res = response_from_bytes(b"20 a\xffb\r\nbody").unwrap();
    assert_eq!(res.status(), Status::Success(20));
    assert_eq!(res.meta(), "a\u{fffd}b");
    assert_eq!(res.body().unwrap(), b"body".to_vec());
}

#[test]
fn decode_header_splits_fields() {
    let r = decode_header(b"10 What would you like?\r\n").unwrap();
    assert_eq!(r.0, Status::Input(10));
    assert_eq!(r.1, b"What would you like?".to_vec());
    assert_eq!(r.2, Vec::<u8>::new());
}

#[test]
fn encode_request_appends_terminator() {
    let bytes = encode_request("gemini://example.org/");
    assert_eq!(bytes, b"gemini://example.org/\r\n".to_vec());
}

#[test]
fn plan_request_defaults_the_port() {
    let plan = geopard::client::plan_request("gemini://example.org/page").unwrap();
    assert_eq!(plan.host, "example.org");
    assert_eq!(plan.port, 1965);
    assert_eq!(plan.request, b"gemini://example.org/page\r\n".to_vec());
}

#[test]
fn plan_request_keeps_an_explicit_port() {
    let plan = geopard::client::plan_request("gemini://rawtext.club:1966/x").unwrap();
    assert_eq!(plan.host, "rawtext.club");
    assert_eq!(plan.port, 1966);
}

#[test]
fn plan_request_rejects_bad_urls() {
    assert!(matches!(
        geopard::client::plan_request("not a url at all"),
        Err(Error::InvalidUrl(_))
    ));
    assert!(matches!(
        geopard::client::plan_request("gemini:nohost"),
        Err(Error::InvalidHost)
    ));
}

#[test]
fn redirect_bound_with_redirects_on() {
    // A server that always redirects: at most five attempts are made.
    let client = ClientBuilder::new().redirect(true).build();
    let mut fetch: FetchState = client.start_fetch("gemini://example.org/");
    let mut attempts = 0;
    while let Some(_url) = fetch.next_request() {
        attempts += 1;
        fetch.on_response(Status::Redirect(31), "gemini://example.org/next");
        assert!(attempts <= 5);
    }
    assert_eq!(attempts, 5);
}

#[test]
fn redirect_bound_with_redirects_off() {
    // Redirects off: exactly one attempt, whatever the server answers.
    let client = ClientBuilder::new().redirect(false).build();
    let mut fetch = client.start_fetch("gemini://example.org/");
    let mut attempts = 0;
    while let Some(_url) = fetch.next_request() {
        attempts += 1;
        fetch.on_response(Status::Redirect(31), "gemini://example.org/next");
    }
    assert_eq!(attempts, 1);
}

#[test]
fn redirect_loop_follows_the_meta() {
    let client = ClientBuilder::new().redirect(true).build();
    let mut fetch = client.start_fetch("gemini://a.example/");
    let first = fetch.next_request().unwrap();
    assert_eq!(first, "gemini://a.example/");
    fetch.on_response(Status::Redirect(31), "gemini://b.example/");
    let second = fetch.next_request().unwrap();
    assert_eq!(second, "gemini://b.example/");
    fetch.on_response(Status::Success(20), "text/gemini");
    assert!(fetch.next_request().is_none());
}

#[test]
fn success_stops_the_loop_immediately() {
    let client = Client::new();
    let mut fetch = client.start_fetch("gemini://a.example/");
    assert!(fetch.next_request().is_some());
    fetch.on_response(Status::Success(20), "text/gemini");
    assert!(fetch.next_request().is_none());
}

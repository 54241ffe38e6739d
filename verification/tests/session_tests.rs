//! End-to-end session scenarios: the controller drives the state machine
//! while the test plays the server's side of the wire.

use pop_client::{
    decode, encode, Authenticator, Client, ClientState, Command, ErrorKind, ListResponse,
    OAuth2Authenticator, PlainAuthenticator, PopStream, Response, UidlResponse,
};

fn respond(client: &mut Client, wire: &[u8]) -> Response {
    client.feed(wire).unwrap();
    client.try_response().unwrap().unwrap()
}

/// A session that has consumed its greeting and the capability list.
fn greeted_client(caps: &[u8]) -> Client {
    let mut client = Client::new();
    client.greet_request().unwrap();
    let greeting = respond(&mut client, b"+OK POP3 ready <1896.697170952@dbc.mtview.ca.us>\r\n");
    client.greet_complete(greeting).unwrap();
    client.capa_request(1).unwrap();
    let response = respond(&mut client, caps);
    client.capa_complete(response).unwrap();
    client
}

/// A session logged in with USER and PASS, sitting in TRANSACTION.
fn transaction_client() -> Client {
    let mut client = greeted_client(b"+OK\r\nUSER\r\nUIDL\r\nTOP\r\n.\r\n");
    let (line, sasl) = client.login_request("alice", "hunter2", 2).unwrap();
    assert!(!sasl);
    assert_eq!(line, "USER alice\r\n");
    let user_reply = respond(&mut client, b"+OK send PASS\r\n");
    client.user_complete(user_reply).unwrap();
    let line = client.pass_request("hunter2", 3).unwrap();
    assert_eq!(line, "PASS hunter2\r\n");
    let pass_reply = respond(&mut client, b"+OK maildrop locked\r\n");
    client.pass_complete(pass_reply).unwrap();
    assert_eq!(client.get_state(), &ClientState::Transaction);
    client
}

#[test]
fn greeting_text_is_kept() {
    let mut client = Client::new();
    client.greet_request().unwrap();
    let greeting = respond(&mut client, b"+OK POP3 ready <1896.697170952@dbc.mtview.ca.us>\r\n");
    client.greet_complete(greeting).unwrap();
    assert_eq!(
        client.greeting().unwrap().as_ref(),
        b"POP3 ready <1896.697170952@dbc.mtview.ca.us>"
    );
}

#[test]
fn stat_round() {
    let mut client = transaction_client();
    let line = client.stat_request(4).unwrap();
    assert_eq!(line, "STAT\r\n");
    let reply = respond(&mut client, b"+OK 2 320\r\n");
    let stats = client.stat_complete(reply).unwrap();
    assert_eq!(stats.counter().value().unwrap(), 2);
    assert_eq!(stats.size().value().unwrap(), 320);
}

#[test]
fn list_round_multi_line() {
    let mut client = transaction_client();
    let line = client.list_request(None, 5).unwrap();
    assert_eq!(line, "LIST\r\n");
    let reply = respond(&mut client, b"+OK 2 messages (320 octets)\r\n1 120\r\n2 200\r\n.\r\n");
    match client.list_complete(reply).unwrap() {
        ListResponse::Multiple(list) => {
            let items = list.items();
            assert_eq!(items.len(), 2);
            assert_eq!(items[0].index().value().unwrap(), 1);
            assert_eq!(items[0].size().value().unwrap(), 120);
            assert_eq!(items[1].index().value().unwrap(), 2);
            assert_eq!(items[1].size().value().unwrap(), 200);
        }
        _ => unreachable!(),
    }
}

#[test]
fn uidl_round_single() {
    let mut client = transaction_client();
    let line = client.uidl_request(Some(2), 6).unwrap();
    assert_eq!(line, "UIDL 2\r\n");
    let reply = respond(&mut client, b"+OK 2 QhdPYR:00WBw1Ph7x7\r\n");
    match client.uidl_complete(reply).unwrap() {
        UidlResponse::Single(unique) => {
            assert_eq!(unique.index().value().unwrap(), 2);
            assert_eq!(unique.id().as_ref(), b"QhdPYR:00WBw1Ph7x7");
        }
        _ => unreachable!(),
    }
}

#[test]
fn retr_round_with_dot_stuffing() {
    let mut client = transaction_client();
    let line = client.retr_request(1, 7).unwrap();
    assert_eq!(line, "RETR 1\r\n");
    let reply = respond(
        &mut client,
        b"+OK message follows\r\nSubject: hi\r\n..leading dot\r\nbye\r\n.\r\n",
    );
    let body = client.retr_complete(reply).unwrap();
    assert_eq!(&body[..], b"Subject: hi\r\n.leading dot\r\nbye");
}

#[test]
fn dele_marks_and_rset_clears() {
    let mut client = transaction_client();

    let line = client.dele_request(1, 8).unwrap();
    assert_eq!(line, "DELE 1\r\n");
    let reply = respond(&mut client, b"+OK message 1 deleted\r\n");
    client.dele_complete(1, reply).unwrap();
    assert!(client.is_deleted(&1));
    assert!(!client.is_deleted(&2));

    let err = client.retr_request(1, 9).unwrap_err();
    assert!(matches!(err.kind(), ErrorKind::MessageIsDeleted));

    let line = client.rset_request(10).unwrap();
    assert_eq!(line, "RSET\r\n");
    let reply = respond(&mut client, b"+OK\r\n");
    client.rset_complete(reply).unwrap();
    assert!(!client.is_deleted(&1));
}

#[test]
fn quit_closes_the_session() {
    let mut client = transaction_client();
    let line = client.quit_request(11).unwrap();
    assert_eq!(line, "QUIT\r\n");
    let reply = respond(&mut client, b"+OK bye\r\n");
    client.quit_complete(reply).unwrap();

    assert_eq!(client.get_state(), &ClientState::Closed);
    assert!(client.inner().is_none());
    let err = client.noop_request(12).unwrap_err();
    assert!(matches!(err.kind(), ErrorKind::NotConnected));
    let err = client.quit_request(13).unwrap_err();
    assert!(matches!(err.kind(), ErrorKind::NotConnected));
}

#[test]
fn login_uses_auth_plain_when_advertised() {
    let mut client = greeted_client(b"+OK\r\nSASL PLAIN\r\nUSER\r\n.\r\n");
    let (line, sasl) = client.login_request("u", "p", 20).unwrap();
    assert!(sasl);
    assert_eq!(line, "AUTH PLAIN AHUAcA==\r\n");
    let reply = respond(&mut client, b"+OK welcome\r\n");
    client.auth_complete(reply).unwrap();
    assert_eq!(client.get_state(), &ClientState::Transaction);

    client.capa_request(21).unwrap();
    let refresh = respond(&mut client, b"+OK\r\nUIDL\r\n.\r\n");
    client.capa_complete(refresh).unwrap();
    assert!(client.has_capability(&pop_client::Capability::Uidl));
}

#[test]
fn server_error_does_not_change_state() {
    let mut client = transaction_client();
    client.dele_request(3, 30).unwrap();
    let reply = respond(&mut client, b"-ERR no such message\r\n");
    let err = client.dele_complete(3, reply).unwrap_err();
    assert!(matches!(err.kind(), ErrorKind::ServerError(_)));
    assert!(!client.is_deleted(&3));
    assert_eq!(client.get_state(), &ClientState::Transaction);
}

#[test]
fn preconditions_are_checked_before_io() {
    let mut fresh = Client::new();
    let err = fresh.stat_request(1).unwrap_err();
    assert!(matches!(err.kind(), ErrorKind::IncorrectStateForCommand));
    let err = fresh.apop_request("u", "digest", 1).unwrap_err();
    assert!(matches!(err.kind(), ErrorKind::ServerFailedToGreet));

    let mut client = greeted_client(b"+OK\r\nUSER\r\n.\r\n");
    let err = client.uidl_request(None, 2).unwrap_err();
    assert!(matches!(err.kind(), ErrorKind::IncorrectStateForCommand));

    let mut client = transaction_client();
    let line = client.top_request(3, 0, 3).unwrap();
    assert_eq!(line, "TOP 3 0\r\n");
    let reply = respond(&mut client, b"+OK top follows\r\nSubject: x\r\n\r\n.\r\n");
    let body = client.top_complete(reply).unwrap();
    assert_eq!(&body[..], b"Subject: x\r\n");
}

#[test]
fn capability_check_is_by_tag() {
    let client = greeted_client(b"+OK\r\nSASL KERBEROS_V4\r\nEXPIRE 30\r\n.\r\n");
    assert!(client.has_capability(&pop_client::Capability::Sasl(Vec::new())));
    assert!(client.has_capability(&pop_client::Capability::Expire(
        pop_client::Expiration::Never
    )));
    assert!(!client.has_capability(&pop_client::Capability::Top));
    assert!(client.sasl_supports(b"kerberos_v4"));
    assert!(!client.sasl_supports(b"PLAIN"));
}

#[test]
fn stream_feeds_incrementally() {
    let mut stream = PopStream::new();
    stream.expect(Command::Stat);
    let data = b"+OK 2 320\r\n";
    for (i, byte) in data.iter().enumerate() {
        stream.feed(&[*byte]).unwrap();
        match stream.try_decode().unwrap() {
            None => assert!(i + 1 < data.len()),
            Some(Response::Stat(stats)) => {
                assert_eq!(i + 1, data.len());
                assert_eq!(stats.counter().value().unwrap(), 2);
                assert_eq!(stats.size().value().unwrap(), 320);
            }
            Some(_) => unreachable!(),
        }
    }
}

#[test]
fn stream_decode_is_directed_by_the_queue_head() {
    let mut stream = PopStream::new();
    let err = stream.try_decode().unwrap_err();
    assert!(matches!(err.kind(), ErrorKind::MissingRequest));

    stream.expect(Command::Stat);
    stream.feed(b"+OK not numbers\r\n").unwrap();
    let err = stream.try_decode().unwrap_err();
    assert!(matches!(err.kind(), ErrorKind::InvalidResponse));
}

#[test]
fn stream_reports_eof_with_pending_commands() {
    let mut stream = PopStream::new();
    assert!(stream.on_eof().is_ok());
    stream.expect(Command::Greet);
    let err = stream.on_eof().unwrap_err();
    assert!(matches!(err.kind(), ErrorKind::ConnectionClosed));
}

#[test]
fn stream_enqueue_records_activity() {
    let mut stream = PopStream::new();
    assert_eq!(stream.last_activity(), None);
    let request = pop_client::Request::new(Command::Noop, Vec::new());
    let line = stream.enqueue_request(&request, 77);
    assert_eq!(line, "NOOP\r\n");
    assert_eq!(stream.last_activity(), Some(77));
}

#[test]
fn base64_wrappers_encode_and_decode() {
    assert_eq!(encode(b"\x00u\x00p"), "AHUAcA==");
    assert_eq!(encode(b""), "");
    assert_eq!(decode(b"AHUAcA==").unwrap(), vec![0, b'u', 0, b'p']);
    let err = decode(b"!!!").unwrap_err();
    assert!(matches!(err.kind(), ErrorKind::DecodeBase64));
}

#[test]
fn sasl_helpers_build_wire_values() {
    let plain = PlainAuthenticator::new("alice".to_string(), "pw".to_string());
    assert_eq!(plain.mechanism(), "PLAIN");
    assert_eq!(plain.auth().unwrap(), "\u{0}alice\u{0}pw");

    let oauth = OAuth2Authenticator::new("bob".to_string(), "tok".to_string());
    assert_eq!(oauth.mechanism(), "XOAUTH2");
    assert_eq!(oauth.auth().unwrap(), "user=bob\u{1}auth=Bearer tok\u{1}\u{1}");

    let star = pop_client::cancellation();
    assert!(matches!(star.command(), Command::Base64(p) if p.as_str() == "*"));

    let cont = pop_client::continuation(b"\x00u\x00p");
    assert!(matches!(cont.command(), Command::Base64(p) if p.as_str() == "AHUAcA=="));

    let challenge = pop_client::decode_challenge(Response::Challenge(pop_client::Text::new(
        b"AHUAcA==".to_vec(),
    )))
    .unwrap();
    assert_eq!(challenge, vec![0, b'u', 0, b'p']);
}

#[test]
fn request_serialization_is_exact() {
    let mut request = pop_client::Request::new(Command::Top, Vec::new());
    request.add_arg(pop_client::usize_to_string(1));
    request.add_arg(pop_client::usize_to_string(0));
    assert_eq!(request.serialize(), "TOP 1 0");
    assert_eq!(pop_client::usize_to_string(10230), "10230");
    assert_eq!(pop_client::usize_to_string(0), "0");
}

#[test]
fn oversized_responses_are_refused() {
    let mut stream = PopStream::new();
    stream.expect(Command::Retr);
    let chunk = vec![b'a'; pop_client::MAX_BUFFER_SIZE];
    stream.feed(&chunk).unwrap();
    let err = stream.feed(b"b").unwrap_err();
    assert!(matches!(err.kind(), ErrorKind::ResponseTooLarge));
}

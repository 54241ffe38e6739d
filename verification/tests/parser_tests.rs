//! The response parser, exercised through its public entry points.

use pop_client::{
    capability, capability_response, end_of_multiline, eol, list_stats, message_parser, parse,
    rfc822_response, stat, status, Capability, Command, Expiration, Parsed, Response,
    UidlResponse,
};

#[test]
fn test_list() {
    let data = b"+OK 2 messages (320 bytes)\r\n1 120 more info\r\n2 200 info info\r\n.\r\n";

    match parse(data, &Command::List) {
        Parsed::Done { used, response } => {
            assert_eq!(used, data.len());
            match response {
                Response::List(list) => {
                    assert!(list.items().len() == 2);
                }
                _ => {
                    unreachable!()
                }
            }
        }
        _ => {
            unreachable!()
        }
    }

    let data = b"+OK 2 messages (320 bytes)\r\n1 120\r\n2 200\r\n";

    assert!(matches!(parse(data, &Command::List), Parsed::Incomplete));

    let data = b"+OK 1 120\r\n";

    match parse(data, &Command::List) {
        Parsed::Done { used, response } => {
            assert_eq!(used, data.len());
            match response {
                Response::Stat(stat) => {
                    assert!(
                        stat.counter().value().unwrap() == 1 && stat.size().value().unwrap() == 120
                    )
                }
                _ => {
                    unreachable!()
                }
            }
        }
        _ => {
            unreachable!()
        }
    }

    let data = b"+OK 1 120 test\r\n";

    match parse(data, &Command::List) {
        Parsed::Done { used, response } => {
            assert_eq!(used, data.len());
            match response {
                Response::Stat(stat) => {
                    assert!(
                        stat.counter().value().unwrap() == 1 && stat.size().value().unwrap() == 120
                    )
                }
                _ => {
                    unreachable!()
                }
            }
        }
        _ => {
            unreachable!()
        }
    }

    let data = b"+OK 1 \r\n";

    assert!(matches!(parse(data, &Command::List), Parsed::Incomplete));
}

#[test]
fn mod_test_stat() {
    let data = b"+OK 20 600\r\n";

    match parse(data, &Command::Stat) {
        Parsed::Done { used, response } => {
            assert_eq!(used, data.len());
            match response {
                Response::Stat(stat) => {
                    assert!(stat.counter().value().unwrap() == 20);
                    assert!(stat.size().value().unwrap() == 600);
                }
                other => {
                    println!("{:?}", other);
                    unreachable!()
                }
            }
        }
        _ => {
            unreachable!()
        }
    }
}

#[test]
fn test_uidl() {
    let data =
        b"+OK unique-id listing follows\r\n1 whqtswO00WBw418f9t5JxYwZ\r\n2 QhdPYR:00WBw1Ph7x7\r\n.\r\n";

    match parse(data, &Command::Uidl) {
        Parsed::Done { used, response } => {
            assert_eq!(used, data.len());
            match response {
                Response::Uidl(uidl) => match uidl {
                    UidlResponse::Multiple(list) => {
                        println!("{:?}", list);
                    }
                    _ => {
                        unreachable!()
                    }
                },
                _ => {
                    unreachable!()
                }
            }
        }
        _ => {
            unreachable!()
        }
    }
}

#[test]
fn test_string() {
    let data = b"+OK maildrop has 2 messages (320 octets)\r\n";

    match parse(data, &Command::Greet) {
        Parsed::Done { used, response } => {
            assert_eq!(used, data.len());
            match response {
                Response::Message(msg) => {
                    assert!(msg.as_ref() == b"maildrop has 2 messages (320 octets)")
                }
                _ => {
                    unreachable!()
                }
            }
        }
        _ => {
            unreachable!()
        }
    }
}

#[test]
fn test_capa() {
    let data = b"+OK\r\nUSER\r\nRESP-CODES\r\nEXPIRE 30\r\nSASL GSSAPI SKEY\r\nGOOGLE-TEST-CAPA\r\n.\r\n";

    match parse(data, &Command::Capa) {
        Parsed::Done { used, response } => {
            assert_eq!(used, data.len());
            match response {
                Response::Capability(capas) => {
                    println!("{:?}", capas);
                    assert!(capas.len() == 5)
                }
                _ => {
                    unreachable!()
                }
            }
        }
        _ => {
            unreachable!()
        }
    }
}

#[test]
fn test_status() {
    let data = b"+OK\r\n";

    let (resp_status, used) = status(data).unwrap();

    assert!(&data[used..] == b"\r\n");
    assert!(resp_status.success());

    let data = b"-ERR\r\n";

    let (resp_status, used) = status(data).unwrap();

    assert!(&data[used..] == b"\r\n");
    assert!(!resp_status.success());
}

#[test]
fn rfc1939_test_stat() {
    let data = b"1 120 bla bla\r\n";

    let (stats, used) = stat(data).unwrap();

    assert!(used == data.len());
    assert!(stats.counter().value().unwrap() == 1);
    assert!(stats.size().value().unwrap() == 120);

    let data = b"1 sdf bla bla\r\n";

    let result = stat(data);

    assert!(result.is_none());
}

#[test]
fn test_list_stats() {
    let data = b"2 messages (320 bytes)\r\n";

    let (stats, used) = list_stats(data).unwrap();

    assert!(used == data.len());

    assert!(stats.counter().value().unwrap() == 2);
    assert!(stats.size().value().unwrap() == 320);

    let data = b"2 sdf%fg (320 sdf#$%fdg)\r\n";

    let result = list_stats(data);

    assert!(result.is_none());
}

#[test]
fn test_rfc822() {
    let data = b"Date: Thu, 9 Sep 2023 15:30:00 -0400\r\nFrom: John Doe <johndoe@example.com>\r\nTo: Jane Smith <janesmith@example.com>\r\nSubject: Hello, Jane!\r\n\r\nDear Jane,\r\n\r\nI hope this message finds you well. I just wanted to say hello and see how you're doing.\r\n\r\nBest regards,\r\nJohn\r\n.\r\n";

    let (bytes, used) = rfc822_response(data).unwrap();

    assert!(used == data.len());

    assert!(bytes.len() == 228);
}

#[test]
fn test_expire() {
    let data = b"EXPIRE NEVER\r\n";

    let (capa, used) = capability(data).unwrap();

    assert!(used == data.len());

    match capa {
        Capability::Expire(expiration) => {
            assert!(expiration == Expiration::Never)
        }
        _ => {
            unreachable!()
        }
    }
}

#[test]
fn test_sasl_plain_login() {
    let data = b"SASL PLAIN LOGIN\r\n";

    let (capa, used) = capability(data).unwrap();

    assert!(used == data.len());

    match capa {
        Capability::Sasl(mechanisms) => {
            assert_eq!(mechanisms.len(), 2);
            assert_eq!(mechanisms[0].as_ref(), b"PLAIN");
            assert_eq!(mechanisms[1].as_ref(), b"LOGIN");
        }
        _ => {
            unreachable!("Expected Sasl capability")
        }
    }
}

#[test]
fn test_sasl_multiple_mechanisms() {
    let data = b"SASL PLAIN LOGIN CRAM-MD5 DIGEST-MD5\r\n";

    let (capa, used) = capability(data).unwrap();

    assert!(used == data.len());

    match capa {
        Capability::Sasl(mechanisms) => {
            assert_eq!(mechanisms.len(), 4);
        }
        _ => {
            unreachable!("Expected Sasl capability")
        }
    }
}

#[test]
fn test_full_capa_response_with_sasl_login() {
    let data = b"+OK Capability list follows\r\nTOP\r\nUSER\r\nSASL PLAIN LOGIN\r\nEXPIRE 60\r\nUIDL\r\n.\r\n";

    let (caps, used) = capability_response(data).unwrap();

    assert!(used == data.len());

    assert_eq!(caps.len(), 5);
    let has_sasl = caps.iter().any(|c| matches!(c, Capability::Sasl(_)));
    assert!(has_sasl, "Should have SASL capability");
}

#[test]
fn dot_stuffed_body_is_unstuffed() {
    let data = b"+OK message follows\r\nheader: x\r\n..leading dot\r\nbody\r\n.\r\n";

    match parse(data, &Command::Retr) {
        Parsed::Done { used, response } => {
            assert_eq!(used, data.len());
            match response {
                Response::Bytes(bytes) => {
                    assert_eq!(&bytes[..], b"header: x\r\n.leading dot\r\nbody");
                }
                _ => unreachable!(),
            }
        }
        _ => unreachable!(),
    }
}

#[test]
fn byte_by_byte_parse_matches_one_shot() {
    let data = b"+OK 2 messages (320 octets)\r\n1 120\r\n2 200\r\n.\r\n";

    let mut expected_items = 0;
    match parse(data, &Command::List) {
        Parsed::Done { used, response } => {
            assert_eq!(used, data.len());
            match response {
                Response::List(list) => expected_items = list.items().len(),
                _ => unreachable!(),
            }
        }
        _ => unreachable!(),
    }

    let mut outcome = None;
    for cut in 1..=data.len() {
        match parse(&data[..cut], &Command::List) {
            Parsed::Incomplete => assert!(cut < data.len()),
            Parsed::Done { used, response } => {
                assert_eq!(used, data.len());
                outcome = Some(response);
            }
            Parsed::Malformed => unreachable!(),
        }
    }
    match outcome.unwrap() {
        Response::List(list) => assert_eq!(list.items().len(), expected_items),
        _ => unreachable!(),
    }
}

#[test]
fn error_line_parses_for_any_command() {
    let data = b"-ERR no such message\r\n";

    match parse(data, &Command::Retr) {
        Parsed::Done { used, response } => {
            assert_eq!(used, data.len());
            match response {
                Response::ServerErr(text) => assert_eq!(text.as_ref(), b"no such message"),
                _ => unreachable!(),
            }
        }
        _ => unreachable!(),
    }
}

#[test]
fn leftover_bytes_are_not_consumed() {
    let data = b"+OK first\r\n+OK second\r\n";

    match parse(data, &Command::Noop) {
        Parsed::Done { used, response } => {
            assert_eq!(used, 11);
            match response {
                Response::Message(msg) => assert_eq!(msg.as_ref(), b"first"),
                _ => unreachable!(),
            }
        }
        _ => unreachable!(),
    }
}

#[test]
fn capability_line_round_trips() {
    for line in [
        &b"TOP\r\n"[..],
        b"SASL PLAIN LOGIN\r\n",
        b"EXPIRE 30\r\n",
        b"EXPIRE NEVER\r\n",
        b"LOGIN-DELAY 900\r\n",
        b"IMPLEMENTATION Shrubbery-Mail-Server\r\n",
        b"X-UNKNOWN-42\r\n",
    ] {
        let (capa, _used) = capability(line).unwrap();
        let mut written = capa.clone().serialize();
        written.push(b'\r');
        written.push(b'\n');
        let (again, used) = capability(&written).unwrap();
        assert_eq!(used, written.len());
        assert_eq!(capa, again);
    }
}

#[test]
fn wire_primitive_parsers() {
    assert_eq!(eol(b"  \r\nrest"), Some(4));
    assert_eq!(eol(b"x\r\n"), None);
    assert_eq!(end_of_multiline(b".\r\nmore"), Some(3));
    assert_eq!(end_of_multiline(b"..\r\n"), None);
    let (line, used) = message_parser(b"hello\r\nworld\r\n").unwrap();
    assert_eq!(&line[..], b"hello");
    assert_eq!(used, 7);
    assert!(message_parser(b"no terminator").is_none());
}

#[test]
fn command_definitions_table() {
    let map = Command::definitions();
    assert_eq!(map.len(), 14);
    assert!(matches!(map.get("dele"), Some(Command::Dele)));
    assert!(matches!(map.get("capa"), Some(Command::Capa)));
    assert!(map.get("greet").is_none());
}

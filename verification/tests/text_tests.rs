//! The string-based entry points: status-line splitting, capability
//! parsing, drop statistics, unique-id listings, and number handling.

use pop_client::types::{Capability, Stats, UniqueID};
use pop_client::{parse_capabilities, parse_server_response, parse_utf8_bytes, ErrorKind, Number};

#[test]
fn test_parse_capabilities() {
    let to_parse = "USER\r\nuidl\r\nLOGIN-DELAY 30\r\n";

    let to_match: Vec<Capability> =
        vec![Capability::User, Capability::Uidl, Capability::LoginDelay(30)];

    let parsed_capabilities = parse_capabilities(to_parse);

    assert_eq!(parsed_capabilities, to_match);

    let to_parse = "";

    let parsed_capabilities = parse_capabilities(to_parse);

    assert_eq!(parsed_capabilities, Vec::new());

    let to_parse = "   \r\n   ";

    let parsed_capabilities = parse_capabilities(to_parse);

    assert_eq!(parsed_capabilities, Vec::new())
}

#[test]
fn test_server_response() {
    let response = "+OK testing this functionality";

    let result = parse_server_response(response);

    assert!(result.is_ok());

    let response = "+OK some data";

    let result = parse_server_response(response);

    assert_eq!(result.unwrap(), "some data");

    let response = "-ERR something went wrong!";

    let result = parse_server_response(response);

    assert!(result.is_err());

    let response = "this is not allowed";

    let result = parse_server_response(response);

    assert!(result.is_err());

    let response = "not valid +OK some data";

    let result = parse_server_response(response);

    assert!(result.is_err());
}

#[test]
fn stat_test_parse_unique_id() {
    let to_parse = "21 2123";

    let result = Stats::from_response(to_parse);

    assert!(result.is_ok());

    let to_parse = "\r\n\r    21 24325\n";

    let result = Stats::from_response(to_parse);

    assert!(!result.unwrap().is_list());

    let to_parse = "21 23123\n\r42 543543";

    let result = Stats::from_response(to_parse);

    assert!(result.unwrap().is_list());
}

#[test]
fn uidl_test_parse_unique_id() {
    let to_parse = "21 super_unique";

    let result = UniqueID::from_response(to_parse);

    assert!(result.is_ok());

    let to_parse = "\r\n\r    21 super_unique\n";

    let result = UniqueID::from_response(to_parse);

    assert!(!result.unwrap().is_list());

    let to_parse = "21 super_unique\n\r42 yeah";

    let result = UniqueID::from_response(to_parse);

    assert!(result.unwrap().is_list());
}

#[test]
fn stats_values_are_parsed_exactly() {
    match Stats::from_response("2 320").unwrap() {
        pop_client::types::StatsResponse::Stats(stats) => {
            assert_eq!(*stats.messsage_count(), 2);
            assert_eq!(*stats.drop_size(), 320);
            assert_eq!(stats.clone().into_message_count(), 2);
            assert_eq!(stats.into_drop_size(), 320);
        }
        _ => unreachable!(),
    }
}

#[test]
fn unique_id_is_lowercased() {
    match UniqueID::from_response("21 QhdPYR:00WBw1Ph7x7").unwrap() {
        pop_client::types::UniqueIDResponse::UniqueID(u) => {
            assert_eq!(*u.count(), 21);
            assert_eq!(u.unique_id(), "qhdpyr:00wbw1ph7x7");
            assert_eq!(u.clone().into_count(), 21);
            assert_eq!(u.into_unique_id(), "qhdpyr:00wbw1ph7x7");
        }
        _ => unreachable!(),
    }
}

#[test]
fn stats_error_kinds() {
    let result = Stats::from_response("abc 320");
    assert!(matches!(result.unwrap_err().kind(), ErrorKind::ParseInt));

    let result = Stats::from_response("21");
    assert!(matches!(
        result.unwrap_err().kind(),
        ErrorKind::InvalidResponse
    ));
}

#[test]
fn legacy_capability_forms() {
    let parsed = parse_capabilities("SASL plain login\r\nEXPIRE\r\nEXPIRE 3\r\nIMPLEMENTATION a b\r\nWHO-KNOWS\r\n");
    assert_eq!(
        parsed,
        vec![
            Capability::Sasl(vec!["PLAIN".to_string(), "LOGIN".to_string()]),
            Capability::Expire(None),
            Capability::Expire(Some(3)),
            Capability::Implementation("AB".to_string()),
        ]
    );
}

#[test]
fn number_values_are_exact() {
    assert_eq!(Number::new(b"042".to_vec()).value().unwrap(), 42);
    assert_eq!(Number::new(b"320".to_vec()).value().unwrap(), 320);

    let huge = Number::new(b"99999999999999999999999999".to_vec());
    assert!(matches!(
        huge.value().unwrap_err().kind(),
        ErrorKind::ParseInt
    ));

    let empty = Number::new(Vec::new());
    assert!(empty.value().is_err());

    let text = Number::new(b"12a".to_vec());
    assert!(text.value().is_err());
}

#[test]
fn utf8_decoding() {
    assert_eq!(parse_utf8_bytes(b"hello".to_vec()).unwrap(), "hello");
    assert_eq!(
        parse_utf8_bytes("grüß".as_bytes().to_vec()).unwrap(),
        "grüß"
    );
    let bad = parse_utf8_bytes(vec![0xff, 0xfe]);
    assert!(matches!(
        bad.unwrap_err().kind(),
        ErrorKind::InvalidResponse
    ));
}

#[test]
fn duration_values_scale_by_unit() {
    let d = pop_client::Duration::new(Number::new(b"30".to_vec()), 86400);
    assert_eq!(d.value().unwrap(), 30 * 86400);
    assert_eq!(d.raw(), b"30");
}

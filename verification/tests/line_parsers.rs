use sdp::add;
use sdp::addr::IpAddress;
use sdp::error::ErrorKind;
use sdp::origin::{parse_addrtype, parse_nettype, parse_origin, parse_session_id,
    parse_session_version, parse_username, AddrType, NetType};
use sdp::session::{peek_key, SessionDescriptionKeys};
use sdp::session_name::{parse_session_name, SessionName};
use sdp::version::{parse_version, Version};

#[test]
fn it_works() {
    let result = add(2, 2);
    assert_eq!(result, 4);
}

#[test]
fn test_peek_key() {
    let (tail, key) = peek_key("v=0\r\n".as_bytes()).unwrap();
    assert_eq!(tail, "v=0\r\n".as_bytes());
    match key {
        SessionDescriptionKeys::Version => {}
        _ => panic!("unexpected key"),
    }
}

#[test]
fn test_parse_username() {
    let (tail, value) = parse_username("jdoe 123".as_bytes()).unwrap();
    assert_eq!(tail, "123".as_bytes());
    assert_eq!(value, "jdoe".as_bytes().to_vec());
}

#[test]
fn test_parse_session_id() {
    let (tail, value) = parse_session_id("123 456".as_bytes()).unwrap();
    assert_eq!(tail, "456".as_bytes());
    assert_eq!(value, "123".as_bytes().to_vec());
}

#[test]
fn test_parse_session_version() {
    let (tail, value) = parse_session_version("123 456".as_bytes()).unwrap();
    assert_eq!(tail, "456".as_bytes());
    assert_eq!(value, 123);
}

#[test]
fn test_parse_nettype() {
    let (tail, value) = parse_nettype("IN 123".as_bytes()).unwrap();
    assert_eq!(tail, "123".as_bytes());
    assert_eq!(value, NetType::IN);
}

#[test]
fn test_parse_addrtype() {
    let (tail, value) = parse_addrtype("IP4 123".as_bytes()).unwrap();
    assert_eq!(tail, "123".as_bytes());
    assert_eq!(value, AddrType::IP4);
}

#[test]
fn test_parse_origin() {
    let (tail, value) =
        parse_origin("o=jdoe 2890844526 2890842807 IN IP4 192.168.10.1\r\n".as_bytes()).unwrap();
    assert_eq!(tail, "".as_bytes());
    assert_eq!(value.username, "jdoe".as_bytes().to_vec());
    assert_eq!(value.session_id, "2890844526".as_bytes().to_vec());
    assert_eq!(value.session_version, 2890842807);
    assert_eq!(value.nettype, NetType::IN);
    assert_eq!(value.addrtype, AddrType::IP4);
    assert_eq!(value.unicast_address, IpAddress::V4(192, 168, 10, 1));
}

#[test]
fn test_parse_origin_with_ipv6() {
    let (tail, value) =
        parse_origin("o=jdoe 2890844526 2890842807 IN IP6 ::1\r\n".as_bytes()).unwrap();
    assert_eq!(tail, "".as_bytes());
    assert_eq!(value.username, "jdoe".as_bytes().to_vec());
    assert_eq!(value.session_id, "2890844526".as_bytes().to_vec());
    assert_eq!(value.session_version, 2890842807);
    assert_eq!(value.nettype, NetType::IN);
    assert_eq!(value.addrtype, AddrType::IP6);
    assert_eq!(value.unicast_address, IpAddress::V6(0, 0, 0, 0, 0, 0, 0, 1));
}

#[test]
fn test_parse_session_name() {
    let input = "s=Session Name\r\n";
    let expected = SessionName::new("Session Name");
    let result = parse_session_name(input.as_bytes()).unwrap().1;
    assert_eq!(result, expected);
}

#[test]
fn test_default_session_name_with_space() {
    let input = "s= \r\n";
    let expected = SessionName::new(" ");
    let result = parse_session_name(input.as_bytes()).unwrap().1;
    assert_eq!(result, expected);
}

#[test]
fn test_default_session_name_with_dash() {
    let input = "s=-\r\n";
    let expected = SessionName::new("-");
    let result = parse_session_name(input.as_bytes()).unwrap().1;
    assert_eq!(result, expected);
}

#[test]
fn test_validate_char_set() {
    let session_name = SessionName::new("Session Name");
    let result = session_name.validate_char_set("UTF-8");
    assert!(result);
}

#[test]
fn test_parse_version() {
    let input = "v=0\r\n";
    let expected = Version::new(0);
    let (tail, result) = parse_version(input.as_bytes()).unwrap();
    println!("{:?}", result);
    assert_eq!(result.version, expected.version);
    assert_eq!(tail, "".as_bytes());
}

#[test]
fn test_parse_version_without_line_ending() {
    let input = "v=0";
    let expected = Version::new(0);
    let result = parse_version(input.as_bytes()).unwrap();
    assert_eq!(result.0, "".as_bytes());
    assert_eq!(result.1.version, expected.version);
}

#[test]
fn test_version_from_str_ok() {
    let input = "v=0";
    let expected = Version::new(0);
    let result = Version::from_str(input);
    assert_eq!(result.unwrap().version, expected.version);
}

#[test]
fn test_version_from_str_with_remainder() {
    let result = Version::from_str("v=0\r\no=whatever");
    assert_eq!(result.unwrap().version, 0);
}

#[test]
fn test_empty_session_name_rejected() {
    let err = parse_session_name("s=\r\n".as_bytes()).unwrap_err();
    assert_eq!(err.kind, ErrorKind::EmptySessionName);
}

#[test]
fn test_wrong_version_value() {
    let err = parse_version("v=1\r\n".as_bytes()).unwrap_err();
    assert_eq!(err.kind, ErrorKind::InvalidVersion(1));
}

#[test]
fn test_bad_origin_address() {
    let err = parse_origin("o=jdoe 1 2 IN IP4 999.168.10.1\r\n".as_bytes()).unwrap_err();
    assert_eq!(err.kind, ErrorKind::BadAddress);
}

#[test]
fn test_nettype_from_str() {
    assert_eq!(NetType::from_str("IN").unwrap(), NetType::IN);
    assert!(NetType::from_str("XX").is_err());
}

#[test]
fn test_addrtype_from_str() {
    assert_eq!(AddrType::from_str("IP4").unwrap(), AddrType::IP4);
    assert_eq!(AddrType::from_str("IP6").unwrap(), AddrType::IP6);
    assert!(AddrType::from_str("IP5").is_err());
}

#[test]
fn test_ipv6_forms() {
    let (_, o) = parse_origin("o=a 1 2 IN IP6 1:2:3:4:5:6:7:8\r\n".as_bytes()).unwrap();
    assert_eq!(o.unicast_address, IpAddress::V6(1, 2, 3, 4, 5, 6, 7, 8));
    let (_, o) = parse_origin("o=a 1 2 IN IP6 ::\r\n".as_bytes()).unwrap();
    assert_eq!(o.unicast_address, IpAddress::V6(0, 0, 0, 0, 0, 0, 0, 0));
    let (_, o) = parse_origin("o=a 1 2 IN IP6 2001:db8::1\r\n".as_bytes()).unwrap();
    assert_eq!(
        o.unicast_address,
        IpAddress::V6(0x2001, 0x0db8, 0, 0, 0, 0, 0, 1)
    );
    let (_, o) = parse_origin("o=a 1 2 IN IP6 ::ffff:192.0.2.1\r\n".as_bytes()).unwrap();
    assert_eq!(
        o.unicast_address,
        IpAddress::V6(0, 0, 0, 0, 0, 0xffff, 0xc000, 0x0201)
    );
    assert!(parse_origin("o=a 1 2 IN IP6 1:2:3\r\n".as_bytes()).is_err());
    assert!(parse_origin("o=a 1 2 IN IP6 1::2::3\r\n".as_bytes()).is_err());
    assert!(parse_origin("o=a 1 2 IN IP6 12345::1\r\n".as_bytes()).is_err());
}

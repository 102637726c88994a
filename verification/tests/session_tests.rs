use sdp::addr::IpAddress;
use sdp::error::ErrorKind;
use sdp::fields::{Attribute, BandwidthType, MediaType};
use sdp::origin::{AddrType, NetType};
use sdp::session::{parse_session_description, SessionDescription};

const S1: &str =
    "v=0\r\no=jdoe 3724394400 3724394405 IN IP4 198.51.100.1\r\ns=Call to John Smith\r\nt=0 0\r\n";

#[test]
fn scenario_minimal() {
    let sd = SessionDescription::from_str(S1).unwrap();
    assert_eq!(sd.version.version, 0);
    assert_eq!(sd.origin.username, b"jdoe".to_vec());
    assert_eq!(sd.origin.session_id, b"3724394400".to_vec());
    assert_eq!(sd.origin.session_version, 3724394405);
    assert_eq!(sd.origin.nettype, NetType::IN);
    assert_eq!(sd.origin.addrtype, AddrType::IP4);
    assert_eq!(sd.origin.unicast_address, IpAddress::V4(198, 51, 100, 1));
    assert_eq!(sd.session_name.name, b"Call to John Smith".to_vec());
    assert_eq!(sd.time_descriptions.len(), 1);
    assert_eq!(sd.time_descriptions[0].start, 0);
    assert_eq!(sd.time_descriptions[0].stop, 0);
    assert!(sd.time_descriptions[0].repeats.is_empty());
    assert!(sd.media_descriptions.is_empty());
}

#[test]
fn scenario_ipv6_origin() {
    let input = "v=0\r\no=jdoe 1 2 IN IP6 2001:db8::1\r\ns=Call to John Smith\r\nt=0 0\r\n";
    let sd = SessionDescription::from_str(input).unwrap();
    assert_eq!(sd.origin.addrtype, AddrType::IP6);
    assert_eq!(
        sd.origin.unicast_address,
        IpAddress::V6(0x2001, 0x0db8, 0, 0, 0, 0, 0, 1)
    );
}

#[test]
fn scenario_media_with_multicast_connection() {
    let input = format!("{}m=audio 49170 RTP/AVP 0\r\nc=IN IP4 233.252.0.1/127\r\n", S1);
    let sd = SessionDescription::from_str(&input).unwrap();
    assert_eq!(sd.media_descriptions.len(), 1);
    let m = &sd.media_descriptions[0];
    assert_eq!(m.media_type, MediaType::Audio);
    assert_eq!(m.port, 49170);
    assert_eq!(m.port_count, 1);
    assert_eq!(m.proto, b"RTP/AVP".to_vec());
    assert_eq!(m.formats, vec![b"0".to_vec()]);
    assert_eq!(m.connections.len(), 1);
    assert_eq!(m.connections[0].ttl, Some(127));
    assert_eq!(m.connections[0].count, None);
}

#[test]
fn scenario_missing_session_name() {
    let input = "v=0\r\no=jdoe 3724394400 3724394405 IN IP4 198.51.100.1\r\nt=0 0\r\n";
    let err = SessionDescription::from_str(input).unwrap_err();
    assert_eq!(err.kind, ErrorKind::MissingField(b's'));
}

#[test]
fn scenario_wrong_version() {
    let input = "v=1\r\no=jdoe 3724394400 3724394405 IN IP4 198.51.100.1\r\ns=x\r\nt=0 0\r\n";
    let err = SessionDescription::from_str(input).unwrap_err();
    assert_eq!(err.kind, ErrorKind::InvalidVersion(1));
}

#[test]
fn scenario_repeat_with_units() {
    let input = format!("{}r=7d 1h 0 25h\r\n", S1);
    let sd = SessionDescription::from_str(&input).unwrap();
    assert_eq!(sd.time_descriptions.len(), 1);
    let reps = &sd.time_descriptions[0].repeats;
    assert_eq!(reps.len(), 1);
    assert_eq!(reps[0].interval, 604800);
    assert_eq!(reps[0].active, 3600);
    assert_eq!(reps[0].offsets, vec![0, 90000]);
}

#[test]
fn strict_rejects_missing_final_crlf() {
    let input = S1.strip_suffix("\r\n").unwrap();
    let err = parse_session_description(input.as_bytes(), false).unwrap_err();
    assert_eq!(err.kind, ErrorKind::UnterminatedLine);
}

#[test]
fn lenient_accepts_missing_final_terminator() {
    let with = parse_session_description(S1.as_bytes(), true).unwrap();
    let without =
        parse_session_description(S1.strip_suffix("\r\n").unwrap().as_bytes(), true).unwrap();
    assert_eq!(with, without);
}

#[test]
fn lenient_accepts_bare_lf() {
    let input = "v=0\no=jdoe 1 2 IN IP4 198.51.100.1\ns=x\nt=0 0\n";
    assert!(parse_session_description(input.as_bytes(), true).is_ok());
    assert!(parse_session_description(input.as_bytes(), false).is_err());
}

fn dup_err(input: &str) -> ErrorKind {
    SessionDescription::from_str(input).unwrap_err().kind
}

#[test]
fn duplicate_version_line() {
    let input = "v=0\r\no=j 1 2 IN IP4 198.51.100.1\r\ns=x\r\nv=0\r\nt=0 0\r\n";
    assert_eq!(dup_err(input), ErrorKind::DuplicateField(b'v'));
}

#[test]
fn duplicate_origin_line() {
    let input = "v=0\r\no=j 1 2 IN IP4 198.51.100.1\r\ns=x\r\no=j 1 2 IN IP4 198.51.100.1\r\nt=0 0\r\n";
    assert_eq!(dup_err(input), ErrorKind::DuplicateField(b'o'));
}

#[test]
fn duplicate_session_name_line() {
    let input = "v=0\r\no=j 1 2 IN IP4 198.51.100.1\r\ns=x\r\ns=y\r\nt=0 0\r\n";
    assert_eq!(dup_err(input), ErrorKind::DuplicateField(b's'));
}

#[test]
fn duplicate_information_line() {
    let input = "v=0\r\no=j 1 2 IN IP4 198.51.100.1\r\ns=x\r\ni=a\r\ni=b\r\nt=0 0\r\n";
    assert_eq!(dup_err(input), ErrorKind::DuplicateField(b'i'));
}

#[test]
fn duplicate_uri_line() {
    let input = "v=0\r\no=j 1 2 IN IP4 198.51.100.1\r\ns=x\r\nu=http://a\r\nu=http://b\r\nt=0 0\r\n";
    assert_eq!(dup_err(input), ErrorKind::DuplicateField(b'u'));
}

#[test]
fn duplicate_session_connection_line() {
    let input = "v=0\r\no=j 1 2 IN IP4 198.51.100.1\r\ns=x\r\nc=IN IP4 198.51.100.1\r\nc=IN IP4 198.51.100.2\r\nt=0 0\r\n";
    assert_eq!(dup_err(input), ErrorKind::DuplicateField(b'c'));
}

#[test]
fn duplicate_key_line() {
    let input = "v=0\r\no=j 1 2 IN IP4 198.51.100.1\r\ns=x\r\nt=0 0\r\nk=prompt\r\nk=prompt\r\n";
    assert_eq!(dup_err(input), ErrorKind::DuplicateField(b'k'));
}

#[test]
fn duplicate_zone_line() {
    let input = "v=0\r\no=j 1 2 IN IP4 198.51.100.1\r\ns=x\r\nt=0 0\r\nz=1 0\r\nz=1 0\r\n";
    assert_eq!(dup_err(input), ErrorKind::DuplicateField(b'z'));
}

#[test]
fn zero_port_count_rejected() {
    let input = format!("{}m=audio 49170/0 RTP/AVP 0\r\n", S1);
    let err = SessionDescription::from_str(&input).unwrap_err();
    assert_eq!(err.kind, ErrorKind::ZeroPortCount);
}

#[test]
fn port_count_accepted() {
    let input = format!("{}m=video 49170/2 RTP/AVP 31\r\n", S1);
    let sd = SessionDescription::from_str(&input).unwrap();
    assert_eq!(sd.media_descriptions[0].port_count, 2);
    assert_eq!(sd.media_descriptions[0].media_type, MediaType::Video);
}

#[test]
fn multicast_without_ttl_rejected() {
    let input = format!("{}m=audio 49170 RTP/AVP 0\r\nc=IN IP4 233.252.0.1\r\n", S1);
    let err = SessionDescription::from_str(&input).unwrap_err();
    assert_eq!(err.kind, ErrorKind::MissingMulticastTTL);
}

#[test]
fn unknown_field_letter_rejected() {
    let input = "v=0\r\no=j 1 2 IN IP4 198.51.100.1\r\ns=x\r\nq=nope\r\nt=0 0\r\n";
    let err = SessionDescription::from_str(input).unwrap_err();
    assert_eq!(err.kind, ErrorKind::UnknownFieldLetter(b'q'));
}

#[test]
fn misordered_field_rejected() {
    let input = "v=0\r\no=j 1 2 IN IP4 198.51.100.1\r\ns=x\r\nt=0 0\r\nb=AS:64\r\n";
    let err = SessionDescription::from_str(input).unwrap_err();
    assert_eq!(err.kind, ErrorKind::MisorderedField(b'b'));
}

#[test]
fn session_name_before_origin_rejected() {
    let input = "v=0\r\ns=x\r\no=j 1 2 IN IP4 198.51.100.1\r\nt=0 0\r\n";
    let err = SessionDescription::from_str(input).unwrap_err();
    assert_eq!(err.kind, ErrorKind::MisorderedField(b's'));
}

#[test]
fn missing_time_description_rejected() {
    let input = "v=0\r\no=j 1 2 IN IP4 198.51.100.1\r\ns=x\r\n";
    let err = SessionDescription::from_str(input).unwrap_err();
    assert_eq!(err.kind, ErrorKind::MissingField(b't'));
}

#[test]
fn empty_input_rejected() {
    let err = parse_session_description("".as_bytes(), false).unwrap_err();
    assert_eq!(err.kind, ErrorKind::UnexpectedEndOfInput);
}

#[test]
fn non_numeric_time_rejected() {
    let input = "v=0\r\no=j 1 2 IN IP4 198.51.100.1\r\ns=x\r\nt=a 0\r\n";
    let err = SessionDescription::from_str(input).unwrap_err();
    assert_eq!(err.kind, ErrorKind::ExpectedDigit);
}

#[test]
fn truncated_origin_rejected() {
    let input = "v=0\r\no=jdoe\r\ns=x\r\nt=0 0\r\n";
    let err = SessionDescription::from_str(input).unwrap_err();
    assert_eq!(err.kind, ErrorKind::ExpectedLiteral);
}

#[test]
fn bandwidth_overflow_rejected() {
    let input = "v=0\r\no=j 1 2 IN IP4 198.51.100.1\r\ns=x\r\nb=AS:99999999999999999999999\r\nt=0 0\r\n";
    let err = SessionDescription::from_str(input).unwrap_err();
    assert_eq!(err.kind, ErrorKind::Overflow);
}

#[test]
fn session_fields_collected() {
    let input = "v=0\r\no=j 1 2 IN IP4 198.51.100.1\r\ns=x\r\ni=A Seminar\r\nu=http://example.com/\r\ne=j@example.com\r\np=+1 617 555-6011\r\nc=IN IP4 198.51.100.1\r\nb=AS:64\r\nb=X-YZ:128\r\na=recvonly\r\na=charset:ISO-8859-1\r\nt=3724394400 3724398000\r\nz=3730928400 -1h 3749680800 0\r\nk=prompt\r\n";
    let sd = SessionDescription::from_str(input).unwrap();
    assert_eq!(sd.session_information, Some(b"A Seminar".to_vec()));
    assert_eq!(sd.uri, Some(b"http://example.com/".to_vec()));
    assert_eq!(sd.emails, vec![b"j@example.com".to_vec()]);
    assert_eq!(sd.phones, vec![b"+1 617 555-6011".to_vec()]);
    assert!(sd.connection.is_some());
    assert_eq!(sd.bandwidths.len(), 2);
    assert_eq!(sd.bandwidths[0].bwtype, BandwidthType::AS);
    assert_eq!(sd.bandwidths[0].kbps, 64);
    assert_eq!(sd.bandwidths[1].bwtype, BandwidthType::Other(b"X-YZ".to_vec()));
    assert_eq!(
        sd.attributes,
        vec![
            Attribute::Property(b"recvonly".to_vec()),
            Attribute::Value(b"charset".to_vec(), b"ISO-8859-1".to_vec()),
        ]
    );
    assert_eq!(sd.time_descriptions[0].start, 3724394400);
    assert_eq!(sd.time_descriptions[0].stop, 3724398000);
    assert_eq!(sd.time_zone_adjustments.len(), 2);
    assert_eq!(sd.time_zone_adjustments[0].time, 3730928400);
    assert_eq!(sd.time_zone_adjustments[0].offset_seconds, -3600);
    assert_eq!(sd.time_zone_adjustments[1].time, 3749680800);
    assert_eq!(sd.time_zone_adjustments[1].offset_seconds, 0);
    assert_eq!(sd.encryption_key, Some(b"prompt".to_vec()));
}

#[test]
fn media_fields_collected() {
    let input = format!(
        "{}m=audio 49170 RTP/AVP 0 8\r\ni=audio title\r\nb=AS:64\r\nk=prompt\r\na=sendrecv\r\nm=video 51372 UDP/TLS/RTP/SAVPF 96 97\r\n",
        S1
    );
    let sd = SessionDescription::from_str(&input).unwrap();
    assert_eq!(sd.media_descriptions.len(), 2);
    let a = &sd.media_descriptions[0];
    assert_eq!(a.title, Some(b"audio title".to_vec()));
    assert_eq!(a.bandwidths.len(), 1);
    assert!(a.encryption_key.is_some());
    assert_eq!(a.attributes, vec![Attribute::Property(b"sendrecv".to_vec())]);
    assert_eq!(a.formats, vec![b"0".to_vec(), b"8".to_vec()]);
    let v = &sd.media_descriptions[1];
    assert_eq!(v.media_type, MediaType::Video);
    assert_eq!(v.proto, b"UDP/TLS/RTP/SAVPF".to_vec());
    assert_eq!(v.formats, vec![b"96".to_vec(), b"97".to_vec()]);
}

#[test]
fn trailing_whitespace_accepted() {
    let input = format!("{} 	 ", S1);
    assert!(SessionDescription::from_str(&input).is_ok());
    let trailing_junk = format!("{} x", S1);
    assert!(SessionDescription::from_str(&trailing_junk).is_err());
}

#[test]
fn malformed_ipv4_literal_connection_rejected() {
    let bad4 = format!("{}m=audio 49170 RTP/AVP 0\r\nc=IN IP4 999.1.2.3\r\n", S1);
    let err = SessionDescription::from_str(&bad4).unwrap_err();
    assert_eq!(err.kind, ErrorKind::BadAddress);
    let bad6 = format!("{}m=audio 49170 RTP/AVP 0\r\nc=IN IP6 1.2.3.4\r\n", S1);
    let err = SessionDescription::from_str(&bad6).unwrap_err();
    assert_eq!(err.kind, ErrorKind::BadAddress);
    let cross = format!("{}m=audio 49170 RTP/AVP 0\r\nc=IN IP4 2001:db8::1\r\n", S1);
    let err = SessionDescription::from_str(&cross).unwrap_err();
    assert_eq!(err.kind, ErrorKind::BadAddress);
}

#[test]
fn ipv6_connection_accepted() {
    let input = format!("{}m=audio 49170 RTP/AVP 0\r\nc=IN IP6 ff15::101/3\r\n", S1);
    let sd = SessionDescription::from_str(&input).unwrap();
    let c = &sd.media_descriptions[0].connections[0];
    assert_eq!(c.address, b"ff15::101".to_vec());
    assert_eq!(c.ttl, None);
    assert_eq!(c.count, Some(3));
}

#[test]
fn hostname_connection_accepted() {
    let input = format!("{}m=audio 49170 RTP/AVP 0\r\nc=IN IP4 host.example.com\r\n", S1);
    let sd = SessionDescription::from_str(&input).unwrap();
    assert_eq!(
        sd.media_descriptions[0].connections[0].address,
        b"host.example.com".to_vec()
    );
}

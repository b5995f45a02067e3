use clserver::rcon::{
    check_command_response, check_login_response, decode_payload, encode_packet, packet_payload_len,
    RconError, RconPacket,
};

#[test]
fn encodes_and_decodes_packets() {
    let packet = encode_packet(7, 2, "list");
    assert_eq!(packet, vec![14, 0, 0, 0, 7, 0, 0, 0, 2, 0, 0, 0, b'l', b'i', b's', b't', 0, 0]);
    assert_eq!(packet_payload_len(&packet[0..4]), Ok(14));
    let decoded = decode_payload(&packet[4..]);
    assert_eq!(decoded.request_id, 7);
    assert_eq!(decoded.packet_type, 2);
    assert_eq!(decoded.body, "list");
}

#[test]
fn encodes_negative_ids_little_endian() {
    let packet = encode_packet(-1, 3, "");
    assert_eq!(&packet[4..8], &[255, 255, 255, 255]);
}

#[test]
fn rejects_short_packets_and_failed_logins() {
    assert_eq!(packet_payload_len(&[9, 0, 0, 0]), Err(RconError::InvalidPacketSize { size: 9 }));
    assert_eq!(RconError::InvalidPacketSize { size: 9 }.message(), "Invalid RCON packet size 9");
    let refused = RconPacket { request_id: -1, packet_type: 2, body: String::new() };
    assert_eq!(check_login_response(&refused, 1), Err(RconError::LoginFailed));
    let ok = RconPacket { request_id: 1, packet_type: 2, body: String::new() };
    assert_eq!(check_login_response(&ok, 1), Ok(()));
    let other = RconPacket { request_id: 5, packet_type: 0, body: "x".to_string() };
    let error = check_command_response(other, 4).err().expect("wrong id");
    assert_eq!(error.message(), "Unexpected RCON response id 5");
    let reply = RconPacket { request_id: 4, packet_type: 0, body: "There are 0".to_string() };
    assert_eq!(check_command_response(reply, 4), Ok("There are 0".to_string()));
}

#[test]
fn decodes_invalid_utf8_lossily() {
    let payload = [1, 0, 0, 0, 0, 0, 0, 0, 0xff, b'a', 0, 0];
    assert_eq!(decode_payload(&payload).body, "\u{fffd}a");
}

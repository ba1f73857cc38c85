use device_shell::llrp::{
    build_inventory_rospec, decode_ro_access_report, decode_tag_report_data, frame_message,
    header_word, hex_upper, parse_message_header, tlv, u16_be, u32_be, LlrpAction, LlrpEvent,
    LlrpFrameError, LlrpPhase, LlrpSession, TV_ANTENNA_ID, TV_EPC_96, TV_PEAK_RSSI,
};

#[test]
fn header_word_packs_version_and_type() {
    // Version=1, Type=20 (ADD_ROSPEC) → 0x0414
    assert_eq!(header_word(1, 20), 0x0414);
}

#[test]
fn tlv_encodes_length() {
    let bytes = tlv(177, &[0xAA, 0xBB]);
    // type=177 (0x00B1), length=4+2=6, payload AA BB
    assert_eq!(bytes, vec![0x00, 0xB1, 0x00, 0x06, 0xAA, 0xBB]);
}

#[test]
fn decode_tag_report_extracts_epc96_and_rssi() {
    let mut payload = Vec::new();
    // EPC-96 TV (type=13), 12 bytes EPC
    payload.push(0x80 | TV_EPC_96);
    payload.extend_from_slice(&[
        0xE2, 0x00, 0x34, 0x12, 0x01, 0x23, 0x45, 0x67, 0x89, 0xAB, 0xCD, 0xEF,
    ]);
    // AntennaID TV (type=1), u16
    payload.push(0x80 | TV_ANTENNA_ID);
    payload.extend_from_slice(&[0x00, 0x02]);
    // PeakRSSI TV (type=6), i8
    payload.push(0x80 | TV_PEAK_RSSI);
    payload.push((-55i8) as u8);

    let tag = decode_tag_report_data(&payload);
    assert_eq!(tag.epc, "E20034120123456789ABCDEF");
    assert_eq!(tag.antenna, Some(2));
    assert_eq!(tag.rssi, Some(-55));
}

#[test]
fn big_endian_helpers() {
    assert_eq!(u16_be(0x0414), [0x04, 0x14]);
    assert_eq!(u32_be(0x0102_0304), [0x01, 0x02, 0x03, 0x04]);
    // version and type are cut to their fields
    assert_eq!(header_word(9, 0x0FFF), 0x07FF);
}

#[test]
fn frames_announce_type_and_payload_length() {
    let frame = frame_message(22, 4, &[0, 0, 0, 1]);
    assert_eq!(frame, vec![0x04, 0x16, 0, 0, 0, 14, 0, 0, 0, 4, 0, 0, 0, 1]);
    let mut header = [0u8; 10];
    header.copy_from_slice(&frame[..10]);
    assert_eq!(parse_message_header(&header), Ok((22, 4)));
    let keepalive_ack = frame_message(72, 0, &[]);
    assert_eq!(keepalive_ack, vec![0x04, 0x48, 0, 0, 0, 10, 0, 0, 0, 0]);
    let bad = [0x04, 0x3D, 0, 0, 0, 9, 0, 0, 0, 1];
    assert_eq!(parse_message_header(&bad), Err(LlrpFrameError::LengthBelowHeader));
}

#[test]
fn inventory_rospec_bytes() {
    assert_eq!(
        build_inventory_rospec(),
        vec![
            0x00, 0xB1, 0x00, 0x34, 0x00, 0x00, 0x00, 0x01, 0x00, 0x00, 0x00, 0xB2, 0x00, 0x12,
            0x00, 0xB3, 0x00, 0x05, 0x01, 0x00, 0xB6, 0x00, 0x09, 0x00, 0x00, 0x00, 0x00, 0x00,
            0x00, 0xB7, 0x00, 0x18, 0x00, 0x01, 0x00, 0x00, 0x00, 0xB8, 0x00, 0x09, 0x00, 0x00,
            0x00, 0x00, 0x00, 0x00, 0xBA, 0x00, 0x07, 0x00, 0x01, 0x01,
        ]
    );
}

#[test]
fn hex_rendering() {
    assert_eq!(hex_upper(&[0x00, 0x0F, 0xA0, 0xFF]), "000FA0FF");
    assert_eq!(hex_upper(&[]), "");
}

#[test]
fn tag_report_with_epc_data_parameter() {
    // EPCData TLV (241): 16 bits of EPC
    let mut payload = tlv(241, &[0x00, 0x10, 0xAB, 0xCD]);
    payload.push(0x80 | TV_PEAK_RSSI);
    payload.push(0xC4);
    let tag = decode_tag_report_data(&payload);
    assert_eq!(tag.epc, "ABCD");
    assert_eq!(tag.rssi, Some(-60));
    assert_eq!(tag.antenna, None);
    // an EPC-96 seen first wins over a later EPCData
    let mut payload = vec![0x80 | TV_EPC_96];
    payload.extend_from_slice(&[1; 12]);
    payload.extend(tlv(241, &[0x00, 0x08, 0xFF]));
    assert_eq!(decode_tag_report_data(&payload).epc, "010101010101010101010101");
}

#[test]
fn tag_report_stops_at_unknown_or_truncated_parameters() {
    // an unknown TV type ends the report
    let payload = vec![0x80 | TV_ANTENNA_ID, 0x00, 0x07, 0x80 | 0x7F, 0x80 | TV_PEAK_RSSI, 0x01];
    let tag = decode_tag_report_data(&payload);
    assert_eq!(tag.antenna, Some(7));
    assert_eq!(tag.rssi, None);
    // a truncated EPC-96 yields no EPC
    let payload = vec![0x80 | TV_EPC_96, 0xE2, 0x00];
    assert_eq!(decode_tag_report_data(&payload).epc, "");
    // a TLV whose length overruns the payload ends the report
    let payload = vec![0x00, 0xF1, 0x00, 0x20, 0x00];
    assert_eq!(decode_tag_report_data(&payload).epc, "");
}

#[test]
fn access_report_lists_each_tag_report() {
    let mut first = vec![0x80 | TV_EPC_96];
    first.extend_from_slice(&[0xAA; 12]);
    let second = vec![0x80 | TV_ANTENNA_ID, 0x00, 0x01];
    let mut payload = tlv(240, &first);
    payload.extend(tlv(999, &[1, 2, 3]));
    payload.extend(tlv(240, &second));
    payload.extend_from_slice(&[0x00, 0xF0, 0x00]);
    let tags = decode_ro_access_report(&payload);
    assert_eq!(tags.len(), 2);
    assert_eq!(tags[0].epc, "AAAAAAAAAAAAAAAAAAAAAAAA");
    assert_eq!(tags[1].epc, "");
    assert_eq!(tags[1].antenna, Some(1));
    // a length below the parameter header ends the report
    let tags = decode_ro_access_report(&[0x00, 0xF0, 0x00, 0x02, 0x00, 0xF0, 0x00, 0x04]);
    assert!(tags.is_empty());
}

fn sent_bytes(a: &LlrpAction) -> Vec<u8> {
    match a {
        LlrpAction::Send(b) => b.clone(),
        other => panic!("expected a frame, got {:?}", other),
    }
}

#[test]
fn session_sets_up_then_streams() {
    let (mut s, first) = LlrpSession::start();
    assert!(matches!(first, LlrpAction::Read));
    assert_eq!(s.phase, LlrpPhase::AwaitGreeting);
    let greeting = LlrpEvent::Received { msg_type: 63, payload: vec![] };
    assert_eq!(sent_bytes(&s.on_event(greeting)), frame_message(21, 1, &u32_be(0)));
    assert!(matches!(s.on_event(LlrpEvent::Sent), LlrpAction::Read));
    assert_eq!(sent_bytes(&s.on_event(LlrpEvent::ReadFailed)), frame_message(20, 2, &build_inventory_rospec()));
    assert!(matches!(s.on_event(LlrpEvent::Sent), LlrpAction::Read));
    let reply = LlrpEvent::Received { msg_type: 30, payload: vec![] };
    assert_eq!(sent_bytes(&s.on_event(reply)), frame_message(24, 3, &u32_be(1)));
    assert!(matches!(s.on_event(LlrpEvent::SendFailed), LlrpAction::Read));
    assert_eq!(sent_bytes(&s.on_event(LlrpEvent::ReadFailed)), frame_message(22, 4, &u32_be(1)));
    assert!(matches!(s.on_event(LlrpEvent::Sent), LlrpAction::Read));
    assert!(matches!(s.on_event(LlrpEvent::ReadFailed), LlrpAction::Read));
    assert_eq!(s.phase, LlrpPhase::Streaming);

    let mut body = vec![0x80 | TV_EPC_96];
    body.extend_from_slice(&[0x11; 12]);
    let report = LlrpEvent::Received { msg_type: 61, payload: tlv(240, &body) };
    match s.on_event(report) {
        LlrpAction::PublishThenRead(tags) => {
            assert_eq!(tags.len(), 1);
            assert_eq!(tags[0].epc, "111111111111111111111111");
        }
        other => panic!("unexpected {:?}", other),
    }
    let keepalive = LlrpEvent::Received { msg_type: 62, payload: vec![] };
    assert_eq!(sent_bytes(&s.on_event(keepalive)), frame_message(72, 0, &[]));
    assert!(matches!(s.on_event(LlrpEvent::SendFailed), LlrpAction::Read));
    let other = LlrpEvent::Received { msg_type: 63, payload: vec![] };
    assert!(matches!(s.on_event(other), LlrpAction::Read));
    assert!(matches!(s.on_event(LlrpEvent::ReadFailed), LlrpAction::Stop));
    assert_eq!(s.phase, LlrpPhase::Closed);
    assert!(matches!(s.on_event(LlrpEvent::Sent), LlrpAction::Stop));
}

#[test]
fn session_gives_up_when_the_rospec_cannot_be_added() {
    let (mut s, _) = LlrpSession::start();
    s.on_event(LlrpEvent::ReadFailed);
    s.on_event(LlrpEvent::SendFailed);
    s.on_event(LlrpEvent::ReadFailed);
    assert!(matches!(s.on_event(LlrpEvent::SendFailed), LlrpAction::Stop));
    assert_eq!(s.phase, LlrpPhase::Closed);
}

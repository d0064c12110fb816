//! Exercises the wire layer: cipher, framing, request builders, and the
//! reply parsers, on concrete byte strings.

use rust_kasa::kasa_protocol::{
    cmd_discovery, cmd_get_realtime, cmd_get_realtime_by_id, cmd_get_sysinfo, cmd_set_alias,
    cmd_set_relay, cmd_set_relay_by_id, decrypt, deserialize, encode_request, encrypt,
    encrypt_bytes, interpret_set_reply, parse_realtime_reply, parse_sysinfo_reply, FrameReader,
    SetAction,
};
use rust_kasa::KasaError;

fn enc(text: &str) -> Vec<u8> {
    encrypt_bytes(text.as_bytes())
}

#[test]
fn cipher_empty_round_trip() {
    let e = encrypt_bytes(b"");
    assert_eq!(e, Vec::<u8>::new());
    assert_eq!(decrypt(&e), Vec::<u8>::new());
}

#[test]
fn cipher_round_trip_various() {
    let cases: Vec<Vec<u8>> = vec![
        b"a".to_vec(),
        b"{\"system\":{\"get_sysinfo\":null}}".to_vec(),
        vec![0u8, 255u8, 171u8, 1u8, 2u8],
        (0u8..=255u8).collect(),
    ];
    for case in cases {
        let e = encrypt_bytes(&case);
        assert_eq!(decrypt(&e), case);
    }
}

#[test]
fn cipher_known_vector() {
    // The first output byte is 171 XOR '{', the second is that byte XOR '"'.
    let e = enc("{\"system\":{\"get_sysinfo\":null}}");
    assert_eq!(e[0], 0xd0);
    assert_eq!(e[1], 0xf2);
}

#[test]
fn cipher_deterministic() {
    let a = encrypt("{\"emeter\":{\"get_realtime\":null}}", true);
    let b = encrypt("{\"emeter\":{\"get_realtime\":null}}", true);
    assert_eq!(a, b);
}

#[test]
fn encrypt_length_prefix() {
    let body = "{\"system\":{\"get_sysinfo\":null}}";
    let framed = encrypt(body, true);
    let bare = encrypt(body, false);
    assert_eq!(framed.len(), bare.len() + 4);
    let n = body.len() as u32;
    assert_eq!(&framed[0..4], n.to_be_bytes().as_slice());
    assert_eq!(&framed[4..], bare.as_slice());
}

#[test]
fn frame_reader_whole_frame() {
    let cmd = b"{\"system\":{\"get_sysinfo\":null}}".to_vec();
    let framed = encode_request(&cmd, true);
    let mut reader = FrameReader::new();
    reader.feed(&framed);
    assert!(reader.is_complete());
    assert_eq!(reader.payload().unwrap(), encrypt_bytes(&cmd));
}

#[test]
fn frame_reader_one_byte_chunks() {
    // A reader given the frame split into 1-byte chunks reconstructs the
    // payload exactly, and is complete only once every byte has arrived.
    let cmd = b"{\"emeter\":{\"get_realtime\":null}}".to_vec();
    let framed = encode_request(&cmd, true);
    let mut reader = FrameReader::new();
    for (pos, byte) in framed.iter().enumerate() {
        assert_eq!(reader.is_complete(), false, "complete after {} bytes", pos);
        assert!(reader.payload().is_none());
        reader.feed(&[*byte]);
    }
    assert!(reader.is_complete());
    assert_eq!(reader.payload().unwrap(), encrypt_bytes(&cmd));
}

#[test]
fn frame_reader_reframe_is_identical() {
    let payload = b"arbitrary payload bytes \x00\xff".to_vec();
    let framed = encode_request(&decrypt(&payload), true);
    // parse the frame, then re-frame the parsed payload: byte-identical
    let mut reader = FrameReader::new();
    reader.feed(&framed);
    let parsed = reader.payload().unwrap();
    assert_eq!((parsed.len() as u32).to_be_bytes().as_slice(), &framed[0..4]);
    let reframed = encode_request(&decrypt(&parsed), true);
    assert_eq!(reframed, framed);
}

#[test]
fn builders_exact_bytes() {
    assert_eq!(cmd_get_sysinfo(), b"{\"system\":{\"get_sysinfo\":null}}".to_vec());
    assert_eq!(cmd_discovery(), b"{\"system\":{\"get_sysinfo\":0}}".to_vec());
    assert_eq!(cmd_get_realtime(), b"{\"emeter\":{\"get_realtime\":null}}".to_vec());
    assert_eq!(
        cmd_get_realtime_by_id(b"800A"),
        b"{\"context\":{\"child_ids\":[\"800A\"]},\"emeter\":{\"get_realtime\":null}}".to_vec()
    );
    assert_eq!(
        cmd_set_relay(1),
        b"{\"system\":{\"set_relay_state\":{\"state\":1}}}".to_vec()
    );
    assert_eq!(
        cmd_set_relay_by_id(b"800A", 0),
        b"{\"context\":{\"child_ids\":[\"800A\"]},\"system\":{\"set_relay_state\":{\"state\":0}}}"
            .to_vec()
    );
    assert_eq!(
        cmd_set_alias(b"800A", b"amp"),
        b"{\"context\":{\"child_ids\":[\"800A\"]},\"system\":{\"set_dev_alias\":{\"alias\":\"amp\"}}}"
            .to_vec()
    );
}

#[test]
fn builder_escapes_quotes_and_backslashes() {
    let built = cmd_set_alias(b"id", b"a\"b\\c");
    let expected = b"{\"context\":{\"child_ids\":[\"id\"]},\"system\":{\"set_dev_alias\":{\"alias\":\"a\\\"b\\\\c\"}}}".to_vec();
    assert_eq!(built, expected);
}

fn sample_child(id: &str, state: u8, alias: &str) -> String {
    format!(
        "{{\"id\":\"{}\",\"state\":{},\"alias\":\"{}\",\"on_time\":5,\"next_action\":{{\"type\":-1}}}}",
        id, state, alias
    )
}

fn sample_sysinfo(relay_state: u8, children: &[String]) -> String {
    format!(
        "{{\"alias\":\"plug\",\"child_num\":{},\"children\":[{}],\"deviceId\":\"800D\",\
         \"err_code\":0,\"feature\":\"TIM:ENE\",\"hwId\":\"H1\",\"hw_ver\":\"1.0\",\
         \"latitude_i\":-123,\"led_off\":0,\"longitude_i\":456,\"mac\":\"AA:BB:CC\",\
         \"mic_type\":\"IOT.SMARTPLUGSWITCH\",\"model\":\"HS300(US)\",\"oemId\":\"O1\",\
         \"on_time\":12,\"relay_state\":{},\"rssi\":-55,\"status\":\"new\",\
         \"sw_ver\":\"1.0.4\",\"updating\":0}}",
        children.len(),
        children.join(","),
        relay_state
    )
}

fn sample_status_reply(relay_state: u8, children: &[String]) -> String {
    format!("{{\"system\":{{\"get_sysinfo\":{}}}}}", sample_sysinfo(relay_state, children))
}

#[test]
fn status_reply_round_trip() {
    // Build the status query, then feed a canonical reply through the
    // parser: every field of the snapshot is populated.
    let query = cmd_get_sysinfo();
    assert_eq!(query, b"{\"system\":{\"get_sysinfo\":null}}".to_vec());
    let children = vec![sample_child("800A", 0, "one"), sample_child("800B", 1, "two")];
    let reply = enc(&sample_status_reply(1, &children));
    let si = parse_sysinfo_reply(&reply).unwrap();
    assert_eq!(si.alias, b"plug".to_vec());
    assert_eq!(si.child_num, 2);
    assert_eq!(si.children.len(), 2);
    assert_eq!(si.children[0].id, b"800A".to_vec());
    assert_eq!(si.children[0].state, 0);
    assert_eq!(si.children[0].alias, b"one".to_vec());
    assert_eq!(si.children[0].on_time, 5);
    assert_eq!(si.children[0].next_action.type_code, -1);
    assert_eq!(si.children[1].id, b"800B".to_vec());
    assert_eq!(si.children[1].state, 1);
    assert_eq!(si.deviceId, b"800D".to_vec());
    assert_eq!(si.err_code, 0);
    assert_eq!(si.feature, b"TIM:ENE".to_vec());
    assert_eq!(si.hwId, b"H1".to_vec());
    assert_eq!(si.hw_ver, b"1.0".to_vec());
    assert_eq!(si.latitude_i, -123);
    assert_eq!(si.led_off, 0);
    assert_eq!(si.longitude_i, 456);
    assert_eq!(si.mac, b"AA:BB:CC".to_vec());
    assert_eq!(si.mic_type, b"IOT.SMARTPLUGSWITCH".to_vec());
    assert_eq!(si.model, b"HS300(US)".to_vec());
    assert_eq!(si.oemId, b"O1".to_vec());
    assert_eq!(si.on_time, 12);
    assert_eq!(si.relay_state, 1);
    assert_eq!(si.rssi, -55);
    assert_eq!(si.status, b"new".to_vec());
    assert_eq!(si.sw_ver, b"1.0.4".to_vec());
    assert_eq!(si.updating, 0);
}

#[test]
fn status_reply_missing_required_field() {
    // Same canonical sample with the required `mac` member dropped: the
    // parser reports a parse error.
    let text = sample_status_reply(1, &[]).replace("\"mac\":\"AA:BB:CC\",", "");
    let reply = enc(&text);
    assert!(matches!(parse_sysinfo_reply(&reply), Err(KasaError::ParseError)));
}

#[test]
fn status_reply_defaults() {
    // The members with a protocol default may be absent: a single-outlet
    // reply without children still parses, with zero and empty defaults.
    let text = sample_status_reply(1, &[])
        .replace("\"child_num\":0,\"children\":[],", "")
        .replace("\"on_time\":12,", "");
    let reply = enc(&text);
    let si = parse_sysinfo_reply(&reply).unwrap();
    assert_eq!(si.child_num, 0);
    assert_eq!(si.children.len(), 0);
    assert_eq!(si.on_time, 0);
    assert_eq!(si.relay_state, 1);
}

#[test]
fn deserialize_rejects_malformed_documents() {
    for bad in [
        "",
        "not json",
        "{\"system\":",
        "{\"system\":{\"get_sysinfo\":null}",
        "{\"system\":{\"get_sysinfo\":null}} trailing",
        "[1,2,3]",
        "{\"a\":1,}",
    ] {
        assert!(deserialize(&bad.as_bytes().to_vec()).is_err(), "accepted: {bad}");
    }
}

#[test]
fn deserialize_tolerates_whitespace_and_unknown_members() {
    let text = " {\t\"unknown\": [1, -2, true, false, null, \"x\", {\"y\": []}],\r\n \"emeter\" : { \"get_realtime\" : null } } ";
    let resp = deserialize(&text.as_bytes().to_vec()).unwrap();
    assert!(resp.system.is_none());
    assert!(resp.emeter.unwrap().get_realtime.is_none());
}

#[test]
fn deserialize_accepts_null_module_slots() {
    let resp = deserialize(&b"{\"system\":null,\"emeter\":null}".to_vec()).unwrap();
    assert!(resp.system.is_none());
    assert!(resp.emeter.is_none());
    let resp = deserialize(&b"{\"system\":{\"get_sysinfo\":null}}".to_vec()).unwrap();
    assert!(resp.system.unwrap().get_sysinfo.is_none());
}

#[test]
fn field_out_of_range_is_parse_error() {
    // err_code is a 32-bit field: a wider value fails the whole document
    let text = "{\"emeter\":{\"get_realtime\":{\"current_ma\":17,\"err_code\":4294967296,\
                \"power_mw\":1200,\"slot_id\":1,\"total_wh\":3,\"voltage_mv\":119950}}}";
    assert!(matches!(parse_realtime_reply(&enc(text)), Err(KasaError::ParseError)));
    // and so does a negative one
    let text2 = text.replace("4294967296", "-1");
    assert!(matches!(parse_realtime_reply(&enc(&text2)), Err(KasaError::ParseError)));
}

#[test]
fn realtime_reply_exact_values() {
    let text = "{\"emeter\":{\"get_realtime\":{\"current_ma\":17,\"err_code\":0,\
                \"power_mw\":1200,\"slot_id\":1,\"total_wh\":3,\"voltage_mv\":119950}}}";
    let rt = parse_realtime_reply(&enc(text)).unwrap();
    assert_eq!(rt.current_ma, 17);
    assert_eq!(rt.err_code, 0);
    assert_eq!(rt.power_mw, 1200);
    assert_eq!(rt.slot_id, 1);
    assert_eq!(rt.total_wh, 3);
    assert_eq!(rt.voltage_mv, 119950);
}

#[test]
fn realtime_reply_without_snapshot_is_parse_error() {
    let text = "{\"emeter\":{\"get_realtime\":null}}";
    assert_eq!(parse_realtime_reply(&enc(text)), Err(KasaError::ParseError));
    let text = "{\"system\":{\"get_sysinfo\":null}}";
    assert_eq!(parse_realtime_reply(&enc(text)), Err(KasaError::ParseError));
}

#[test]
fn set_reply_success_and_failure() {
    let ok = enc("{\"system\":{\"set_relay_state\":{\"err_code\":0}}}");
    assert_eq!(interpret_set_reply(&ok, SetAction::RelayState), Ok(()));

    let refused = enc("{\"system\":{\"set_relay_state\":{\"err_code\":-3}}}");
    assert_eq!(
        interpret_set_reply(&refused, SetAction::RelayState),
        Err(KasaError::ProtocolError)
    );

    // the right action must carry the code
    let other = enc("{\"system\":{\"set_dev_alias\":{\"err_code\":0}}}");
    assert_eq!(
        interpret_set_reply(&other, SetAction::RelayState),
        Err(KasaError::ParseError)
    );
    assert_eq!(interpret_set_reply(&other, SetAction::DevAlias), Ok(()));

    let garbage = b"\x01\x02\x03".to_vec();
    assert_eq!(
        interpret_set_reply(&garbage, SetAction::DevAlias),
        Err(KasaError::ParseError)
    );
}

#[test]
fn parser_reads_string_escapes() {
    let text = "{\"system\":{\"get_sysinfo\":".to_string()
        + &sample_sysinfo(0, &[]).replace("\"plug\"", "\"a\\\"b\\\\c\\n\\t\\/\"")
        + "}}";
    let si = parse_sysinfo_reply(&enc(&text)).unwrap();
    assert_eq!(si.alias, b"a\"b\\c\n\t/".to_vec());
}

#[test]
fn parser_rejects_fractions_and_exponents() {
    for bad in ["{\"a\":1.5}", "{\"a\":1e3}", "{\"a\":-}", "{\"a\":00-}"] {
        assert!(deserialize(&bad.as_bytes().to_vec()).is_err(), "accepted: {bad}");
    }
    // integer bounds of the widest field type
    let min = "{\"a\":-9223372036854775808}";
    assert!(deserialize(&min.as_bytes().to_vec()).is_ok());
    let too_small = "{\"a\":-9223372036854775809}";
    assert!(deserialize(&too_small.as_bytes().to_vec()).is_err());
    let max = "{\"a\":9223372036854775807}";
    assert!(deserialize(&max.as_bytes().to_vec()).is_ok());
    let too_big = "{\"a\":9223372036854775808}";
    assert!(deserialize(&too_big.as_bytes().to_vec()).is_err());
}

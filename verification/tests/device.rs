//! Exercises the device layer: address validation, target resolution
//! errors, cached-state getters, the toggle and scoped-command decision
//! logic, discovery collection, and best-effort telemetry aggregation.

use rust_kasa::device::{
    check_target, collect_discovery, collect_realtime, rename_child_command,
    realtime_child_command, set_child_relay_command, toggle_child_command, toggle_single_command,
    toggle_target_state, Device,
};
use rust_kasa::kasa_protocol::encrypt_bytes;
use rust_kasa::models::{Emeter, KasaChildren, KasaResp, NextAction, Realtime, SysInfo, System};
use rust_kasa::{validate_ip, KasaError};

fn enc(text: &str) -> Vec<u8> {
    encrypt_bytes(text.as_bytes())
}

fn child(id: &str, state: u8, alias: &str) -> KasaChildren {
    KasaChildren {
        id: id.as_bytes().to_vec(),
        state,
        alias: alias.as_bytes().to_vec(),
        on_time: 5,
        next_action: NextAction { type_code: -1 },
    }
}

fn sysinfo(relay_state: u8, children: Vec<KasaChildren>) -> SysInfo {
    SysInfo {
        alias: b"plug".to_vec(),
        child_num: children.len(),
        children,
        deviceId: b"800D".to_vec(),
        err_code: 0,
        feature: b"TIM:ENE".to_vec(),
        hwId: b"H1".to_vec(),
        hw_ver: b"1.0".to_vec(),
        latitude_i: -123,
        led_off: 0,
        longitude_i: 456,
        mac: b"AA:BB:CC".to_vec(),
        mic_type: b"IOT.SMARTPLUGSWITCH".to_vec(),
        model: b"HS300(US)".to_vec(),
        oemId: b"O1".to_vec(),
        on_time: 12,
        relay_state,
        rssi: -55,
        status: b"new".to_vec(),
        sw_ver: b"1.0.4".to_vec(),
        updating: 0,
    }
}

fn resp_with(si: Option<SysInfo>) -> KasaResp {
    KasaResp { system: Some(System { get_sysinfo: si }), emeter: None }
}

#[test]
fn validate_ip_cases() {
    assert!(validate_ip(&"192.168.1.1".to_string()));
    assert!(validate_ip(&"0.0.0.0".to_string()));
    assert!(validate_ip(&"255.255.255.255".to_string()));
    assert!(validate_ip(&"007.2.3.4".to_string()));
    assert!(validate_ip(&"+1.2.3.4".to_string()));
    assert!(!validate_ip(&"256.1.1.1".to_string()));
    assert!(!validate_ip(&"1.2.3".to_string()));
    assert!(!validate_ip(&"1.2.3.4.5".to_string()));
    assert!(!validate_ip(&"".to_string()));
    assert!(!validate_ip(&"a.b.c.d".to_string()));
    assert!(!validate_ip(&"1..2.3".to_string()));
    assert!(!validate_ip(&"1.2.3.".to_string()));
    assert!(!validate_ip(&"1.2.3.4 ".to_string()));
    assert!(!validate_ip(&"-1.2.3.4".to_string()));
    assert!(!validate_ip(&"+.2.3.4".to_string()));
    assert!(!validate_ip(&"1.2.3.+".to_string()));
}

#[test]
fn check_target_error_taxonomy() {
    assert_eq!(check_target(&"".to_string()), Err(KasaError::NoTargetError));
    assert_eq!(check_target(&"999.1.1.1".to_string()), Err(KasaError::InvalidAddress));
    assert_eq!(check_target(&"not an ip".to_string()), Err(KasaError::InvalidAddress));
    assert_eq!(check_target(&"10.0.0.2".to_string()), Ok(()));
}

#[test]
fn device_getters() {
    let si = sysinfo(1, vec![child("800A", 0, "one"), child("800B", 1, "two")]);
    let d = Device::new("10.0.0.9".to_string(), resp_with(Some(si)));
    assert_eq!(d.ip_addr, "10.0.0.9".to_string());
    let got = d.sysinfo().unwrap();
    assert_eq!(got.alias, b"plug".to_vec());
    assert_eq!(d.num_children(), Some(2));
    assert!(d.has_children());
    let kids = d.children().unwrap();
    assert_eq!(kids.len(), 2);
    assert_eq!(kids[1].id, b"800B".to_vec());
    assert_eq!(d.realtime(), Vec::<Realtime>::new());
}

#[test]
fn device_without_snapshot() {
    let d = Device::new("10.0.0.9".to_string(), KasaResp { system: None, emeter: None });
    assert!(d.sysinfo().is_none());
    assert!(d.children().is_none());
    assert_eq!(d.num_children(), None);
    assert!(!d.has_children());

    let e = Device::new(
        "10.0.0.9".to_string(),
        KasaResp { system: None, emeter: Some(Emeter { get_realtime: None }) },
    );
    assert!(e.sysinfo().is_none());
}

#[test]
fn refresh_overwrites_on_success_and_keeps_cache_on_failure() {
    let mut d = Device::new("10.0.0.9".to_string(), KasaResp { system: None, emeter: None });
    assert!(d.sysinfo().is_none());

    // a good reply fills the cache
    let reply = enc(&status_reply_text("fresh"));
    assert_eq!(d.refresh_sysinfo(&reply), Ok(()));
    assert_eq!(d.sysinfo().unwrap().alias, b"fresh".to_vec());

    // telemetry refresh fills the other slot and keeps the snapshot
    let rt_reply = enc(
        "{\"emeter\":{\"get_realtime\":{\"current_ma\":7,\"err_code\":0,\"power_mw\":8,\
         \"slot_id\":0,\"total_wh\":9,\"voltage_mv\":10}}}",
    );
    d.refresh_telemetry_all(&vec![Some(rt_reply)]);
    assert_eq!(d.realtime().len(), 1);
    assert_eq!(d.realtime()[0].current_ma, 7);
    assert_eq!(d.sysinfo().unwrap().alias, b"fresh".to_vec());

    // a failing refresh leaves the prior cache untouched
    let bad = b"\xba\xad".to_vec();
    assert_eq!(d.refresh_sysinfo(&bad), Err(KasaError::ParseError));
    assert_eq!(d.sysinfo().unwrap().alias, b"fresh".to_vec());
    assert_eq!(d.realtime().len(), 1);
}

#[test]
fn scoped_command_uses_identifier_not_index() {
    // On a device whose children have ids A and B, addressing index 1 must
    // name "B" in the context block, never the position.
    let children = vec![child("A", 0, "one"), child("B", 0, "two")];
    let built = set_child_relay_command(&children, 1, 1).unwrap();
    assert_eq!(
        built,
        b"{\"context\":{\"child_ids\":[\"B\"]},\"system\":{\"set_relay_state\":{\"state\":1}}}"
            .to_vec()
    );
    assert!(set_child_relay_command(&children, 2, 1).is_none());
}

#[test]
fn toggle_inverts_reported_state() {
    assert_eq!(toggle_target_state(0), 1);
    assert_eq!(toggle_target_state(1), 0);
    assert_eq!(toggle_target_state(7), 0);

    // single outlet reporting 0: the issued command carries state 1
    let off = sysinfo(0, vec![]);
    assert_eq!(
        toggle_single_command(&off),
        b"{\"system\":{\"set_relay_state\":{\"state\":1}}}".to_vec()
    );
    // and the other way round
    let on = sysinfo(1, vec![]);
    assert_eq!(
        toggle_single_command(&on),
        b"{\"system\":{\"set_relay_state\":{\"state\":0}}}".to_vec()
    );

    // a child reporting 1 is sent 0, addressed by its identifier
    let children = vec![child("A", 0, "one"), child("B", 1, "two")];
    let built = toggle_child_command(&children, 1).unwrap();
    assert_eq!(
        built,
        b"{\"context\":{\"child_ids\":[\"B\"]},\"system\":{\"set_relay_state\":{\"state\":0}}}"
            .to_vec()
    );
    assert!(toggle_child_command(&children, 9).is_none());
}

#[test]
fn rename_and_telemetry_commands_by_index() {
    let children = vec![child("A", 0, "one"), child("B", 1, "two")];
    assert_eq!(
        rename_child_command(&children, 0, b"amp").unwrap(),
        b"{\"context\":{\"child_ids\":[\"A\"]},\"system\":{\"set_dev_alias\":{\"alias\":\"amp\"}}}"
            .to_vec()
    );
    assert!(rename_child_command(&children, 5, b"amp").is_none());
    assert_eq!(
        realtime_child_command(&children, 1).unwrap(),
        b"{\"context\":{\"child_ids\":[\"B\"]},\"emeter\":{\"get_realtime\":null}}".to_vec()
    );
    assert!(realtime_child_command(&children, 2).is_none());
}

fn status_reply_text(alias: &str) -> String {
    format!(
        "{{\"system\":{{\"get_sysinfo\":{{\"alias\":\"{}\",\"deviceId\":\"800D\",\
         \"err_code\":0,\"feature\":\"TIM\",\"hwId\":\"H1\",\"hw_ver\":\"1.0\",\
         \"latitude_i\":0,\"led_off\":0,\"longitude_i\":0,\"mac\":\"AA\",\
         \"mic_type\":\"IOT\",\"model\":\"HS103\",\"oemId\":\"O1\",\"relay_state\":1,\
         \"rssi\":-40,\"status\":\"new\",\"sw_ver\":\"1.0.4\",\"updating\":0}}}}}}",
        alias
    )
}

#[test]
fn discovery_collects_three_address_tagged_peers() {
    // Three distinct sources reply, then silence: exactly three devices,
    // each tagged with its source address.
    let replies = vec![
        ("10.0.0.1:9999".to_string(), enc(&status_reply_text("one"))),
        ("10.0.0.2:9999".to_string(), enc(&status_reply_text("two"))),
        ("10.0.0.3:9999".to_string(), enc(&status_reply_text("three"))),
    ];
    let devices = collect_discovery(&replies);
    assert_eq!(devices.len(), 3);
    for (k, d) in devices.iter().enumerate() {
        assert_eq!(d.ip_addr, replies[k].0);
    }
    assert_eq!(devices[2].sysinfo().unwrap().alias, b"three".to_vec());
}

#[test]
fn discovery_drops_unparseable_replies() {
    let replies = vec![
        ("10.0.0.1:9999".to_string(), enc(&status_reply_text("one"))),
        ("10.0.0.2:9999".to_string(), b"\xde\xad\xbe\xef".to_vec()),
        ("10.0.0.3:9999".to_string(), enc(&status_reply_text("three"))),
    ];
    let devices = collect_discovery(&replies);
    assert_eq!(devices.len(), 2);
    assert_eq!(devices[0].ip_addr, "10.0.0.1:9999".to_string());
    assert_eq!(devices[1].ip_addr, "10.0.0.3:9999".to_string());
}

#[test]
fn discovery_with_zero_replies_is_empty_not_an_error() {
    let devices = collect_discovery(&Vec::new());
    assert!(devices.is_empty());
}

fn realtime_reply_text(ma: u32, slot: u32) -> String {
    format!(
        "{{\"emeter\":{{\"get_realtime\":{{\"current_ma\":{},\"err_code\":0,\"power_mw\":9,\
         \"slot_id\":{},\"total_wh\":2,\"voltage_mv\":120000}}}}}}",
        ma, slot
    )
}

#[test]
fn telemetry_aggregation_is_best_effort() {
    // Three children where the second exchange fails mid-query: the first
    // and third snapshots come back, the failure is omitted, not fatal.
    let replies = vec![
        Some(enc(&realtime_reply_text(11, 0))),
        None,
        Some(enc(&realtime_reply_text(33, 2))),
    ];
    let got = collect_realtime(&replies);
    assert_eq!(got.len(), 2);
    assert_eq!(got[0].current_ma, 11);
    assert_eq!(got[0].slot_id, 0);
    assert_eq!(got[1].current_ma, 33);
    assert_eq!(got[1].slot_id, 2);
}

#[test]
fn telemetry_aggregation_drops_malformed_replies() {
    let replies = vec![
        Some(enc(&realtime_reply_text(11, 0))),
        Some(b"garbage".to_vec()),
        Some(enc("{\"emeter\":{\"get_realtime\":null}}")),
        Some(enc(&realtime_reply_text(44, 3))),
    ];
    let got = collect_realtime(&replies);
    assert_eq!(got.len(), 2);
    assert_eq!(got[0].current_ma, 11);
    assert_eq!(got[1].current_ma, 44);
}

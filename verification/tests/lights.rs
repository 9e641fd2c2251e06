use mcp_server::error::ErrorKind;
use mcp_server::tools::lights::controller::{authority_exec, DeviceRegistry, LedDevice};
use mcp_server::tools::lights::lights_info::LightsInfoTool;
use mcp_server::tools::lights::lights_set_color::{color_set_message, state_url, unknown_light};

const DESK: &str = "desk._wled._tcp.local.";
const SHELF: &str = "Shelf Lamp._wled._tcp.local.";

fn device(addresses: &[&str], hostname: &str, port: u16) -> LedDevice {
    LedDevice {
        id: "x".to_string(),
        name: "x".to_string(),
        hostname: hostname.to_string(),
        addresses: addresses.iter().map(|s| s.to_string()).collect(),
        port,
    }
}

#[test]
fn base_url_prefers_first_address() {
    assert_eq!(device(&["192.168.1.20", "10.0.0.2"], "wled.local", 80).prepare_base_url(), "http://192.168.1.20:80");
    assert_eq!(device(&[], "wled.local", 8080).prepare_base_url(), "http://wled.local:8080");
}

#[test]
fn ipv6_hosts_are_bracketed() {
    assert_eq!(device(&["fe80::1"], "h", 80).prepare_base_url(), "http://[fe80::1]:80");
    assert_eq!(authority_exec("::1", 65535).iter().collect::<String>(), "[::1]:65535");
    assert_eq!(authority_exec("h", 0).iter().collect::<String>(), "h:0");
}

#[test]
fn state_url_appends_json_state() {
    assert_eq!(state_url(&device(&["10.1.2.3"], "h", 80)), "http://10.1.2.3:80/json/state");
}

#[test]
fn registering_a_new_light() {
    let mut reg = DeviceRegistry::new();
    assert!(reg.register(DESK, "wled-desk.local.", vec!["10.0.0.5".to_string()], 80));
    let d = reg.get(DESK).unwrap();
    assert_eq!(d.id, DESK);
    assert_eq!(d.name, "desk");
    assert_eq!(d.hostname, "wled-desk.local");
    assert_eq!(d.addresses, vec!["10.0.0.5".to_string()]);
    assert_eq!(reg.get_device_url(DESK).unwrap(), "http://10.0.0.5:80");
    assert!(reg.get("other").is_none());
    assert!(reg.get_device_url("other").is_none());
}

#[test]
fn name_without_service_suffix_is_kept_whole() {
    let mut reg = DeviceRegistry::new();
    assert!(reg.register("plain-name", "h...", vec![], 81));
    let d = reg.get("plain-name").unwrap();
    assert_eq!(d.name, "plain-name");
    assert_eq!(d.hostname, "h");
}

#[test]
fn re_registering_keeps_name_and_updates_address() {
    let mut reg = DeviceRegistry::new();
    reg.register(DESK, "wled-desk.local.", vec!["10.0.0.5".to_string()], 80);
    assert!(reg.update_name(DESK, Some("Desk Strip".to_string())));
    assert!(!reg.register(DESK, "wled-desk.local.", vec!["10.0.0.9".to_string()], 8080));
    let d = reg.get(DESK).unwrap();
    assert_eq!(d.name, "Desk Strip");
    assert_eq!(reg.get_device_url(DESK).unwrap(), "http://10.0.0.9:8080");
    assert_eq!(reg.devices().len(), 1);
}

#[test]
fn update_name_only_changes_on_a_different_name() {
    let mut reg = DeviceRegistry::new();
    reg.register(DESK, "h", vec![], 80);
    assert!(!reg.update_name(DESK, None));
    assert!(!reg.update_name(DESK, Some("desk".to_string())));
    assert!(!reg.update_name("missing", Some("n".to_string())));
    assert!(reg.update_name(DESK, Some("Desk".to_string())));
    assert_eq!(reg.get(DESK).unwrap().name, "Desk");
}

#[test]
fn removing_a_light() {
    let mut reg = DeviceRegistry::new();
    reg.register(DESK, "h1", vec![], 80);
    reg.register(SHELF, "h2", vec![], 80);
    assert!(reg.remove(DESK));
    assert!(!reg.remove(DESK));
    assert!(reg.get(DESK).is_none());
    assert_eq!(reg.get(SHELF).unwrap().name, "Shelf Lamp");
    let ids: Vec<&str> = reg.devices().iter().map(|d| d.id.as_str()).collect();
    assert_eq!(ids, vec![SHELF]);
}

#[test]
fn requested_id_is_trimmed_and_case_insensitive() {
    let mut reg = DeviceRegistry::new();
    reg.register(SHELF, "h2", vec![], 80);
    assert_eq!(reg.find_requested("  shelf lamp._WLED._tcp.local.\n").unwrap().id, SHELF);
    assert!(reg.find_requested("shelf lamp").is_none());
}

#[test]
fn info_reports_empty_registry() {
    let mut reg = DeviceRegistry::new();
    assert_eq!(LightsInfoTool {}.no_devices(&reg).unwrap(), "no devices found on the local network");
    reg.register(DESK, "h", vec![], 80);
    assert!(LightsInfoTool {}.no_devices(&reg).is_none());
}

#[test]
fn color_messages() {
    assert_eq!(color_set_message("desk", 255, 0, 17), "set light for desk to rgb[255, 0, 17]");
    let e = unknown_light("lamp");
    assert_eq!(e.kind, ErrorKind::InvalidRequest);
    assert_eq!(e.message, "no light with id \"lamp\" found in cache; run lights_info first");
}

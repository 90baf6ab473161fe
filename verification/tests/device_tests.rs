use orbit_bluez::dbus::devices::{
    details_from_properties, device_from_properties, device_type_from_icon, devices_from_objects,
    listed_before, sort_devices, BluetoothDevice, BluetoothDeviceDetails, DeviceType,
    ManagedObject,
};
use orbit_bluez::dbus::properties::{PropValue, StrMap};

fn props(entries: Vec<(&str, PropValue)>) -> StrMap<PropValue> {
    let mut m = StrMap::new();
    for (k, v) in entries {
        m.insert(k.to_string(), v);
    }
    m
}

fn s(v: &str) -> PropValue {
    PropValue::Str(v.to_string())
}

fn dev(name: &str, connected: bool, paired: bool, path: &str) -> BluetoothDevice {
    BluetoothDevice {
        path: path.to_string(),
        name: name.to_string(),
        address: String::new(),
        device_type: None,
        is_connected: connected,
        is_paired: paired,
        is_trusted: false,
        rssi: 0,
        battery_percentage: None,
        is_charging: false,
    }
}

#[test]
fn map_get_after_insert() {
    let mut m: StrMap<PropValue> = StrMap::new();
    assert_eq!(m.len(), 0);
    m.insert("Name".to_string(), s("Headset"));
    m.insert("Paired".to_string(), PropValue::Bool(true));
    assert_eq!(m.len(), 2);
    assert!(m.contains_key("Name"));
    assert!(!m.contains_key("Alias"));
    assert!(matches!(m.get("Paired"), Some(PropValue::Bool(true))));
    assert!(m.get("Alias").is_none());
}

#[test]
fn map_insert_replaces() {
    let mut m: StrMap<PropValue> = StrMap::new();
    m.insert("RSSI".to_string(), PropValue::I16(-40));
    m.insert("RSSI".to_string(), PropValue::I16(-70));
    assert_eq!(m.len(), 1);
    assert!(matches!(m.get("RSSI"), Some(PropValue::I16(-70))));
}

#[test]
fn icons_map_to_device_types() {
    let t = |i: &str| device_type_from_icon(&Some(i.to_string()));
    for i in ["audio-card", "audio-speakers", "audio-headset", "audio-headphones"] {
        assert_eq!(t(i), Some(DeviceType::Audio));
    }
    assert_eq!(t("input-keyboard"), Some(DeviceType::Keyboard));
    assert_eq!(t("input-mouse"), Some(DeviceType::Mouse));
    assert_eq!(t("input-tablet"), Some(DeviceType::Mouse));
    assert_eq!(t("phone"), Some(DeviceType::Phone));
    assert_eq!(t("computer"), None);
    assert_eq!(t("Phone"), None);
    assert_eq!(device_type_from_icon(&None), None);
}

#[test]
fn device_reads_all_properties() {
    let p = props(vec![
        ("Name", s("WH-1000XM4")),
        ("Alias", s("My headphones")),
        ("Address", s("AA:BB:CC:DD:EE:FF")),
        ("Connected", PropValue::Bool(true)),
        ("Paired", PropValue::Bool(true)),
        ("Trusted", PropValue::Bool(false)),
        ("RSSI", PropValue::I16(-52)),
        ("BatteryPercentage", PropValue::U8(80)),
        ("Icon", s("audio-headphones")),
    ]);
    let d = device_from_properties("/org/bluez/hci0/dev_AA", &p, None);
    assert_eq!(d.path, "/org/bluez/hci0/dev_AA");
    assert_eq!(d.name, "WH-1000XM4");
    assert_eq!(d.address, "AA:BB:CC:DD:EE:FF");
    assert!(d.is_connected);
    assert!(d.is_paired);
    assert!(!d.is_trusted);
    assert_eq!(d.rssi, -52);
    assert_eq!(d.battery_percentage, Some(80));
    assert!(!d.is_charging);
    assert_eq!(d.device_type, Some(DeviceType::Audio));
}

#[test]
fn device_defaults_for_missing_properties() {
    let d = device_from_properties("/d", &props(vec![]), None);
    assert_eq!(d.name, "Unknown Device");
    assert_eq!(d.address, "");
    assert!(!d.is_connected && !d.is_paired && !d.is_trusted);
    assert_eq!(d.rssi, 0);
    assert_eq!(d.battery_percentage, None);
    assert_eq!(d.device_type, None);
}

#[test]
fn device_name_falls_back_to_alias() {
    let d = device_from_properties("/d", &props(vec![("Alias", s("Keyboard K380"))]), None);
    assert_eq!(d.name, "Keyboard K380");
}

#[test]
fn device_name_of_wrong_type_is_unknown() {
    let d = device_from_properties(
        "/d",
        &props(vec![("Name", PropValue::U8(3)), ("Alias", s("Alias"))]),
        None,
    );
    assert_eq!(d.name, "Unknown Device");
}

#[test]
fn mistyped_values_read_as_defaults() {
    let d = device_from_properties(
        "/d",
        &props(vec![
            ("Connected", s("yes")),
            ("RSSI", PropValue::U8(5)),
            ("BatteryPercentage", PropValue::I16(50)),
        ]),
        None,
    );
    assert!(!d.is_connected);
    assert_eq!(d.rssi, 0);
    assert_eq!(d.battery_percentage, None);
}

#[test]
fn battery_interface_fills_missing_level_and_charging() {
    let bat = props(vec![("Percentage", PropValue::U8(42)), ("State", s("charging"))]);
    let d = device_from_properties("/d", &props(vec![]), Some(&bat));
    assert_eq!(d.battery_percentage, Some(42));
    assert!(d.is_charging);
}

#[test]
fn device_level_wins_over_battery_interface() {
    let bat = props(vec![("Percentage", PropValue::U8(42)), ("State", s("discharging"))]);
    let d = device_from_properties(
        "/d",
        &props(vec![("BatteryPercentage", PropValue::U8(90))]),
        Some(&bat),
    );
    assert_eq!(d.battery_percentage, Some(90));
    assert!(!d.is_charging);
}

#[test]
fn details_match_device_record() {
    let p = props(vec![("Name", s("Mouse")), ("Icon", s("input-mouse")), ("Paired", PropValue::Bool(true))]);
    let d: BluetoothDeviceDetails = details_from_properties("/org/bluez/hci0/dev_11", &p, None);
    assert_eq!(d.name, "Mouse");
    assert_eq!(d.path, "/org/bluez/hci0/dev_11");
    assert_eq!(d.device_type, Some(DeviceType::Mouse));
    assert!(d.is_paired);
}

#[test]
fn default_details_are_empty() {
    let d = BluetoothDeviceDetails::default();
    assert_eq!(d.name, "");
    assert_eq!(d.path, "");
    assert_eq!(d.rssi, 0);
    assert_eq!(d.battery_percentage, None);
    assert_eq!(d.device_type, None);
    assert!(!d.is_connected && !d.is_charging);
}

#[test]
fn ordering_connected_then_paired_then_name() {
    assert!(listed_before(&dev("Z", true, false, "/a"), &dev("A", false, true, "/b")));
    assert!(listed_before(&dev("Z", false, true, "/a"), &dev("A", false, false, "/b")));
    assert!(listed_before(&dev("A", false, false, "/a"), &dev("B", false, false, "/b")));
    assert!(!listed_before(&dev("A", false, false, "/a"), &dev("A", false, false, "/b")));
}

#[test]
fn sort_orders_devices() {
    let input = vec![
        dev("Speaker", false, false, "/1"),
        dev("Phone", false, true, "/2"),
        dev("Mouse", true, true, "/3"),
        dev("Keyboard", false, true, "/4"),
        dev("Buds", true, false, "/5"),
    ];
    let out: Vec<String> = sort_devices(input).into_iter().map(|d| d.path).collect();
    assert_eq!(out, vec!["/3", "/5", "/4", "/2", "/1"]);
}

#[test]
fn sort_keeps_ties_in_order() {
    let input = vec![
        dev("Same", false, false, "/1"),
        dev("Same", false, false, "/2"),
        dev("Other", false, false, "/3"),
        dev("Same", false, false, "/4"),
    ];
    let out: Vec<String> = sort_devices(input).into_iter().map(|d| d.path).collect();
    assert_eq!(out, vec!["/3", "/1", "/2", "/4"]);
}

#[test]
fn sorting_sorted_list_changes_nothing() {
    let once = sort_devices(vec![
        dev("b", false, false, "/1"),
        dev("a", true, false, "/2"),
        dev("c", false, true, "/3"),
    ]);
    let first: Vec<String> = once.iter().map(|d| d.path.clone()).collect();
    let twice: Vec<String> = sort_devices(once).into_iter().map(|d| d.path).collect();
    assert_eq!(first, twice);
}

fn object(path: &str, ifaces: Vec<(&str, StrMap<PropValue>)>) -> ManagedObject {
    let mut m = StrMap::new();
    for (k, v) in ifaces {
        m.insert(k.to_string(), v);
    }
    ManagedObject { path: path.to_string(), interfaces: m }
}

#[test]
fn objects_give_sorted_devices() {
    let objects = vec![
        object("/org/bluez", vec![("org.bluez.AgentManager1", props(vec![]))]),
        object("/org/bluez/hci0", vec![("org.bluez.Adapter1", props(vec![("Powered", PropValue::Bool(true))]))]),
        object(
            "/org/bluez/hci0/dev_1",
            vec![("org.bluez.Device1", props(vec![("Name", s("Zeta"))]))],
        ),
        object(
            "/org/bluez/hci0/dev_2",
            vec![
                ("org.bluez.Device1", props(vec![("Name", s("Alpha")), ("Connected", PropValue::Bool(true))])),
                ("org.bluez.Battery1", props(vec![("Percentage", PropValue::U8(77)), ("State", s("charging"))])),
            ],
        ),
        object("/org/bluez/hci0/dev_3", vec![("org.bluez.Device1", props(vec![("Name", s("Beta"))]))]),
    ];
    let devices = devices_from_objects(&objects);
    let paths: Vec<&str> = devices.iter().map(|d| d.path.as_str()).collect();
    assert_eq!(paths, vec!["/org/bluez/hci0/dev_2", "/org/bluez/hci0/dev_3", "/org/bluez/hci0/dev_1"]);
    assert_eq!(devices[0].battery_percentage, Some(77));
    assert!(devices[0].is_charging);
}

#[test]
fn no_objects_no_devices() {
    assert!(devices_from_objects(&vec![]).is_empty());
}

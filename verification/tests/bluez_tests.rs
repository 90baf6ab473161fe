use orbit_bluez::dbus::bluez::{
    agent_registration_calls, battery_properties_call, check_rfkill_status, connect_device_call,
    device_properties_call, disconnect_device_call, find_adapter, managed_objects_call,
    not_powered_error, pair_device_call, power_on_outcome, power_wait_step, powered_from_reply,
    rfkill_status_from_lowercase, set_trusted_call, BluezError, CallBody, ManagerState,
    MethodCall, PowerCheck, PowerWait,
};
use orbit_bluez::dbus::devices::ManagedObject;
use orbit_bluez::dbus::properties::{PropValue, StrMap};

fn assert_call(c: &MethodCall, path: &str, iface: &str, member: &str) {
    assert_eq!(c.destination, "org.bluez");
    assert_eq!(c.path, path);
    assert_eq!(c.interface, iface);
    assert_eq!(c.member, member);
}

fn address_msg(e: &BluezError) -> &str {
    match e {
        BluezError::Address(m) => m.as_str(),
        _ => panic!("not an address error: {:?}", e),
    }
}

#[test]
fn device_calls_on_valid_path() {
    let p = "/org/bluez/hci0/dev_AA_BB_CC_DD_EE_FF";
    let c = connect_device_call(p).unwrap();
    assert_call(&c, p, "org.bluez.Device1", "Connect");
    assert!(matches!(c.body, CallBody::Empty));
    assert_call(&disconnect_device_call(p).unwrap(), p, "org.bluez.Device1", "Disconnect");
    assert_call(&pair_device_call(p).unwrap(), p, "org.bluez.Device1", "Pair");
}

#[test]
fn device_calls_reject_invalid_paths() {
    for p in ["", "org/bluez", "/double//slash", "/trailing/", "/ha.d", "/spa ce", "/é"] {
        assert!(matches!(connect_device_call(p), Err(BluezError::Variant(_))), "{:?}", p);
        assert!(matches!(set_trusted_call(p, true), Err(BluezError::Variant(_))), "{:?}", p);
    }
}

#[test]
fn root_path_is_valid() {
    assert!(connect_device_call("/").is_ok());
}

#[test]
fn set_trusted_writes_property() {
    let c = set_trusted_call("/dev", false).unwrap();
    assert_call(&c, "/dev", "org.freedesktop.DBus.Properties", "Set");
    match c.body {
        CallBody::SetBool(i, p, v) => {
            assert_eq!(i, "org.bluez.Device1");
            assert_eq!(p, "Trusted");
            assert!(!v);
        }
        other => panic!("{:?}", other),
    }
}

#[test]
fn property_reads() {
    let c = device_properties_call("/dev").unwrap();
    assert_call(&c, "/dev", "org.freedesktop.DBus.Properties", "GetAll");
    assert!(matches!(c.body, CallBody::Str(ref s) if s == "org.bluez.Device1"));
    let b = battery_properties_call("/dev").unwrap();
    assert!(matches!(b.body, CallBody::Str(ref s) if s == "org.bluez.Battery1"));
    let m = managed_objects_call();
    assert_call(&m, "/", "org.freedesktop.DBus.ObjectManager", "GetManagedObjects");
}

#[test]
fn agent_calls() {
    let calls = agent_registration_calls().unwrap();
    assert_eq!(calls.len(), 2);
    assert_call(&calls[0], "/org/bluez", "org.bluez.AgentManager1", "RegisterAgent");
    match &calls[0].body {
        CallBody::PathAndStr(p, cap) => {
            assert_eq!(p, "/com/orbit/agent");
            assert_eq!(cap, "KeyboardDisplay");
        }
        other => panic!("{:?}", other),
    }
    assert_call(&calls[1], "/org/bluez", "org.bluez.AgentManager1", "RequestDefaultAgent");
    assert!(matches!(&calls[1].body, CallBody::Path(p) if p == "/com/orbit/agent"));
}

#[test]
fn agent_registration_state() {
    let mut st = ManagerState::new(None);
    assert!(st.needs_agent());
    st.mark_agent_registered();
    assert!(!st.needs_agent());
}

#[test]
fn adapter_calls_need_adapter() {
    let st = ManagerState::new(None);
    assert_eq!(address_msg(&st.start_discovery_call().unwrap_err()), "No Bluetooth adapter found");
    assert_eq!(address_msg(&st.stop_discovery_call().unwrap_err()), "No Bluetooth adapter found");
    assert_eq!(address_msg(&st.forget_device_call("/dev").unwrap_err()), "No Bluetooth adapter found");
}

#[test]
fn adapter_calls_on_adapter() {
    let st = ManagerState::new(Some("/org/bluez/hci0".to_string()));
    assert_call(&st.start_discovery_call().unwrap(), "/org/bluez/hci0", "org.bluez.Adapter1", "StartDiscovery");
    assert_call(&st.stop_discovery_call().unwrap(), "/org/bluez/hci0", "org.bluez.Adapter1", "StopDiscovery");
    let f = st.forget_device_call("/org/bluez/hci0/dev_1").unwrap();
    assert_call(&f, "/org/bluez/hci0", "org.bluez.Adapter1", "RemoveDevice");
    assert!(matches!(f.body, CallBody::Path(ref p) if p == "/org/bluez/hci0/dev_1"));
    assert!(matches!(st.forget_device_call("bad path"), Err(BluezError::Variant(_))));
}

#[test]
fn invalid_adapter_path_is_variant_error() {
    let st = ManagerState::new(Some("hci0".to_string()));
    assert!(matches!(st.start_discovery_call(), Err(BluezError::Variant(_))));
    assert!(matches!(st.forget_device_call("/dev"), Err(BluezError::Variant(_))));
}

#[test]
fn rfkill_soft_block_reads_unpowered() {
    let out = "0: hci0: Bluetooth\n\tSoft blocked: yes\n\tHard blocked: no\n";
    assert_eq!(check_rfkill_status(true, out), Ok(false));
}

#[test]
fn rfkill_hard_block_is_error() {
    let out = "0: hci0: Bluetooth\n\tSoft blocked: no\n\tHard blocked: yes\n";
    assert_eq!(
        check_rfkill_status(true, out),
        Err("Bluetooth is hard-blocked. Check your hardware switch or BIOS settings.".to_string())
    );
}

#[test]
fn rfkill_unblocked_and_empty_read_powered() {
    assert_eq!(check_rfkill_status(true, "0: hci0: Bluetooth\n\tSoft blocked: no\n\tHard blocked: no\n"), Ok(true));
    assert_eq!(check_rfkill_status(true, ""), Ok(true));
    assert_eq!(check_rfkill_status(true, "something else"), Ok(true));
}

#[test]
fn rfkill_failure_is_error() {
    assert_eq!(check_rfkill_status(false, "Soft blocked: yes"), Err("rfkill command failed".to_string()));
}

#[test]
fn rfkill_from_lowercase_is_case_sensitive() {
    assert_eq!(rfkill_status_from_lowercase(true, "Soft blocked: yes"), Ok(true));
    assert_eq!(rfkill_status_from_lowercase(true, "soft blocked: yes"), Ok(false));
}

#[test]
fn power_on_outcomes() {
    assert!(power_on_outcome(Ok(true)).is_ok());
    assert_eq!(address_msg(&power_on_outcome(Ok(false)).unwrap_err()), "Bluetooth is blocked. Failed to unblock.");
    let hard = "Bluetooth is hard-blocked. Check your hardware switch or BIOS settings.".to_string();
    assert_eq!(address_msg(&power_on_outcome(Err(hard.clone())).unwrap_err()), hard);
    assert!(power_on_outcome(Err("rfkill command failed".to_string())).is_ok());
}

#[test]
fn power_wait_steps() {
    assert_eq!(power_wait_step(0, true), PowerWait::Ready);
    assert_eq!(power_wait_step(5, true), PowerWait::Ready);
    assert_eq!(power_wait_step(0, false), PowerWait::Retry);
    assert_eq!(power_wait_step(4, false), PowerWait::Retry);
    assert_eq!(power_wait_step(5, false), PowerWait::GiveUp);
    assert_eq!(power_wait_step(u32::MAX, false), PowerWait::GiveUp);
    assert_eq!(address_msg(&not_powered_error()), "Bluetooth adapter is not powered on");
}

#[test]
fn power_wait_checks_six_times() {
    let mut failed = 0u32;
    let mut checks = 0;
    loop {
        checks += 1;
        match power_wait_step(failed, false) {
            PowerWait::Ready => panic!("never powered"),
            PowerWait::Retry => failed += 1,
            PowerWait::GiveUp => break,
        }
    }
    assert_eq!(checks, 6);
}

#[test]
fn powered_check_paths() {
    let st = ManagerState::new(Some("/org/bluez/hci0".to_string()));
    assert!(matches!(st.powered_check(Ok(true)), PowerCheck::Known(true)));
    assert!(matches!(st.powered_check(Ok(false)), PowerCheck::Known(false)));
    match st.powered_check(Err("rfkill command failed".to_string())) {
        PowerCheck::Query(c) => {
            assert_call(&c, "/org/bluez/hci0", "org.freedesktop.DBus.Properties", "Get");
            assert!(matches!(c.body, CallBody::TwoStr(ref i, ref p) if i == "org.bluez.Adapter1" && p == "Powered"));
        }
        other => panic!("{:?}", other),
    }
    let none = ManagerState::new(None);
    match none.powered_check(Err("x".to_string())) {
        PowerCheck::Failed(e) => assert_eq!(address_msg(&e), "No Bluetooth adapter found"),
        other => panic!("{:?}", other),
    }
}

#[test]
fn powered_reply_must_be_bool() {
    assert!(matches!(powered_from_reply(&PropValue::Bool(true)), Ok(true)));
    assert!(matches!(powered_from_reply(&PropValue::U8(1)), Err(BluezError::IncorrectType)));
}

#[test]
fn adapter_is_first_adapter_object() {
    let mk = |path: &str, ifaces: &[&str]| {
        let mut m = StrMap::new();
        for i in ifaces {
            m.insert(i.to_string(), StrMap::new());
        }
        ManagedObject { path: path.to_string(), interfaces: m }
    };
    let objs = vec![
        mk("/org/bluez", &["org.bluez.AgentManager1"]),
        mk("/org/bluez/hci1", &["org.bluez.Adapter1"]),
        mk("/org/bluez/hci0", &["org.bluez.Adapter1"]),
    ];
    assert_eq!(find_adapter(&objs), Some("/org/bluez/hci1".to_string()));
    assert_eq!(find_adapter(&vec![mk("/x", &["org.bluez.Device1"])]), None);
}

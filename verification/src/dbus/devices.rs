//! Bluetooth devices as the panel lists them, read from the properties that
//! BlueZ publishes, and the order in which the list is shown.

use vstd::prelude::*;
use vstd::string::*;
use crate::dbus::properties::{PropValue, StrMap};
use crate::text::{seq_lt, str_lt, lemma_seq_lt_asymmetric,
    lemma_seq_lt_transitive, lemma_seq_lt_total};

verus! {

/// The BlueZ interface of a device object.
pub const DEVICE_INTERFACE: &'static str = "org.bluez.Device1";

/// The BlueZ interface of a device's battery.
pub const BATTERY_INTERFACE: &'static str = "org.bluez.Battery1";

/// The kind of a device, as far as the panel tells kinds apart.
#[derive(Debug, Clone, Copy, PartialEq, Eq, Structural)]
pub enum DeviceType {
    Audio,
    Keyboard,
    Mouse,
    Phone,
}

/// A device as listed by the panel.
#[derive(Debug)]
pub struct BluetoothDevice {
    pub path: String,
    pub name: String,
    pub address: String,
    pub device_type: Option<DeviceType>,
    pub is_connected: bool,
    pub is_paired: bool,
    pub is_trusted: bool,
    pub rssi: i16,
    pub battery_percentage: Option<u8>,
    pub is_charging: bool,
}

/// A single device as shown in its detail view.
#[derive(Debug)]
pub struct BluetoothDeviceDetails {
    pub name: String,
    pub address: String,
    pub is_connected: bool,
    pub is_paired: bool,
    pub is_trusted: bool,
    pub battery_percentage: Option<u8>,
    pub is_charging: bool,
    pub rssi: i16,
    pub device_type: Option<DeviceType>,
    pub path: String,
}

/// The contents of a device record, strings taken by their characters.
pub struct DeviceView {
    pub path: Seq<char>,
    pub name: Seq<char>,
    pub address: Seq<char>,
    pub device_type: Option<DeviceType>,
    pub is_connected: bool,
    pub is_paired: bool,
    pub is_trusted: bool,
    pub rssi: i16,
    pub battery_percentage: Option<u8>,
    pub is_charging: bool,
}

impl View for BluetoothDevice {
    type V = DeviceView;

    open spec fn view(&self) -> DeviceView {
        DeviceView {
            path: self.path@,
            name: self.name@,
            address: self.address@,
            device_type: self.device_type,
            is_connected: self.is_connected,
            is_paired: self.is_paired,
            is_trusted: self.is_trusted,
            rssi: self.rssi,
            battery_percentage: self.battery_percentage,
            is_charging: self.is_charging,
        }
    }
}

impl View for BluetoothDeviceDetails {
    type V = DeviceView;

    open spec fn view(&self) -> DeviceView {
        DeviceView {
            path: self.path@,
            name: self.name@,
            address: self.address@,
            device_type: self.device_type,
            is_connected: self.is_connected,
            is_paired: self.is_paired,
            is_trusted: self.is_trusted,
            rssi: self.rssi,
            battery_percentage: self.battery_percentage,
            is_charging: self.is_charging,
        }
    }
}

impl Default for BluetoothDeviceDetails {
    /// Empty strings, `false`, zero and `None` throughout.
    fn default() -> (d: Self)
        ensures
            d@ == (DeviceView {
                path: Seq::empty(),
                name: Seq::empty(),
                address: Seq::empty(),
                device_type: None,
                is_connected: false,
                is_paired: false,
                is_trusted: false,
                rssi: 0,
                battery_percentage: None,
                is_charging: false,
            }),
    {
        BluetoothDeviceDetails {
            name: String::new(),
            address: String::new(),
            is_connected: false,
            is_paired: false,
            is_trusted: false,
            battery_percentage: None,
            is_charging: false,
            rssi: 0,
            device_type: None,
            path: String::new(),
        }
    }
}

/// The string held under `key`, if there is one and it is a string.
pub open spec fn prop_str_spec(props: Map<Seq<char>, PropValue>, key: Seq<char>) -> Option<Seq<char>> {
    if props.contains_key(key) {
        match props[key] {
            PropValue::Str(s) => Some(s@),
            _ => None,
        }
    } else {
        None
    }
}

/// The boolean held under `key`, if there is one and it is a boolean.
pub open spec fn prop_bool_spec(props: Map<Seq<char>, PropValue>, key: Seq<char>) -> Option<bool> {
    if props.contains_key(key) {
        match props[key] {
            PropValue::Bool(b) => Some(b),
            _ => None,
        }
    } else {
        None
    }
}

/// The 16-bit signed integer held under `key`, if there is one.
pub open spec fn prop_i16_spec(props: Map<Seq<char>, PropValue>, key: Seq<char>) -> Option<i16> {
    if props.contains_key(key) {
        match props[key] {
            PropValue::I16(v) => Some(v),
            _ => None,
        }
    } else {
        None
    }
}

/// The 8-bit unsigned integer held under `key`, if there is one.
pub open spec fn prop_u8_spec(props: Map<Seq<char>, PropValue>, key: Seq<char>) -> Option<u8> {
    if props.contains_key(key) {
        match props[key] {
            PropValue::U8(v) => Some(v),
            _ => None,
        }
    } else {
        None
    }
}

fn prop_str(props: &StrMap<PropValue>, key: &str) -> (r: Option<String>)
    ensures
        r matches Some(s) ==> prop_str_spec(props.view(), key@) == Some(s@),
        r is None ==> prop_str_spec(props.view(), key@) is None,
{
    match props.get(key) {
        Some(PropValue::Str(s)) => Some(s.clone()),
        _ => None,
    }
}

fn prop_bool(props: &StrMap<PropValue>, key: &str) -> (r: Option<bool>)
    ensures
        r == prop_bool_spec(props.view(), key@),
{
    match props.get(key) {
        Some(PropValue::Bool(b)) => Some(*b),
        _ => None,
    }
}

fn prop_i16(props: &StrMap<PropValue>, key: &str) -> (r: Option<i16>)
    ensures
        r == prop_i16_spec(props.view(), key@),
{
    match props.get(key) {
        Some(PropValue::I16(v)) => Some(*v),
        _ => None,
    }
}

fn prop_u8(props: &StrMap<PropValue>, key: &str) -> (r: Option<u8>)
    ensures
        r == prop_u8_spec(props.view(), key@),
{
    match props.get(key) {
        Some(PropValue::U8(v)) => Some(*v),
        _ => None,
    }
}

/// The kind of device that an icon name stands for.
pub open spec fn device_type_spec(icon: Option<Seq<char>>) -> Option<DeviceType> {
    match icon {
        Some(i) => if i == "audio-card"@ || i == "audio-speakers"@ || i == "audio-headset"@
            || i == "audio-headphones"@ {
            Some(DeviceType::Audio)
        } else if i == "input-keyboard"@ {
            Some(DeviceType::Keyboard)
        } else if i == "input-mouse"@ || i == "input-tablet"@ {
            Some(DeviceType::Mouse)
        } else if i == "phone"@ {
            Some(DeviceType::Phone)
        } else {
            None
        },
        None => None,
    }
}

fn is(s: &String, lit: &str) -> (r: bool)
    ensures
        r == (s@ == lit@),
{
    *s == String::from_str(lit)
}

/// The kind of device that the icon name `icon` stands for: the audio icons,
/// the keyboard, the mouse and tablet, and the phone; `None` for any other
/// icon and for no icon.
pub fn device_type_from_icon(icon: &Option<String>) -> (r: Option<DeviceType>)
    ensures
        r == device_type_spec(match icon {
            Some(s) => Some(s@),
            None => None,
        }),
{
    match icon {
        Some(i) => {
            if is(i, "audio-card") || is(i, "audio-speakers") || is(i, "audio-headset") || is(
                i,
                "audio-headphones",
            ) {
                Some(DeviceType::Audio)
            } else if is(i, "input-keyboard") {
                Some(DeviceType::Keyboard)
            } else if is(i, "input-mouse") || is(i, "input-tablet") {
                Some(DeviceType::Mouse)
            } else if is(i, "phone") {
                Some(DeviceType::Phone)
            } else {
                None
            }
        },
        None => None,
    }
}

/// The name shown for a device: its `Name` if it has one, else its `Alias`;
/// "Unknown Device" where the one chosen is no string.
pub open spec fn device_name_spec(props: Map<Seq<char>, PropValue>) -> Seq<char> {
    let key = if props.contains_key("Name"@) {
        "Name"@
    } else {
        "Alias"@
    };
    match prop_str_spec(props, key) {
        Some(s) => s,
        None => "Unknown Device"@,
    }
}

/// The battery level of a device: the device's own `BatteryPercentage`,
/// else the `Percentage` of its battery interface where it has one.
pub open spec fn battery_spec(
    props: Map<Seq<char>, PropValue>,
    battery: Option<Map<Seq<char>, PropValue>>,
) -> Option<u8> {
    match prop_u8_spec(props, "BatteryPercentage"@) {
        Some(p) => Some(p),
        None => match battery {
            Some(b) => prop_u8_spec(b, "Percentage"@),
            None => None,
        },
    }
}

/// A device charges where its battery interface reports the state
/// "charging".
pub open spec fn charging_spec(battery: Option<Map<Seq<char>, PropValue>>) -> bool {
    match battery {
        Some(b) => prop_str_spec(b, "State"@) == Some("charging"@),
        None => false,
    }
}

/// The record of the device at `path` with device properties `props` and,
/// where the device has a battery interface, battery properties `battery`.
/// Missing or mistyped values read as the empty address, `false`, a signal
/// strength of 0 and no battery level.
pub open spec fn device_spec(
    path: Seq<char>,
    props: Map<Seq<char>, PropValue>,
    battery: Option<Map<Seq<char>, PropValue>>,
) -> DeviceView {
    DeviceView {
        path: path,
        name: device_name_spec(props),
        address: match prop_str_spec(props, "Address"@) {
            Some(a) => a,
            None => Seq::empty(),
        },
        device_type: device_type_spec(prop_str_spec(props, "Icon"@)),
        is_connected: match prop_bool_spec(props, "Connected"@) {
            Some(b) => b,
            None => false,
        },
        is_paired: match prop_bool_spec(props, "Paired"@) {
            Some(b) => b,
            None => false,
        },
        is_trusted: match prop_bool_spec(props, "Trusted"@) {
            Some(b) => b,
            None => false,
        },
        rssi: match prop_i16_spec(props, "RSSI"@) {
            Some(r) => r,
            None => 0,
        },
        battery_percentage: battery_spec(props, battery),
        is_charging: charging_spec(battery),
    }
}

/// The view of an optional property map.
pub open spec fn opt_props_view(p: Option<&StrMap<PropValue>>) -> Option<Map<Seq<char>, PropValue>> {
    match p {
        Some(m) => Some(m.view()),
        None => None,
    }
}

/// Reads the record of the device at `path` from its device properties and,
/// where it has a battery interface, from the battery's properties.
pub fn device_from_properties(
    path: &str,
    props: &StrMap<PropValue>,
    battery: Option<&StrMap<PropValue>>,
) -> (d: BluetoothDevice)
    ensures
        d@ == device_spec(path@, props.view(), opt_props_view(battery)),
        d.path@ == path@,
        prop_str_spec(props.view(), "Address"@) matches Some(a) ==> d.address@ == a,
        prop_str_spec(props.view(), "Address"@) is None ==> d.address@ == Seq::<char>::empty(),
        prop_bool_spec(props.view(), "Connected"@) matches Some(b) ==> d.is_connected == b,
        prop_bool_spec(props.view(), "Connected"@) is None ==> !d.is_connected,
        prop_bool_spec(props.view(), "Paired"@) matches Some(b) ==> d.is_paired == b,
        prop_bool_spec(props.view(), "Paired"@) is None ==> !d.is_paired,
        prop_bool_spec(props.view(), "Trusted"@) matches Some(b) ==> d.is_trusted == b,
        prop_bool_spec(props.view(), "Trusted"@) is None ==> !d.is_trusted,
        prop_i16_spec(props.view(), "RSSI"@) matches Some(v) ==> d.rssi == v,
        prop_i16_spec(props.view(), "RSSI"@) is None ==> d.rssi == 0,
        prop_u8_spec(props.view(), "BatteryPercentage"@) matches Some(v) ==> d.battery_percentage
            == Some(v),
{
    let name_key = if props.contains_key("Name") {
        "Name"
    } else {
        "Alias"
    };
    let name = match prop_str(props, name_key) {
        Some(n) => n,
        None => String::from_str("Unknown Device"),
    };
    let address = match prop_str(props, "Address") {
        Some(a) => a,
        None => String::new(),
    };
    let is_connected = match prop_bool(props, "Connected") {
        Some(b) => b,
        None => false,
    };
    let is_paired = match prop_bool(props, "Paired") {
        Some(b) => b,
        None => false,
    };
    let is_trusted = match prop_bool(props, "Trusted") {
        Some(b) => b,
        None => false,
    };
    let rssi = match prop_i16(props, "RSSI") {
        Some(r) => r,
        None => 0,
    };
    let mut battery_percentage = prop_u8(props, "BatteryPercentage");
    let mut is_charging = false;
    match battery {
        Some(b) => {
            if battery_percentage.is_none() {
                battery_percentage = prop_u8(b, "Percentage");
            }
            is_charging = match prop_str(b, "State") {
                Some(s) => is(&s, "charging"),
                None => false,
            };
        },
        None => {},
    }
    let icon = prop_str(props, "Icon");
    let device_type = device_type_from_icon(&icon);
    BluetoothDevice {
        path: String::from_str(path),
        name,
        address,
        device_type,
        is_connected,
        is_paired,
        is_trusted,
        rssi,
        battery_percentage,
        is_charging,
    }
}

/// Reads the detail record of the device at `path` from its device
/// properties and from the properties of its battery interface, where those
/// could be read.
pub fn details_from_properties(
    path: &str,
    props: &StrMap<PropValue>,
    battery: Option<&StrMap<PropValue>>,
) -> (d: BluetoothDeviceDetails)
    ensures
        d@ == device_spec(path@, props.view(), opt_props_view(battery)),
        d.path@ == path@,
        prop_str_spec(props.view(), "Address"@) matches Some(a) ==> d.address@ == a,
        prop_str_spec(props.view(), "Address"@) is None ==> d.address@ == Seq::<char>::empty(),
        prop_bool_spec(props.view(), "Connected"@) matches Some(b) ==> d.is_connected == b,
        prop_bool_spec(props.view(), "Connected"@) is None ==> !d.is_connected,
        prop_bool_spec(props.view(), "Paired"@) matches Some(b) ==> d.is_paired == b,
        prop_bool_spec(props.view(), "Paired"@) is None ==> !d.is_paired,
        prop_bool_spec(props.view(), "Trusted"@) matches Some(b) ==> d.is_trusted == b,
        prop_bool_spec(props.view(), "Trusted"@) is None ==> !d.is_trusted,
        prop_i16_spec(props.view(), "RSSI"@) matches Some(v) ==> d.rssi == v,
        prop_i16_spec(props.view(), "RSSI"@) is None ==> d.rssi == 0,
        prop_u8_spec(props.view(), "BatteryPercentage"@) matches Some(v) ==> d.battery_percentage
            == Some(v),
{
    let dev = device_from_properties(path, props, battery);
    BluetoothDeviceDetails {
        name: dev.name,
        address: dev.address,
        is_connected: dev.is_connected,
        is_paired: dev.is_paired,
        is_trusted: dev.is_trusted,
        battery_percentage: dev.battery_percentage,
        is_charging: dev.is_charging,
        rssi: dev.rssi,
        device_type: dev.device_type,
        path: dev.path,
    }
}

/// An object that BlueZ manages: its path and the properties of each of its
/// interfaces, by interface name.
pub struct ManagedObject {
    pub path: String,
    pub interfaces: StrMap<StrMap<PropValue>>,
}

/// The device record of an object, if it is a device.
pub open spec fn object_device_spec(o: ManagedObject) -> Option<DeviceView> {
    let ifs = o.interfaces.view();
    if ifs.contains_key(DEVICE_INTERFACE@) {
        Some(
            device_spec(
                o.path@,
                ifs[DEVICE_INTERFACE@].view(),
                if ifs.contains_key(BATTERY_INTERFACE@) {
                    Some(ifs[BATTERY_INTERFACE@].view())
                } else {
                    None
                },
            ),
        )
    } else {
        None
    }
}

/// The device records of the objects that are devices, in the objects' order.
pub open spec fn collect_devices_spec(objs: Seq<ManagedObject>) -> Seq<DeviceView>
    decreases objs.len(),
{
    if objs.len() == 0 {
        Seq::empty()
    } else {
        let rest = collect_devices_spec(objs.drop_last());
        match object_device_spec(objs.last()) {
            Some(d) => rest.push(d),
            None => rest,
        }
    }
}

/// The records of a list of devices.
pub open spec fn devices_view(v: Seq<BluetoothDevice>) -> Seq<DeviceView> {
    v.map_values(|d: BluetoothDevice| d@)
}

/// `a` is listed before `b`: connected devices first, then paired ones,
/// then by name.
pub open spec fn device_before(a: DeviceView, b: DeviceView) -> bool {
    if a.is_connected != b.is_connected {
        a.is_connected
    } else if a.is_paired != b.is_paired {
        a.is_paired
    } else {
        seq_lt(a.name, b.name)
    }
}

/// `d` placed into the list `s` behind every entry that it does not come
/// before.
pub open spec fn insert_device_spec(s: Seq<DeviceView>, d: DeviceView) -> Seq<DeviceView>
    decreases s.len(),
{
    if s.len() == 0 {
        seq![d]
    } else if device_before(d, s.last()) {
        insert_device_spec(s.drop_last(), d).push(s.last())
    } else {
        s.push(d)
    }
}

/// The stable sort of `s` by `device_before`: each entry, in turn, placed
/// behind every earlier entry that it does not come before.
pub open spec fn sort_devices_spec(s: Seq<DeviceView>) -> Seq<DeviceView>
    decreases s.len(),
{
    if s.len() == 0 {
        s
    } else {
        insert_device_spec(sort_devices_spec(s.drop_last()), s.last())
    }
}

/// No entry of `s` comes before an entry ahead of it.
pub open spec fn devices_ordered(s: Seq<DeviceView>) -> bool {
    forall|i: int, j: int| 0 <= i < j < s.len() ==> !device_before(#[trigger] s[j], #[trigger] s[i])
}

/// Whether `a` is listed before `b`.
pub fn listed_before(a: &BluetoothDevice, b: &BluetoothDevice) -> (r: bool)
    ensures
        r == device_before(a@, b@),
        a.is_connected != b.is_connected ==> r == a.is_connected,
        a.is_connected == b.is_connected && a.is_paired != b.is_paired ==> r == a.is_paired,
        a.is_connected == b.is_connected && a.is_paired == b.is_paired ==> r == seq_lt(a.name@, b.name@),
{
    proof {
        lemma_device_before_rules(a@, b@);
    }
    if a.is_connected != b.is_connected {
        a.is_connected
    } else if a.is_paired != b.is_paired {
        a.is_paired
    } else {
        str_lt(a.name.as_str(), b.name.as_str())
    }
}

proof fn lemma_insert_at(s: Seq<DeviceView>, d: DeviceView, p: int)
    requires
        0 <= p <= s.len(),
        forall|j: int| p <= j < s.len() ==> device_before(d, #[trigger] s[j]),
        p > 0 ==> !device_before(d, s[p - 1]),
    ensures
        insert_device_spec(s, d) == s.take(p).push(d) + s.skip(p),
    decreases s.len(),
{
    if s.len() == 0 {
        assert(s.take(p).push(d) + s.skip(p) =~= seq![d]);
    } else if p == s.len() {
        assert(s.take(p) =~= s);
        assert(s.take(p).push(d) + s.skip(p) =~= s.push(d));
    } else {
        assert(device_before(d, s.last()));
        let t = s.drop_last();
        lemma_insert_at(t, d, p);
        assert(t.take(p).push(d) + t.skip(p) + seq![s.last()] =~= s.take(p).push(d) + s.skip(p));
        assert((t.take(p).push(d) + t.skip(p)).push(s.last()) =~= t.take(p).push(d) + t.skip(p)
            + seq![s.last()]);
    }
}

/// Sorts `devices` for the list: connected devices first, then paired ones,
/// then by name; devices that tie keep their order.
pub fn sort_devices(devices: Vec<BluetoothDevice>) -> (r: Vec<BluetoothDevice>)
    ensures
        devices_view(r@) == sort_devices_spec(devices_view(devices@)),
        devices_ordered(devices_view(r@)),
        devices_view(r@).to_multiset() == devices_view(devices@).to_multiset(),
{
    let ghost input = devices_view(devices@);
    let mut out: Vec<BluetoothDevice> = Vec::new();
    let mut rest = devices;
    let ghost done: int = 0;
    assert(input.take(0) =~= Seq::<DeviceView>::empty());
    while rest.len() > 0
        invariant
            0 <= done <= input.len(),
            rest@.len() + done == input.len(),
            devices_view(rest@) == input.skip(done),
            devices_view(out@) == sort_devices_spec(input.take(done)),
        decreases rest.len(),
    {
        let ghost before_rest = rest@;
        let d = rest.remove(0);
        let ghost dv = d@;
        assert(devices_view(before_rest)[0] == dv);
        assert(dv == input[done]);
        let ghost sorted = devices_view(out@);
        let mut p = out.len();
        while p > 0 && listed_before(&d, &out[p - 1])
            invariant
                p <= out.len(),
                sorted == devices_view(out@),
                dv == d@,
                forall|j: int| p <= j < out.len() ==> device_before(dv, #[trigger] sorted[j]),
            decreases p,
        {
            p = p - 1;
        }
        proof {
            lemma_insert_at(sorted, dv, p as int);
            assert(input.take(done + 1).drop_last() =~= input.take(done));
            assert(input.take(done + 1).last() == dv);
        }
        out.insert(p, d);
        proof {
            assert(devices_view(out@) =~= sorted.take(p as int).push(dv) + sorted.skip(p as int));
            let old_done = done;
            done = done + 1;
            assert forall|k: int| 0 <= k < rest@.len() implies devices_view(rest@)[k] == input.skip(
                done,
            )[k] by {
                assert(rest@[k] == before_rest[k + 1]);
                assert(devices_view(before_rest)[k + 1] == input.skip(old_done)[k + 1]);
            }
            assert(devices_view(rest@) =~= input.skip(done));
        }
    }
    proof {
        assert(input.take(done) =~= input);
        lemma_sort_devices_ordered(input);
        lemma_sort_devices_permutes(input);
    }
    out
}

/// The list of devices among the objects that BlueZ manages: each object
/// with a device interface gives one record, read from that interface and,
/// where the object has one, from its battery interface; the records are
/// sorted for the list.
pub fn devices_from_objects(objects: &Vec<ManagedObject>) -> (r: Vec<BluetoothDevice>)
    ensures
        devices_view(r@) == sort_devices_spec(collect_devices_spec(objects@)),
        r@.len() == objects@.filter(is_device_object()).len(),
        forall|i: int|
            0 <= i < objects@.len() && objects@[i].interfaces.view().contains_key("org.bluez.Device1"@)
                ==> exists|j: int| 0 <= j < r@.len() && (#[trigger] r@[j])@ == device_object_record(objects@[i]),
        forall|j: int| #![trigger r@[j]]
            0 <= j < r@.len() ==> exists|i: int|
                0 <= i < objects@.len() && (#[trigger] objects@[i]).interfaces.view().contains_key(
                    "org.bluez.Device1"@) && r@[j]@ == device_object_record(objects@[i]),
{
    let mut found: Vec<BluetoothDevice> = Vec::new();
    for i in 0..objects.len()
        invariant
            devices_view(found@) == collect_devices_spec(objects@.take(i as int)),
    {
        let o = &objects[i];
        proof {
            assert(objects@.take(i + 1).drop_last() =~= objects@.take(i as int));
            assert(objects@.take(i + 1).last() == *o);
        }
        match o.interfaces.get(DEVICE_INTERFACE) {
            Some(props) => {
                let d = device_from_properties(o.path.as_str(), props, o.interfaces.get(BATTERY_INTERFACE));
                found.push(d);
                proof {
                    assert(devices_view(found@) =~= collect_devices_spec(objects@.take(i as int)).push(d@));
                }
            },
            None => {},
        }
    }
    proof {
        assert(objects@.take(objects@.len() as int) =~= objects@);
    }
    let r = sort_devices(found);
    proof {
        lemma_devices_from_objects_cover(objects@);
        let v = devices_view(r@);
        assert forall|i: int|
            0 <= i < objects@.len() && objects@[i].interfaces.view().contains_key("org.bluez.Device1"@)
                implies exists|j: int| 0 <= j < r@.len() && (#[trigger] r@[j])@ == device_object_record(objects@[i]) by {
            let j = choose|j: int| 0 <= j < v.len() && v[j] == device_object_record(objects@[i]);
            assert(r@[j]@ == v[j]);
        }
        assert forall|j: int| #![trigger r@[j]]
            0 <= j < r@.len() implies exists|i: int|
                0 <= i < objects@.len() && (#[trigger] objects@[i]).interfaces.view().contains_key(
                    "org.bluez.Device1"@) && r@[j]@ == device_object_record(objects@[i]) by {
            lemma_device_records_come_from_objects(objects@);
            assert(r@[j]@ == v[j]);
        }
    }
    r
}

proof fn lemma_before_asymmetric(a: DeviceView, b: DeviceView)
    ensures
        !(device_before(a, b) && device_before(b, a)),
{
    lemma_seq_lt_asymmetric(a.name, b.name);
}

proof fn lemma_before_transitive(a: DeviceView, b: DeviceView, c: DeviceView)
    requires
        device_before(a, b),
        device_before(b, c),
    ensures
        device_before(a, c),
{
    if a.is_connected == b.is_connected && b.is_connected == c.is_connected && a.is_paired
        == b.is_paired && b.is_paired == c.is_paired {
        lemma_seq_lt_transitive(a.name, b.name, c.name);
    }
}

/// Where `a` comes before `b` and `c` does not, `a` comes before `c`.
proof fn lemma_before_not_before(a: DeviceView, b: DeviceView, c: DeviceView)
    requires
        device_before(a, b),
        !device_before(c, b),
    ensures
        device_before(a, c),
{
    if device_before(b, c) {
        lemma_before_transitive(a, b, c);
    } else {
        if b.name != c.name {
            lemma_seq_lt_total(b.name, c.name);
        }
    }
}

proof fn lemma_insert_multiset(s: Seq<DeviceView>, d: DeviceView)
    ensures
        insert_device_spec(s, d).to_multiset() =~= s.to_multiset().insert(d),
    decreases s.len(),
{
    broadcast use vstd::seq_lib::group_to_multiset_ensures;

    if s.len() == 0 {
        assert(seq![d] =~= s.push(d));
    } else if device_before(d, s.last()) {
        let t = s.drop_last();
        lemma_insert_multiset(t, d);
        assert(s =~= t.push(s.last()));
    } else {
    }
}

/// Sorting keeps every device and adds none: the sorted list holds each
/// record as often as the list it was made from.
pub proof fn lemma_sort_devices_permutes(s: Seq<DeviceView>)
    ensures
        sort_devices_spec(s).to_multiset() =~= s.to_multiset(),
    decreases s.len(),
{
    broadcast use vstd::seq_lib::group_to_multiset_ensures;

    if s.len() > 0 {
        let t = s.drop_last();
        lemma_sort_devices_permutes(t);
        lemma_insert_multiset(sort_devices_spec(t), s.last());
        assert(s =~= t.push(s.last()));
    }
}

proof fn lemma_insert_ordered(s: Seq<DeviceView>, d: DeviceView)
    requires
        devices_ordered(s),
    ensures
        devices_ordered(insert_device_spec(s, d)),
    decreases s.len(),
{
    broadcast use vstd::seq_lib::group_to_multiset_ensures;

    if s.len() == 0 {
    } else if device_before(d, s.last()) {
        let t = s.drop_last();
        let last = s.last();
        assert(devices_ordered(t)) by {
            assert forall|i: int, j: int| 0 <= i < j < t.len() implies !device_before(
                #[trigger] t[j],
                #[trigger] t[i],
            ) by {
                assert(t[i] == s[i] && t[j] == s[j]);
            }
        }
        lemma_insert_ordered(t, d);
        let u = insert_device_spec(t, d);
        lemma_insert_multiset(t, d);
        let r = u.push(last);
        assert forall|i: int, j: int| 0 <= i < j < r.len() implies !device_before(
            #[trigger] r[j],
            #[trigger] r[i],
        ) by {
            if j == r.len() - 1 {
                let x = u[i];
                assert(r[i] == x);
                assert(u.to_multiset().count(x) > 0);
                if x == d {
                    lemma_before_asymmetric(d, last);
                } else {
                    assert(t.to_multiset().count(x) > 0);
                    assert(t.contains(x));
                    let k = choose|k: int| 0 <= k < t.len() && t[k] == x;
                    assert(s[k] == x);
                    assert(!device_before(s[s.len() - 1], s[k]));
                }
            } else {
                assert(r[i] == u[i] && r[j] == u[j]);
            }
        }
    } else {
        let r = s.push(d);
        let last = s.last();
        assert forall|i: int, j: int| 0 <= i < j < r.len() implies !device_before(
            #[trigger] r[j],
            #[trigger] r[i],
        ) by {
            if j == r.len() - 1 {
                if i < s.len() - 1 {
                    assert(!device_before(s[s.len() - 1], s[i]));
                    if device_before(d, s[i]) {
                        lemma_before_not_before(d, s[i], last);
                    }
                }
            } else {
                assert(r[i] == s[i] && r[j] == s[j]);
            }
        }
    }
}

/// The sorted list is in list order: no device comes before one that is
/// listed ahead of it.
pub proof fn lemma_sort_devices_ordered(s: Seq<DeviceView>)
    ensures
        devices_ordered(sort_devices_spec(s)),
    decreases s.len(),
{
    if s.len() > 0 {
        lemma_sort_devices_ordered(s.drop_last());
        lemma_insert_ordered(sort_devices_spec(s.drop_last()), s.last());
    }
}

/// A list that is already in list order comes out of sorting unchanged; so
/// sorting a second time changes nothing.
pub proof fn lemma_sort_devices_keeps_ordered(s: Seq<DeviceView>)
    requires
        devices_ordered(s),
    ensures
        sort_devices_spec(s) == s,
    decreases s.len(),
{
    if s.len() > 0 {
        let t = s.drop_last();
        assert(devices_ordered(t)) by {
            assert forall|i: int, j: int| 0 <= i < j < t.len() implies !device_before(
                #[trigger] t[j],
                #[trigger] t[i],
            ) by {
                assert(t[i] == s[i] && t[j] == s[j]);
            }
        }
        lemma_sort_devices_keeps_ordered(t);
        if t.len() == 0 {
            assert(seq![s.last()] =~= s);
        } else {
            assert(!device_before(s[s.len() - 1], s[s.len() - 2]));
            assert(t.push(s.last()) =~= s);
        }
    }
}

/// The record that the object `o` gives as a device: its path, the
/// properties of its device interface and, where it has one, those of its
/// battery interface.
pub open spec fn device_object_record(o: ManagedObject) -> DeviceView {
    device_spec(
        o.path@,
        o.interfaces.view()["org.bluez.Device1"@].view(),
        if o.interfaces.view().contains_key("org.bluez.Battery1"@) {
            Some(o.interfaces.view()["org.bluez.Battery1"@].view())
        } else {
            None
        },
    )
}

/// An object that has the device interface.
pub open spec fn is_device_object() -> spec_fn(ManagedObject) -> bool {
    |o: ManagedObject| o.interfaces.view().contains_key("org.bluez.Device1"@)
}

proof fn lemma_collect_devices(objs: Seq<ManagedObject>)
    ensures
        collect_devices_spec(objs).len() == objs.filter(is_device_object()).len(),
        forall|i: int|
            0 <= i < objs.len() && objs[i].interfaces.view().contains_key("org.bluez.Device1"@)
                ==> exists|j: int| 0 <= j < collect_devices_spec(objs).len()
                    && (#[trigger] collect_devices_spec(objs)[j]) == device_object_record(objs[i]),
    decreases objs.len(),
{
    reveal_with_fuel(Seq::filter, 1);
    if objs.len() > 0 {
        let t = objs.drop_last();
        let last = objs.last();
        lemma_collect_devices(t);
        let c = collect_devices_spec(objs);
        let ct = collect_devices_spec(t);
        let has = last.interfaces.view().contains_key("org.bluez.Device1"@);
        assert(is_device_object()(last) == has);
        if has {
            assert(c == ct.push(object_device_spec(last)->0));
        } else {
            assert(c == ct);
        }
        assert forall|i: int|
            0 <= i < objs.len() && objs[i].interfaces.view().contains_key("org.bluez.Device1"@)
                implies exists|j: int| 0 <= j < c.len() && (#[trigger] c[j]) == device_object_record(objs[i]) by {
            if i == objs.len() - 1 {
                assert(c[c.len() - 1] == device_object_record(objs[i]));
            } else {
                assert(objs[i] == t[i]);
                let j = choose|j: int| 0 <= j < ct.len() && ct[j] == device_object_record(t[i]);
                assert(c[j] == ct[j]);
            }
        }
    }
}

/// The device list has one record for each object that has the device
/// interface: as many records as such objects, and, for each such object,
/// the record read from its device and battery interfaces.
pub proof fn lemma_devices_from_objects_cover(objs: Seq<ManagedObject>)
    ensures
        sort_devices_spec(collect_devices_spec(objs)).len() == objs.filter(is_device_object()).len(),
        forall|i: int|
            0 <= i < objs.len() && objs[i].interfaces.view().contains_key("org.bluez.Device1"@)
                ==> exists|j: int| 0 <= j < sort_devices_spec(collect_devices_spec(objs)).len()
                    && (#[trigger] sort_devices_spec(collect_devices_spec(objs))[j]) == device_object_record(objs[i]),
{
    let c = collect_devices_spec(objs);
    lemma_collect_devices(objs);
    lemma_sort_devices_permutes(c);
    lemma_cover_transfer(objs, c, sort_devices_spec(c));
}

proof fn lemma_cover_transfer(objs: Seq<ManagedObject>, c: Seq<DeviceView>, r: Seq<DeviceView>)
    requires
        r.to_multiset() == c.to_multiset(),
        forall|i: int|
            0 <= i < objs.len() && objs[i].interfaces.view().contains_key("org.bluez.Device1"@)
                ==> exists|j: int| 0 <= j < c.len() && (#[trigger] c[j]) == device_object_record(objs[i]),
    ensures
        r.len() == c.len(),
        forall|i: int|
            0 <= i < objs.len() && objs[i].interfaces.view().contains_key("org.bluez.Device1"@)
                ==> exists|j: int| 0 <= j < r.len() && (#[trigger] r[j]) == device_object_record(objs[i]),
{
    vstd::seq_lib::to_multiset_len(r);
    vstd::seq_lib::to_multiset_len(c);
    assert forall|i: int|
        0 <= i < objs.len() && objs[i].interfaces.view().contains_key("org.bluez.Device1"@)
            implies exists|j: int| 0 <= j < r.len() && (#[trigger] r[j]) == device_object_record(objs[i]) by {
        let j = choose|j: int| 0 <= j < c.len() && (#[trigger] c[j]) == device_object_record(objs[i]);
        let x = c[j];
        vstd::seq_lib::to_multiset_contains(c, x);
        vstd::seq_lib::to_multiset_contains(r, x);
        assert(c.contains(x));
        let k = choose|k: int| 0 <= k < r.len() && r[k] == x;
        assert(r[k] == device_object_record(objs[i]));
    }
}

proof fn lemma_collect_devices_from_objects(objs: Seq<ManagedObject>)
    ensures
        forall|j: int| #![trigger collect_devices_spec(objs)[j]]
            0 <= j < collect_devices_spec(objs).len() ==> exists|i: int|
                0 <= i < objs.len() && (#[trigger] objs[i]).interfaces.view().contains_key(
                    "org.bluez.Device1"@) && collect_devices_spec(objs)[j] == device_object_record(
                    objs[i]),
    decreases objs.len(),
{
    if objs.len() > 0 {
        let t = objs.drop_last();
        let last = objs.last();
        lemma_collect_devices_from_objects(t);
        let c = collect_devices_spec(objs);
        let ct = collect_devices_spec(t);
        assert forall|j: int| #![trigger c[j]] 0 <= j < c.len() implies exists|i: int|
            0 <= i < objs.len() && (#[trigger] objs[i]).interfaces.view().contains_key(
                "org.bluez.Device1"@) && c[j] == device_object_record(objs[i]) by {
            if j < ct.len() {
                assert(c[j] == ct[j]);
                let i = choose|i: int|
                    0 <= i < t.len() && (#[trigger] t[i]).interfaces.view().contains_key(
                        "org.bluez.Device1"@) && ct[j] == device_object_record(t[i]);
                assert(objs[i] == t[i]);
            } else {
                assert(objs[objs.len() - 1] == last);
            }
        }
    }
}

/// The device list holds no record but those of the objects that have the
/// device interface: each record is the one read from such an object.
pub proof fn lemma_device_records_come_from_objects(objs: Seq<ManagedObject>)
    ensures
        forall|j: int| #![trigger sort_devices_spec(collect_devices_spec(objs))[j]]
            0 <= j < sort_devices_spec(collect_devices_spec(objs)).len() ==> exists|i: int|
                0 <= i < objs.len() && (#[trigger] objs[i]).interfaces.view().contains_key(
                    "org.bluez.Device1"@) && sort_devices_spec(collect_devices_spec(objs))[j]
                    == device_object_record(objs[i]),
{
    let c = collect_devices_spec(objs);
    let r = sort_devices_spec(c);
    lemma_collect_devices_from_objects(objs);
    lemma_sort_devices_permutes(c);
    assert forall|j: int| #![trigger r[j]] 0 <= j < r.len() implies exists|i: int|
        0 <= i < objs.len() && (#[trigger] objs[i]).interfaces.view().contains_key(
            "org.bluez.Device1"@) && r[j] == device_object_record(objs[i]) by {
        let x = r[j];
        vstd::seq_lib::to_multiset_contains(r, x);
        vstd::seq_lib::to_multiset_contains(c, x);
        assert(r.contains(x));
        let k = choose|k: int| 0 <= k < c.len() && c[k] == x;
        assert(c[k] == x);
    }
}

/// The list order: a connected device comes before a disconnected one; with
/// the same connected state, a paired device before an unpaired one; with
/// both the same, the device whose name is lexicographically smaller.
pub proof fn lemma_device_before_rules(a: DeviceView, b: DeviceView)
    ensures
        a.is_connected && !b.is_connected ==> device_before(a, b) && !device_before(b, a),
        a.is_connected == b.is_connected && a.is_paired && !b.is_paired ==> device_before(a, b)
            && !device_before(b, a),
        a.is_connected == b.is_connected && a.is_paired == b.is_paired ==> (device_before(a, b)
            <==> seq_lt(a.name, b.name)),
{
}

/// Each field of a device record, read directly from the properties: a
/// value of the right type under its name is taken as it is, anything else
/// gives the field's fallback.
pub proof fn lemma_device_record_fields(
    path: Seq<char>,
    props: Map<Seq<char>, PropValue>,
    battery: Option<Map<Seq<char>, PropValue>>,
)
    ensures
        ({
            let d = device_spec(path, props, battery);
            &&& d.path == path
            &&& props.contains_key("Name"@) ==> (props["Name"@] matches PropValue::Str(n) ==> d.name == n@)
            &&& props.contains_key("Name"@) && !(props["Name"@] is Str) ==> d.name == "Unknown Device"@
            &&& !props.contains_key("Name"@) && props.contains_key("Alias"@) ==> (
                props["Alias"@] matches PropValue::Str(n) ==> d.name == n@)
            &&& !props.contains_key("Name"@) && !(props.contains_key("Alias"@) && props["Alias"@] is Str)
                ==> d.name == "Unknown Device"@
            &&& props.contains_key("Address"@) ==> (props["Address"@] matches PropValue::Str(x) ==> d.address == x@)
            &&& !(props.contains_key("Address"@) && props["Address"@] is Str) ==> d.address == Seq::<char>::empty()
            &&& props.contains_key("Connected"@) ==> (props["Connected"@] matches PropValue::Bool(b) ==> d.is_connected == b)
            &&& !(props.contains_key("Connected"@) && props["Connected"@] is Bool) ==> !d.is_connected
            &&& props.contains_key("Paired"@) ==> (props["Paired"@] matches PropValue::Bool(b) ==> d.is_paired == b)
            &&& !(props.contains_key("Paired"@) && props["Paired"@] is Bool) ==> !d.is_paired
            &&& props.contains_key("Trusted"@) ==> (props["Trusted"@] matches PropValue::Bool(b) ==> d.is_trusted == b)
            &&& !(props.contains_key("Trusted"@) && props["Trusted"@] is Bool) ==> !d.is_trusted
            &&& props.contains_key("RSSI"@) ==> (props["RSSI"@] matches PropValue::I16(v) ==> d.rssi == v)
            &&& !(props.contains_key("RSSI"@) && props["RSSI"@] is I16) ==> d.rssi == 0
            &&& props.contains_key("BatteryPercentage"@) ==> (props["BatteryPercentage"@] matches PropValue::U8(v)
                ==> d.battery_percentage == Some(v))
            &&& !(props.contains_key("BatteryPercentage"@) && props["BatteryPercentage"@] is U8) ==> (
                match battery {
                    Some(bat) => if bat.contains_key("Percentage"@) && bat["Percentage"@] is U8 {
                        d.battery_percentage == Some(bat["Percentage"@]->U8_0)
                    } else {
                        d.battery_percentage is None
                    },
                    None => d.battery_percentage is None,
                })
            &&& d.is_charging <==> (match battery {
                Some(bat) => bat.contains_key("State"@) && (bat["State"@] matches PropValue::Str(st)
                    && st@ == "charging"@),
                None => false,
            })
            &&& props.contains_key("Icon"@) ==> (props["Icon"@] matches PropValue::Str(i) ==> {
                &&& i@ == "phone"@ ==> d.device_type == Some(DeviceType::Phone)
                &&& i@ == "input-keyboard"@ ==> d.device_type == Some(DeviceType::Keyboard)
                &&& (i@ == "input-mouse"@ || i@ == "input-tablet"@) ==> d.device_type == Some(DeviceType::Mouse)
                &&& (i@ == "audio-card"@ || i@ == "audio-speakers"@ || i@ == "audio-headset"@
                    || i@ == "audio-headphones"@) ==> d.device_type == Some(DeviceType::Audio)
            })
            &&& !(props.contains_key("Icon"@) && props["Icon"@] is Str) ==> d.device_type is None
        }),
{
    reveal_strlit("phone");
    reveal_strlit("input-keyboard");
    reveal_strlit("input-mouse");
    reveal_strlit("input-tablet");
    reveal_strlit("audio-card");
    reveal_strlit("audio-speakers");
    reveal_strlit("audio-headset");
    reveal_strlit("audio-headphones");
    assert("input-keyboard"@[0] != "audio-speakers"@[0]);
    assert("input-keyboard"@ != "audio-speakers"@);
    assert("phone"@.len() == 5);
    assert("input-keyboard"@.len() == 14);
    assert("input-mouse"@.len() == 11);
    assert("input-tablet"@.len() == 12);
    assert("audio-card"@.len() == 10);
    assert("audio-speakers"@.len() == 14);
    assert("audio-headset"@.len() == 13);
    assert("audio-headphones"@.len() == 16);
}

} // verus!

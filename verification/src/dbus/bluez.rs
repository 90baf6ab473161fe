//! The decisions around each exchange with BlueZ: which method to call on
//! which object, how the rfkill report reads, when the adapter counts as
//! powered, and which error comes out where.

use vstd::prelude::*;
use vstd::string::*;
use crate::dbus::devices::ManagedObject;
use crate::dbus::properties::PropValue;
use crate::text::{contains_seq, contains_str};

verus! {

#[verifier::external_type_specification]
#[verifier::external_body]
pub struct ExConnection(zbus::Connection);

#[verifier::external_type_specification]
#[verifier::external_body]
pub struct ExVariantError(zbus::zvariant::Error);

/// The well-known bus name of BlueZ.
pub const BLUEZ_SERVICE: &'static str = "org.bluez";

/// The BlueZ interface of an adapter object.
pub const ADAPTER_INTERFACE: &'static str = "org.bluez.Adapter1";

/// The object on which BlueZ manages pairing agents.
pub const AGENT_MANAGER_PATH: &'static str = "/org/bluez";

/// The interface through which agents are registered.
pub const AGENT_MANAGER_INTERFACE: &'static str = "org.bluez.AgentManager1";

/// The object path at which the panel serves its pairing agent.
pub const AGENT_PATH: &'static str = "/com/orbit/agent";

/// The standard interface for reading and writing properties.
pub const PROPERTIES_INTERFACE: &'static str = "org.freedesktop.DBus.Properties";

/// The standard interface that lists the objects a service manages.
pub const OBJECT_MANAGER_INTERFACE: &'static str = "org.freedesktop.DBus.ObjectManager";

/// How often the adapter is checked before the panel gives up waiting for
/// it to power on.
pub const POWER_CHECK_ATTEMPTS: u32 = 6;

/// Milliseconds to wait after each check that did not find the adapter
/// powered.
pub const POWER_RETRY_DELAY_MS: u64 = 500;

/// Milliseconds to wait after unblocking the radio before reading its state.
pub const UNBLOCK_SETTLE_MS: u64 = 200;

/// A character that may stand in an element of a D-Bus object path: an
/// ASCII letter or digit, or `_`.
pub open spec fn is_path_element_char(c: char) -> bool {
    ||| 48 <= (c as int) <= 57
    ||| 65 <= (c as int) <= 90
    ||| 97 <= (c as int) <= 122
    ||| c == '_'
}

/// A D-Bus object path: `/` alone, or `/` followed by elements separated by
/// single `/`, each element one or more of ASCII letters, digits and `_`.
pub open spec fn valid_object_path(s: Seq<char>) -> bool {
    &&& s.len() >= 1
    &&& s[0] == '/'
    &&& forall|i: int| 0 <= i < s.len() ==> s[i] == '/' || is_path_element_char(#[trigger] s[i])
    &&& forall|i: int| 0 <= i < s.len() - 1 ==> !(#[trigger] s[i] == '/' && s[i + 1] == '/')
    &&& s.len() > 1 ==> s[s.len() - 1] != '/'
}

/// From position `i` on, each character of `s` may stand in a path, and
/// each `/` is followed by a character other than `/` (or is all of `s`).
spec fn path_chars_ok(s: Seq<char>, i: int) -> bool
    decreases s.len() - i,
{
    if i < 0 || i >= s.len() {
        true
    } else {
        &&& (s[i] == '/' || is_path_element_char(s[i]))
        &&& (s[i] == '/' ==> s.len() == 1 || (i + 1 < s.len() && s[i + 1] != '/'))
        &&& path_chars_ok(s, i + 1)
    }
}

proof fn lemma_path_chars_ok(s: Seq<char>, i: int)
    requires
        0 <= i,
        path_chars_ok(s, i),
    ensures
        forall|j: int| i <= j < s.len() ==> (s[j] == '/' || is_path_element_char(#[trigger] s[j]))
            && (s[j] == '/' ==> s.len() == 1 || (j + 1 < s.len() && s[j + 1] != '/')),
    decreases s.len() - i,
{
    if i < s.len() {
        lemma_path_chars_ok(s, i + 1);
    }
}

/// The agent manager's path and the agent's path are object paths.
proof fn lemma_agent_paths_valid()
    ensures
        valid_object_path(AGENT_MANAGER_PATH@),
        valid_object_path(AGENT_PATH@),
{
    reveal_strlit("/org/bluez");
    reveal_strlit("/com/orbit/agent");
    reveal_with_fuel(path_chars_ok, 17);
    assert(path_chars_ok(AGENT_MANAGER_PATH@, 0));
    assert(path_chars_ok(AGENT_PATH@, 0));
    lemma_path_chars_ok(AGENT_MANAGER_PATH@, 0);
    lemma_path_chars_ok(AGENT_PATH@, 0);
}

/// `zvariant::ObjectPath::try_from(&str)`: succeeds exactly on the strings
/// that are D-Bus object paths, as its validation (a `/`, then elements of
/// ASCII letters, digits and `_` separated by single `/`, the whole input
/// consumed) accepts them; which error comes out otherwise is not stated.
#[verifier::external_body]
fn check_object_path(s: &str) -> (r: Result<(), zbus::zvariant::Error>)
    ensures
        r is Ok <==> valid_object_path(s@),
{
    match zbus::zvariant::ObjectPath::try_from(s) {
        Ok(_) => Ok(()),
        Err(e) => Err(e),
    }
}

/// What goes wrong in an exchange with BlueZ. `Address` carries a message;
/// `Variant` an invalid object path; `IncorrectType` a reply value of the
/// wrong type.
#[derive(Debug)]
pub enum BluezError {
    Address(String),
    Variant(zbus::zvariant::Error),
    IncorrectType,
}

/// The body of a method call.
#[derive(Debug)]
pub enum CallBody {
    /// No arguments.
    Empty,
    /// One object path.
    Path(String),
    /// An object path and a string.
    PathAndStr(String, String),
    /// One string.
    Str(String),
    /// Two strings.
    TwoStr(String, String),
    /// Two strings and a boolean wrapped as a variant.
    SetBool(String, String, bool),
}

/// The contents of a call body, strings taken by their characters.
pub enum CallBodyView {
    Empty,
    Path(Seq<char>),
    PathAndStr(Seq<char>, Seq<char>),
    Str(Seq<char>),
    TwoStr(Seq<char>, Seq<char>),
    SetBool(Seq<char>, Seq<char>, bool),
}

impl View for CallBody {
    type V = CallBodyView;

    open spec fn view(&self) -> CallBodyView {
        match self {
            CallBody::Empty => CallBodyView::Empty,
            CallBody::Path(p) => CallBodyView::Path(p@),
            CallBody::PathAndStr(p, s) => CallBodyView::PathAndStr(p@, s@),
            CallBody::Str(s) => CallBodyView::Str(s@),
            CallBody::TwoStr(a, b) => CallBodyView::TwoStr(a@, b@),
            CallBody::SetBool(a, b, v) => CallBodyView::SetBool(a@, b@, *v),
        }
    }
}

/// A method call to make on the bus.
#[derive(Debug)]
pub struct MethodCall {
    pub destination: String,
    pub path: String,
    pub interface: String,
    pub member: String,
    pub body: CallBody,
}

/// The contents of a method call.
pub struct MethodCallView {
    pub destination: Seq<char>,
    pub path: Seq<char>,
    pub interface: Seq<char>,
    pub member: Seq<char>,
    pub body: CallBodyView,
}

impl View for MethodCall {
    type V = MethodCallView;

    open spec fn view(&self) -> MethodCallView {
        MethodCallView {
            destination: self.destination@,
            path: self.path@,
            interface: self.interface@,
            member: self.member@,
            body: self.body@,
        }
    }
}

/// A call to BlueZ.
pub open spec fn bluez_call(path: Seq<char>, interface: Seq<char>, member: Seq<char>, body: CallBodyView) -> MethodCallView {
    MethodCallView { destination: BLUEZ_SERVICE@, path, interface, member, body }
}

fn make_call(path: &str, interface: &str, member: &str, body: CallBody) -> (c: MethodCall)
    ensures
        c@ == bluez_call(path@, interface@, member@, body@),
{
    MethodCall {
        destination: String::from_str(BLUEZ_SERVICE),
        path: String::from_str(path),
        interface: String::from_str(interface),
        member: String::from_str(member),
        body,
    }
}

/// The error for a string that is not an object path.
fn path_error(s: &str) -> (r: Result<(), BluezError>)
    ensures
        r is Ok <==> valid_object_path(s@),
        r is Err ==> r matches Err(BluezError::Variant(_)),
{
    match check_object_path(s) {
        Ok(()) => Ok(()),
        Err(e) => Err(BluezError::Variant(e)),
    }
}

/// The result of a call on the device at `path`: an invalid path gives
/// `Variant`, any other the call.
pub open spec fn device_call_ok(r: Result<MethodCall, BluezError>, path: Seq<char>, c: MethodCallView) -> bool {
    &&& valid_object_path(path) ==> (r matches Ok(m) && m@ == c)
    &&& !valid_object_path(path) ==> (r matches Err(BluezError::Variant(_)))
}

fn device_call(path: &str, member: &str) -> (r: Result<MethodCall, BluezError>)
    ensures
        device_call_ok(r, path@, bluez_call(path@, crate::dbus::devices::DEVICE_INTERFACE@, member@, CallBodyView::Empty)),
{
    match path_error(path) {
        Ok(()) => Ok(make_call(path, crate::dbus::devices::DEVICE_INTERFACE, member, CallBody::Empty)),
        Err(e) => Err(e),
    }
}

/// The call that connects the device at `path`.
pub fn connect_device_call(path: &str) -> (r: Result<MethodCall, BluezError>)
    ensures
        device_call_ok(r, path@, bluez_call(path@, "org.bluez.Device1"@, "Connect"@, CallBodyView::Empty)),
{
    device_call(path, "Connect")
}

/// The call that disconnects the device at `path`.
pub fn disconnect_device_call(path: &str) -> (r: Result<MethodCall, BluezError>)
    ensures
        device_call_ok(r, path@, bluez_call(path@, "org.bluez.Device1"@, "Disconnect"@, CallBodyView::Empty)),
{
    device_call(path, "Disconnect")
}

/// The call that pairs with the device at `path`.
pub fn pair_device_call(path: &str) -> (r: Result<MethodCall, BluezError>)
    ensures
        device_call_ok(r, path@, bluez_call(path@, "org.bluez.Device1"@, "Pair"@, CallBodyView::Empty)),
{
    device_call(path, "Pair")
}

/// The call that marks the device at `path` as trusted or not.
pub fn set_trusted_call(path: &str, trusted: bool) -> (r: Result<MethodCall, BluezError>)
    ensures
        device_call_ok(r, path@, bluez_call(path@, PROPERTIES_INTERFACE@, "Set"@,
            CallBodyView::SetBool("org.bluez.Device1"@, "Trusted"@, trusted))),
{
    match path_error(path) {
        Ok(()) => Ok(make_call(path, PROPERTIES_INTERFACE, "Set", CallBody::SetBool(
            String::from_str(crate::dbus::devices::DEVICE_INTERFACE),
            String::from_str("Trusted"),
            trusted,
        ))),
        Err(e) => Err(e),
    }
}

/// The call that reads every property of the device at `path`.
pub fn device_properties_call(path: &str) -> (r: Result<MethodCall, BluezError>)
    ensures
        device_call_ok(r, path@, bluez_call(path@, PROPERTIES_INTERFACE@, "GetAll"@,
            CallBodyView::Str("org.bluez.Device1"@))),
{
    match path_error(path) {
        Ok(()) => Ok(make_call(path, PROPERTIES_INTERFACE, "GetAll", CallBody::Str(
            String::from_str(crate::dbus::devices::DEVICE_INTERFACE),
        ))),
        Err(e) => Err(e),
    }
}

/// The call that reads every property of the battery of the device at
/// `path`.
pub fn battery_properties_call(path: &str) -> (r: Result<MethodCall, BluezError>)
    ensures
        device_call_ok(r, path@, bluez_call(path@, PROPERTIES_INTERFACE@, "GetAll"@,
            CallBodyView::Str("org.bluez.Battery1"@))),
{
    match path_error(path) {
        Ok(()) => Ok(make_call(path, PROPERTIES_INTERFACE, "GetAll", CallBody::Str(
            String::from_str(crate::dbus::devices::BATTERY_INTERFACE),
        ))),
        Err(e) => Err(e),
    }
}

/// The call that lists every object that BlueZ manages.
pub fn managed_objects_call() -> (c: MethodCall)
    ensures
        c@ == bluez_call("/"@, OBJECT_MANAGER_INTERFACE@, "GetManagedObjects"@, CallBodyView::Empty),
{
    make_call("/", OBJECT_MANAGER_INTERFACE, "GetManagedObjects", CallBody::Empty)
}

/// The calls that register the panel's agent and make it the default one:
/// first `RegisterAgent` with the agent's path and the capability
/// "KeyboardDisplay", then `RequestDefaultAgent`, both on the agent manager.
/// Both paths are checked as object paths first, and both pass.
pub fn agent_registration_calls() -> (r: Result<Vec<MethodCall>, BluezError>)
    ensures
        r matches Ok(calls) && calls@.len() == 2
            && calls@[0]@ == bluez_call(AGENT_MANAGER_PATH@, AGENT_MANAGER_INTERFACE@, "RegisterAgent"@,
                CallBodyView::PathAndStr(AGENT_PATH@, "KeyboardDisplay"@))
            && calls@[1]@ == bluez_call(AGENT_MANAGER_PATH@, AGENT_MANAGER_INTERFACE@, "RequestDefaultAgent"@,
                CallBodyView::Path(AGENT_PATH@)),
{
    proof {
        lemma_agent_paths_valid();
    }
    match path_error(AGENT_MANAGER_PATH) {
        Ok(()) => {},
        Err(e) => return Err(e),
    }
    match path_error(AGENT_PATH) {
        Ok(()) => {},
        Err(e) => return Err(e),
    }
    let mut calls: Vec<MethodCall> = Vec::new();
    calls.push(make_call(AGENT_MANAGER_PATH, AGENT_MANAGER_INTERFACE, "RegisterAgent",
        CallBody::PathAndStr(String::from_str(AGENT_PATH), String::from_str("KeyboardDisplay"))));
    calls.push(make_call(AGENT_MANAGER_PATH, AGENT_MANAGER_INTERFACE, "RequestDefaultAgent",
        CallBody::Path(String::from_str(AGENT_PATH))));
    Ok(calls)
}

/// The path of the first object among `objs` that is an adapter.
pub open spec fn adapter_path_spec(objs: Seq<ManagedObject>) -> Option<Seq<char>>
    decreases objs.len(),
{
    if objs.len() == 0 {
        None
    } else if objs[0].interfaces.view().contains_key(ADAPTER_INTERFACE@) {
        Some(objs[0].path@)
    } else {
        adapter_path_spec(objs.drop_first())
    }
}

/// The path of the first object among `objects` that has the adapter
/// interface; `None` where no object has it.
pub fn find_adapter(objects: &Vec<ManagedObject>) -> (r: Option<String>)
    ensures
        match r {
            Some(p) => adapter_path_spec(objects@) == Some(p@),
            None => adapter_path_spec(objects@) is None,
        },
        r is None <==> forall|i: int|
            0 <= i < objects@.len() ==> !(#[trigger] objects@[i]).interfaces.view().contains_key(
                "org.bluez.Adapter1"@),
        forall|i: int|
            0 <= i < objects@.len() && (#[trigger] objects@[i]).interfaces.view().contains_key(
                "org.bluez.Adapter1"@) && (forall|j: int|
                0 <= j < i ==> !objects@[j].interfaces.view().contains_key("org.bluez.Adapter1"@))
                ==> opt_str_view(r) == Some(objects@[i].path@),
{
    proof {
        lemma_adapter_is_first(objects@);
    }
    let mut i: usize = 0;
    assert(objects@.skip(0) =~= objects@);
    while i < objects.len()
        invariant
            i <= objects@.len(),
            adapter_path_spec(objects@) == adapter_path_spec(objects@.skip(i as int)),
        decreases objects.len() - i,
    {
        proof {
            assert(objects@.skip(i as int)[0] == objects@[i as int]);
            assert(objects@.skip(i as int).drop_first() =~= objects@.skip(i + 1));
        }
        if objects[i].interfaces.contains_key(ADAPTER_INTERFACE) {
            let p = objects[i].path.clone();
            proof {
                assert forall|k: int|
                    0 <= k < objects@.len() && (#[trigger] objects@[k]).interfaces.view().contains_key(
                        "org.bluez.Adapter1"@) && (forall|j: int|
                        0 <= j < k ==> !objects@[j].interfaces.view().contains_key("org.bluez.Adapter1"@))
                        implies opt_str_view(Some(p)) == Some(objects@[k].path@) by {
                    lemma_adapter_is_first(objects@);
                }
            }
            return Some(p);
        }
        i = i + 1;
    }
    None
}

/// The adapter is the first object that has the adapter interface: there is
/// one exactly where some object has that interface, and then it is the
/// path of the first such object.
pub proof fn lemma_adapter_is_first(objs: Seq<ManagedObject>)
    ensures
        adapter_path_spec(objs) is None <==> forall|i: int|
            0 <= i < objs.len() ==> !(#[trigger] objs[i]).interfaces.view().contains_key(
                "org.bluez.Adapter1"@),
        forall|i: int|
            0 <= i < objs.len() && (#[trigger] objs[i]).interfaces.view().contains_key(
                "org.bluez.Adapter1"@) && (forall|j: int|
                0 <= j < i ==> !objs[j].interfaces.view().contains_key("org.bluez.Adapter1"@))
                ==> adapter_path_spec(objs) == Some(objs[i].path@),
    decreases objs.len(),
{
    if objs.len() > 0 {
        let t = objs.drop_first();
        lemma_adapter_is_first(t);
        if !objs[0].interfaces.view().contains_key("org.bluez.Adapter1"@) {
            assert forall|i: int| 0 < i < objs.len() implies #[trigger] objs[i] == t[i - 1] by {}
            assert forall|i: int| 0 <= i < t.len() implies #[trigger] t[i] == objs[i + 1] by {}
            assert forall|i: int|
                0 <= i < objs.len() && (#[trigger] objs[i]).interfaces.view().contains_key(
                    "org.bluez.Adapter1"@) && (forall|j: int|
                    0 <= j < i ==> !objs[j].interfaces.view().contains_key("org.bluez.Adapter1"@))
                    implies adapter_path_spec(objs) == Some(objs[i].path@) by {
                assert(objs[i] == t[i - 1]);
                assert forall|j: int| 0 <= j < i - 1 implies !t[j].interfaces.view().contains_key(
                    "org.bluez.Adapter1"@) by {
                    assert(t[j] == objs[j + 1]);
                }
            }
        }
    }
}

/// `<zbus::Connection as Clone>::clone`: another handle on the same bus
/// connection. Nothing is stated of the result: a connection is opaque here.
pub assume_specification[ <zbus::Connection as Clone>::clone ](c: &zbus::Connection) -> zbus::Connection;

/// The adapter's path, by its characters.
pub open spec fn opt_str_view(o: Option<String>) -> Option<Seq<char>> {
    match o {
        Some(s) => Some(s@),
        None => None,
    }
}

/// The error when no adapter was found.
pub open spec fn no_adapter(e: BluezError) -> bool {
    e matches BluezError::Address(m) && m@ == "No Bluetooth adapter found"@
}

/// The result of a call on the adapter: no adapter gives the "no adapter"
/// error, an adapter path that is no object path `Variant`, any other the
/// call `c` on the adapter.
pub open spec fn adapter_call_ok(
    r: Result<MethodCall, BluezError>,
    adapter: Option<Seq<char>>,
    c: spec_fn(Seq<char>) -> MethodCallView,
) -> bool {
    match adapter {
        None => r matches Err(e) && no_adapter(e),
        Some(a) => {
            &&& valid_object_path(a) ==> (r matches Ok(m) && m@ == c(a))
            &&& !valid_object_path(a) ==> (r matches Err(BluezError::Variant(_)))
        },
    }
}

fn no_adapter_error() -> (e: BluezError)
    ensures
        no_adapter(e),
{
    BluezError::Address(String::from_str("No Bluetooth adapter found"))
}

/// What the panel knows of BlueZ besides the connection: the adapter found
/// when the connection was opened, and whether its pairing agent is
/// registered.
#[derive(Debug, Clone)]
pub struct ManagerState {
    adapter_path: Option<String>,
    agent_registered: bool,
}

/// The panel's handle on BlueZ: the bus connection and what it knows.
#[derive(Clone)]
pub struct BluetoothManager {
    conn: zbus::Connection,
    state: ManagerState,
}

impl BluetoothManager {
    /// A handle on `conn` with the adapter at `adapter_path`, if one was
    /// found, and no agent registered yet.
    pub fn from_parts(conn: zbus::Connection, adapter_path: Option<String>) -> (m: Self)
        ensures
            m.bus() == conn,
            opt_str_view(m.state().adapter_path()) == opt_str_view(adapter_path),
            !m.state().agent_registered(),
    {
        BluetoothManager { conn, state: ManagerState::new(adapter_path) }
    }

    /// The bus connection the handle was opened with.
    pub closed spec fn bus(&self) -> zbus::Connection {
        self.conn
    }

    /// What the handle knows.
    pub closed spec fn state(&self) -> ManagerState {
        self.state
    }

    /// The bus connection.
    pub fn connection(&self) -> (c: &zbus::Connection)
        ensures
            *c == self.bus(),
    {
        &self.conn
    }

    /// What the handle knows of BlueZ.
    pub fn known(&self) -> (s: &ManagerState)
        ensures
            *s == self.state(),
    {
        &self.state
    }

    /// Records that the pairing agent is registered; the adapter stays.
    pub fn mark_agent_registered(&mut self)
        ensures
            final(self).state().agent_registered(),
            opt_str_view(final(self).state().adapter_path()) == opt_str_view(old(self).state().adapter_path()),
            final(self).bus() == old(self).bus(),
    {
        self.state.mark_agent_registered();
    }
}

impl ManagerState {
    /// The state with the adapter at `adapter_path`, if one was found, and no
    /// agent registered yet.
    pub fn new(adapter_path: Option<String>) -> (m: Self)
        ensures
            opt_str_view(m.adapter_path()) == opt_str_view(adapter_path),
            !m.agent_registered(),
    {
        ManagerState { adapter_path, agent_registered: false }
    }

    /// The adapter's path.
    pub closed spec fn adapter_path(&self) -> Option<String> {
        self.adapter_path
    }

    /// Whether the pairing agent is registered.
    pub closed spec fn agent_registered(&self) -> bool {
        self.agent_registered
    }

    /// Whether the pairing agent still has to be registered.
    pub fn needs_agent(&self) -> (r: bool)
        ensures
            r == !self.agent_registered(),
    {
        !self.agent_registered
    }

    /// Records that the pairing agent is registered; the adapter stays.
    pub fn mark_agent_registered(&mut self)
        ensures
            final(self).agent_registered(),
            opt_str_view(final(self).adapter_path()) == opt_str_view(old(self).adapter_path()),
    {
        self.agent_registered = true;
    }

    fn adapter_call(&self, interface: &str, member: &str, body: CallBody) -> (r: Result<MethodCall, BluezError>)
        ensures
            adapter_call_ok(r, opt_str_view(self.adapter_path()), |a: Seq<char>| bluez_call(a, interface@, member@, body@)),
    {
        match &self.adapter_path {
            None => Err(no_adapter_error()),
            Some(a) => match path_error(a.as_str()) {
                Ok(()) => Ok(make_call(a.as_str(), interface, member, body)),
                Err(e) => Err(e),
            },
        }
    }

    /// The call that starts discovery on the adapter.
    pub fn start_discovery_call(&self) -> (r: Result<MethodCall, BluezError>)
        ensures
            adapter_call_ok(r, opt_str_view(self.adapter_path()),
                |a: Seq<char>| bluez_call(a, ADAPTER_INTERFACE@, "StartDiscovery"@, CallBodyView::Empty)),
    {
        self.adapter_call(ADAPTER_INTERFACE, "StartDiscovery", CallBody::Empty)
    }

    /// The call that stops discovery on the adapter.
    pub fn stop_discovery_call(&self) -> (r: Result<MethodCall, BluezError>)
        ensures
            adapter_call_ok(r, opt_str_view(self.adapter_path()),
                |a: Seq<char>| bluez_call(a, ADAPTER_INTERFACE@, "StopDiscovery"@, CallBodyView::Empty)),
    {
        self.adapter_call(ADAPTER_INTERFACE, "StopDiscovery", CallBody::Empty)
    }

    /// The call that reads the adapter's `Powered` property.
    pub fn powered_query_call(&self) -> (r: Result<MethodCall, BluezError>)
        ensures
            adapter_call_ok(r, opt_str_view(self.adapter_path()),
                |a: Seq<char>| bluez_call(a, PROPERTIES_INTERFACE@, "Get"@,
                    CallBodyView::TwoStr(ADAPTER_INTERFACE@, "Powered"@))),
    {
        self.adapter_call(PROPERTIES_INTERFACE, "Get", CallBody::TwoStr(
            String::from_str(ADAPTER_INTERFACE), String::from_str("Powered")))
    }

    /// The call that removes the device at `path` from the adapter: the
    /// adapter's errors first, then `Variant` where `path` is no object path.
    pub fn forget_device_call(&self, path: &str) -> (r: Result<MethodCall, BluezError>)
        ensures
            match opt_str_view(self.adapter_path()) {
                None => r matches Err(e) && no_adapter(e),
                Some(a) => {
                    &&& !valid_object_path(a) ==> (r matches Err(BluezError::Variant(_)))
                    &&& valid_object_path(a) ==> device_call_ok(r, path@,
                        bluez_call(a, ADAPTER_INTERFACE@, "RemoveDevice"@, CallBodyView::Path(path@)))
                },
            },
    {
        match &self.adapter_path {
            None => Err(no_adapter_error()),
            Some(a) => match path_error(a.as_str()) {
                Err(e) => Err(e),
                Ok(()) => match path_error(path) {
                    Err(e) => Err(e),
                    Ok(()) => Ok(make_call(a.as_str(), ADAPTER_INTERFACE, "RemoveDevice",
                        CallBody::Path(String::from_str(path)))),
                },
            },
        }
    }
}

/// The characters of a `Result` whose error is a message.
pub open spec fn msg_result_view(r: Result<bool, String>) -> Result<bool, Seq<char>> {
    match r {
        Ok(b) => Ok(b),
        Err(m) => Err(m@),
    }
}

/// The message when the radio is blocked in hardware.
pub const HARD_BLOCKED_MESSAGE: &'static str =
    "Bluetooth is hard-blocked. Check your hardware switch or BIOS settings.";

/// What `rfkill list bluetooth` reports, read from whether the command
/// succeeded and its output in lower case: a failed command is an error; a
/// soft block means "not powered"; a hard block is an error; anything else
/// means "powered".
pub open spec fn rfkill_status_spec(success: bool, lower: Seq<char>) -> Result<bool, Seq<char>> {
    if !success {
        Err("rfkill command failed"@)
    } else if contains_seq(lower, "soft blocked: yes"@) {
        Ok(false)
    } else if contains_seq(lower, "hard blocked: yes"@) {
        Err(HARD_BLOCKED_MESSAGE@)
    } else {
        Ok(true)
    }
}

/// The result of `str::to_lowercase` on a string, by its characters.
pub uninterp spec fn unicode_lowercase(s: Seq<char>) -> Seq<char>;

/// `str::to_lowercase`: the lower-case form of `s` as Unicode defines it,
/// named by `unicode_lowercase`; nothing more is stated of it.
#[verifier::external_body]
fn to_lowercase(s: &str) -> (r: String)
    ensures
        r@ == unicode_lowercase(s@),
{
    s.to_lowercase()
}

/// Reads the report of `rfkill list bluetooth` from whether the command
/// succeeded and its output already in lower case.
pub fn rfkill_status_from_lowercase(success: bool, lower: &str) -> (r: Result<bool, String>)
    ensures
        msg_result_view(r) == rfkill_status_spec(success, lower@),
        !success ==> msg_result_view(r) == Err::<bool, Seq<char>>("rfkill command failed"@),
        success && contains_seq(lower@, "soft blocked: yes"@) ==> r == Ok::<bool, String>(false),
        success && !contains_seq(lower@, "soft blocked: yes"@) && contains_seq(lower@, "hard blocked: yes"@)
            ==> msg_result_view(r) == Err::<bool, Seq<char>>(
            "Bluetooth is hard-blocked. Check your hardware switch or BIOS settings."@),
        success && !contains_seq(lower@, "soft blocked: yes"@) && !contains_seq(lower@, "hard blocked: yes"@)
            ==> r == Ok::<bool, String>(true),
{
    if !success {
        return Err(String::from_str("rfkill command failed"));
    }
    if contains_str(lower, "soft blocked: yes") {
        return Ok(false);
    }
    if contains_str(lower, "hard blocked: yes") {
        return Err(String::from_str(HARD_BLOCKED_MESSAGE));
    }
    Ok(true)
}

/// Reads the report of `rfkill list bluetooth` from whether the command
/// succeeded and its output, compared in lower case.
pub fn check_rfkill_status(success: bool, stdout: &str) -> (r: Result<bool, String>)
    ensures
        msg_result_view(r) == rfkill_status_spec(success, unicode_lowercase(stdout@)),
{
    if !success {
        return Err(String::from_str("rfkill command failed"));
    }
    let lower = to_lowercase(stdout);
    rfkill_status_from_lowercase(true, lower.as_str())
}

/// The outcome of powering the radio on, from the rfkill report read after
/// unblocking it: powered is success; still blocked is an error; a report
/// that the radio is hard-blocked is passed on; any other failure to read
/// the report counts as success.
pub fn power_on_outcome(status: Result<bool, String>) -> (r: Result<(), BluezError>)
    ensures
        match status {
            Ok(true) => r is Ok,
            Ok(false) => r matches Err(BluezError::Address(m))
                && m@ == "Bluetooth is blocked. Failed to unblock."@,
            Err(msg) => if contains_seq(msg@, "hard-blocked"@) {
                r matches Err(BluezError::Address(m)) && m@ == msg@
            } else {
                r is Ok
            },
        },
{
    match status {
        Ok(true) => Ok(()),
        Ok(false) => Err(BluezError::Address(String::from_str("Bluetooth is blocked. Failed to unblock."))),
        Err(msg) => {
            if contains_str(msg.as_str(), "hard-blocked") {
                Err(BluezError::Address(msg))
            } else {
                Ok(())
            }
        },
    }
}

/// How the power state is found out: known from rfkill, to be asked of the
/// adapter with a call, or not to be had.
#[derive(Debug)]
pub enum PowerCheck {
    Known(bool),
    Query(MethodCall),
    Failed(BluezError),
}

/// A power check that is not known, as a call or an error.
pub open spec fn power_check_call(c: PowerCheck) -> Result<MethodCall, BluezError> {
    match c {
        PowerCheck::Query(m) => Ok(m),
        PowerCheck::Failed(e) => Err(e),
        PowerCheck::Known(_) => Err(BluezError::IncorrectType),
    }
}

/// The value of the adapter's `Powered` property: a boolean, or
/// `IncorrectType` for any other value.
pub fn powered_from_reply(v: &PropValue) -> (r: Result<bool, BluezError>)
    ensures
        match v {
            PropValue::Bool(b) => r == Ok::<bool, BluezError>(*b),
            _ => r matches Err(BluezError::IncorrectType),
        },
{
    match v {
        PropValue::Bool(b) => Ok(*b),
        _ => Err(BluezError::IncorrectType),
    }
}

/// The steps of waiting for the adapter to power on.
#[derive(Debug, Clone, Copy, PartialEq, Eq, Structural)]
pub enum PowerWait {
    /// The adapter is powered.
    Ready,
    /// Wait, then check again.
    Retry,
    /// Wait, then give up.
    GiveUp,
}

/// The step after a check, with `failed_checks` earlier checks that did not
/// find the adapter powered.
pub open spec fn power_wait_spec(failed_checks: nat, powered: bool) -> PowerWait {
    if powered {
        PowerWait::Ready
    } else if failed_checks + 1 < POWER_CHECK_ATTEMPTS {
        PowerWait::Retry
    } else {
        PowerWait::GiveUp
    }
}

/// The step after a check that found the adapter `powered` or not, with
/// `failed_checks` earlier checks that did not.
pub fn power_wait_step(failed_checks: u32, powered: bool) -> (r: PowerWait)
    ensures
        r == power_wait_spec(failed_checks as nat, powered),
{
    if powered {
        PowerWait::Ready
    } else if failed_checks < POWER_CHECK_ATTEMPTS - 1 {
        PowerWait::Retry
    } else {
        PowerWait::GiveUp
    }
}

/// The error after giving up on the adapter.
pub fn not_powered_error() -> (e: BluezError)
    ensures
        e matches BluezError::Address(m) && m@ == "Bluetooth adapter is not powered on"@,
{
    BluezError::Address(String::from_str("Bluetooth adapter is not powered on"))
}

/// Waiting driven by the check results `obs`, from `failed` failed checks:
/// whether it ends powered and after how many checks in all; `None` where
/// the results run out first.
pub open spec fn power_wait_run(failed: nat, obs: Seq<bool>) -> Option<(bool, nat)>
    decreases obs.len(),
{
    if obs.len() == 0 {
        None
    } else {
        match power_wait_spec(failed, obs[0]) {
            PowerWait::Ready => Some((true, failed + 1)),
            PowerWait::GiveUp => Some((false, failed + 1)),
            PowerWait::Retry => power_wait_run(failed + 1, obs.drop_first()),
        }
    }
}

proof fn lemma_power_wait_run_from(f: nat, obs: Seq<bool>)
    requires
        f < 6,
        obs.len() >= 6 - f,
    ensures
        power_wait_run(f, obs) is Some,
        ({
            let (ok, checks) = power_wait_run(f, obs)->0;
            &&& f < checks <= 6
            &&& ok <==> exists|i: int| 0 <= i < 6 - f && obs[i]
            &&& ok ==> obs[checks - f - 1] && forall|j: int| 0 <= j < checks - f - 1 ==> !obs[j]
            &&& !ok ==> checks == 6
        }),
    decreases 6 - f,
{
    if obs[0] {
    } else if f + 1 < 6 {
        let rest = obs.drop_first();
        lemma_power_wait_run_from(f + 1, rest);
        let (ok, checks) = power_wait_run(f, obs)->0;
        if ok {
            assert forall|j: int| 0 <= j < checks - f - 1 implies !obs[j] by {
                if j > 0 {
                    assert(obs[j] == rest[j - 1]);
                }
            }
            assert(obs[checks - f - 1] == rest[checks - (f + 1) - 1]);
        } else {
            assert forall|i: int| 0 <= i < 6 - f implies !obs[i] by {
                if i > 0 {
                    assert(obs[i] == rest[i - 1]);
                }
            }
        }
        if exists|i: int| 0 <= i < 6 - f && obs[i] {
            let i = choose|i: int| 0 <= i < 6 - f && obs[i];
            assert(i > 0);
            assert(rest[i - 1]);
        }
    } else {
        assert forall|i: int| 0 <= i < 6 - f implies !obs[i] by {}
    }
}

/// Waiting for the adapter checks it at most six times, waiting after each
/// check that does not find it powered; it ends powered exactly when one of
/// the first six checks finds it powered, after that first such check, and
/// otherwise gives up after the sixth.
pub proof fn lemma_power_wait_bounded(obs: Seq<bool>)
    requires
        obs.len() >= POWER_CHECK_ATTEMPTS,
    ensures
        power_wait_run(0, obs) is Some,
        ({
            let (ok, checks) = power_wait_run(0, obs)->0;
            &&& 1 <= checks <= POWER_CHECK_ATTEMPTS
            &&& ok <==> exists|i: int| 0 <= i < POWER_CHECK_ATTEMPTS && obs[i]
            &&& ok ==> obs[checks - 1] && forall|j: int| 0 <= j < checks - 1 ==> !obs[j]
            &&& !ok ==> checks == POWER_CHECK_ATTEMPTS
        }),
{
    lemma_power_wait_run_from(0, obs);
}

impl ManagerState {
    /// How to find out whether the adapter is powered, given the rfkill
    /// report: a report that was read settles it; otherwise the adapter's
    /// `Powered` property is to be read, which needs an adapter with a valid
    /// object path.
    pub fn powered_check(&self, rfkill: Result<bool, String>) -> (r: PowerCheck)
        ensures
            match rfkill {
                Ok(p) => r == PowerCheck::Known(p),
                Err(_) => !(r is Known) && adapter_call_ok(power_check_call(r), opt_str_view(self.adapter_path()),
                    |a: Seq<char>| bluez_call(a, PROPERTIES_INTERFACE@, "Get"@,
                        CallBodyView::TwoStr(ADAPTER_INTERFACE@, "Powered"@))),
            },
    {
        match rfkill {
            Ok(p) => PowerCheck::Known(p),
            Err(_) => match self.powered_query_call() {
                Ok(c) => PowerCheck::Query(c),
                Err(e) => PowerCheck::Failed(e),
            },
        }
    }
}

} // verus!

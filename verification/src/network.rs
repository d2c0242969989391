//! The NetworkManager inventory and the request plans built from it.
use crate::text::{chars_of, copy_string, str_eq};
use crate::tray::item::{is_object_path, object_path_valid};
use vstd::prelude::*;

verus! {

/// A network device.
#[derive(Clone, Debug, PartialEq, Eq)]
pub struct Device {
    pub id: String,
    pub interface: String,
    pub description: String,
    pub kind: u32,
    pub state: u32,
    pub managed: bool,
    pub carrier: bool,
    pub available_connections: Vec<String>,
    pub active_connection: Option<String>,
}

/// A Wi-Fi access point seen by a device.
#[derive(Clone, Debug, PartialEq, Eq)]
pub struct AccessPoint {
    pub id: String,
    pub device: String,
    pub ssid: Vec<u8>,
    pub name: String,
    pub strength: u8,
    pub flags: u32,
    pub wpa_flags: u32,
    pub rsn_flags: u32,
    pub active: bool,
}

/// A saved connection profile.
#[derive(Clone, Debug, PartialEq, Eq)]
pub struct SavedConnection {
    pub id: String,
    pub uuid: String,
    pub name: String,
    pub kind: String,
    pub ssid: Option<Vec<u8>>,
    pub last_used: u64,
}

/// Whether a connection type is a VPN.
pub open spec fn vpn_kind(kind: Seq<char>) -> bool {
    kind == "vpn"@ || kind == "wireguard"@
}

impl SavedConnection {
    /// Whether this profile is a VPN (including WireGuard).
    pub fn is_vpn(&self) -> (r: bool)
        ensures
            r == vpn_kind(self.kind@),
    {
        str_eq(self.kind.as_str(), "vpn") || str_eq(self.kind.as_str(), "wireguard")
    }
}

/// A connection that is active or activating.
#[derive(Clone, Debug, PartialEq, Eq)]
pub struct ActiveConnection {
    pub id: String,
    pub connection: Option<String>,
    pub name: String,
    pub kind: String,
    pub state: u32,
    pub devices: Vec<String>,
}

/// The NetworkManager state the shell shows.
#[derive(Clone, Debug, PartialEq, Eq)]
pub struct NetworkState {
    pub available: bool,
    pub state: u32,
    pub networking_enabled: bool,
    pub wireless_enabled: bool,
    pub wireless_hardware_enabled: bool,
    pub primary: Option<String>,
    pub devices: Vec<Device>,
    pub access_points: Vec<AccessPoint>,
    pub connections: Vec<SavedConnection>,
    pub active_connections: Vec<ActiveConnection>,
}

/// The NetworkManager device type of Wi-Fi devices.
pub const WIFI: u32 = 2;

/// Whether some device is a Wi-Fi device.
pub open spec fn wifi_present(devices: Seq<Device>) -> bool {
    exists|i: int| 0 <= i < devices.len() && #[trigger] devices[i].kind == WIFI
}

/// The Wi-Fi state shown: 0 without Wi-Fi, 30 when disabled or disconnected, 40 while
/// connecting (some device in states 40 to 90) and 100 when some device is connected.
pub open spec fn wifi_state_of(devices: Seq<Device>, enabled: bool) -> u32 {
    if !wifi_present(devices) {
        0
    } else if !enabled {
        30
    } else if exists|i: int| 0 <= i < devices.len() && #[trigger] devices[i].kind == WIFI && devices[i].state == 100 {
        100
    } else if exists|i: int| 0 <= i < devices.len() && #[trigger] devices[i].kind == WIFI && 40 <= devices[i].state <= 90 {
        40
    } else {
        30
    }
}

impl NetworkState {
    /// The state with NetworkManager absent.
    pub fn new() -> (r: NetworkState)
        ensures
            !r.available && r.state == 0 && !r.networking_enabled && !r.wireless_enabled
                && !r.wireless_hardware_enabled && r.primary is None && r.devices@.len() == 0
                && r.access_points@.len() == 0 && r.connections@.len() == 0
                && r.active_connections@.len() == 0,
    {
        NetworkState {
            available: false,
            state: 0,
            networking_enabled: false,
            wireless_enabled: false,
            wireless_hardware_enabled: false,
            primary: None,
            devices: Vec::new(),
            access_points: Vec::new(),
            connections: Vec::new(),
            active_connections: Vec::new(),
        }
    }

    /// Whether the machine has a Wi-Fi device.
    pub fn has_wifi(&self) -> (r: bool)
        ensures
            r == wifi_present(self.devices@),
    {
        let mut i: usize = 0;
        while i < self.devices.len()
            invariant
                i <= self.devices@.len(),
                forall|j: int| 0 <= j < i ==> #[trigger] self.devices@[j].kind != WIFI,
            decreases self.devices@.len() - i,
        {
            if self.devices[i].kind == WIFI {
                return true;
            }
            i += 1;
        }
        false
    }

    /// The Wi-Fi state shown in the panel.
    pub fn wifi_state(&self) -> (r: u32)
        ensures
            r == wifi_state_of(self.devices@, self.wireless_enabled),
    {
        if !self.has_wifi() {
            return 0;
        }
        if !self.wireless_enabled {
            return 30;
        }
        let mut connected = false;
        let mut connecting = false;
        let mut i: usize = 0;
        while i < self.devices.len()
            invariant
                i <= self.devices@.len(),
                connected == exists|j: int| 0 <= j < i && #[trigger] self.devices@[j].kind == WIFI
                    && self.devices@[j].state == 100,
                connecting == exists|j: int| 0 <= j < i && #[trigger] self.devices@[j].kind == WIFI
                    && 40 <= self.devices@[j].state <= 90,
            decreases self.devices@.len() - i,
        {
            let d = &self.devices[i];
            if d.kind == WIFI && d.state == 100 {
                connected = true;
            }
            if d.kind == WIFI && 40 <= d.state && d.state <= 90 {
                connecting = true;
            }
            i += 1;
        }
        if connected {
            100
        } else if connecting {
            40
        } else {
            30
        }
    }
}

/// A NetworkManager request.
#[derive(Clone, Debug, PartialEq, Eq)]
pub enum NetworkCall {
    /// `Update` the saved connection at `path` with its own settings plus a WPA-PSK
    /// password.
    UpdatePassword { path: String, password: String },
    /// `ActivateConnection(connection, device, "/")`.
    Activate { connection: String, device: String },
    /// `AddAndActivateConnection` of a new autoconnecting Wi-Fi profile named `name` for
    /// `ssid`, with the password if one is given, on `device`.
    AddAndActivate { name: String, ssid: Vec<u8>, password: Option<String>, device: String },
    /// `DeactivateConnection(active)`.
    Deactivate { active: String },
    /// `RequestScan({})` on a Wi-Fi device.
    RequestScan { device: String },
}

/// Why a request could not be planned.
#[derive(Clone, Copy, Debug, PartialEq, Eq, Structural)]
pub enum NetworkError {
    AccessPointGone,
    NoSsid,
    NulPassword,
    InvalidPath,
    SavedGone,
    DeviceGone,
    VpnGone,
    WifiGone,
}

/// The text of each error.
pub open spec fn network_error_message(e: NetworkError) -> Seq<char> {
    match e {
        NetworkError::AccessPointGone => "Wi-Fi access point is no longer available on this device"@,
        NetworkError::NoSsid => "The selected access point has no SSID"@,
        NetworkError::NulPassword => "Wi-Fi password contains a NUL byte"@,
        NetworkError::InvalidPath => "Invalid NetworkManager object path"@,
        NetworkError::SavedGone => "Saved connection is no longer available"@,
        NetworkError::DeviceGone => "Network device is no longer available"@,
        NetworkError::VpnGone => "VPN connection is no longer available"@,
        NetworkError::WifiGone => "Wi-Fi device is no longer available"@,
    }
}

impl NetworkError {
    /// The message reported for this error.
    pub fn message(&self) -> (r: &'static str)
        ensures
            r@ == network_error_message(*self),
    {
        match self {
            NetworkError::AccessPointGone => "Wi-Fi access point is no longer available on this device",
            NetworkError::NoSsid => "The selected access point has no SSID",
            NetworkError::NulPassword => "Wi-Fi password contains a NUL byte",
            NetworkError::InvalidPath => "Invalid NetworkManager object path",
            NetworkError::SavedGone => "Saved connection is no longer available",
            NetworkError::DeviceGone => "Network device is no longer available",
            NetworkError::VpnGone => "VPN connection is no longer available",
            NetworkError::WifiGone => "Wi-Fi device is no longer available",
        }
    }
}

/// The first access point with the given id on the given device.
pub open spec fn find_ap(aps: Seq<AccessPoint>, device: Seq<char>, id: Seq<char>) -> Option<int> {
    if exists|i: int| 0 <= i < aps.len() && #[trigger] aps[i].id@ == id && aps[i].device@ == device {
        Some(choose|i: int| 0 <= i < aps.len() && aps[i].id@ == id && aps[i].device@ == device && forall|j: int|
            0 <= j < i ==> !(#[trigger] aps[j].id@ == id && aps[j].device@ == device))
    } else {
        None
    }
}

/// The access point that `find_ap` picks is the first one with that id and device.
pub proof fn lemma_find_ap_first(aps: Seq<AccessPoint>, device: Seq<char>, id: Seq<char>, i: int)
    requires
        0 <= i < aps.len(),
        aps[i].id@ == id && aps[i].device@ == device,
        forall|j: int| 0 <= j < i ==> !(#[trigger] aps[j].id@ == id && aps[j].device@ == device),
    ensures
        find_ap(aps, device, id) == Some(i),
{
    assert(exists|k: int| 0 <= k < aps.len() && #[trigger] aps[k].id@ == id && aps[k].device@ == device);
    let c = choose|k: int| 0 <= k < aps.len() && aps[k].id@ == id && aps[k].device@ == device && forall|j: int|
        0 <= j < k ==> !(#[trigger] aps[j].id@ == id && aps[j].device@ == device);
    assert(0 <= i < aps.len() && aps[i].id@ == id && aps[i].device@ == device && forall|j: int|
        0 <= j < i ==> !(#[trigger] aps[j].id@ == id && aps[j].device@ == device));
    if c < i {
    } else if c > i {
        assert(!(aps[i].id@ == id && aps[i].device@ == device));
    }
}

/// Whether an SSID is missing: empty or all NUL bytes.
pub open spec fn blank_ssid(s: Seq<u8>) -> bool {
    forall|i: int| 0 <= i < s.len() ==> #[trigger] s[i] == 0u8
}

/// Whether a saved profile is the Wi-Fi profile for `ssid`.
pub open spec fn wifi_profile(c: SavedConnection, ssid: Seq<u8>) -> bool {
    &&& c.kind@ == "802-11-wireless"@
    &&& c.ssid is Some
    &&& c.ssid->Some_0@ == ssid
}

/// Whether `c` updates the saved profile at `path` with password `password`.
pub open spec fn is_update(c: NetworkCall, path: Seq<char>, password: Seq<char>) -> bool {
    match c {
        NetworkCall::UpdatePassword { path: a, password: b } => a@ == path && b@ == password,
        _ => false,
    }
}

/// Whether `c` activates profile `connection` on `device`.
pub open spec fn is_activate(c: NetworkCall, connection: Seq<char>, device: Seq<char>) -> bool {
    match c {
        NetworkCall::Activate { connection: a, device: b } => a@ == connection && b@ == device,
        _ => false,
    }
}

/// Whether `c` adds and activates a new Wi-Fi profile with these values.
pub open spec fn is_add(c: NetworkCall, name: Seq<char>, ssid: Seq<u8>, password: Option<Seq<char>>, device: Seq<char>) -> bool {
    match c {
        NetworkCall::AddAndActivate { name: n, ssid: s, password: p, device: d } => n@ == name && s@ == ssid
            && d@ == device && match p {
            Some(x) => password == Some(x@),
            None => password is None,
        },
        _ => false,
    }
}

/// Whether `c` deactivates the active connection `active`.
pub open spec fn is_deactivate(c: NetworkCall, active: Seq<char>) -> bool {
    match c {
        NetworkCall::Deactivate { active: a } => a@ == active,
        _ => false,
    }
}

/// Whether `c` asks device `device` to scan.
pub open spec fn is_scan(c: NetworkCall, device: Seq<char>) -> bool {
    match c {
        NetworkCall::RequestScan { device: d } => d@ == device,
        _ => false,
    }
}

/// What a join request targets: the access point and, if one exists, the first saved
/// Wi-Fi profile for its SSID.
#[derive(Clone, Copy, Debug, PartialEq, Eq, Structural)]
pub struct JoinTarget {
    pub access_point: usize,
    pub saved: Option<usize>,
}

fn bytes_eq(a: &Vec<u8>, b: &Vec<u8>) -> (r: bool)
    ensures
        r == (a@ == b@),
{
    if a.len() != b.len() {
        return false;
    }
    let mut i: usize = 0;
    while i < a.len()
        invariant
            i <= a@.len(),
            a@.len() == b@.len(),
            forall|j: int| 0 <= j < i ==> a@[j] == b@[j],
        decreases a@.len() - i,
    {
        if a[i] != b[i] {
            return false;
        }
        i += 1;
    }
    assert(a@ =~= b@);
    true
}

fn has_nul(s: &str) -> (r: bool)
    ensures
        r == s@.contains('\0'),
{
    let c = chars_of(s);
    let mut i: usize = 0;
    while i < c.len()
        invariant
            i <= c@.len(),
            c@ == s@,
            forall|j: int| 0 <= j < i ==> c@[j] != '\0',
        decreases c@.len() - i,
    {
        if c[i] == '\0' {
            assert(s@[i as int] == '\0');
            return true;
        }
        i += 1;
    }
    false
}

fn ap_index(aps: &Vec<AccessPoint>, device: &str, access_point: &str) -> (r: Option<usize>)
    ensures
        match r {
            Some(k) => k < aps@.len() && find_ap(aps@, device@, access_point@) == Some(k as int),
            None => find_ap(aps@, device@, access_point@) is None,
        },
{
    let mut i: usize = 0;
    while i < aps.len()
        invariant
            i <= aps@.len(),
            forall|j: int| 0 <= j < i ==> !(#[trigger] aps@[j].id@ == access_point@ && aps@[j].device@ == device@),
        decreases aps@.len() - i,
    {
        if str_eq(aps[i].id.as_str(), access_point) && str_eq(aps[i].device.as_str(), device) {
            return Some(i);
        }
        i += 1;
    }
    None
}

/// Finds what joining `access_point` on `device` targets: the access point must still be
/// listed for the device, have an SSID, and the password may not hold NUL.
#[verifier::loop_isolation(false)]
pub fn join_target(state: &NetworkState, device: &str, access_point: &str, password: Option<&str>) -> (r: Result<JoinTarget, NetworkError>)
    ensures
        find_ap(state.access_points@, device@, access_point@) is None ==> r == Err::<JoinTarget, NetworkError>(
            NetworkError::AccessPointGone,
        ),
        find_ap(state.access_points@, device@, access_point@) matches Some(a) ==> {
            let ap = state.access_points@[a];
            if blank_ssid(ap.ssid@) {
                r == Err::<JoinTarget, NetworkError>(NetworkError::NoSsid)
            } else if password matches Some(p) && p@.contains('\0') {
                r == Err::<JoinTarget, NetworkError>(NetworkError::NulPassword)
            } else {
                r matches Ok(t) && t.access_point == a && match t.saved {
                    Some(s) => s < state.connections@.len() && wifi_profile(state.connections@[s as int], ap.ssid@)
                        && forall|j: int| 0 <= j < s ==> !#[trigger] wifi_profile(state.connections@[j], ap.ssid@),
                    None => forall|j: int| 0 <= j < state.connections@.len() ==> !#[trigger] wifi_profile(
                        state.connections@[j],
                        ap.ssid@,
                    ),
                }
            }
        },
{
    let found = ap_index(&state.access_points, device, access_point);
    let a = match found {
        Some(a) => a,
        None => return Err(NetworkError::AccessPointGone),
    };
    let ap = &state.access_points[a];
    let mut blank = true;
    let mut k: usize = 0;
    while k < ap.ssid.len()
        invariant
            k <= ap.ssid@.len(),
            blank == forall|j: int| 0 <= j < k ==> #[trigger] ap.ssid@[j] == 0u8,
        decreases ap.ssid@.len() - k,
    {
        if ap.ssid[k] != 0 {
            blank = false;
        }
        k += 1;
    }
    if blank {
        return Err(NetworkError::NoSsid);
    }
    match password {
        Some(p) => if has_nul(p) {
            return Err(NetworkError::NulPassword);
        },
        None => {},
    }
    let mut s: usize = 0;
    while s < state.connections.len()
        invariant
            s <= state.connections@.len(),
            forall|j: int| 0 <= j < s ==> !#[trigger] wifi_profile(state.connections@[j], ap.ssid@),
        decreases state.connections@.len() - s,
    {
        let c = &state.connections[s];
        let matches = str_eq(c.kind.as_str(), "802-11-wireless") && match &c.ssid {
            Some(x) => bytes_eq(x, &ap.ssid),
            None => false,
        };
        if matches {
            return Ok(JoinTarget { access_point: a, saved: Some(s) });
        }
        s += 1;
    }
    Ok(JoinTarget { access_point: a, saved: None })
}

/// The requests that join the target of `join_target`: with a saved profile, update its
/// password (when one is given) and activate it; otherwise add and activate a new
/// profile. The saved profile's path and the device must be object paths.
pub fn join_calls(state: &NetworkState, target: JoinTarget, device: &str, password: Option<&str>) -> (r: Result<Vec<NetworkCall>, NetworkError>)
    requires
        target.access_point < state.access_points@.len(),
        target.saved matches Some(s) ==> s < state.connections@.len(),
    ensures
        target.saved matches Some(s) ==> {
            let saved = state.connections@[s as int];
            if !is_object_path(saved.id@) || !is_object_path(device@) {
                r == Err::<Vec<NetworkCall>, NetworkError>(NetworkError::InvalidPath)
            } else {
                &&& r is Ok
                &&& r->Ok_0@.len() == (if password is Some { 2int } else { 1int })
                &&& password is Some ==> is_update(r->Ok_0@[0], saved.id@, password->Some_0@)
                &&& is_activate(r->Ok_0@.last(), saved.id@, device@)
            }
        },
        target.saved is None ==> {
            let ap = state.access_points@[target.access_point as int];
            if !is_object_path(device@) {
                r == Err::<Vec<NetworkCall>, NetworkError>(NetworkError::InvalidPath)
            } else {
                &&& r is Ok
                &&& r->Ok_0@.len() == 1
                &&& is_add(r->Ok_0@[0], ap.name@, ap.ssid@, match password { Some(p) => Some(p@), None => None }, device@)
            }
        },
{
    let mut calls: Vec<NetworkCall> = Vec::new();
    match target.saved {
        Some(s) => {
            let saved = &state.connections[s];
            match password {
                Some(p) => calls.push(NetworkCall::UpdatePassword { path: copy_string(&saved.id), password: p.to_owned() }),
                None => {},
            }
            if !object_path_valid(saved.id.as_str()) || !object_path_valid(device) {
                return Err(NetworkError::InvalidPath);
            }
            calls.push(NetworkCall::Activate { connection: copy_string(&saved.id), device: device.to_owned() });
            Ok(calls)
        },
        None => {
            let ap = &state.access_points[target.access_point];
            if !object_path_valid(device) {
                return Err(NetworkError::InvalidPath);
            }
            let mut ssid: Vec<u8> = Vec::new();
            let mut k: usize = 0;
            while k < ap.ssid.len()
                invariant
                    k <= ap.ssid@.len(),
                    ssid@ == ap.ssid@.take(k as int),
                decreases ap.ssid@.len() - k,
            {
                ssid.push(ap.ssid[k]);
                assert(ap.ssid@.take(k + 1) =~= ap.ssid@.take(k as int).push(ap.ssid@[k as int]));
                k += 1;
            }
            assert(ap.ssid@.take(k as int) =~= ap.ssid@);
            let pw = match password {
                Some(p) => Some(p.to_owned()),
                None => None,
            };
            calls.push(NetworkCall::AddAndActivate { name: copy_string(&ap.name), ssid, password: pw, device: device.to_owned() });
            Ok(calls)
        },
    }
}

/// The first saved profile with the given id.
pub open spec fn find_saved(c: Seq<SavedConnection>, id: Seq<char>) -> Option<int> {
    if exists|i: int| 0 <= i < c.len() && #[trigger] c[i].id@ == id {
        Some(choose|i: int| 0 <= i < c.len() && c[i].id@ == id && forall|j: int| 0 <= j < i ==> #[trigger] c[j].id@ != id)
    } else {
        None
    }
}

fn saved_index(connections: &Vec<SavedConnection>, id: &str) -> (r: Option<usize>)
    ensures
        match r {
            Some(k) => k < connections@.len() && find_saved(connections@, id@) == Some(k as int),
            None => find_saved(connections@, id@) is None,
        },
{
    let mut i: usize = 0;
    while i < connections.len()
        invariant
            i <= connections@.len(),
            forall|j: int| 0 <= j < i ==> #[trigger] connections@[j].id@ != id@,
        decreases connections@.len() - i,
    {
        if str_eq(connections[i].id.as_str(), id) {
            return Some(i);
        }
        i += 1;
    }
    None
}

/// Whether a device with the given id is known.
pub open spec fn device_known(devices: Seq<Device>, id: Seq<char>) -> bool {
    exists|i: int| 0 <= i < devices.len() && #[trigger] devices[i].id@ == id
}

fn device_index(devices: &Vec<Device>, id: &str) -> (r: Option<usize>)
    ensures
        match r {
            Some(k) => k < devices@.len() && devices@[k as int].id@ == id@ && forall|j: int| 0 <= j < k ==> #[trigger] devices@[j].id@ != id@,
            None => !device_known(devices@, id@),
        },
{
    let mut i: usize = 0;
    while i < devices.len()
        invariant
            i <= devices@.len(),
            forall|j: int| 0 <= j < i ==> #[trigger] devices@[j].id@ != id@,
        decreases devices@.len() - i,
    {
        if str_eq(devices[i].id.as_str(), id) {
            return Some(i);
        }
        i += 1;
    }
    None
}

/// The device a profile activates on: WireGuard needs none (`/`), others the given one.
pub open spec fn activation_device(kind: Seq<char>, device: Option<Seq<char>>) -> Seq<char> {
    if kind == "wireguard"@ {
        "/"@
    } else {
        match device {
            Some(d) => d,
            None => "/"@,
        }
    }
}

fn activate_call(connection: &str, device: &str) -> (r: Result<NetworkCall, NetworkError>)
    ensures
        if is_object_path(connection@) && is_object_path(device@) {
            r is Ok && is_activate(r->Ok_0, connection@, device@)
        } else {
            r == Err::<NetworkCall, NetworkError>(NetworkError::InvalidPath)
        },
{
    if !object_path_valid(connection) || !object_path_valid(device) {
        return Err(NetworkError::InvalidPath);
    }
    Ok(NetworkCall::Activate { connection: connection.to_owned(), device: device.to_owned() })
}

/// Plans activating the saved profile `connection`, on `device` if given.
pub fn activate_plan(state: &NetworkState, connection: &str, device: Option<&str>) -> (r: Result<NetworkCall, NetworkError>)
    ensures
        match find_saved(state.connections@, connection@) {
            None => r == Err::<NetworkCall, NetworkError>(NetworkError::SavedGone),
            Some(s) => {
                let d = activation_device(state.connections@[s].kind@, match device { Some(x) => Some(x@), None => None });
                if d != "/"@ && !device_known(state.devices@, d) {
                    r == Err::<NetworkCall, NetworkError>(NetworkError::DeviceGone)
                } else if !is_object_path(connection@) || !is_object_path(d) {
                    r == Err::<NetworkCall, NetworkError>(NetworkError::InvalidPath)
                } else {
                    r is Ok && is_activate(r->Ok_0, connection@, d)
                }
            },
        },
{
    let s = match saved_index(&state.connections, connection) {
        Some(s) => s,
        None => return Err(NetworkError::SavedGone),
    };
    let wireguard = str_eq(state.connections[s].kind.as_str(), "wireguard");
    let d: &str = if wireguard {
        "/"
    } else {
        match device {
            Some(x) => x,
            None => "/",
        }
    };
    if !str_eq(d, "/") && device_index(&state.devices, d).is_none() {
        return Err(NetworkError::DeviceGone);
    }
    activate_call(connection, d)
}

/// Plans disconnecting `device`: deactivating its active connection, if any.
pub fn disconnect_plan(state: &NetworkState, device: &str) -> (r: Result<Vec<NetworkCall>, NetworkError>)
    ensures
        !device_known(state.devices@, device@) ==> r == Err::<Vec<NetworkCall>, NetworkError>(NetworkError::DeviceGone),
        device_known(state.devices@, device@) ==> exists|k: int| 0 <= k < state.devices@.len()
            && state.devices@[k].id@ == device@ && (forall|j: int| 0 <= j < k ==> #[trigger] state.devices@[j].id@ != device@)
            && match state.devices@[k].active_connection {
                None => r is Ok && r->Ok_0@.len() == 0,
                Some(a) => if is_object_path(a@) {
                    r is Ok && r->Ok_0@.len() == 1 && is_deactivate(r->Ok_0@[0], a@)
                } else {
                    r == Err::<Vec<NetworkCall>, NetworkError>(NetworkError::InvalidPath)
                },
            },
{
    let k = match device_index(&state.devices, device) {
        Some(k) => k,
        None => return Err(NetworkError::DeviceGone),
    };
    let mut calls: Vec<NetworkCall> = Vec::new();
    match &state.devices[k].active_connection {
        None => Ok(calls),
        Some(a) => {
            if !object_path_valid(a.as_str()) {
                return Err(NetworkError::InvalidPath);
            }
            calls.push(NetworkCall::Deactivate { active: copy_string(a) });
            Ok(calls)
        },
    }
}

/// Plans a Wi-Fi scan on `device`, which must be a known Wi-Fi device.
pub fn scan_plan(state: &NetworkState, device: &str) -> (r: Result<NetworkCall, NetworkError>)
    ensures
        (exists|i: int| 0 <= i < state.devices@.len() && #[trigger] state.devices@[i].id@ == device@
            && state.devices@[i].kind == WIFI) ==> (r is Ok && is_scan(r->Ok_0, device@)),
        !(exists|i: int| 0 <= i < state.devices@.len() && #[trigger] state.devices@[i].id@ == device@
            && state.devices@[i].kind == WIFI) ==> r == Err::<NetworkCall, NetworkError>(NetworkError::WifiGone),
{
    let mut i: usize = 0;
    while i < state.devices.len()
        invariant
            i <= state.devices@.len(),
            forall|j: int| 0 <= j < i ==> !(#[trigger] state.devices@[j].id@ == device@ && state.devices@[j].kind == WIFI),
        decreases state.devices@.len() - i,
    {
        if str_eq(state.devices[i].id.as_str(), device) && state.devices[i].kind == WIFI {
            return Ok(NetworkCall::RequestScan { device: device.to_owned() });
        }
        i += 1;
    }
    Err(NetworkError::WifiGone)
}

/// The profile that `find_saved` picks is the first one with that id.
pub proof fn lemma_find_saved_first(c: Seq<SavedConnection>, id: Seq<char>, i: int)
    requires
        0 <= i < c.len(),
        c[i].id@ == id,
        forall|j: int| 0 <= j < i ==> #[trigger] c[j].id@ != id,
    ensures
        find_saved(c, id) == Some(i),
{
    assert(exists|k: int| 0 <= k < c.len() && #[trigger] c[k].id@ == id);
    let w = choose|k: int| 0 <= k < c.len() && c[k].id@ == id && forall|j: int| 0 <= j < k ==> #[trigger] c[j].id@ != id;
    assert(0 <= i < c.len() && c[i].id@ == id && forall|j: int| 0 <= j < i ==> #[trigger] c[j].id@ != id);
    if w > i {
        assert(c[i].id@ != id);
    }
}

/// The profile that `find_vpn` picks is the first VPN profile with that id.
pub proof fn lemma_find_vpn_first(c: Seq<SavedConnection>, id: Seq<char>, i: int)
    requires
        0 <= i < c.len(),
        c[i].id@ == id && vpn_kind(c[i].kind@),
        forall|j: int| 0 <= j < i ==> !(#[trigger] c[j].id@ == id && vpn_kind(c[j].kind@)),
    ensures
        find_vpn(c, id) == Some(i),
{
    assert(exists|k: int| 0 <= k < c.len() && #[trigger] c[k].id@ == id && vpn_kind(c[k].kind@));
    let w = choose|k: int| 0 <= k < c.len() && c[k].id@ == id && vpn_kind(c[k].kind@) && forall|j: int|
        0 <= j < k ==> !(#[trigger] c[j].id@ == id && vpn_kind(c[j].kind@));
    assert(0 <= i < c.len() && c[i].id@ == id && vpn_kind(c[i].kind@) && forall|j: int|
        0 <= j < i ==> !(#[trigger] c[j].id@ == id && vpn_kind(c[j].kind@)));
    if w > i {
        assert(!(c[i].id@ == id && vpn_kind(c[i].kind@)));
    }
}

/// The first VPN profile with the given id.
pub open spec fn find_vpn(c: Seq<SavedConnection>, id: Seq<char>) -> Option<int> {
    if exists|i: int| 0 <= i < c.len() && #[trigger] c[i].id@ == id && vpn_kind(c[i].kind@) {
        Some(choose|i: int| 0 <= i < c.len() && c[i].id@ == id && vpn_kind(c[i].kind@) && forall|j: int|
            0 <= j < i ==> !(#[trigger] c[j].id@ == id && vpn_kind(c[j].kind@)))
    } else {
        None
    }
}

/// The active instances of profile `id` to deactivate, in order; `None` when one of
/// them has no valid object path.
pub open spec fn deactivations(actives: Seq<ActiveConnection>, id: Seq<char>) -> Option<Seq<Seq<char>>>
    decreases actives.len(),
{
    if actives.len() == 0 {
        Some(Seq::empty())
    } else {
        let a = actives.last();
        match deactivations(actives.drop_last(), id) {
            None => None,
            Some(ids) => if a.connection matches Some(c) && c@ == id {
                if is_object_path(a.id@) {
                    Some(ids.push(a.id@))
                } else {
                    None
                }
            } else {
                Some(ids)
            },
        }
    }
}

fn vpn_index(connections: &Vec<SavedConnection>, id: &str) -> (r: Option<usize>)
    ensures
        match r {
            Some(k) => k < connections@.len() && find_vpn(connections@, id@) == Some(k as int),
            None => find_vpn(connections@, id@) is None,
        },
{
    let mut i: usize = 0;
    while i < connections.len()
        invariant
            i <= connections@.len(),
            forall|j: int| 0 <= j < i ==> !(#[trigger] connections@[j].id@ == id@ && vpn_kind(connections@[j].kind@)),
        decreases connections@.len() - i,
    {
        if str_eq(connections[i].id.as_str(), id) && connections[i].is_vpn() {
            return Some(i);
        }
        i += 1;
    }
    None
}

proof fn lemma_deactivations_prefix_none(actives: Seq<ActiveConnection>, id: Seq<char>, n: int)
    requires
        0 <= n <= actives.len(),
        deactivations(actives.take(n), id) is None,
    ensures
        deactivations(actives, id) is None,
    decreases actives.len() - n,
{
    if n < actives.len() {
        assert(actives.take(n + 1).drop_last() =~= actives.take(n));
        lemma_deactivations_prefix_none(actives, id, n + 1);
    } else {
        assert(actives.take(n) =~= actives);
    }
}

/// Plans turning the VPN profile `connection` on (activating it on the primary device,
/// or on none for WireGuard) or off (deactivating each of its active instances).
#[verifier::loop_isolation(false)]
pub fn vpn_plan(state: &NetworkState, connection: &str, enabled: bool) -> (r: Result<Vec<NetworkCall>, NetworkError>)
    ensures
        match find_vpn(state.connections@, connection@) {
            None => r == Err::<Vec<NetworkCall>, NetworkError>(NetworkError::VpnGone),
            Some(s) => if enabled {
                let d = activation_device(
                    state.connections@[s].kind@,
                    match state.primary { Some(p) => Some(p@), None => None },
                );
                if !is_object_path(connection@) || !is_object_path(d) {
                    r == Err::<Vec<NetworkCall>, NetworkError>(NetworkError::InvalidPath)
                } else {
                    r is Ok && r->Ok_0@.len() == 1 && is_activate(r->Ok_0@[0], connection@, d)
                }
            } else {
                match deactivations(state.active_connections@, connection@) {
                    None => r == Err::<Vec<NetworkCall>, NetworkError>(NetworkError::InvalidPath),
                    Some(ids) => r is Ok && r->Ok_0@.len() == ids.len() && forall|i: int|
                        0 <= i < ids.len() ==> is_deactivate(#[trigger] r->Ok_0@[i], ids[i]),
                }
            },
        },
{
    let s = match vpn_index(&state.connections, connection) {
        Some(s) => s,
        None => return Err(NetworkError::VpnGone),
    };
    let mut calls: Vec<NetworkCall> = Vec::new();
    if enabled {
        let d: &str = if str_eq(state.connections[s].kind.as_str(), "wireguard") {
            "/"
        } else {
            match &state.primary {
                Some(p) => p.as_str(),
                None => "/",
            }
        };
        match activate_call(connection, d) {
            Ok(c) => calls.push(c),
            Err(e) => return Err(e),
        }
        return Ok(calls);
    }
    let ghost actives = state.active_connections@;
    let ghost mut ids: Seq<Seq<char>> = Seq::empty();
    let mut i: usize = 0;
    assert(actives.take(0) =~= Seq::<ActiveConnection>::empty());
    while i < state.active_connections.len()
        invariant
            i <= actives.len(),
            actives == state.active_connections@,
            deactivations(actives.take(i as int), connection@) == Some(ids),
            calls@.len() == ids.len(),
            forall|k: int| 0 <= k < ids.len() ==> is_deactivate(#[trigger] calls@[k], ids[k]),
        decreases actives.len() - i,
    {
        let a = &state.active_connections[i];
        assert(actives.take(i + 1).drop_last() =~= actives.take(i as int));
        assert(actives.take(i + 1).last() == actives[i as int]);
        let mine = match &a.connection {
            Some(c) => str_eq(c.as_str(), connection),
            None => false,
        };
        if mine {
            if !object_path_valid(a.id.as_str()) {
                proof { lemma_deactivations_prefix_none(actives, connection@, i + 1); }
                return Err(NetworkError::InvalidPath);
            }
            let ghost prev = ids;
            calls.push(NetworkCall::Deactivate { active: copy_string(&a.id) });
            proof { ids = prev.push(a.id@); }
        }
        i += 1;
    }
    assert(actives.take(i as int) =~= actives);
    Ok(calls)
}

/// The requests made to NetworkManager: the bus owner they were made to, the
/// generation that tags them, the next operation number and the operations in flight.
/// A change of owner starts a new generation and cancels every operation in flight.
pub struct NetworkRequests {
    pub owner: String,
    pub generation: u64,
    pub next_operation: u64,
    pub in_flight: Vec<u64>,
}

/// How a step of an operation ends.
#[derive(Clone, Copy, Debug, PartialEq, Eq, Structural)]
pub enum CallStep {
    /// The owner changed or the operation was cancelled: it ends as cancelled.
    Cancelled,
    /// The call failed: the operation ends with its error.
    Failed,
    /// Make the next call.
    Next,
    /// No calls are left: the operation succeeded.
    Done,
}

impl NetworkRequests {
    /// No owner seen and nothing in flight.
    pub fn new() -> (r: NetworkRequests)
        ensures
            r.owner@ == Seq::<char>::empty(),
            r.generation == 0,
            r.next_operation == 0,
            r.in_flight@ == Seq::<u64>::empty(),
    {
        NetworkRequests { owner: String::new(), generation: 0, next_operation: 0, in_flight: Vec::new() }
    }

    /// The service read the bus owner `owner`; returns the operations to cancel.
    pub fn owner_seen(&mut self, owner: &str) -> (r: Vec<u64>)
        ensures
            old(self).owner@ == owner@ ==> r@ == Seq::<u64>::empty() && final(self).owner@ == old(self).owner@
                && final(self).generation == old(self).generation && final(self).next_operation
                == old(self).next_operation && final(self).in_flight@ == old(self).in_flight@,
            old(self).owner@ != owner@ ==> r@ == old(self).in_flight@ && final(self).owner@ == owner@
                && final(self).generation == old(self).generation.wrapping_add(1) && final(self).next_operation
                == old(self).next_operation && final(self).in_flight@ == Seq::<u64>::empty(),
    {
        if crate::text::str_eq(self.owner.as_str(), owner) {
            return Vec::new();
        }
        self.owner = owner.to_owned();
        self.generation = self.generation.wrapping_add(1);
        let mut cancelled: Vec<u64> = Vec::new();
        std::mem::swap(&mut cancelled, &mut self.in_flight);
        cancelled
    }

    /// Starts an operation while NetworkManager is available; returns its number and
    /// generation.
    pub fn begin(&mut self, available: bool) -> (r: Option<(u64, u64)>)
        ensures
            !available ==> r is None && final(self).owner@ == old(self).owner@ && final(self).generation
                == old(self).generation && final(self).next_operation == old(self).next_operation
                && final(self).in_flight@ == old(self).in_flight@,
            available ==> r == Some((old(self).next_operation, old(self).generation)) && final(self).owner@
                == old(self).owner@ && final(self).generation == old(self).generation
                && final(self).next_operation == old(self).next_operation.wrapping_add(1)
                && final(self).in_flight@ == old(self).in_flight@.push(old(self).next_operation),
    {
        if !available {
            return None;
        }
        let id = self.next_operation;
        self.next_operation = self.next_operation.wrapping_add(1);
        self.in_flight.push(id);
        Some((id, self.generation))
    }

    /// A call of an operation of `generation` returned.
    pub fn step(&self, generation: u64, cancelled: bool, failed: bool, calls_left: bool) -> (r: CallStep)
        ensures
            r == (if self.generation != generation || cancelled {
                CallStep::Cancelled
            } else if failed {
                CallStep::Failed
            } else if calls_left {
                CallStep::Next
            } else {
                CallStep::Done
            }),
    {
        if self.generation != generation || cancelled {
            CallStep::Cancelled
        } else if failed {
            CallStep::Failed
        } else if calls_left {
            CallStep::Next
        } else {
            CallStep::Done
        }
    }

    /// Operation `id` ended; it is no longer in flight.
    pub fn finish(&mut self, id: u64)
        ensures
            final(self).owner@ == old(self).owner@,
            final(self).generation == old(self).generation,
            final(self).next_operation == old(self).next_operation,
            final(self).in_flight@ == old(self).in_flight@.filter(|x: u64| x != id),
    {
        let mut kept: Vec<u64> = Vec::new();
        let mut i: usize = 0;
        while i < self.in_flight.len()
            invariant
                i <= self.in_flight@.len(),
                kept@ == self.in_flight@.take(i as int).filter(|x: u64| x != id),
            decreases self.in_flight.len() - i,
        {
            proof {
                reveal(Seq::filter);
                assert(self.in_flight@.take(i + 1).drop_last() =~= self.in_flight@.take(i as int));
            }
            if self.in_flight[i] != id {
                kept.push(self.in_flight[i]);
            }
            i += 1;
        }
        assert(self.in_flight@.take(self.in_flight.len() as int) =~= self.in_flight@);
        self.in_flight = kept;
    }
}

} // verus!

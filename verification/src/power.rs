//! UPower device kinds and states, device records and the device inventory.
use crate::text::{contains_string, copy_string, strings_contain};
use vstd::prelude::*;

verus! {

/// The UPower device types the shell tells apart.
#[derive(Clone, Copy, Debug, PartialEq, Eq, Structural)]
pub enum DeviceKind {
    LinePower,
    Battery,
    Ups,
    Other(u32),
}

/// The device type a UPower `Type` code names.
pub open spec fn kind_of(code: u32) -> DeviceKind {
    if code == 1 {
        DeviceKind::LinePower
    } else if code == 2 {
        DeviceKind::Battery
    } else if code == 3 {
        DeviceKind::Ups
    } else {
        DeviceKind::Other(code)
    }
}

/// The UPower `Type` code of a device type.
pub open spec fn kind_code(k: DeviceKind) -> u32 {
    match k {
        DeviceKind::LinePower => 1,
        DeviceKind::Battery => 2,
        DeviceKind::Ups => 3,
        DeviceKind::Other(c) => c,
    }
}

impl DeviceKind {
    /// The device type for a UPower `Type` code.
    pub fn from_code(code: u32) -> (r: DeviceKind)
        ensures
            r == kind_of(code),
    {
        match code {
            1 => DeviceKind::LinePower,
            2 => DeviceKind::Battery,
            3 => DeviceKind::Ups,
            c => DeviceKind::Other(c),
        }
    }

    /// The UPower `Type` code of this device type.
    pub fn code(self) -> (r: u32)
        ensures
            r == kind_code(self),
    {
        match self {
            DeviceKind::LinePower => 1,
            DeviceKind::Battery => 2,
            DeviceKind::Ups => 3,
            DeviceKind::Other(c) => c,
        }
    }
}

/// The UPower charge states.
#[derive(Clone, Copy, Debug, PartialEq, Eq, Structural)]
pub enum DeviceState {
    Unknown,
    Charging,
    Discharging,
    Empty,
    FullyCharged,
    PendingCharge,
    PendingDischarge,
    Other(u32),
}

/// The charge state a UPower `State` code names.
pub open spec fn state_of(code: u32) -> DeviceState {
    if code == 0 {
        DeviceState::Unknown
    } else if code == 1 {
        DeviceState::Charging
    } else if code == 2 {
        DeviceState::Discharging
    } else if code == 3 {
        DeviceState::Empty
    } else if code == 4 {
        DeviceState::FullyCharged
    } else if code == 5 {
        DeviceState::PendingCharge
    } else if code == 6 {
        DeviceState::PendingDischarge
    } else {
        DeviceState::Other(code)
    }
}

/// The UPower `State` code of a charge state.
pub open spec fn state_code(s: DeviceState) -> u32 {
    match s {
        DeviceState::Unknown => 0,
        DeviceState::Charging => 1,
        DeviceState::Discharging => 2,
        DeviceState::Empty => 3,
        DeviceState::FullyCharged => 4,
        DeviceState::PendingCharge => 5,
        DeviceState::PendingDischarge => 6,
        DeviceState::Other(c) => c,
    }
}

/// The states in which the device is taking or holding a charge.
pub open spec fn charging(s: DeviceState) -> bool {
    s == DeviceState::Charging || s == DeviceState::FullyCharged || s == DeviceState::PendingCharge
}

impl DeviceState {
    /// The charge state for a UPower `State` code.
    pub fn from_code(code: u32) -> (r: DeviceState)
        ensures
            r == state_of(code),
    {
        match code {
            0 => DeviceState::Unknown,
            1 => DeviceState::Charging,
            2 => DeviceState::Discharging,
            3 => DeviceState::Empty,
            4 => DeviceState::FullyCharged,
            5 => DeviceState::PendingCharge,
            6 => DeviceState::PendingDischarge,
            c => DeviceState::Other(c),
        }
    }

    /// The UPower `State` code of this charge state.
    pub fn code(self) -> (r: u32)
        ensures
            r == state_code(self),
    {
        match self {
            DeviceState::Unknown => 0,
            DeviceState::Charging => 1,
            DeviceState::Discharging => 2,
            DeviceState::Empty => 3,
            DeviceState::FullyCharged => 4,
            DeviceState::PendingCharge => 5,
            DeviceState::PendingDischarge => 6,
            DeviceState::Other(c) => c,
        }
    }

    /// Whether the device is charging, fully charged or about to charge.
    pub fn is_charging(self) -> (r: bool)
        ensures
            r == charging(self),
    {
        match self {
            DeviceState::Charging | DeviceState::FullyCharged | DeviceState::PendingCharge => true,
            _ => false,
        }
    }
}

/// Reading a `Type` code and writing it back gives the same code.
pub proof fn lemma_kind_code_roundtrip(code: u32)
    ensures
        kind_code(kind_of(code)) == code,
{
}

/// Writing a known device type's code and reading it back gives the same type; a type
/// outside the known codes keeps its own code.
pub proof fn lemma_kind_roundtrip(k: DeviceKind)
    requires
        k matches DeviceKind::Other(c) ==> !(1 <= c <= 3),
    ensures
        kind_of(kind_code(k)) == k,
{
}

/// Reading a `State` code and writing it back gives the same code.
pub proof fn lemma_state_code_roundtrip(code: u32)
    ensures
        state_code(state_of(code)) == code,
{
}

/// Writing a known charge state's code and reading it back gives the same state.
pub proof fn lemma_state_roundtrip(s: DeviceState)
    requires
        s matches DeviceState::Other(c) ==> c > 6,
    ensures
        state_of(state_code(s)) == s,
{
}

/// A UPower device. Its charge percentage, a floating-point reading, is kept by the caller.
#[derive(Clone, Debug, PartialEq, Eq)]
pub struct PowerDevice {
    pub path: String,
    pub native_path: String,
    pub vendor: String,
    pub model: String,
    pub serial: String,
    pub kind: DeviceKind,
    pub state: DeviceState,
    pub power_supply: bool,
    pub present: bool,
    pub rechargeable: bool,
    pub online: bool,
    pub time_to_empty: i64,
    pub time_to_full: i64,
    pub icon_name: String,
}

/// The UPower daemon's own properties.
#[derive(Clone, Debug, PartialEq, Eq)]
pub struct PowerState {
    pub available: bool,
    pub daemon_version: String,
    pub on_battery: bool,
    pub lid_is_closed: bool,
    pub lid_is_present: bool,
}

impl Default for PowerState {
    fn default() -> (r: PowerState)
        ensures
            !r.available && r.daemon_version@.len() == 0 && !r.on_battery && !r.lid_is_closed
                && !r.lid_is_present,
    {
        PowerState {
            available: false,
            daemon_version: String::new(),
            on_battery: false,
            lid_is_closed: false,
            lid_is_present: false,
        }
    }
}

/// The cached properties of a device proxy; a property the proxy lacks is `None`.
#[derive(Clone, Debug, PartialEq, Eq)]
pub struct DeviceProperties {
    pub kind: Option<u32>,
    pub native_path: Option<String>,
    pub vendor: Option<String>,
    pub model: Option<String>,
    pub serial: Option<String>,
    pub state: Option<u32>,
    pub power_supply: Option<bool>,
    pub is_present: Option<bool>,
    pub rechargeable: Option<bool>,
    pub online: Option<bool>,
    pub time_to_empty: Option<i64>,
    pub time_to_full: Option<i64>,
    pub icon_name: Option<String>,
}

/// The text of an optional string property, empty when absent.
pub open spec fn text_or_empty(s: Option<String>) -> Seq<char> {
    match s {
        Some(t) => t@,
        None => Seq::empty(),
    }
}

/// A remaining-time property: absent or negative counts as zero.
pub open spec fn seconds(t: Option<i64>) -> i64 {
    match t {
        Some(v) => if v > 0 { v } else { 0 },
        None => 0,
    }
}

fn text_or_default(s: &Option<String>) -> (r: String)
    ensures
        r@ == text_or_empty(*s),
{
    match s {
        Some(t) => copy_string(t),
        None => String::new(),
    }
}

fn flag(b: Option<bool>) -> (r: bool)
    ensures
        r == (b == Some(true)),
{
    match b {
        Some(v) => v,
        None => false,
    }
}

fn seconds_of(t: Option<i64>) -> (r: i64)
    ensures
        r == seconds(t),
{
    match t {
        Some(v) => if v > 0 { v } else { 0 },
        None => 0,
    }
}

/// Builds a device record from its proxy's properties; a device without a `Type` is
/// not ready yet. Line power counts as present whatever it reports.
pub fn snapshot(path: &str, p: &DeviceProperties) -> (r: Option<PowerDevice>)
    ensures
        p.kind is None ==> r is None,
        p.kind matches Some(code) ==> r matches Some(d) && {
            &&& d.path@ == path@
            &&& d.native_path@ == text_or_empty(p.native_path)
            &&& d.vendor@ == text_or_empty(p.vendor)
            &&& d.model@ == text_or_empty(p.model)
            &&& d.serial@ == text_or_empty(p.serial)
            &&& d.kind == kind_of(code)
            &&& d.state == state_of(match p.state { Some(s) => s, None => 0 })
            &&& d.power_supply == (p.power_supply == Some(true))
            &&& d.present == (kind_of(code) == DeviceKind::LinePower || p.is_present == Some(true))
            &&& d.rechargeable == (p.rechargeable == Some(true))
            &&& d.online == (p.online == Some(true))
            &&& d.time_to_empty == seconds(p.time_to_empty)
            &&& d.time_to_full == seconds(p.time_to_full)
            &&& d.icon_name@ == text_or_empty(p.icon_name)
        },
{
    let code = match p.kind {
        Some(c) => c,
        None => return None,
    };
    let kind = DeviceKind::from_code(code);
    let state = DeviceState::from_code(
        match p.state {
            Some(s) => s,
            None => 0,
        },
    );
    let present = kind == DeviceKind::LinePower || flag(p.is_present);
    Some(
        PowerDevice {
            path: path.to_owned(),
            native_path: text_or_default(&p.native_path),
            vendor: text_or_default(&p.vendor),
            model: text_or_default(&p.model),
            serial: text_or_default(&p.serial),
            kind,
            state,
            power_supply: flag(p.power_supply),
            present,
            rechargeable: flag(p.rechargeable),
            online: flag(p.online),
            time_to_empty: seconds_of(p.time_to_empty),
            time_to_full: seconds_of(p.time_to_full),
            icon_name: text_or_default(&p.icon_name),
        },
    )
}

/// A battery that is present and powers the machine.
pub open spec fn system_battery(d: PowerDevice) -> bool {
    d.present && d.power_supply && d.kind == DeviceKind::Battery
}

/// The position of the device that stands for the machine's power: the first present
/// system battery, else the first line-power device. A peripheral battery never takes
/// its place.
pub fn primary_device(devices: &Vec<PowerDevice>) -> (r: Option<usize>)
    ensures
        match r {
            Some(i) => {
                &&& i < devices@.len()
                &&& (system_battery(devices@[i as int]) && forall|j: int|
                    0 <= j < i ==> !#[trigger] system_battery(devices@[j]))
                    || (devices@[i as int].kind == DeviceKind::LinePower && (forall|j: int|
                    0 <= j < devices@.len() ==> !#[trigger] system_battery(devices@[j]))
                    && forall|j: int| 0 <= j < i ==> #[trigger] devices@[j].kind != DeviceKind::LinePower)
            },
            None => forall|j: int| 0 <= j < devices@.len() ==> !#[trigger] system_battery(devices@[j])
                && devices@[j].kind != DeviceKind::LinePower,
        },
{
    let mut i: usize = 0;
    while i < devices.len()
        invariant
            i <= devices@.len(),
            forall|j: int| 0 <= j < i ==> !#[trigger] system_battery(devices@[j]),
        decreases devices@.len() - i,
    {
        let d = &devices[i];
        if d.present && d.power_supply && d.kind == DeviceKind::Battery {
            return Some(i);
        }
        i += 1;
    }
    let mut k: usize = 0;
    while k < devices.len()
        invariant
            k <= devices@.len(),
            forall|j: int| 0 <= j < devices@.len() ==> !#[trigger] system_battery(devices@[j]),
            forall|j: int| 0 <= j < k ==> #[trigger] devices@[j].kind != DeviceKind::LinePower,
        decreases devices@.len() - k,
    {
        if devices[k].kind == DeviceKind::LinePower {
            return Some(k);
        }
        k += 1;
    }
    None
}

/// `s` without the entries equal to `p`, in order.
pub open spec fn without(s: Seq<String>, p: Seq<char>) -> Seq<Seq<char>>
    decreases s.len(),
{
    if s.len() == 0 {
        Seq::empty()
    } else {
        let rest = without(s.drop_last(), p);
        if s.last()@ == p {
            rest
        } else {
            rest.push(s.last()@)
        }
    }
}

/// The texts of `s`, in order.
pub open spec fn texts(s: Seq<String>) -> Seq<Seq<char>> {
    s.map_values(|x: String| x@)
}

fn remove_text(v: &Vec<String>, p: &str) -> (r: Vec<String>)
    ensures
        texts(r@) == without(v@, p@),
{
    let mut r: Vec<String> = Vec::new();
    let mut i: usize = 0;
    while i < v.len()
        invariant
            i <= v@.len(),
            texts(r@) == without(v@.take(i as int), p@),
        decreases v@.len() - i,
    {
        assert(v@.take(i + 1).drop_last() =~= v@.take(i as int));
        if !crate::text::str_eq(v[i].as_str(), p) {
            let c = copy_string(&v[i]);
            r.push(c);
            assert(texts(r@) =~= without(v@.take(i as int), p@).push(v@[i as int]@));
        }
        i += 1;
    }
    assert(v@.take(i as int) =~= v@);
    r
}

/// The device paths the service follows: in discovery order, with those that were
/// removed, those with a proxy request in flight and those with a ready proxy.
pub struct Inventory {
    order: Vec<String>,
    removed: Vec<String>,
    pending: Vec<String>,
    loaded: Vec<String>,
}

/// The abstract state of an inventory.
#[verifier::ext_equal]
pub struct InventoryView {
    pub order: Seq<Seq<char>>,
    pub removed: Set<Seq<char>>,
    pub pending: Set<Seq<char>>,
    pub loaded: Set<Seq<char>>,
}

impl View for Inventory {
    type V = InventoryView;

    closed spec fn view(&self) -> InventoryView {
        InventoryView {
            order: texts(self.order@),
            removed: texts(self.removed@).to_set(),
            pending: texts(self.pending@).to_set(),
            loaded: texts(self.loaded@).to_set(),
        }
    }
}

/// What discovery of a device path asks for.
#[derive(Clone, Copy, Debug, PartialEq, Eq, Structural)]
pub enum AddOutcome {
    /// A proxy for the path is already ready or on its way.
    Known,
    /// The daemon has no owner to ask.
    NoOwner,
    /// Create a proxy for the path.
    Request,
}

proof fn lemma_texts_push(s: Seq<String>, x: String)
    ensures
        texts(s.push(x)) == texts(s).push(x@),
{
    assert(texts(s.push(x)) =~= texts(s).push(x@));
}

proof fn lemma_texts_contains(s: Seq<String>, p: Seq<char>)
    ensures
        texts(s).contains(p) == strings_contain(s, p),
{
    if strings_contain(s, p) {
        let i = choose|i: int| 0 <= i < s.len() && s[i]@ == p;
        assert(texts(s)[i] == p);
    }
    if texts(s).contains(p) {
        let i = choose|i: int| 0 <= i < texts(s).len() && texts(s)[i] == p;
        assert(s[i]@ == p);
    }
}

proof fn lemma_without_set(s: Seq<String>, p: Seq<char>)
    ensures
        without(s, p).to_set() == texts(s).to_set().remove(p),
    decreases s.len(),
{
    if s.len() == 0 {
        assert(texts(s).to_set() =~= Set::empty());
        assert(without(s, p).to_set() =~= Set::empty());
    } else {
        lemma_without_set(s.drop_last(), p);
        assert(texts(s) =~= texts(s.drop_last()).push(s.last()@));
        Seq::lemma_to_set_insert_commutes(texts(s.drop_last()), s.last()@);
        assert(texts(s).to_set() =~= texts(s.drop_last()).to_set().insert(s.last()@)) by {
            assert(texts(s.drop_last()).push(s.last()@) =~= texts(s.drop_last()) + seq![s.last()@]);
        };
        if s.last()@ != p {
            Seq::lemma_to_set_insert_commutes(without(s.drop_last(), p), s.last()@);
            assert(without(s.drop_last(), p).push(s.last()@) =~= without(s.drop_last(), p) + seq![s.last()@]);
        }
        assert(without(s, p).to_set() =~= texts(s).to_set().remove(p));
    }
}

impl Inventory {
    /// An empty inventory.
    pub fn new() -> (r: Inventory)
        ensures
            r@ == (InventoryView {
                order: Seq::empty(),
                removed: Set::empty(),
                pending: Set::empty(),
                loaded: Set::empty(),
            }),
    {
        let r = Inventory { order: Vec::new(), removed: Vec::new(), pending: Vec::new(), loaded: Vec::new() };
        assert(texts(r.order@) =~= Seq::empty());
        assert(texts(r.removed@).to_set() =~= Set::empty());
        r
    }

    /// The followed paths, in discovery order.
    pub fn order(&self) -> (r: &Vec<String>)
        ensures
            texts(r@) == self@.order,
    {
        &self.order
    }

    /// Whether a proxy for `path` is ready.
    pub fn is_loaded(&self, path: &str) -> (r: bool)
        ensures
            r == self@.loaded.contains(path@),
    {
        proof { lemma_texts_contains(self.loaded@, path@); }
        contains_string(&self.loaded, path)
    }

    /// Whether `path` was reported removed since the inventory was last listed.
    pub fn is_removed(&self, path: &str) -> (r: bool)
        ensures
            r == self@.removed.contains(path@),
    {
        proof { lemma_texts_contains(self.removed@, path@); }
        contains_string(&self.removed, path)
    }

    /// Takes a discovered path: it is no longer removed; unless a proxy for it is ready
    /// or requested, or there is no daemon to ask, it joins the order (once) and a
    /// proxy request for it starts.
    pub fn add(&mut self, path: &str, has_owner: bool) -> (r: AddOutcome)
        ensures
            final(self)@.removed == old(self)@.removed.remove(path@),
            (old(self)@.pending.contains(path@) || old(self)@.loaded.contains(path@)) ==> r == AddOutcome::Known
                && final(self)@ == (InventoryView { removed: old(self)@.removed.remove(path@), ..old(self)@ }),
            !(old(self)@.pending.contains(path@) || old(self)@.loaded.contains(path@)) && !has_owner
                ==> r == AddOutcome::NoOwner
                && final(self)@ == (InventoryView { removed: old(self)@.removed.remove(path@), ..old(self)@ }),
            !(old(self)@.pending.contains(path@) || old(self)@.loaded.contains(path@)) && has_owner
                ==> r == AddOutcome::Request
                && final(self)@.pending == old(self)@.pending.insert(path@)
                && final(self)@.loaded == old(self)@.loaded
                && final(self)@.order == (if old(self)@.order.contains(path@) {
                    old(self)@.order
                } else {
                    old(self)@.order.push(path@)
                }),
    {
        proof {
            lemma_without_set(self.removed@, path@);
            lemma_texts_contains(self.pending@, path@);
            lemma_texts_contains(self.loaded@, path@);
            lemma_texts_contains(self.order@, path@);
        }
        let removed = remove_text(&self.removed, path);
        proof {
            let r = removed@;
            assert(texts(r).to_set() == without(self.removed@, path@).to_set());
        }
        self.removed = removed;
        if contains_string(&self.pending, path) || contains_string(&self.loaded, path) {
            return AddOutcome::Known;
        }
        if !has_owner {
            return AddOutcome::NoOwner;
        }
        if !contains_string(&self.order, path) {
            let ghost before = self.order@;
            let owned = path.to_owned();
            self.order.push(owned);
            proof { lemma_texts_push(before, owned); }
            assert(texts(self.order@) == texts(before).push(path@));
        }
        let ghost before = self.pending@;
        let owned = path.to_owned();
        self.pending.push(owned);
        proof {
            lemma_texts_push(before, owned);
            Seq::lemma_to_set_insert_commutes(texts(before), path@);
            assert(texts(before).push(path@) =~= texts(before) + seq![path@]);
        }
        AddOutcome::Request
    }

    /// Ends the proxy request for `path`; a ready proxy makes the path loaded.
    pub fn finish(&mut self, path: &str, ready: bool)
        ensures
            final(self)@.order == old(self)@.order,
            final(self)@.removed == old(self)@.removed,
            final(self)@.pending == old(self)@.pending.remove(path@),
            final(self)@.loaded == (if ready { old(self)@.loaded.insert(path@) } else { old(self)@.loaded }),
    {
        proof { lemma_without_set(self.pending@, path@); }
        let pending = remove_text(&self.pending, path);
        proof { assert(texts(pending@).to_set() == without(self.pending@, path@).to_set()); }
        self.pending = pending;
        if ready {
            let ghost before = self.loaded@;
            let owned = path.to_owned();
            self.loaded.push(owned);
            proof {
                lemma_texts_push(before, owned);
                Seq::lemma_to_set_insert_commutes(texts(before), path@);
                assert(texts(before).push(path@) =~= texts(before) + seq![path@]);
            }
        }
    }

    /// Forgets a removed device: it is marked removed, its request and proxy are
    /// dropped and it leaves the order.
    pub fn remove(&mut self, path: &str)
        ensures
            final(self)@.removed == old(self)@.removed.insert(path@),
            final(self)@.pending == old(self)@.pending.remove(path@),
            final(self)@.loaded == old(self)@.loaded.remove(path@),
            final(self)@.order == without_texts(old(self)@.order, path@),
    {
        let ghost before = self.removed@;
        let owned = path.to_owned();
        self.removed.push(owned);
        proof {
            lemma_texts_push(before, owned);
            Seq::lemma_to_set_insert_commutes(texts(before), path@);
            assert(texts(before).push(path@) =~= texts(before) + seq![path@]);
            lemma_without_set(self.pending@, path@);
            lemma_without_set(self.loaded@, path@);
            lemma_without_texts(self.order@, path@);
        }
        let pending = remove_text(&self.pending, path);
        let loaded = remove_text(&self.loaded, path);
        let order = remove_text(&self.order, path);
        proof {
            assert(texts(pending@).to_set() == without(self.pending@, path@).to_set());
            assert(texts(loaded@).to_set() == without(self.loaded@, path@).to_set());
        }
        self.pending = pending;
        self.loaded = loaded;
        self.order = order;
    }

    /// Forgets everything, as when the daemon goes away.
    pub fn reset(&mut self)
        ensures
            final(self)@ == (InventoryView {
                order: Seq::empty(),
                removed: Set::empty(),
                pending: Set::empty(),
                loaded: Set::empty(),
            }),
    {
        *self = Inventory::new();
    }

    /// The loaded paths, in order: the devices whose records make up the list.
    pub fn listed(&self) -> (r: Vec<String>)
        ensures
            texts(r@) == self@.order.filter(|p: Seq<char>| self@.loaded.contains(p)),
    {
        let mut r: Vec<String> = Vec::new();
        let mut i: usize = 0;
        let ghost keep = |p: Seq<char>| self@.loaded.contains(p);
        while i < self.order.len()
            invariant
                i <= self.order@.len(),
                keep == (|p: Seq<char>| self@.loaded.contains(p)),
                texts(r@) == texts(self.order@).take(i as int).filter(keep),
            decreases self.order@.len() - i,
        {
            let ghost t = texts(self.order@);
            assert(t.take(i + 1) =~= t.take(i as int).push(t[i as int]));
            proof {
                t.take(i as int).lemma_filter_push(t[i as int], keep);
                lemma_texts_contains(self.loaded@, self.order@[i as int]@);
            }
            if contains_string(&self.loaded, self.order[i].as_str()) {
                let ghost before = r@;
                let c = copy_string(&self.order[i]);
                r.push(c);
                proof { lemma_texts_push(before, c); }
            }
            i += 1;
        }
        assert(texts(self.order@).take(i as int) =~= texts(self.order@));
        r
    }
}

/// `s` without the entries equal to `p`, in order.
pub open spec fn without_texts(s: Seq<Seq<char>>, p: Seq<char>) -> Seq<Seq<char>>
    decreases s.len(),
{
    if s.len() == 0 {
        Seq::empty()
    } else {
        let rest = without_texts(s.drop_last(), p);
        if s.last() == p {
            rest
        } else {
            rest.push(s.last())
        }
    }
}

proof fn lemma_without_texts(s: Seq<String>, p: Seq<char>)
    ensures
        without(s, p) == without_texts(texts(s), p),
    decreases s.len(),
{
    if s.len() > 0 {
        lemma_without_texts(s.drop_last(), p);
        assert(texts(s).drop_last() =~= texts(s.drop_last()));
    }
}

} // verus!

//! Bluetooth: rfkill radio events, which devices are listed, and when a request is retried.
use crate::text::{append, chars_of, str_eq};
use crate::wayland::model::{be_u32, le_u32, native_u32};
use vstd::prelude::*;

verus! {

/// A device shown in the Bluetooth menu.
#[derive(Clone, Debug, PartialEq, Eq)]
pub struct BluetoothDevice {
    pub path: String,
    pub alias: String,
    pub icon: String,
    pub connected: bool,
    pub busy: bool,
}

/// The Bluetooth state the shell shows.
#[derive(Clone, Debug, PartialEq, Eq)]
pub struct BluetoothState {
    pub available: bool,
    pub ready: bool,
    pub powered: bool,
    pub target_powered: bool,
    pub busy: bool,
    pub hardware_blocked: bool,
    pub devices: Vec<BluetoothDevice>,
}

/// The rfkill type of Bluetooth radios.
pub const RFKILL_BLUETOOTH: u8 = 2;

/// An rfkill operation.
#[derive(Clone, Copy, Debug, PartialEq, Eq, Structural)]
pub enum RadioChange {
    /// Radio `id` now has these soft and hard blocks.
    Blocks { id: u32, soft: bool, hard: bool },
    /// Radio `id` went away.
    Removed { id: u32 },
}

/// A Bluetooth rfkill event read from an eight-byte record, or `None` for other radios.
/// The record holds the index in machine byte order, then type, operation, soft and
/// hard block.
pub open spec fn radio_event(b: Seq<u8>, id: u32) -> Option<RadioChange> {
    if b[4] != RFKILL_BLUETOOTH {
        None
    } else if b[5] == 1 {
        Some(RadioChange::Removed { id })
    } else {
        Some(RadioChange::Blocks { id, soft: b[6] != 0, hard: b[7] != 0 })
    }
}

/// Reads an rfkill event record.
pub fn decode_radio(b: &[u8; 8]) -> (r: Option<RadioChange>)
    ensures
        r is None <==> b@[4] != RFKILL_BLUETOOTH,
        r matches Some(c) ==> {
            let id = match c {
                RadioChange::Blocks { id, .. } => id,
                RadioChange::Removed { id } => id,
            };
            &&& (id == le_u32(b@.take(4)) || id == be_u32(b@.take(4)))
            &&& r == radio_event(b@, id)
        },
{
    if b[4] != RFKILL_BLUETOOTH {
        return None;
    }
    let id = native_u32(b[0], b[1], b[2], b[3]);
    proof {
        assert(seq![b@[0], b@[1], b@[2], b@[3]] =~= b@.take(4));
    }
    if b[5] == 1 {
        Some(RadioChange::Removed { id })
    } else {
        Some(RadioChange::Blocks { id, soft: b[6] != 0, hard: b[7] != 0 })
    }
}

/// Encodes a value in the machine's byte order, as `u32::to_ne_bytes` does.
#[verifier::external_body]
fn native_bytes(v: u32) -> (r: [u8; 4])
    ensures
        le_u32(r@) == v || be_u32(r@) == v,
{
    v.to_ne_bytes()
}

/// The record that asks rfkill to change the soft block of Bluetooth radio `index`
/// (`operation` 2) or of all Bluetooth radios (`operation` 3).
pub fn encode_radio(operation: u8, index: u32, blocked: bool) -> (r: [u8; 8])
    ensures
        le_u32(r@.take(4)) == index || be_u32(r@.take(4)) == index,
        r@[4] == RFKILL_BLUETOOTH,
        r@[5] == operation,
        r@[6] == (if blocked { 1u8 } else { 0u8 }),
        r@[7] == 0,
{
    let n = native_bytes(index);
    let r: [u8; 8] = [n[0], n[1], n[2], n[3], RFKILL_BLUETOOTH, operation, if blocked { 1 } else { 0 }, 0];
    assert(r@.take(4) =~= n@);
    r
}

/// Whether an airplane-mode block was lifted by someone else: a change event that
/// unblocks a radio while the shell is not itself changing power.
pub fn overrides_airplane(airplane: bool, busy: bool, record: &[u8; 8]) -> (r: bool)
    ensures
        r == (airplane && !busy && record@[4] == RFKILL_BLUETOOTH && record@[5] == 2 && record@[6] == 0),
{
    airplane && !busy && record[4] == RFKILL_BLUETOOTH && record[5] == 2 && record[6] == 0
}

/// Whether a radio record `(id, soft, hard)` holds the kind of block asked about.
pub open spec fn radio_blocked(r: (u32, bool, bool), hard: bool) -> bool {
    if hard { r.2 } else { r.1 }
}

/// Whether any radio holds a soft (or, with `hard`, a hard) block.
pub open spec fn any_blocked(radios: Seq<(u32, bool, bool)>, hard: bool) -> bool {
    exists|i: int| 0 <= i < radios.len() && #[trigger] radio_blocked(radios[i], hard)
}

/// Whether any radio is blocked: softly, or with `hard`, by a switch.
pub fn blocked(radios: &Vec<(u32, bool, bool)>, hard: bool) -> (r: bool)
    ensures
        r == any_blocked(radios@, hard),
{
    let mut i: usize = 0;
    while i < radios.len()
        invariant
            i <= radios@.len(),
            forall|j: int| 0 <= j < i ==> !#[trigger] radio_blocked(radios@[j], hard),
        decreases radios@.len() - i,
    {
        let (_, soft, h) = radios[i];
        if (hard && h) || (!hard && soft) {
            assert(radio_blocked(radios@[i as int], hard));
            return true;
        }
        i += 1;
    }
    false
}

/// The code of a character's ASCII lower case.
pub open spec fn lower(c: char) -> u32 {
    if 'A' <= c <= 'Z' {
        (c as u32 + 32) as u32
    } else {
        c as u32
    }
}

/// Equality ignoring ASCII case.
pub open spec fn same_ignoring_case(a: Seq<char>, b: Seq<char>) -> bool {
    a.len() == b.len() && forall|i: int| 0 <= i < a.len() ==> lower(#[trigger] a[i]) == lower(b[i])
}

/// The Bluetooth base UUID suffix.
pub open spec fn base_suffix() -> Seq<char> {
    "-0000-1000-8000-00805f9b34fb"@
}

/// Whether a UUID is the Bluetooth base UUID with the given 32-bit prefix.
pub open spec fn profile(u: Seq<char>, prefix: Seq<char>) -> bool {
    same_ignoring_case(u, prefix + base_suffix())
}

/// Whether a UUID names a profile the shell can connect: one of the listed audio and
/// input profiles, or the LE audio service.
pub open spec fn connectable_uuid(u: Seq<char>) -> bool {
    ||| same_ignoring_case(u, "03b80e5a-ede8-4b33-a751-6ce34ec4c700"@)
    ||| profile(u, "00001108"@)
    ||| profile(u, "0000110a"@)
    ||| profile(u, "0000110b"@)
    ||| profile(u, "0000110c"@)
    ||| profile(u, "0000110e"@)
    ||| profile(u, "00001112"@)
    ||| profile(u, "0000111e"@)
    ||| profile(u, "0000111f"@)
    ||| profile(u, "00001124"@)
    ||| profile(u, "00001812"@)
}

/// Whether `u` spells `l`, a text in lower case, up to ASCII case: each character is
/// the same, or an upper-case ASCII letter whose lower case is there.
pub open spec fn spells(u: Seq<char>, l: Seq<char>) -> bool {
    u.len() == l.len() && forall|i: int| 0 <= i < u.len() ==> #[trigger] u[i] == l[i] || ('A' <= u[i] <= 'Z'
        && l[i] as u32 == u[i] as u32 + 32)
}

/// Which UUIDs are connectable: exactly those that spell, in any ASCII case, the LE
/// audio service or one of the audio and input profiles 1108, 110a, 110b, 110c, 110e,
/// 1112, 111e, 111f, 1124 and 1812 on the Bluetooth base UUID.
pub proof fn lemma_connectable_profiles(u: Seq<char>)
    ensures
        spells(u, "03b80e5a-ede8-4b33-a751-6ce34ec4c700"@) ==> connectable_uuid(u),
        spells(u, "00001108-0000-1000-8000-00805f9b34fb"@) ==> connectable_uuid(u),
        spells(u, "0000110a-0000-1000-8000-00805f9b34fb"@) ==> connectable_uuid(u),
        spells(u, "0000110b-0000-1000-8000-00805f9b34fb"@) ==> connectable_uuid(u),
        spells(u, "0000110c-0000-1000-8000-00805f9b34fb"@) ==> connectable_uuid(u),
        spells(u, "0000110e-0000-1000-8000-00805f9b34fb"@) ==> connectable_uuid(u),
        spells(u, "00001112-0000-1000-8000-00805f9b34fb"@) ==> connectable_uuid(u),
        spells(u, "0000111e-0000-1000-8000-00805f9b34fb"@) ==> connectable_uuid(u),
        spells(u, "0000111f-0000-1000-8000-00805f9b34fb"@) ==> connectable_uuid(u),
        spells(u, "00001124-0000-1000-8000-00805f9b34fb"@) ==> connectable_uuid(u),
        spells(u, "00001812-0000-1000-8000-00805f9b34fb"@) ==> connectable_uuid(u),
        connectable_uuid(u) ==> spells(u, "03b80e5a-ede8-4b33-a751-6ce34ec4c700"@)
            || spells(u, "00001108-0000-1000-8000-00805f9b34fb"@)
            || spells(u, "0000110a-0000-1000-8000-00805f9b34fb"@)
            || spells(u, "0000110b-0000-1000-8000-00805f9b34fb"@)
            || spells(u, "0000110c-0000-1000-8000-00805f9b34fb"@)
            || spells(u, "0000110e-0000-1000-8000-00805f9b34fb"@)
            || spells(u, "00001112-0000-1000-8000-00805f9b34fb"@)
            || spells(u, "0000111e-0000-1000-8000-00805f9b34fb"@)
            || spells(u, "0000111f-0000-1000-8000-00805f9b34fb"@)
            || spells(u, "00001124-0000-1000-8000-00805f9b34fb"@)
            || spells(u, "00001812-0000-1000-8000-00805f9b34fb"@),
{
    reveal_strlit("-0000-1000-8000-00805f9b34fb");
    reveal_strlit("03b80e5a-ede8-4b33-a751-6ce34ec4c700");
    lemma_lower_spelling(u, "03b80e5a-ede8-4b33-a751-6ce34ec4c700"@);
    reveal_strlit("00001108");
    reveal_strlit("00001108-0000-1000-8000-00805f9b34fb");
    assert("00001108"@ + base_suffix() =~= "00001108-0000-1000-8000-00805f9b34fb"@);
    lemma_lower_spelling(u, "00001108-0000-1000-8000-00805f9b34fb"@);
    reveal_strlit("0000110a");
    reveal_strlit("0000110a-0000-1000-8000-00805f9b34fb");
    assert("0000110a"@ + base_suffix() =~= "0000110a-0000-1000-8000-00805f9b34fb"@);
    lemma_lower_spelling(u, "0000110a-0000-1000-8000-00805f9b34fb"@);
    reveal_strlit("0000110b");
    reveal_strlit("0000110b-0000-1000-8000-00805f9b34fb");
    assert("0000110b"@ + base_suffix() =~= "0000110b-0000-1000-8000-00805f9b34fb"@);
    lemma_lower_spelling(u, "0000110b-0000-1000-8000-00805f9b34fb"@);
    reveal_strlit("0000110c");
    reveal_strlit("0000110c-0000-1000-8000-00805f9b34fb");
    assert("0000110c"@ + base_suffix() =~= "0000110c-0000-1000-8000-00805f9b34fb"@);
    lemma_lower_spelling(u, "0000110c-0000-1000-8000-00805f9b34fb"@);
    reveal_strlit("0000110e");
    reveal_strlit("0000110e-0000-1000-8000-00805f9b34fb");
    assert("0000110e"@ + base_suffix() =~= "0000110e-0000-1000-8000-00805f9b34fb"@);
    lemma_lower_spelling(u, "0000110e-0000-1000-8000-00805f9b34fb"@);
    reveal_strlit("00001112");
    reveal_strlit("00001112-0000-1000-8000-00805f9b34fb");
    assert("00001112"@ + base_suffix() =~= "00001112-0000-1000-8000-00805f9b34fb"@);
    lemma_lower_spelling(u, "00001112-0000-1000-8000-00805f9b34fb"@);
    reveal_strlit("0000111e");
    reveal_strlit("0000111e-0000-1000-8000-00805f9b34fb");
    assert("0000111e"@ + base_suffix() =~= "0000111e-0000-1000-8000-00805f9b34fb"@);
    lemma_lower_spelling(u, "0000111e-0000-1000-8000-00805f9b34fb"@);
    reveal_strlit("0000111f");
    reveal_strlit("0000111f-0000-1000-8000-00805f9b34fb");
    assert("0000111f"@ + base_suffix() =~= "0000111f-0000-1000-8000-00805f9b34fb"@);
    lemma_lower_spelling(u, "0000111f-0000-1000-8000-00805f9b34fb"@);
    reveal_strlit("00001124");
    reveal_strlit("00001124-0000-1000-8000-00805f9b34fb");
    assert("00001124"@ + base_suffix() =~= "00001124-0000-1000-8000-00805f9b34fb"@);
    lemma_lower_spelling(u, "00001124-0000-1000-8000-00805f9b34fb"@);
    reveal_strlit("00001812");
    reveal_strlit("00001812-0000-1000-8000-00805f9b34fb");
    assert("00001812"@ + base_suffix() =~= "00001812-0000-1000-8000-00805f9b34fb"@);
    lemma_lower_spelling(u, "00001812-0000-1000-8000-00805f9b34fb"@);
}

proof fn lemma_lower_spelling(u: Seq<char>, l: Seq<char>)
    requires
        forall|i: int| 0 <= i < l.len() ==> !('A' <= #[trigger] l[i] <= 'Z'),
    ensures
        spells(u, l) <==> same_ignoring_case(u, l),
{
    if spells(u, l) {
        assert forall|i: int| 0 <= i < u.len() implies lower(#[trigger] u[i]) == lower(l[i]) by {
            assert(!('A' <= l[i] <= 'Z'));
        };
    }
    if same_ignoring_case(u, l) {
        assert forall|i: int| 0 <= i < u.len() implies #[trigger] u[i] == l[i] || ('A' <= u[i] <= 'Z' && l[i] as u32
            == u[i] as u32 + 32) by {
            assert(lower(u[i]) == lower(l[i]));
            assert(!('A' <= l[i] <= 'Z'));
            if !('A' <= u[i] <= 'Z') {
                vstd::utf8::char_u32_cast(u[i], u[i] as u32);
                vstd::utf8::char_u32_cast(l[i], l[i] as u32);
            }
        };
    }
}

fn lower_char(c: char) -> (r: u32)
    ensures
        r == lower(c),
{
    let code = c as u32;
    if 'A' <= c && c <= 'Z' {
        code + 32
    } else {
        code
    }
}

fn eq_ignore_case(a: &str, b: &str) -> (r: bool)
    ensures
        r == same_ignoring_case(a@, b@),
{
    let x = chars_of(a);
    let y = chars_of(b);
    if x.len() != y.len() {
        return false;
    }
    let mut i: usize = 0;
    while i < x.len()
        invariant
            i <= x@.len(),
            x@ == a@,
            y@ == b@,
            x@.len() == y@.len(),
            forall|j: int| 0 <= j < i ==> lower(#[trigger] x@[j]) == lower(y@[j]),
        decreases x@.len() - i,
    {
        if lower_char(x[i]) != lower_char(y[i]) {
            return false;
        }
        i += 1;
    }
    true
}

fn is_profile(u: &str, prefix: &str) -> (r: bool)
    ensures
        r == profile(u@, prefix@),
{
    let mut s = String::new();
    crate::text::append(&mut s, prefix);
    crate::text::append(&mut s, "-0000-1000-8000-00805f9b34fb");
    eq_ignore_case(u, s.as_str())
}

fn connectable_one(u: &str) -> (r: bool)
    ensures
        r == connectable_uuid(u@),
{
    eq_ignore_case(u, "03b80e5a-ede8-4b33-a751-6ce34ec4c700") || is_profile(u, "00001108") || is_profile(u, "0000110a")
        || is_profile(u, "0000110b") || is_profile(u, "0000110c") || is_profile(u, "0000110e") || is_profile(u, "00001112")
        || is_profile(u, "0000111e") || is_profile(u, "0000111f") || is_profile(u, "00001124") || is_profile(u, "00001812")
}

/// Whether a device offers a profile the shell connects.
pub fn connectable(uuids: &Vec<String>) -> (r: bool)
    ensures
        r == exists|i: int| 0 <= i < uuids@.len() && connectable_uuid(#[trigger] uuids@[i]@),
{
    let mut i: usize = 0;
    while i < uuids.len()
        invariant
            i <= uuids@.len(),
            forall|j: int| 0 <= j < i ==> !connectable_uuid(#[trigger] uuids@[j]@),
        decreases uuids@.len() - i,
    {
        if connectable_one(uuids[i].as_str()) {
            return true;
        }
        i += 1;
    }
    false
}

/// Whether a device is listed: it is paired or trusted, connected or connectable, and
/// its adapter is powered.
pub fn listed(paired: bool, trusted: bool, connected: bool, connectable: bool, adapter_powered: bool) -> (r: bool)
    ensures
        r == ((paired || trusted) && (connected || connectable) && adapter_powered),
{
    (paired || trusted) && (connected || connectable) && adapter_powered
}

/// Whether a failed call may succeed when retried: BlueZ reported it busy, blocked, in
/// progress or not ready, or a general failure that mentions a block.
pub open spec fn transient_error(remote: Option<Seq<char>>, message: Seq<char>) -> bool {
    match remote {
        Some(r) => if r == "org.bluez.Error.Busy"@ || r == "org.bluez.Error.Blocked"@ || r
            == "org.bluez.Error.InProgress"@ || r == "org.bluez.Error.NotReady"@ {
            true
        } else if r == "org.bluez.Error.Failed"@ {
            exists|i: int| 0 <= i && i + 7 <= message.len() && (#[trigger] message.subrange(i, i + 7)
                == "Blocked"@ || message.subrange(i, i + 7) == "blocked"@)
        } else {
            false
        },
        None => false,
    }
}

fn mentions_block(message: &str) -> (r: bool)
    ensures
        r == exists|i: int| 0 <= i && i + 7 <= message@.len() && (#[trigger] message@.subrange(i, i + 7)
            == "Blocked"@ || message@.subrange(i, i + 7) == "blocked"@),
{
    let c = chars_of(message);
    let a = chars_of("Blocked");
    let b = chars_of("blocked");
    proof {
        reveal_strlit("Blocked");
        reveal_strlit("blocked");
    }
    if c.len() < 7 {
        return false;
    }
    let n = c.len();
    let last = n - 7;
    let mut i: usize = 0;
    while i <= last
        invariant
            n == c@.len(),
            last + 7 == n,
            c@ == message@,
            a@ == "Blocked"@,
            b@ == "blocked"@,
            a@.len() == 7 && b@.len() == 7,
            last + 7 == c@.len(),
            i <= last + 1,
            forall|j: int| 0 <= j < i ==> !(#[trigger] c@.subrange(j, j + 7) == a@ || c@.subrange(j, j + 7) == b@),
        decreases last + 1 - i,
    {
        let mut same_a = true;
        let mut same_b = true;
        let mut k: usize = 0;
        while k < 7
            invariant
                k <= 7,
                i <= last,
                last + 7 == n,
                n == c@.len(),
                a@.len() == 7 && b@.len() == 7,
                same_a == forall|m: int| 0 <= m < k ==> c@[i + m] == a@[m],
                same_b == forall|m: int| 0 <= m < k ==> c@[i + m] == b@[m],
            decreases 7 - k,
        {
            if c[i + k] != a[k] {
                same_a = false;
            }
            if c[i + k] != b[k] {
                same_b = false;
            }
            k += 1;
        }
        if same_a || same_b {
            proof {
                if same_a {
                    assert(c@.subrange(i as int, i + 7) =~= a@);
                } else {
                    assert(c@.subrange(i as int, i + 7) =~= b@);
                }
            }
            return true;
        }
        proof {
            assert(!same_a ==> c@.subrange(i as int, i + 7) != a@) by {
                if !same_a {
                    let m = choose|m: int| 0 <= m < 7 && c@[i + m] != a@[m];
                    assert(c@.subrange(i as int, i + 7)[m] == c@[i + m]);
                }
            };
            assert(!same_b ==> c@.subrange(i as int, i + 7) != b@) by {
                if !same_b {
                    let m = choose|m: int| 0 <= m < 7 && c@[i + m] != b@[m];
                    assert(c@.subrange(i as int, i + 7)[m] == c@[i + m]);
                }
            };
        }
        i += 1;
    }
    false
}

/// Whether a failed call may succeed when retried.
pub fn transient(remote: Option<&str>, message: &str) -> (r: bool)
    ensures
        r == transient_error(match remote { Some(x) => Some(x@), None => None }, message@),
{
    match remote {
        Some(r) => if str_eq(r, "org.bluez.Error.Busy") || str_eq(r, "org.bluez.Error.Blocked") || str_eq(
            r,
            "org.bluez.Error.InProgress",
        ) || str_eq(r, "org.bluez.Error.NotReady") {
            true
        } else if str_eq(r, "org.bluez.Error.Failed") {
            mentions_block(message)
        } else {
            false
        },
        None => false,
    }
}

/// The most times a power change is retried.
pub const MAX_RETRIES: u32 = 40;

/// Whether a failed power change is tried again after a short pause: it still owns the
/// adapter, is not superseded, has not reached its target, has retries and time left,
/// and failed transiently.
pub fn retry_power(is_power: bool, relevant: bool, superseded: bool, reached: bool, retries: u32, before_deadline: bool, transient: bool) -> (r: bool)
    ensures
        r == (is_power && relevant && !superseded && !reached && retries < MAX_RETRIES && before_deadline && transient),
{
    is_power && relevant && !superseded && !reached && retries < MAX_RETRIES && before_deadline && transient
}

/// What a click on a device does: the connection state it asks for, and the text that
/// prefixes a failure.
pub open spec fn toggle_text(connect: bool, alias: Seq<char>) -> Seq<char> {
    (if connect {
        "Could not connect to "@
    } else {
        "Could not disconnect "@
    }) + alias
}

/// A click on a device: refused while stopped, while an adapter change is in flight,
/// with the adapter off, or while the device has a request pending; otherwise the
/// device is connected when it is not, and disconnected when it is.
pub fn toggle_plan(stopped: bool, busy: bool, powered: bool, pending: bool, connected: bool, alias: &str) -> (r: Option<(bool, String)>)
    ensures
        (stopped || busy || !powered || pending) ==> r is None,
        !(stopped || busy || !powered || pending) ==> (r matches Some((target, text)) && target == !connected
            && text@ == toggle_text(!connected, alias@)),
{
    if stopped || busy || !powered || pending {
        return None;
    }
    let target = !connected;
    let mut text = String::new();
    if target {
        append(&mut text, "Could not connect to ");
    } else {
        append(&mut text, "Could not disconnect ");
    }
    append(&mut text, alias);
    Some((target, text))
}

/// How a finished request is reported.
#[derive(Clone, Debug, PartialEq, Eq)]
pub enum Finish {
    /// Stale or superseded: nothing is reported.
    Ignore,
    /// The request failed short of its target; the text is reported.
    Failed(String),
    /// The request reached its target.
    Succeeded,
}

/// The report of a failure: the request's text, a colon and the error's message.
pub open spec fn failure_text(description: Seq<char>, message: Seq<char>) -> Seq<char> {
    description + ": "@ + message
}

/// How a request that is not retried ends: a request that still counts and is not
/// superseded fails when it met an error short of its target, and succeeds otherwise.
pub fn finish_outcome(relevant: bool, superseded: bool, reached: bool, error: Option<&str>, description: &str) -> (r: Finish)
    ensures
        !(relevant && !superseded) ==> r == Finish::Ignore,
        relevant && !superseded ==> match error {
            Some(m) => if !reached {
                r matches Finish::Failed(t) && t@ == failure_text(description@, m@)
            } else {
                r == Finish::Succeeded
            },
            None => r == Finish::Succeeded,
        },
{
    if !(relevant && !superseded) {
        return Finish::Ignore;
    }
    match error {
        Some(m) => if !reached {
            let mut text = String::new();
            append(&mut text, description);
            append(&mut text, ": ");
            append(&mut text, m);
            Finish::Failed(text)
        } else {
            Finish::Succeeded
        },
        None => Finish::Succeeded,
    }
}

/// The radio writes and power request that leave airplane mode, restoring what was saved
/// on entering it.
#[derive(Clone, Debug, PartialEq, Eq)]
pub struct AirplaneRestore {
    /// Block or unblock all radios first, when blocks were saved.
    pub all: Option<bool>,
    /// Then restore each saved radio that still exists.
    pub radios: Vec<(u32, bool)>,
    /// Then power adapters back, when powers were saved: on if any was on.
    pub power: Option<bool>,
}

/// Whether a saved radio block names a radio that is still present.
pub open spec fn still_present(present: Seq<u32>) -> spec_fn((u32, bool)) -> bool {
    |b: (u32, bool)| present.contains(b.0)
}

/// What leaving airplane mode restores. Nothing is restored when the user overrode it.
pub fn airplane_restore(overridden: bool, blocks: &Vec<(u32, bool)>, present: &Vec<u32>, powers: &Vec<bool>) -> (r: AirplaneRestore)
    ensures
        overridden ==> r.all is None && r.radios@.len() == 0 && r.power is None,
        !overridden ==> {
            &&& r.all == (if blocks@.len() == 0 { None } else { Some(forall|i: int| 0 <= i < blocks@.len() ==> #[trigger] blocks@[i].1) })
            &&& r.power == (if powers@.len() == 0 { None } else { Some(exists|i: int| 0 <= i < powers@.len() && #[trigger] powers@[i]) })
            &&& r.radios@ == blocks@.filter(still_present(present@))
        },
{
    if overridden {
        return AirplaneRestore { all: None, radios: Vec::new(), power: None };
    }
    proof {
        crate::stable::lemma_filter_empty(still_present(present@));
        assert(blocks@.take(0) =~= Seq::<(u32, bool)>::empty());
    }
    let mut every = true;
    let mut radios: Vec<(u32, bool)> = Vec::new();
    let mut i: usize = 0;
    while i < blocks.len()
        invariant
            i <= blocks@.len(),
            every == forall|j: int| 0 <= j < i ==> #[trigger] blocks@[j].1,
            radios@ == blocks@.take(i as int).filter(still_present(present@)),
        decreases blocks@.len() - i,
    {
        proof {
            blocks@.take(i as int).lemma_filter_push(blocks@[i as int], still_present(present@));
            assert(blocks@.take(i as int).push(blocks@[i as int]) =~= blocks@.take(i + 1));
        }
        let (id, b) = blocks[i];
        if !b {
            every = false;
        }
        let mut found = false;
        let mut k: usize = 0;
        while k < present.len()
            invariant
                k <= present@.len(),
                found == exists|m: int| 0 <= m < k && present@[m] == id,
            decreases present@.len() - k,
        {
            if present[k] == id {
                found = true;
            }
            k += 1;
        }
        if found {
            proof {
                let m = choose|m: int| 0 <= m < k && present@[m] == id;
                assert(present@.contains(id));
            }
            radios.push((id, b));
        } else {
            assert(!present@.contains(id));
        }
        i += 1;
    }
    assert(blocks@.take(blocks@.len() as int) =~= blocks@);
    let mut any = false;
    let mut p: usize = 0;
    while p < powers.len()
        invariant
            p <= powers@.len(),
            any == exists|j: int| 0 <= j < p && #[trigger] powers@[j],
        decreases powers@.len() - p,
    {
        if powers[p] {
            any = true;
        }
        p += 1;
    }
    AirplaneRestore {
        all: if blocks.len() == 0 { None } else { Some(every) },
        radios,
        power: if powers.len() == 0 { None } else { Some(any) },
    }
}

/// Why a power request was refused.
#[derive(Clone, Copy, Debug, PartialEq, Eq, Structural)]
pub enum PowerError {
    HardwareBlocked,
    Unavailable,
}

/// The text of each refusal.
pub open spec fn power_error_message(e: PowerError) -> Seq<char> {
    match e {
        PowerError::HardwareBlocked => "Bluetooth is disabled by a hardware switch"@,
        PowerError::Unavailable => "The Bluetooth service is unavailable"@,
    }
}

impl PowerError {
    /// The message reported for this refusal.
    pub fn message(&self) -> (r: &'static str)
        ensures
            r@ == power_error_message(*self),
    {
        match self {
            PowerError::HardwareBlocked => "Bluetooth is disabled by a hardware switch",
            PowerError::Unavailable => "The Bluetooth service is unavailable",
        }
    }
}

/// What an accepted power request sets in motion.
#[derive(Clone, Copy, Debug, PartialEq, Eq, Structural)]
pub struct PowerRequest {
    /// Block the radios once the adapters are off (turning off in airplane mode).
    pub block_after_off: bool,
    /// Cancel pending connection changes (turning off).
    pub cancel_connections: bool,
    /// Unblock every Bluetooth radio first (turning everything on while soft-blocked).
    pub unblock_all: bool,
}

/// Checks a request to power the adapters on or off and says what it starts. `all`
/// tells that the request covers every adapter rather than a saved set.
pub fn power_request(
    powered: bool,
    hard_blocked: bool,
    ready: bool,
    airplane: bool,
    airplane_override: bool,
    all: bool,
    soft_blocked: bool,
) -> (r: Result<PowerRequest, PowerError>)
    ensures
        r == (if powered && hard_blocked {
            Err(PowerError::HardwareBlocked)
        } else if !ready {
            Err(PowerError::Unavailable)
        } else {
            Ok(
                PowerRequest {
                    block_after_off: !powered && airplane && !airplane_override,
                    cancel_connections: !powered,
                    unblock_all: powered && all && soft_blocked,
                },
            )
        }),
{
    if powered && hard_blocked {
        return Err(PowerError::HardwareBlocked);
    }
    if !ready {
        return Err(PowerError::Unavailable);
    }
    Ok(
        PowerRequest {
            block_after_off: !powered && airplane && !airplane_override,
            cancel_connections: !powered,
            unblock_all: powered && all && soft_blocked,
        },
    )
}

/// The power state an adapter is driven to: its entry in a saved set, else off; with
/// no saved set, the requested state.
pub open spec fn adapter_target(targets: Option<Seq<(Seq<char>, bool)>>, requested: bool, path: Seq<char>) -> bool {
    match targets {
        Some(t) => match saved_power(t, path) {
            Some(v) => v,
            None => false,
        },
        None => requested,
    }
}

/// The saved power state of adapter `path`: its first entry.
pub open spec fn saved_power(t: Seq<(Seq<char>, bool)>, path: Seq<char>) -> Option<bool>
    decreases t.len(),
{
    if t.len() == 0 {
        None
    } else if t[0].0 == path {
        Some(t[0].1)
    } else {
        saved_power(t.drop_first(), path)
    }
}

/// Whether a request covers adapter `path`: every adapter, or those of the saved set.
pub open spec fn covered(targets: Option<Seq<(Seq<char>, bool)>>, path: Seq<char>) -> bool {
    match targets {
        Some(t) => saved_power(t, path) is Some,
        None => true,
    }
}

/// The power calls to make: covered adapters not at their target and without a pending
/// operation, each with its target, in order.
pub open spec fn power_calls(
    adapters: Seq<(Seq<char>, bool)>,
    targets: Option<Seq<(Seq<char>, bool)>>,
    requested: bool,
    pending: Seq<Seq<char>>,
) -> Seq<(Seq<char>, bool)>
    decreases adapters.len(),
{
    if adapters.len() == 0 {
        Seq::empty()
    } else {
        let rest = power_calls(adapters.drop_last(), targets, requested, pending);
        let a = adapters.last();
        let t = adapter_target(targets, requested, a.0);
        if covered(targets, a.0) && a.1 != t && !pending.contains(a.0) {
            rest.push((a.0, t))
        } else {
            rest
        }
    }
}

/// Whether a power request is done: every covered adapter is at its target, some
/// adapter is covered when powering on (and the radios are unblocked when powering
/// everything on), and no power change is pending.
pub open spec fn power_done(
    adapters: Seq<(Seq<char>, bool)>,
    targets: Option<Seq<(Seq<char>, bool)>>,
    requested: bool,
    soft_blocked: bool,
    power_pending: bool,
) -> bool {
    &&& forall|i: int| 0 <= i < adapters.len() && covered(targets, #[trigger] adapters[i].0) ==> adapters[i].1
        == adapter_target(targets, requested, adapters[i].0)
    &&& !(requested && (!(exists|i: int| 0 <= i < adapters.len() && covered(targets, #[trigger] adapters[i].0))
        || (targets is None && soft_blocked)))
    &&& !power_pending
}

/// The saved set as plain values.
pub open spec fn targets_view(t: Option<&Vec<(String, bool)>>) -> Option<Seq<(Seq<char>, bool)>> {
    match t {
        Some(v) => Some(v@.map_values(|e: (String, bool)| (e.0@, e.1))),
        None => None,
    }
}

fn saved_power_of(t: &Vec<(String, bool)>, path: &str) -> (r: Option<bool>)
    ensures
        r == saved_power(t@.map_values(|e: (String, bool)| (e.0@, e.1)), path@),
{
    let ghost v = t@.map_values(|e: (String, bool)| (e.0@, e.1));
    let mut i: usize = 0;
    assert(v.skip(0) =~= v);
    while i < t.len()
        invariant
            i <= t@.len(),
            v == t@.map_values(|e: (String, bool)| (e.0@, e.1)),
            saved_power(v, path@) == saved_power(v.skip(i as int), path@),
        decreases t@.len() - i,
    {
        assert(v.skip(i as int).drop_first() =~= v.skip(i + 1));
        assert(v.skip(i as int)[0] == v[i as int]);
        if str_eq(t[i].0.as_str(), path) {
            return Some(t[i].1);
        }
        i += 1;
    }
    assert(v.skip(i as int).len() == 0);
    None
}

fn contains_path(pending: &Vec<String>, path: &str) -> (r: bool)
    ensures
        r == pending@.map_values(|s: String| s@).contains(path@),
{
    let ghost v = pending@.map_values(|s: String| s@);
    let mut i: usize = 0;
    while i < pending.len()
        invariant
            i <= pending@.len(),
            v == pending@.map_values(|s: String| s@),
            forall|j: int| 0 <= j < i ==> v[j] != path@,
        decreases pending@.len() - i,
    {
        assert(v[i as int] == pending@[i as int]@);
        if str_eq(pending[i].as_str(), path) {
            assert(v[i as int] == path@);
            return true;
        }
        i += 1;
    }
    false
}

/// Drives the adapters towards a pending power request: `adapters` are `(path,
/// powered)` in object order, `targets` the saved set of a restore (none: every
/// adapter to `requested`), `pending` the paths with an operation in flight. Returns
/// the power calls to make and whether the request is complete.
#[verifier::loop_isolation(false)]
pub fn power_plan(
    adapters: &Vec<(String, bool)>,
    targets: Option<&Vec<(String, bool)>>,
    requested: bool,
    pending: &Vec<String>,
    soft_blocked: bool,
    power_pending: bool,
) -> (r: (Vec<(String, bool)>, bool))
    ensures
        r.0@.map_values(|c: (String, bool)| (c.0@, c.1)) == power_calls(
            adapters@.map_values(|a: (String, bool)| (a.0@, a.1)),
            targets_view(targets),
            requested,
            pending@.map_values(|s: String| s@),
        ),
        r.1 == power_done(
            adapters@.map_values(|a: (String, bool)| (a.0@, a.1)),
            targets_view(targets),
            requested,
            soft_blocked,
            power_pending,
        ),
{
    let ghost av = adapters@.map_values(|a: (String, bool)| (a.0@, a.1));
    let ghost tv = targets_view(targets);
    let ghost pv = pending@.map_values(|s: String| s@);
    let mut calls: Vec<(String, bool)> = Vec::new();
    let mut at_target = true;
    let mut any = false;
    let mut i: usize = 0;
    assert(av.take(0) =~= Seq::<(Seq<char>, bool)>::empty());
    while i < adapters.len()
        invariant
            i <= adapters@.len(),
            av == adapters@.map_values(|a: (String, bool)| (a.0@, a.1)),
            calls@.map_values(|c: (String, bool)| (c.0@, c.1)) == power_calls(av.take(i as int), tv, requested, pv),
            at_target == forall|j: int| 0 <= j < i && covered(tv, #[trigger] av[j].0) ==> av[j].1 == adapter_target(tv, requested, av[j].0),
            any == exists|j: int| 0 <= j < i && covered(tv, #[trigger] av[j].0),
        decreases adapters@.len() - i,
    {
        assert(av.take(i + 1).drop_last() =~= av.take(i as int));
        assert(av[i as int] == (adapters@[i as int].0@, adapters@[i as int].1));
        let path = adapters[i].0.as_str();
        let powered = adapters[i].1;
        let saved = match targets {
            Some(t) => Some(saved_power_of(t, path)),
            None => None,
        };
        let is_covered = match saved {
            Some(s) => s.is_some(),
            None => true,
        };
        assert(is_covered == covered(tv, av[i as int].0));
        if is_covered {
            let target = match saved {
                Some(Some(v)) => v,
                Some(None) => false,
                None => requested,
            };
            any = true;
            if powered != target {
                at_target = false;
                if !contains_path(pending, path) {
                    let ghost before = calls@;
                    calls.push((adapters[i].0.clone(), target));
                    assert(calls@.map_values(|c: (String, bool)| (c.0@, c.1)) =~= before.map_values(
                        |c: (String, bool)| (c.0@, c.1),
                    ).push((path@, target)));
                }
            }
        }
        i += 1;
    }
    assert(av.take(i as int) =~= av);
    let done = at_target && !(requested && (!any || (targets.is_none() && soft_blocked))) && !power_pending;
    (calls, done)
}

/// What a pending request asks: an adapter's power, or a device's connection.
#[derive(Clone, Copy, Debug, PartialEq, Eq, Structural)]
pub enum PendingAction {
    Power(bool),
    Connection(bool),
}

/// A request in flight on the object at `path`.
pub struct PendingOp {
    pub path: String,
    pub id: u64,
    pub action: PendingAction,
}

/// The requests in flight, at most one per object, and the number the next one gets.
pub struct PendingTable {
    ops: Vec<PendingOp>,
    next_operation: u64,
}

/// What the table holds: for each object with a request in flight, in the order the
/// requests were made, its path, the request's number and what it asks.
pub struct PendingView {
    pub ops: Seq<(Seq<char>, u64, PendingAction)>,
    pub next_operation: u64,
}

/// The view of the requests.
pub open spec fn pending_views(s: Seq<PendingOp>) -> Seq<(Seq<char>, u64, PendingAction)> {
    s.map_values(|o: PendingOp| (o.path@, o.id, o.action))
}

impl View for PendingTable {
    type V = PendingView;

    closed spec fn view(&self) -> PendingView {
        PendingView { ops: pending_views(self.ops@), next_operation: self.next_operation }
    }
}

/// Requests on objects other than `path`.
pub open spec fn not_on(path: Seq<char>) -> spec_fn((Seq<char>, u64, PendingAction)) -> bool {
    |o: (Seq<char>, u64, PendingAction)| o.0 != path
}

/// The objects of the requests, in order.
pub open spec fn objects_of(ops: Seq<(Seq<char>, u64, PendingAction)>) -> Seq<Seq<char>> {
    ops.map_values(|o: (Seq<char>, u64, PendingAction)| o.0)
}

/// The request in flight on `path`, if any.
pub open spec fn pending_on(ops: Seq<(Seq<char>, u64, PendingAction)>, path: Seq<char>) -> Option<(u64, PendingAction)>
    decreases ops.len(),
{
    if ops.len() == 0 {
        None
    } else if ops.last().0 == path {
        Some((ops.last().1, ops.last().2))
    } else {
        pending_on(ops.drop_last(), path)
    }
}

/// Whether request `id` is still the one in flight on `path`: a later request on the
/// same object, or a cancellation, makes it stale.
pub open spec fn current_request(v: PendingView, path: Seq<char>, id: u64) -> bool {
    pending_on(v.ops, path) matches Some((i, _)) && i == id
}

/// Keeping the requests on other objects leaves none on `path` and the others as
/// they were.
proof fn lemma_pending_without(ops: Seq<(Seq<char>, u64, PendingAction)>, path: Seq<char>, other: Seq<char>)
    ensures
        pending_on(ops.filter(not_on(path)), other) == if other == path {
            None
        } else {
            pending_on(ops, other)
        },
    decreases ops.len(),
{
    reveal(Seq::filter);
    if ops.len() > 0 {
        lemma_pending_without(ops.drop_last(), path, other);
        if ops.last().0 != path {
            assert(ops.drop_last().filter(not_on(path)).push(ops.last()).drop_last() =~= ops.drop_last().filter(
                not_on(path),
            ));
        }
    }
}

/// Keeping the requests on other objects keeps one request per object, and none on
/// `path`.
proof fn lemma_without_objects(ops: Seq<(Seq<char>, u64, PendingAction)>, path: Seq<char>)
    requires
        objects_of(ops).no_duplicates(),
    ensures
        objects_of(ops.filter(not_on(path))).no_duplicates(),
        !objects_of(ops.filter(not_on(path))).contains(path),
{
    let f = |o: (Seq<char>, u64, PendingAction)| o.0;
    let q = |x: Seq<char>| x != path;
    assert forall|a: (Seq<char>, u64, PendingAction)| #[trigger] not_on(path)(a) == q(f(a)) by {};
    crate::keyed::lemma_filter_map(ops, f, not_on(path), q);
    crate::stable::lemma_filter_distinct(objects_of(ops), q);
    assert(objects_of(ops.filter(not_on(path))) == objects_of(ops).filter(q));
    crate::keyed::lemma_filter_members(objects_of(ops), q);
    let t = objects_of(ops).filter(q);
    if t.contains(path) {
        let k = choose|k: int| 0 <= k < t.len() && t[k] == path;
        objects_of(ops).filter_lemma(q);
        assert(q(t[k]));
    }
}

impl PendingTable {
    /// Whether no two requests are on one object.
    pub closed spec fn wf(&self) -> bool {
        objects_of(self@.ops).no_duplicates()
    }

    /// Nothing in flight.
    pub fn new() -> (r: PendingTable)
        ensures
            r.wf(),
            r@.ops == Seq::<(Seq<char>, u64, PendingAction)>::empty(),
            r@.next_operation == 0,
    {
        let r = PendingTable { ops: Vec::new(), next_operation: 0 };
        assert(r@.ops =~= Seq::<(Seq<char>, u64, PendingAction)>::empty());
        assert(objects_of(r@.ops) =~= Seq::<Seq<char>>::empty());
        r
    }

    /// The request in flight on `path`, if any: its number and what it asks.
    pub fn on(&self, path: &str) -> (r: Option<(u64, PendingAction)>)
        ensures
            r == pending_on(self@.ops, path@),
    {
        let mut i: usize = self.ops.len();
        assert(self@.ops.take(i as int) =~= self@.ops);
        while i > 0
            invariant
                i <= self.ops@.len(),
                pending_on(self@.ops, path@) == pending_on(self@.ops.take(i as int), path@),
            decreases i,
        {
            assert(self@.ops.take(i as int).drop_last() =~= self@.ops.take(i - 1));
            let o = &self.ops[i - 1];
            if crate::text::str_eq(o.path.as_str(), path) {
                return Some((o.id, o.action));
            }
            i -= 1;
        }
        None
    }

    /// Takes the request on `path` out, if there is one; returns its number.
    fn take(&mut self, path: &str) -> (r: Option<u64>)
        requires
            old(self).wf(),
        ensures
            final(self).wf(),
            final(self)@.ops == old(self)@.ops.filter(not_on(path@)),
            final(self)@.next_operation == old(self)@.next_operation,
            !objects_of(final(self)@.ops).contains(path@),
            r == match pending_on(old(self)@.ops, path@) {
                Some((i, _)) => Some(i),
                None => None::<u64>,
            },
    {
        let found = match self.on(path) {
            Some((i, _)) => Some(i),
            None => None,
        };
        let ghost start = self@.ops;
        let mut rest: Vec<PendingOp> = Vec::new();
        std::mem::swap(&mut rest, &mut self.ops);
        let mut kept: Vec<PendingOp> = Vec::new();
        let mut i: usize = 0;
        while i < rest.len()
            invariant
                i <= rest@.len(),
                start == pending_views(rest@),
                pending_views(kept@) == start.take(i as int).filter(not_on(path@)),
            decreases rest.len() - i,
        {
            proof {
                reveal(Seq::filter);
                assert(start.take(i + 1).drop_last() =~= start.take(i as int));
            }
            let o = &rest[i];
            if !crate::text::str_eq(o.path.as_str(), path) {
                let ghost before = kept@;
                kept.push(PendingOp { path: crate::text::copy_string(&o.path), id: o.id, action: o.action });
                assert(pending_views(kept@) =~= pending_views(before).push(start[i as int]));
            }
            i += 1;
        }
        assert(start.take(rest.len() as int) =~= start);
        proof {
            lemma_without_objects(start, path@);
        }
        self.ops = kept;
        found
    }

    /// A request is made on `path`; it replaces any request still in flight there.
    /// Returns the new request's number and the one it replaced, if any.
    pub fn call(&mut self, path: &str, action: PendingAction) -> (r: (u64, Option<u64>))
        requires
            old(self).wf(),
        ensures
            final(self).wf(),
            r.0 == old(self)@.next_operation,
            r.1 == match pending_on(old(self)@.ops, path@) {
                Some((i, _)) => Some(i),
                None => None::<u64>,
            },
            final(self)@ == (PendingView {
                ops: old(self)@.ops.filter(not_on(path@)).push((path@, r.0, action)),
                next_operation: old(self)@.next_operation.wrapping_add(1),
            }),
    {
        let replaced = self.take(path);
        let id = self.next_operation;
        self.next_operation = self.next_operation.wrapping_add(1);
        let ghost before = self.ops@;
        self.ops.push(PendingOp { path: path.to_owned(), id, action });
        proof {
            assert(pending_views(self.ops@) =~= pending_views(before).push((path@, id, action)));
            assert(objects_of(pending_views(self.ops@)) =~= objects_of(pending_views(before)).push(path@));
        }
        (id, replaced)
    }

    /// Whether request `id` is still the one in flight on `path`.
    pub fn is_current(&self, path: &str, id: u64) -> (r: bool)
        ensures
            r == current_request(self@, path@, id),
    {
        match self.on(path) {
            Some((i, _)) => i == id,
            None => false,
        }
    }

    /// Request `id` on `path` ended: it leaves the table if it is still the one in
    /// flight there; a later request on the same object stays.
    pub fn finish(&mut self, path: &str, id: u64)
        requires
            old(self).wf(),
        ensures
            final(self).wf(),
            current_request(old(self)@, path@, id) ==> final(self)@ == (PendingView {
                ops: old(self)@.ops.filter(not_on(path@)),
                ..old(self)@
            }),
            !current_request(old(self)@, path@, id) ==> final(self)@ == old(self)@,
    {
        if self.is_current(path, id) {
            self.take(path);
        }
    }

    /// Cancels the requests on `path`, if any; returns the number of the one cancelled.
    pub fn cancel(&mut self, path: &str) -> (r: Option<u64>)
        requires
            old(self).wf(),
        ensures
            final(self).wf(),
            final(self)@ == (PendingView { ops: old(self)@.ops.filter(not_on(path@)), ..old(self)@ }),
            r == match pending_on(old(self)@.ops, path@) {
                Some((i, _)) => Some(i),
                None => None::<u64>,
            },
    {
        self.take(path)
    }
}

/// Whether a finished request still counts: the service is not stopped and ready,
/// the object it was made on is still the one at its path, it was not cancelled, and
/// it is still the request in flight there.
pub open spec fn relevant_request(stopped: bool, ready: bool, same_object: bool, cancelled: bool, current: bool) -> bool {
    !stopped && ready && same_object && !cancelled && current
}

/// Whether a finished power request is superseded: a power change is under way whose
/// target for the adapter differs from what the request asked.
pub open spec fn superseded_request(action: PendingAction, changing: bool, target: bool) -> bool {
    match action {
        PendingAction::Power(v) => changing && target != v,
        PendingAction::Connection(_) => false,
    }
}

/// Decides whether a finished request counts and whether it is superseded, from the
/// table and what the caller observed.
pub fn judge_request(
    table: &PendingTable,
    path: &str,
    id: u64,
    action: PendingAction,
    stopped: bool,
    ready: bool,
    same_object: bool,
    cancelled: bool,
    changing: bool,
    target: bool,
) -> (r: (bool, bool))
    ensures
        r.0 == relevant_request(stopped, ready, same_object, cancelled, current_request(table@, path@, id)),
        r.1 == superseded_request(action, changing, target),
{
    let current = table.is_current(path, id);
    let relevant = !stopped && ready && same_object && !cancelled && current;
    let superseded = match action {
        PendingAction::Power(v) => changing && target != v,
        PendingAction::Connection(_) => false,
    };
    (relevant, superseded)
}

/// A request stops counting once a later request is made on its object: only the
/// latest request on each object is current.
pub proof fn lemma_later_request_supersedes(v: PendingView, path: Seq<char>, old_id: u64, action: PendingAction)
    requires
        old_id != v.next_operation,
    ensures
        !current_request(
            PendingView {
                ops: v.ops.filter(not_on(path)).push((path, v.next_operation, action)),
                next_operation: v.next_operation.wrapping_add(1),
            },
            path,
            old_id,
        ),
{
    assert(v.ops.filter(not_on(path)).push((path, v.next_operation, action)).drop_last() =~= v.ops.filter(
        not_on(path),
    ));
}

} // verus!

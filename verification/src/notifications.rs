//! The notification server's protocol: close reasons, requests, actions and hints.
use crate::text::{copy_string, str_eq};
use crate::tray::item::{get_bytes, read_bytes};
use crate::variant::{children, dict_get, get_bool, get_i32, get_string, get_u32, get_u8, lookup, value_string, Value};
use vstd::prelude::*;

verus! {

/// Why a notification closed, with its protocol code.
#[derive(Clone, Copy, Debug, PartialEq, Eq, Structural)]
pub enum CloseReason {
    Expired,
    Dismissed,
    Requested,
    Undefined,
}

/// The protocol code of a close reason.
pub open spec fn reason_code(r: CloseReason) -> u32 {
    match r {
        CloseReason::Expired => 1,
        CloseReason::Dismissed => 2,
        CloseReason::Requested => 3,
        CloseReason::Undefined => 4,
    }
}

impl CloseReason {
    /// The code sent in `NotificationClosed`.
    pub fn code(self) -> (r: u32)
        ensures
            r == reason_code(self),
    {
        match self {
            CloseReason::Expired => 1,
            CloseReason::Dismissed => 2,
            CloseReason::Requested => 3,
            CloseReason::Undefined => 4,
        }
    }
}

/// An action a notification offers.
#[derive(Clone, Debug, PartialEq, Eq)]
pub struct Action {
    pub key: String,
    pub label: String,
}

/// The `(key, label)` pairs of a flat action list; a trailing key without a label is dropped.
pub fn actions_from_pairs(values: &Vec<String>) -> (r: Vec<Action>)
    ensures
        r@.len() == values@.len() / 2,
        forall|i: int| 0 <= i < r@.len() ==> #[trigger] r@[i].key@ == values@[2 * i]@
            && r@[i].label@ == values@[2 * i + 1]@,
{
    let mut r: Vec<Action> = Vec::new();
    let mut i: usize = 0;
    while i + 1 < values.len()
        invariant
            i % 2 == 0,
            i <= values@.len(),
            r@.len() == i / 2,
            forall|k: int| 0 <= k < r@.len() ==> #[trigger] r@[k].key@ == values@[2 * k]@
                && r@[k].label@ == values@[2 * k + 1]@,
        decreases values@.len() - i,
    {
        let a = Action { key: copy_string(&values[i]), label: copy_string(&values[i + 1]) };
        let ghost before = r@;
        r.push(a);
        assert(forall|k: int| 0 <= k < before.len() ==> r@[k] == before[k]);
        i += 2;
    }
    assert(forall|k: int| 0 <= k < r@.len() ==> r@[k].key@ == values@[2 * k]@ && r@[k].label@ == values@[2 * k + 1]@);
    r
}

/// The hints of a notification that the shell reads. An attached image is read by
/// `image_candidates` and validated by the caller.
#[derive(Clone, Debug, PartialEq, Eq)]
pub struct Hints {
    pub category: Option<String>,
    pub desktop_entry: Option<String>,
    pub image_path: Option<String>,
    pub action_icons: bool,
    pub resident: bool,
    pub transient: bool,
    pub urgency: u8,
}

/// A string hint.
pub open spec fn text_hint(entries: Seq<(String, Value)>, key: Seq<char>) -> Option<Seq<char>> {
    match lookup(entries, key) {
        Some(v) => get_string(v),
        None => None,
    }
}

/// A boolean hint, false when missing or mistyped.
pub open spec fn flag_hint(entries: Seq<(String, Value)>, key: Seq<char>) -> bool {
    match lookup(entries, key) {
        Some(v) => get_bool(v) == Some(true),
        None => false,
    }
}

/// An optional text's characters.
pub open spec fn opt_text(s: Option<String>) -> Option<Seq<char>> {
    match s {
        Some(t) => Some(t@),
        None => None,
    }
}

/// Whether `h` holds what the hint dictionary says.
pub open spec fn hints_read(h: Hints, entries: Seq<(String, Value)>) -> bool {
    &&& opt_text(h.category) == text_hint(entries, "category"@)
    &&& opt_text(h.desktop_entry) == text_hint(entries, "desktop-entry"@)
    &&& opt_text(h.image_path) == (match text_hint(entries, "image-path"@) {
        Some(p) => Some(p),
        None => text_hint(entries, "image_path"@),
    })
    &&& h.action_icons == flag_hint(entries, "action-icons"@)
    &&& h.resident == flag_hint(entries, "resident"@)
    &&& h.transient == flag_hint(entries, "transient"@)
    &&& h.urgency == (match lookup(entries, "urgency"@) {
        Some(v) => match get_u8(v) {
            Some(u) => u,
            None => 0u8,
        },
        None => 0u8,
    })
}

fn text_hint_of(entries: &Vec<(String, Value)>, key: &str) -> (r: Option<String>)
    ensures
        opt_text(r) == text_hint(entries@, key@),
{
    match dict_get(entries, key) {
        Some(v) => value_string(v),
        None => None,
    }
}

fn flag_hint_of(entries: &Vec<(String, Value)>, key: &str) -> (r: bool)
    ensures
        r == flag_hint(entries@, key@),
{
    match dict_get(entries, key) {
        Some(Value::Bool(b)) => *b,
        _ => false,
    }
}

/// Reads the hints of a notification; a hint of the wrong type counts as absent.
pub fn parse_hints(entries: &Vec<(String, Value)>) -> (r: Hints)
    ensures
        hints_read(r, entries@),
{
    let image_path = match text_hint_of(entries, "image-path") {
        Some(p) => Some(p),
        None => text_hint_of(entries, "image_path"),
    };
    let urgency = match dict_get(entries, "urgency") {
        Some(Value::Byte(u)) => *u,
        _ => 0,
    };
    Hints {
        category: text_hint_of(entries, "category"),
        desktop_entry: text_hint_of(entries, "desktop-entry"),
        image_path,
        action_icons: flag_hint_of(entries, "action-icons"),
        resident: flag_hint_of(entries, "resident"),
        transient: flag_hint_of(entries, "transient"),
        urgency,
    }
}

/// Raw image data as a hint carries it: width, height, row stride, alpha, bits per
/// sample, channels and the pixel bytes.
#[derive(Clone, Debug, PartialEq, Eq)]
pub struct ImageData {
    pub width: i32,
    pub height: i32,
    pub rowstride: i32,
    pub alpha: bool,
    pub bits: i32,
    pub channels: i32,
    pub data: Vec<u8>,
}

/// The image data an `(iiibiiay)` value holds: a tuple of at least seven children.
pub open spec fn image_of(v: Value) -> Option<(i32, i32, i32, bool, i32, i32, Seq<u8>)> {
    match v {
        Value::Tuple(xs) => if xs@.len() >= 7 && get_i32(xs@[0]) is Some && get_i32(xs@[1]) is Some
            && get_i32(xs@[2]) is Some && get_bool(xs@[3]) is Some && get_i32(xs@[4]) is Some
            && get_i32(xs@[5]) is Some && get_bytes(xs@[6]) is Some {
            Some((
                get_i32(xs@[0])->0,
                get_i32(xs@[1])->0,
                get_i32(xs@[2])->0,
                get_bool(xs@[3])->0,
                get_i32(xs@[4])->0,
                get_i32(xs@[5])->0,
                get_bytes(xs@[6])->0,
            ))
        } else {
            None
        },
        _ => None,
    }
}

/// Whether `d` is the image data `t` describes.
pub open spec fn image_matches(d: ImageData, t: (i32, i32, i32, bool, i32, i32, Seq<u8>)) -> bool {
    d.width == t.0 && d.height == t.1 && d.rowstride == t.2 && d.alpha == t.3 && d.bits == t.4
        && d.channels == t.5 && d.data@ == t.6
}

fn read_image(v: &Value) -> (r: Option<ImageData>)
    ensures
        match image_of(*v) {
            Some(t) => r matches Some(d) && image_matches(d, t),
            None => r is None,
        },
{
    let xs = match v {
        Value::Tuple(xs) => xs,
        _ => return None,
    };
    if xs.len() < 7 {
        return None;
    }
    let width = match &xs[0] {
        Value::Int32(i) => *i,
        _ => return None,
    };
    let height = match &xs[1] {
        Value::Int32(i) => *i,
        _ => return None,
    };
    let rowstride = match &xs[2] {
        Value::Int32(i) => *i,
        _ => return None,
    };
    let alpha = match &xs[3] {
        Value::Bool(b) => *b,
        _ => return None,
    };
    let bits = match &xs[4] {
        Value::Int32(i) => *i,
        _ => return None,
    };
    let channels = match &xs[5] {
        Value::Int32(i) => *i,
        _ => return None,
    };
    let data = match read_bytes(&xs[6]) {
        Some(d) => d,
        None => return None,
    };
    Some(ImageData { width, height, rowstride, alpha, bits, channels, data })
}

/// The image data under one hint name, when it is well formed.
pub open spec fn candidate(entries: Seq<(String, Value)>, key: Seq<char>) -> Option<(i32, i32, i32, bool, i32, i32, Seq<u8>)> {
    match lookup(entries, key) {
        Some(v) => image_of(v),
        None => None,
    }
}

/// `s` with `x` appended when there is one.
pub open spec fn push_some<T>(s: Seq<T>, x: Option<T>) -> Seq<T> {
    match x {
        Some(v) => s.push(v),
        None => s,
    }
}

/// The well-formed image data under `image-data`, `image_data` and `icon_data`, in that order.
pub open spec fn candidates(entries: Seq<(String, Value)>) -> Seq<(i32, i32, i32, bool, i32, i32, Seq<u8>)> {
    push_some(
        push_some(push_some(Seq::empty(), candidate(entries, "image-data"@)), candidate(entries, "image_data"@)),
        candidate(entries, "icon_data"@),
    )
}

fn push_candidate(r: &mut Vec<ImageData>, entries: &Vec<(String, Value)>, key: &str, Ghost(want): Ghost<Seq<(i32, i32, i32, bool, i32, i32, Seq<u8>)>>)
    requires
        old(r)@.len() == want.len(),
        forall|i: int| 0 <= i < want.len() ==> image_matches(#[trigger] old(r)@[i], want[i]),
    ensures
        final(r)@.len() == push_some(want, candidate(entries@, key@)).len(),
        forall|i: int| 0 <= i < final(r)@.len() ==> image_matches(#[trigger] final(r)@[i], push_some(want, candidate(entries@, key@))[i]),
{
    match dict_get(entries, key) {
        Some(v) => match read_image(v) {
            Some(d) => {
                r.push(d);
            },
            None => {},
        },
        None => {},
    }
}

/// The well-formed image data under each image hint name, in the order the names
/// are tried; the first one the caller can decode becomes the notification's image.
pub fn image_candidates(entries: &Vec<(String, Value)>) -> (r: Vec<ImageData>)
    ensures
        r@.len() == candidates(entries@).len(),
        forall|i: int| 0 <= i < r@.len() ==> image_matches(#[trigger] r@[i], candidates(entries@)[i]),
{
    let mut r: Vec<ImageData> = Vec::new();
    let ghost w0 = Seq::<(i32, i32, i32, bool, i32, i32, Seq<u8>)>::empty();
    push_candidate(&mut r, entries, "image-data", Ghost(w0));
    let ghost w1 = push_some(w0, candidate(entries@, "image-data"@));
    push_candidate(&mut r, entries, "image_data", Ghost(w1));
    let ghost w2 = push_some(w1, candidate(entries@, "image_data"@));
    push_candidate(&mut r, entries, "icon_data", Ghost(w2));
    r
}

/// How a notification entered the server.
#[derive(Clone, Copy, Debug, PartialEq, Eq, Structural)]
pub enum Origin {
    External,
    Internal,
}

/// A notification request as `Notify` receives it.
#[derive(Clone, Debug, PartialEq, Eq)]
pub struct NotificationRequest {
    pub app_name: String,
    pub replaces_id: u32,
    pub app_icon: String,
    pub summary: String,
    pub body: String,
    pub actions: Vec<Action>,
    pub hints: Hints,
    pub expire_timeout: i32,
    pub origin: Origin,
}

/// A list of strings read from a value: a container whose children are all strings.
pub open spec fn text_list(v: Value) -> Option<Seq<Value>> {
    match children(v) {
        Some(items) => if forall|i: int| 0 <= i < items.len() ==> (#[trigger] get_string(items[i])) is Some {
            Some(items)
        } else {
            None
        },
        None => None,
    }
}

/// Whether the `Notify` arguments have the `(susssasa{sv}i)` shape, as a tuple of at
/// least eight children.
pub open spec fn notify_shape(v: Value) -> bool {
    match v {
        Value::Tuple(xs) => xs@.len() >= 8 && get_string(xs@[0]) is Some && get_u32(xs@[1]) is Some
            && get_string(xs@[2]) is Some && get_string(xs@[3]) is Some && get_string(xs@[4]) is Some
            && text_list(xs@[5]) is Some && xs@[6] is Dict && get_i32(xs@[7]) is Some,
        _ => false,
    }
}

fn strings_of(items: &Vec<Value>) -> (r: Option<Vec<String>>)
    ensures
        match r {
            Some(v) => (forall|i: int| 0 <= i < items@.len() ==> (#[trigger] get_string(items@[i])) is Some)
                && v@.len() == items@.len()
                && forall|i: int| 0 <= i < v@.len() ==> get_string(items@[i]) == Some(#[trigger] v@[i]@),
            None => !(forall|i: int| 0 <= i < items@.len() ==> (#[trigger] get_string(items@[i])) is Some),
        },
{
    let mut out: Vec<String> = Vec::new();
    let mut i: usize = 0;
    while i < items.len()
        invariant
            i <= items@.len(),
            out@.len() == i,
            forall|k: int| 0 <= k < i ==> (#[trigger] get_string(items@[k])) is Some,
            forall|k: int| 0 <= k < i ==> get_string(items@[k]) == Some(#[trigger] out@[k]@),
        decreases items@.len() - i,
    {
        match value_string(&items[i]) {
            Some(s) => out.push(s),
            None => return None,
        }
        i += 1;
    }
    Some(out)
}

fn list_of(v: &Value) -> (r: Option<Vec<String>>)
    ensures
        match r {
            Some(l) => text_list(*v) matches Some(items) && l@.len() == items.len() && forall|i: int|
                0 <= i < l@.len() ==> get_string(items[i]) == Some(#[trigger] l@[i]@),
            None => text_list(*v) is None,
        },
{
    match v {
        Value::Array(_, xs) => strings_of(xs),
        Value::Tuple(xs) => strings_of(xs),
        Value::Variant(b) => match value_string(b) {
            Some(s) => {
                let mut out: Vec<String> = Vec::new();
                out.push(s);
                assert(get_string(seq![**b][0]) is Some);
                Some(out)
            },
            None => {
                assert(get_string(seq![**b][0]) is None);
                None
            },
        },
        _ => None,
    }
}

/// Reads the arguments of a `Notify` call, the application name as sent.
fn read_notify(parameters: &Value) -> (r: Option<NotificationRequest>)
    ensures
        r is Some <==> notify_shape(*parameters),
        r matches Some(q) ==> parameters matches Value::Tuple(xs) && {
            &&& get_string(xs@[0]) == Some(q.app_name@)
            &&& get_u32(xs@[1]) == Some(q.replaces_id)
            &&& get_string(xs@[2]) == Some(q.app_icon@)
            &&& get_string(xs@[3]) == Some(q.summary@)
            &&& get_string(xs@[4]) == Some(q.body@)
            &&& xs@[6] matches Value::Dict(e) && hints_read(q.hints, e@)
            &&& get_i32(xs@[7]) == Some(q.expire_timeout)
            &&& q.origin == Origin::External
            &&& text_list(xs@[5]) matches Some(items) && q.actions@.len() == items.len() / 2
                && forall|i: int| 0 <= i < q.actions@.len() ==> get_string(items[2 * i]) == Some(
                #[trigger] q.actions@[i].key@) && get_string(items[2 * i + 1]) == Some(q.actions@[i].label@)
        },
{
    let xs = match parameters {
        Value::Tuple(xs) => xs,
        _ => return None,
    };
    if xs.len() < 8 {
        return None;
    }
    let app_name = match value_string(&xs[0]) {
        Some(s) => s,
        None => return None,
    };
    let replaces_id = match &xs[1] {
        Value::UInt32(u) => *u,
        _ => return None,
    };
    let app_icon = match value_string(&xs[2]) {
        Some(s) => s,
        None => return None,
    };
    let summary = match value_string(&xs[3]) {
        Some(s) => s,
        None => return None,
    };
    let body = match value_string(&xs[4]) {
        Some(s) => s,
        None => return None,
    };
    let actions = match list_of(&xs[5]) {
        Some(l) => l,
        None => return None,
    };
    let hints = match &xs[6] {
        Value::Dict(e) => parse_hints(e),
        _ => return None,
    };
    let expire_timeout = match &xs[7] {
        Value::Int32(i) => *i,
        _ => return None,
    };
    let pairs = actions_from_pairs(&actions);
    Some(
        NotificationRequest {
            app_name,
            replaces_id,
            app_icon,
            summary,
            body,
            actions: pairs,
            hints,
            expire_timeout,
            origin: Origin::External,
        },
    )
}

/// The desktop entry that stands for an application without a name: the entry a
/// request names, when its application name is empty and the entry is not.
pub open spec fn fallback_entry(name: Seq<char>, entry: Option<Seq<char>>) -> Option<Seq<char>> {
    if name.len() == 0 {
        match entry {
            Some(e) => if e.len() > 0 {
                Some(e)
            } else {
                None
            },
            None => None,
        }
    } else {
        None
    }
}

/// The application name shown for a request: a request without a name takes the
/// display name of the desktop entry it names, or the entry itself when the entry
/// has no display name; any other request keeps its name.
pub open spec fn resolved_name(name: Seq<char>, entry: Option<Seq<char>>, display: Option<Seq<char>>) -> Seq<char> {
    match fallback_entry(name, entry) {
        Some(e) => match display {
            Some(d) => d,
            None => e,
        },
        None => name,
    }
}

/// The text of an optional string slice.
pub open spec fn opt_str(s: Option<&str>) -> Option<Seq<char>> {
    match s {
        Some(t) => Some(t@),
        None => None,
    }
}

/// The desktop entry whose display name should stand for a request without an
/// application name: when the name is empty and the request names a nonempty entry.
pub fn desktop_fallback(request: &NotificationRequest) -> (r: Option<String>)
    ensures
        opt_text(r) == fallback_entry(request.app_name@, opt_text(request.hints.desktop_entry)),
{
    if !request.app_name.as_str().is_empty() {
        return None;
    }
    match &request.hints.desktop_entry {
        Some(e) => if e.as_str().is_empty() {
            None
        } else {
            Some(copy_string(e))
        },
        None => None,
    }
}

/// The application name shown for `request`, given the display name the system has
/// for the desktop entry it names (`None` when there is none).
pub fn resolve_app_name(request: &NotificationRequest, display: Option<&str>) -> (r: String)
    ensures
        r@ == resolved_name(request.app_name@, opt_text(request.hints.desktop_entry), opt_str(display)),
{
    match desktop_fallback(request) {
        Some(entry) => match display {
            Some(d) => d.to_owned(),
            None => entry,
        },
        None => copy_string(&request.app_name),
    }
}

/// The desktop entry whose display name a `Notify` call needs looked up: the entry
/// its hints name, when its application name is empty and the entry is not.
pub open spec fn notify_entry(parameters: Value) -> Option<Seq<char>> {
    match parameters {
        Value::Tuple(xs) => if notify_shape(parameters) {
            match xs@[6] {
                Value::Dict(e) => fallback_entry(get_string(xs@[0])->0, text_hint(e@, "desktop-entry"@)),
                _ => None,
            }
        } else {
            None
        },
        _ => None,
    }
}

/// The desktop entry to look up before a `Notify` call is read, if any.
pub fn notify_desktop_entry(parameters: &Value) -> (r: Option<String>)
    ensures
        opt_text(r) == notify_entry(*parameters),
{
    match read_notify(parameters) {
        Some(q) => desktop_fallback(&q),
        None => None,
    }
}

/// Reads the arguments of a `Notify` call. `display` is the display name the system
/// has for the desktop entry that `notify_desktop_entry` names, if there is one; a
/// request without an application name is shown under it, or under the entry itself.
pub fn parse_request(parameters: &Value, display: Option<&str>) -> (r: Option<NotificationRequest>)
    ensures
        r is Some <==> notify_shape(*parameters),
        r matches Some(q) ==> parameters matches Value::Tuple(xs) && {
            &&& q.app_name@ == resolved_name(
                get_string(xs@[0])->0,
                opt_text(q.hints.desktop_entry),
                opt_str(display),
            )
            &&& get_u32(xs@[1]) == Some(q.replaces_id)
            &&& get_string(xs@[2]) == Some(q.app_icon@)
            &&& get_string(xs@[3]) == Some(q.summary@)
            &&& get_string(xs@[4]) == Some(q.body@)
            &&& xs@[6] matches Value::Dict(e) && hints_read(q.hints, e@)
            &&& get_i32(xs@[7]) == Some(q.expire_timeout)
            &&& q.origin == Origin::External
            &&& text_list(xs@[5]) matches Some(items) && q.actions@.len() == items.len() / 2
                && forall|i: int| 0 <= i < q.actions@.len() ==> get_string(items[2 * i]) == Some(
                #[trigger] q.actions@[i].key@) && get_string(items[2 * i + 1]) == Some(q.actions@[i].label@)
        },
{
    match read_notify(parameters) {
        Some(q) => {
            let app_name = resolve_app_name(&q, display);
            Some(NotificationRequest { app_name, ..q })
        },
        None => None,
    }
}

/// Prepares an internal notification: it is marked internal and offers no actions.
pub fn internal_request(request: NotificationRequest) -> (r: NotificationRequest)
    ensures
        r.origin == Origin::Internal,
        r.actions@.len() == 0,
        r.app_name == request.app_name,
        r.replaces_id == request.replaces_id,
        r.app_icon == request.app_icon,
        r.summary == request.summary,
        r.body == request.body,
        r.hints == request.hints,
        r.expire_timeout == request.expire_timeout,
{
    NotificationRequest { origin: Origin::Internal, actions: Vec::new(), ..request }
}

/// The `NotificationClosed` signal that closing a notification sends on the bus: its
/// id and the reason's code, for an external notification only.
pub open spec fn closed_signal_of(origin: Origin, id: u32, reason: CloseReason) -> Option<(u32, u32)> {
    match origin {
        Origin::External => Some((id, reason_code(reason))),
        Origin::Internal => None,
    }
}

/// The signal, if any, that closing notification `id` of `origin` for `reason` emits.
pub fn closed_signal(origin: Origin, id: u32, reason: CloseReason) -> (r: Option<(u32, u32)>)
    ensures
        r == closed_signal_of(origin, id, reason),
{
    match origin {
        Origin::External => Some((id, reason.code())),
        Origin::Internal => None,
    }
}

/// Whether an action list declares `key`.
pub open spec fn declares(actions: Seq<Action>, key: Seq<char>) -> bool {
    exists|i: int| 0 <= i < actions.len() && #[trigger] actions[i].key@ == key
}

/// Whether invoking `key` emits `ActionInvoked`: the server owns its name and the
/// notification exists (`actions` holds its actions) and declares the key.
pub open spec fn invokes(owned: bool, actions: Option<Seq<Action>>, key: Seq<char>) -> bool {
    owned && match actions {
        Some(a) => declares(a, key),
        None => false,
    }
}

/// Decides an action invocation on a notification whose actions are `actions`, or on
/// one that does not exist (`None`).
pub fn action_invoked(actions: Option<&Vec<Action>>, key: &str, owned: bool) -> (r: bool)
    ensures
        r == invokes(
            owned,
            match actions {
                Some(a) => Some(a@),
                None => None,
            },
            key@,
        ),
{
    if !owned {
        return false;
    }
    match actions {
        None => false,
        Some(list) => {
            let mut i: usize = 0;
            while i < list.len()
                invariant
                    owned,
                    actions == Some(list),
                    i <= list@.len(),
                    forall|j: int| 0 <= j < i ==> #[trigger] list@[j].key@ != key@,
                decreases list@.len() - i,
            {
                if str_eq(list[i].key.as_str(), key) {
                    assert(list@[i as int].key@ == key@);
                    assert(declares(list@, key@));
                    return true;
                }
                i += 1;
            }
            false
        },
    }
}

/// Internal notifications stay off the bus: a request as `internal_request` leaves it,
/// internal and without actions, sends no `NotificationClosed` when it closes, for any
/// reason, and none of its actions can be invoked, whether or not the name is owned.
pub proof fn lemma_internal_stays_off_the_bus(
    request: NotificationRequest,
    id: u32,
    reason: CloseReason,
    key: Seq<char>,
    owned: bool,
)
    requires
        request.origin == Origin::Internal,
        request.actions@.len() == 0,
    ensures
        closed_signal_of(request.origin, id, reason) is None,
        !invokes(owned, Some(request.actions@), key),
{
}

/// The capabilities the server announces.
pub fn capabilities() -> (r: Vec<&'static str>)
    ensures
        r@.len() == 9,
        r@[0]@ == "action-icons"@ && r@[1]@ == "actions"@ && r@[2]@ == "body"@,
        r@[3]@ == "body-hyperlinks"@ && r@[4]@ == "body-images"@ && r@[5]@ == "body-markup"@,
        r@[6]@ == "icon-multi"@ && r@[7]@ == "icon-static"@ && r@[8]@ == "persistence"@,
{
    let mut r: Vec<&'static str> = Vec::new();
    r.push("action-icons");
    r.push("actions");
    r.push("body");
    r.push("body-hyperlinks");
    r.push("body-images");
    r.push("body-markup");
    r.push("icon-multi");
    r.push("icon-static");
    r.push("persistence");
    r
}

/// What a reply to `RequestName` means for ownership.
#[derive(Clone, Copy, Debug, PartialEq, Eq, Structural)]
pub enum Ownership {
    /// The name was acquired (primary owner or already owner).
    Acquired,
    /// Another daemon holds the name; the request is queued or refused.
    Waiting,
    /// The reply is not a known `RequestName` result.
    Invalid,
}

/// Classifies a `RequestName` reply code.
pub fn ownership(reply: Option<u32>) -> (r: Ownership)
    ensures
        r == ownership_of(reply),
{
    match reply {
        Some(1) | Some(4) => Ownership::Acquired,
        Some(2) | Some(3) => Ownership::Waiting,
        _ => Ownership::Invalid,
    }
}

/// The `RequestName` call that claims the notifications name: flags 0, so the
/// request queues behind a daemon that owns the name and never replaces it.
pub fn name_request() -> (r: (&'static str, u32))
    ensures
        r.0@ == "org.freedesktop.Notifications"@,
        r.1 == 0,
{
    ("org.freedesktop.Notifications", 0)
}

/// The error a bus call gets while the name is not owned.
pub fn unavailable_error() -> (r: (&'static str, &'static str))
    ensures
        r.0@ == "org.freedesktop.DBus.Error.Disconnected"@,
        r.1@ == "Notification service is unavailable"@,
{
    ("org.freedesktop.DBus.Error.Disconnected", "Notification service is unavailable")
}

/// The life of the notification service on the session bus: whether it runs, the
/// generation that tags what each connection started, whether a connection is held,
/// being opened, or waited for after a failure, and whether the name is owned.
/// Bus calls are answered only while the name is owned.
#[derive(Clone, Copy, Debug, PartialEq, Eq, Structural)]
pub struct NameSession {
    pub running: bool,
    pub generation: u64,
    pub connected: bool,
    pub connecting: bool,
    pub retrying: bool,
    pub owned: bool,
}

/// The state once the connection is let go: a new generation makes everything the
/// old connection started stale, nothing is pending, and the name is not owned.
pub open spec fn detached(s: NameSession) -> NameSession {
    NameSession {
        generation: s.generation.wrapping_add(1),
        connected: false,
        connecting: false,
        retrying: false,
        owned: false,
        ..s
    }
}

/// The state once a failure is handled: detached, and waiting to reconnect while
/// the service runs.
pub open spec fn after_failure(s: NameSession) -> NameSession {
    NameSession { retrying: s.running, ..detached(s) }
}

/// What starting the service asks of the caller.
#[derive(Clone, Copy, Debug, PartialEq, Eq, Structural)]
pub enum Connect {
    /// Already running: nothing to do.
    Nothing,
    /// Attach to the connection the service was given, unless it is closed.
    UseGiven,
    /// Ask for the session bus; the answer is tagged with this generation.
    OpenBus(u64),
}

/// What a reply to the name request does.
#[derive(Clone, Copy, Debug, PartialEq, Eq, Structural)]
pub enum NameStep {
    /// The reply belongs to an earlier connection.
    Ignore,
    /// The name is owned now; `true` when that is news to publish.
    Owned(bool),
    /// Another daemon holds the name; wait for it to be released.
    Waiting,
    /// The reply is an error or unknown: the connection is dropped and a reconnect
    /// is scheduled.
    Failed,
}

impl NameSession {
    /// A stopped service without a connection.
    pub fn new() -> (r: NameSession)
        ensures
            r == (NameSession {
                running: false,
                generation: 0,
                connected: false,
                connecting: false,
                retrying: false,
                owned: false,
            }),
    {
        NameSession { running: false, generation: 0, connected: false, connecting: false, retrying: false, owned: false }
    }

    /// Starts the service: with a given connection, attach to it; otherwise ask for
    /// the session bus.
    pub fn start(&mut self, given: bool) -> (r: Connect)
        ensures
            old(self).running ==> r == Connect::Nothing && *final(self) == *old(self),
            !old(self).running && given ==> r == Connect::UseGiven && *final(self) == (NameSession {
                running: true,
                ..*old(self)
            }),
            !old(self).running && !given ==> r == Connect::OpenBus(old(self).generation) && *final(self) == (
            NameSession { running: true, connecting: true, ..*old(self) }),
    {
        if self.running {
            return Connect::Nothing;
        }
        self.running = true;
        self.connect(given)
    }

    /// Connects, with a given connection or through the session bus.
    fn connect(&mut self, given: bool) -> (r: Connect)
        ensures
            given ==> r == Connect::UseGiven && *final(self) == *old(self),
            !given ==> r == Connect::OpenBus(old(self).generation) && *final(self) == (NameSession {
                connecting: true,
                ..*old(self)
            }),
    {
        if given {
            return Connect::UseGiven;
        }
        self.connecting = true;
        Connect::OpenBus(self.generation)
    }

    /// Lets the connection go.
    fn detach(&mut self) -> (changed: bool)
        ensures
            *final(self) == detached(*old(self)),
            changed == old(self).owned,
    {
        let changed = self.owned;
        self.generation = self.generation.wrapping_add(1);
        self.connecting = false;
        self.retrying = false;
        self.connected = false;
        self.owned = false;
        changed
    }

    /// Schedules a reconnect unless a connection is held or being opened; returns
    /// whether the caller starts the one-second timer.
    fn retry(&mut self) -> (r: bool)
        ensures
            (old(self).connected || old(self).connecting) ==> !r && *final(self) == *old(self),
            !(old(self).connected || old(self).connecting) ==> r && *final(self) == (NameSession {
                retrying: true,
                ..*old(self)
            }),
    {
        if self.connected || self.connecting {
            return false;
        }
        self.retrying = true;
        true
    }

    /// Something failed: the connection is let go and, while running, a reconnect is
    /// scheduled. Returns whether ownership changed and whether to start the timer.
    pub fn failed(&mut self) -> (r: (bool, bool))
        ensures
            *final(self) == after_failure(*old(self)),
            r == (old(self).owned, old(self).running),
    {
        let changed = self.detach();
        let timer = if self.running {
            self.retry()
        } else {
            false
        };
        (changed, timer)
    }

    /// The session bus was opened, or failed to open, for `generation`; returns
    /// whether the caller attaches to it now. A stale answer is ignored; a failure is
    /// handled as `failed` does.
    pub fn bus_opened(&mut self, generation: u64, ok: bool) -> (r: bool)
        ensures
            !(old(self).running && old(self).generation == generation) ==> !r && *final(self) == *old(self),
            old(self).running && old(self).generation == generation && ok ==> r && *final(self) == (
            NameSession { connecting: false, ..*old(self) }),
            old(self).running && old(self).generation == generation && !ok ==> !r && *final(self)
                == after_failure(*old(self)),
    {
        if !(self.running && self.generation == generation) {
            return false;
        }
        self.connecting = false;
        if ok {
            true
        } else {
            self.failed();
            false
        }
    }

    /// The caller attached to a connection and registered the service object; returns
    /// the generation that tags the name request, which is then made.
    pub fn attached(&mut self) -> (r: u64)
        ensures
            *final(self) == (NameSession { connected: true, ..detached(*old(self)) }),
            r == old(self).generation.wrapping_add(1),
    {
        self.detach();
        self.connected = true;
        self.generation
    }

    /// Sets whether the name is owned; returns whether that changed, so the caller
    /// publishes the new availability.
    pub fn set_owned(&mut self, owned: bool) -> (r: bool)
        ensures
            r == (old(self).owned != owned),
            *final(self) == (NameSession { owned, ..*old(self) }),
    {
        let changed = self.owned != owned;
        self.owned = owned;
        changed
    }

    /// The reply to the name request made for `generation`.
    pub fn name_reply(&mut self, generation: u64, reply: Option<u32>) -> (r: NameStep)
        ensures
            generation != old(self).generation ==> r == NameStep::Ignore && *final(self) == *old(self),
            generation == old(self).generation ==> match ownership_of(reply) {
                Ownership::Acquired => r == NameStep::Owned(!old(self).owned) && *final(self) == (NameSession {
                    owned: true,
                    ..*old(self)
                }),
                Ownership::Waiting => r == NameStep::Waiting && *final(self) == *old(self),
                Ownership::Invalid => r == NameStep::Failed && *final(self) == after_failure(*old(self)),
            },
    {
        if generation != self.generation {
            return NameStep::Ignore;
        }
        match ownership(reply) {
            Ownership::Acquired => NameStep::Owned(self.set_owned(true)),
            Ownership::Waiting => NameStep::Waiting,
            Ownership::Invalid => {
                self.failed();
                NameStep::Failed
            },
        }
    }

    /// The bus reported a new owner of the name; `ours` tells whether it is this
    /// connection. Returns whether ownership changed.
    pub fn owner_changed(&mut self, ours: bool) -> (r: bool)
        ensures
            r == (old(self).owned != ours),
            *final(self) == (NameSession { owned: ours, ..*old(self) }),
    {
        self.set_owned(ours)
    }

    /// The connection closed. It is let go; with no given connection and while
    /// running, a reconnect is scheduled. Returns whether ownership changed and
    /// whether to start the timer.
    pub fn closed(&mut self, given: bool) -> (r: (bool, bool))
        ensures
            *final(self) == (NameSession { retrying: !given && old(self).running, ..detached(*old(self)) }),
            r == (old(self).owned, !given && old(self).running),
    {
        let changed = self.detach();
        let timer = if !given && self.running {
            self.retry()
        } else {
            false
        };
        (changed, timer)
    }

    /// The reconnect timer fired; returns how to connect, if the service still runs.
    pub fn retry_fired(&mut self, given: bool) -> (r: Connect)
        ensures
            !old(self).running ==> r == Connect::Nothing && *final(self) == (NameSession { retrying: false, ..*old(self) }),
            old(self).running && given ==> r == Connect::UseGiven && *final(self) == (NameSession {
                retrying: false,
                ..*old(self)
            }),
            old(self).running && !given ==> r == Connect::OpenBus(old(self).generation) && *final(self) == (
            NameSession { retrying: false, connecting: true, ..*old(self) }),
    {
        self.retrying = false;
        if !self.running {
            return Connect::Nothing;
        }
        self.connect(given)
    }

    /// Stops the service and lets the connection go; returns whether ownership changed.
    pub fn stop(&mut self) -> (r: bool)
        ensures
            *final(self) == (NameSession { running: false, ..detached(*old(self)) }),
            r == old(self).owned,
    {
        self.running = false;
        self.detach()
    }

    /// Whether bus calls are answered: only while the name is owned.
    pub fn accepts_calls(&self) -> (r: bool)
        ensures
            r == self.owned,
    {
        self.owned
    }
}

/// The reply classification as a spec: the same rule `ownership` follows.
pub open spec fn ownership_of(reply: Option<u32>) -> Ownership {
    match reply {
        Some(c) => if c == 1 || c == 4 {
            Ownership::Acquired
        } else if c == 2 || c == 3 {
            Ownership::Waiting
        } else {
            Ownership::Invalid
        },
        None => Ownership::Invalid,
    }
}

/// The name is owned only after an acquiring reply to the current connection's
/// request or an owner change naming this connection: a failed or unknown reply, a
/// closed connection and a stop each leave it unowned, and every reply tagged before
/// the latest attach is ignored.
pub proof fn lemma_ownership_follows_replies(s: NameSession, reply: Option<u32>)
    ensures
        !after_failure(s).owned,
        !detached(s).owned,
        detached(s).generation != s.generation,
        ownership_of(reply) is Invalid ==> !after_failure(s).owned && after_failure(s).retrying == s.running,
{
}

} // verus!

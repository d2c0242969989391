//! The status notifier watcher's requests, and the commands sent to items.
use crate::text::{chars_of, str_eq};
use crate::tray::item::{is_object_path, object_path_valid};
use crate::variant::{get_string, value_string, Ty, Value};
use vstd::prelude::*;

verus! {

/// A character allowed in a bus name element.
pub open spec fn name_char(c: char) -> bool {
    ('a' <= c <= 'z') || ('A' <= c <= 'Z') || ('0' <= c <= '9') || c == '_' || c == '-'
}

/// The part of a bus name after the `:` of a unique name.
pub open spec fn name_body(n: Seq<char>) -> Seq<char> {
    if n.len() > 0 && n[0] == ':' {
        n.skip(1)
    } else {
        n
    }
}

/// A D-Bus bus name: at most 255 characters; a unique name starts with `:`; two or
/// more nonempty `.`-separated elements of `[A-Za-z0-9_-]`; elements of well-known
/// names do not start with a digit.
pub open spec fn is_bus_name(n: Seq<char>) -> bool {
    let unique = n.len() > 0 && n[0] == ':';
    let b = name_body(n);
    &&& n.len() <= 255
    &&& b.len() > 0
    &&& forall|i: int| 0 <= i < b.len() ==> #[trigger] b[i] == '.' || name_char(b[i])
    &&& b[0] != '.'
    &&& b.last() != '.'
    &&& forall|i: int| 0 < i < b.len() && #[trigger] b[i] == '.' ==> b[i - 1] != '.'
    &&& b.contains('.')
    &&& !unique ==> forall|i: int| 0 <= i < b.len() && '0' <= #[trigger] b[i] <= '9' ==> i > 0 && b[i - 1] != '.'
}

/// Whether `name` is a valid D-Bus bus name.
#[verifier::spinoff_prover]
#[verifier::rlimit(30)]
pub fn bus_name_valid(name: &str) -> (r: bool)
    ensures
        r == is_bus_name(name@),
{
    let n = chars_of(name);
    if n.len() > 255 {
        return false;
    }
    let unique = n.len() > 0 && n[0] == ':';
    let start: usize = if unique { 1 } else { 0 };
    let ghost b = name_body(n@);
    assert(b =~= n@.skip(start as int));
    if n.len() <= start {
        return false;
    }
    if n[start] == '.' || n[n.len() - 1] == '.' {
        return false;
    }
    let mut dot = false;
    let mut i: usize = start;
    while i < n.len()
        invariant
            start <= i <= n@.len(),
            n@ == name@,
            b =~= n@.skip(start as int),
            b == name_body(n@),
            n@.len() <= 255,
            b.len() > 0 && b[0] != '.' && b.last() != '.',
            unique == (n@.len() > 0 && n@[0] == ':'),
            dot == b.take(i - start).contains('.'),
            forall|k: int| 0 <= k < i - start ==> #[trigger] b[k] == '.' || name_char(b[k]),
            forall|k: int| 0 < k < i - start && #[trigger] b[k] == '.' ==> b[k - 1] != '.',
            !unique ==> forall|k: int| 0 <= k < i - start && '0' <= #[trigger] b[k] <= '9' ==> k > 0 && b[k - 1] != '.',
        decreases n@.len() - i,
    {
        let c = n[i];
        let k = i - start;
        assert(b[k as int] == c);
        if c == '.' {
            if k > 0 && n[i - 1] == '.' {
                assert(b[k - 1] == n@[i - 1]);
                return false;
            }
        } else if !(('a' <= c && c <= 'z') || ('A' <= c && c <= 'Z') || ('0' <= c && c <= '9') || c == '_' || c == '-') {
            return false;
        } else if !unique && '0' <= c && c <= '9' && (k == 0 || n[i - 1] == '.') {
            proof {
                if k > 0 {
                    assert(b[k - 1] == n@[i - 1]);
                }
            }
            return false;
        }
        proof {
            if k > 0 {
                assert(b[k - 1] == n@[i - 1]);
            }
            let t = b.take(k as int);
            let t1 = b.take(k + 1);
            assert(t1 =~= t.push(c));
            if c == '.' {
                assert(t1[k as int] == '.');
            } else {
                if t1.contains('.') {
                    let j = choose|j: int| 0 <= j < t1.len() && t1[j] == '.';
                    assert(j < k);
                    assert(t[j] == '.');
                }
                if t.contains('.') {
                    let j = choose|j: int| 0 <= j < t.len() && t[j] == '.';
                    assert(t1[j] == '.');
                }
            }
        }
        if c == '.' {
            dot = true;
        }
        i += 1;
    }
    assert(b.take(i - start) =~= b);
    dot
}

/// What a watcher method call asks for.
#[derive(Clone, Debug, PartialEq, Eq)]
pub enum WatcherRequest {
    /// A host registers under this bus name.
    Host(String),
    /// An item registers: its service name (or the caller) and object path.
    Item { name: String, path: String },
}

/// Why a watcher method call was refused.
#[derive(Clone, Copy, Debug, PartialEq, Eq, Structural)]
pub enum WatcherError {
    InvalidArguments,
    InvalidHostName,
    UnknownMethod,
    MissingSender,
    InvalidItem,
}

/// The D-Bus error name replied for each error.
pub open spec fn watcher_error_dbus_name(e: WatcherError) -> Seq<char> {
    match e {
        WatcherError::UnknownMethod => "org.freedesktop.DBus.Error.UnknownMethod"@,
        _ => "org.freedesktop.DBus.Error.InvalidArgs"@,
    }
}

/// The message replied for each error.
pub open spec fn watcher_error_message(e: WatcherError) -> Seq<char> {
    match e {
        WatcherError::InvalidArguments => "Expected a service name or object path"@,
        WatcherError::InvalidHostName => "Invalid host bus name"@,
        WatcherError::UnknownMethod => "Unknown watcher method"@,
        WatcherError::MissingSender => "Object registration requires a sender"@,
        WatcherError::InvalidItem => "Invalid tray service name or object path"@,
    }
}

impl WatcherError {
    /// The D-Bus error name of the reply.
    pub fn error_name(&self) -> (r: &'static str)
        ensures
            r@ == watcher_error_dbus_name(*self),
    {
        match self {
            WatcherError::UnknownMethod => "org.freedesktop.DBus.Error.UnknownMethod",
            _ => "org.freedesktop.DBus.Error.InvalidArgs",
        }
    }

    /// The message of the reply.
    pub fn message(&self) -> (r: &'static str)
        ensures
            r@ == watcher_error_message(*self),
    {
        match self {
            WatcherError::InvalidArguments => "Expected a service name or object path",
            WatcherError::InvalidHostName => "Invalid host bus name",
            WatcherError::UnknownMethod => "Unknown watcher method",
            WatcherError::MissingSender => "Object registration requires a sender",
            WatcherError::InvalidItem => "Invalid tray service name or object path",
        }
    }
}

/// The argument of a watcher call: a `(s)` tuple.
pub open spec fn single_text(v: Value) -> Option<Seq<char>> {
    match v {
        Value::Tuple(xs) => if xs@.len() >= 1 {
            get_string(xs@[0])
        } else {
            None
        },
        _ => None,
    }
}

/// The default object path of a status notifier item.
pub open spec fn item_path() -> Seq<char> {
    "/StatusNotifierItem"@
}

/// The registration a watcher call asks for: a host by bus name, or an item by object
/// path (registered for the caller) or by bus name (at the default path).
pub open spec fn watcher_request_of(method: Seq<char>, parameters: Value, sender: Option<Seq<char>>) -> Result<(bool, Seq<char>, Seq<char>), WatcherError> {
    match single_text(parameters) {
        None => Err(WatcherError::InvalidArguments),
        Some(name) => if method == "RegisterStatusNotifierHost"@ {
            if is_bus_name(name) {
                Ok((true, name, Seq::empty()))
            } else {
                Err(WatcherError::InvalidHostName)
            }
        } else if method != "RegisterStatusNotifierItem"@ {
            Err(WatcherError::UnknownMethod)
        } else if name.len() > 0 && name[0] == '/' && is_object_path(name) {
            match sender {
                Some(s) => Ok((false, s, name)),
                None => Err(WatcherError::MissingSender),
            }
        } else if is_bus_name(name) {
            Ok((false, name, item_path()))
        } else {
            Err(WatcherError::InvalidItem)
        },
    }
}

/// Reads a call of the watcher's `RegisterStatusNotifierHost` or
/// `RegisterStatusNotifierItem` method.
pub fn watcher_request(method: &str, parameters: &Value, sender: Option<&str>) -> (r: Result<WatcherRequest, WatcherError>)
    ensures
        match watcher_request_of(method@, *parameters, match sender { Some(s) => Some(s@), None => None }) {
            Ok((true, name, _)) => r matches Ok(WatcherRequest::Host(n)) && n@ == name,
            Ok((false, name, path)) => r matches Ok(WatcherRequest::Item { name: n, path: p }) && n@ == name && p@ == path,
            Err(e) => r == Err::<WatcherRequest, WatcherError>(e),
        },
{
    let name = match parameters {
        Value::Tuple(xs) => {
            if xs.len() < 1 {
                return Err(WatcherError::InvalidArguments);
            }
            match value_string(&xs[0]) {
                Some(s) => s,
                None => return Err(WatcherError::InvalidArguments),
            }
        },
        _ => return Err(WatcherError::InvalidArguments),
    };
    if str_eq(method, "RegisterStatusNotifierHost") {
        if !bus_name_valid(name.as_str()) {
            return Err(WatcherError::InvalidHostName);
        }
        return Ok(WatcherRequest::Host(name));
    }
    if !str_eq(method, "RegisterStatusNotifierItem") {
        return Err(WatcherError::UnknownMethod);
    }
    let c = chars_of(name.as_str());
    if c.len() > 0 && c[0] == '/' && object_path_valid(name.as_str()) {
        return match sender {
            Some(s) => Ok(WatcherRequest::Item { name: s.to_owned(), path: name }),
            None => Err(WatcherError::MissingSender),
        };
    }
    if bus_name_valid(name.as_str()) {
        return Ok(WatcherRequest::Item { name, path: "/StatusNotifierItem".to_owned() });
    }
    Err(WatcherError::InvalidItem)
}

/// The direction of a scroll.
#[derive(Clone, Copy, Debug, PartialEq, Eq, Structural)]
pub enum Orientation {
    Horizontal,
    Vertical,
}

/// A command for a status notifier item.
#[derive(Clone, Copy, Debug, PartialEq, Eq, Structural)]
pub enum ItemCommand {
    Activate { x: i32, y: i32 },
    SecondaryActivate { x: i32, y: i32 },
    ContextMenu { x: i32, y: i32 },
    Scroll { delta: i32, orientation: Orientation },
}

/// The item method a command calls.
pub open spec fn command_method(c: ItemCommand) -> Seq<char> {
    match c {
        ItemCommand::Activate { .. } => "Activate"@,
        ItemCommand::SecondaryActivate { .. } => "SecondaryActivate"@,
        ItemCommand::ContextMenu { .. } => "ContextMenu"@,
        ItemCommand::Scroll { .. } => "Scroll"@,
    }
}

/// Whether `v` holds the arguments of command `c`: `(ii)` coordinates, or `(is)` for a
/// scroll with its orientation.
pub open spec fn command_arguments(c: ItemCommand, v: Value) -> bool {
    match c {
        ItemCommand::Activate { x, y } | ItemCommand::SecondaryActivate { x, y } | ItemCommand::ContextMenu {
            x,
            y,
        } => v matches Value::Tuple(xs) && xs@.len() == 2 && xs@[0] == Value::Int32(x) && xs@[1]
            == Value::Int32(y),
        ItemCommand::Scroll { delta, orientation } => v matches Value::Tuple(xs) && xs@.len() == 2
            && xs@[0] == Value::Int32(delta) && get_string(xs@[1]) == Some(
            match orientation {
                Orientation::Horizontal => "horizontal"@,
                Orientation::Vertical => "vertical"@,
            },
        ) && xs@[1] is Str,
    }
}

/// The method and arguments that carry `command` to an item.
pub fn command_call(command: ItemCommand) -> (r: (&'static str, Value))
    ensures
        r.0@ == command_method(command),
        command_arguments(command, r.1),
{
    let pair = |a: i32, b: i32| -> (v: Value)
        ensures
            v matches Value::Tuple(xs) && xs@.len() == 2 && xs@[0] == Value::Int32(a) && xs@[1] == Value::Int32(b),
    {
        let mut xs: Vec<Value> = Vec::new();
        xs.push(Value::Int32(a));
        xs.push(Value::Int32(b));
        Value::Tuple(xs)
    };
    match command {
        ItemCommand::Activate { x, y } => ("Activate", pair(x, y)),
        ItemCommand::SecondaryActivate { x, y } => ("SecondaryActivate", pair(x, y)),
        ItemCommand::ContextMenu { x, y } => ("ContextMenu", pair(x, y)),
        ItemCommand::Scroll { delta, orientation } => {
            let o = match orientation {
                Orientation::Horizontal => "horizontal".to_owned(),
                Orientation::Vertical => "vertical".to_owned(),
            };
            let mut xs: Vec<Value> = Vec::new();
            xs.push(Value::Int32(delta));
            xs.push(Value::Str(o));
            ("Scroll", Value::Tuple(xs))
        },
    }
}

/// The item signals that announce a change of what an item shows.
pub open spec fn item_change_signal(signal: Seq<char>) -> bool {
    signal == "NewTitle"@ || signal == "NewIcon"@ || signal == "NewAttentionIcon"@ || signal == "NewOverlayIcon"@
        || signal == "NewStatus"@ || signal == "NewToolTip"@ || signal == "NewIconThemePath"@ || signal
        == "XAyatanaNewLabel"@
}

/// Whether a signal from an item makes the shell read the item again: a change signal
/// of the item interface, or a property change of that interface. The first argument
/// of a property change names the interface whose properties changed.
pub fn item_signal_refreshes(interface: &str, signal: &str, changed_interface: Option<&str>) -> (r: bool)
    ensures
        r == (if interface@ == "org.freedesktop.DBus.Properties"@ {
            signal@ == "PropertiesChanged"@ && match changed_interface {
                Some(c) => c@ == "org.kde.StatusNotifierItem"@,
                None => false,
            }
        } else if interface@ == "org.kde.StatusNotifierItem"@ {
            item_change_signal(signal@)
        } else {
            true
        }),
{
    if str_eq(interface, "org.freedesktop.DBus.Properties") {
        return str_eq(signal, "PropertiesChanged") && match changed_interface {
            Some(c) => str_eq(c, "org.kde.StatusNotifierItem"),
            None => false,
        };
    }
    if str_eq(interface, "org.kde.StatusNotifierItem") {
        return str_eq(signal, "NewTitle") || str_eq(signal, "NewIcon") || str_eq(signal, "NewAttentionIcon")
            || str_eq(signal, "NewOverlayIcon") || str_eq(signal, "NewStatus") || str_eq(signal, "NewToolTip")
            || str_eq(signal, "NewIconThemePath") || str_eq(signal, "XAyatanaNewLabel");
    }
    true
}

} // verus!

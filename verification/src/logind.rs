//! login1: power actions, the current session and the idle inhibitor.
use crate::text::{chars_of, copy_string, str_eq};
use crate::variant::{children, dict_get, get_string, get_u32, lookup, value_string, Value};
use vstd::prelude::*;

verus! {

/// The power actions login1 offers.
#[derive(Clone, Copy, Debug, PartialEq, Eq, Structural)]
pub enum PowerAction {
    Reboot,
    PowerOff,
    Suspend,
    Hibernate,
    HybridSleep,
    SuspendThenHibernate,
}

/// The login1 method of a power action.
pub open spec fn action_method(a: PowerAction) -> Seq<char> {
    match a {
        PowerAction::Reboot => "Reboot"@,
        PowerAction::PowerOff => "PowerOff"@,
        PowerAction::Suspend => "Suspend"@,
        PowerAction::Hibernate => "Hibernate"@,
        PowerAction::HybridSleep => "HybridSleep"@,
        PowerAction::SuspendThenHibernate => "SuspendThenHibernate"@,
    }
}

/// Each power action calls the login1 method of its own name, and no two actions call
/// the same method.
pub proof fn lemma_power_methods_named(a: PowerAction, b: PowerAction)
    ensures
        a == PowerAction::Reboot ==> action_method(a) == "Reboot"@,
        a == PowerAction::PowerOff ==> action_method(a) == "PowerOff"@,
        a == PowerAction::Suspend ==> action_method(a) == "Suspend"@,
        a == PowerAction::Hibernate ==> action_method(a) == "Hibernate"@,
        a == PowerAction::HybridSleep ==> action_method(a) == "HybridSleep"@,
        a == PowerAction::SuspendThenHibernate ==> action_method(a) == "SuspendThenHibernate"@,
        action_method(a) == action_method(b) ==> a == b,
{
    reveal_strlit("Reboot");
    reveal_strlit("PowerOff");
    reveal_strlit("Suspend");
    reveal_strlit("Hibernate");
    reveal_strlit("HybridSleep");
    reveal_strlit("SuspendThenHibernate");
    if action_method(a) == action_method(b) {
        assert(action_method(a).len() == action_method(b).len());
    }
}

/// The position of a power action in capability tables.
pub open spec fn action_index(a: PowerAction) -> int {
    match a {
        PowerAction::Reboot => 0,
        PowerAction::PowerOff => 1,
        PowerAction::Suspend => 2,
        PowerAction::Hibernate => 3,
        PowerAction::HybridSleep => 4,
        PowerAction::SuspendThenHibernate => 5,
    }
}

impl PowerAction {
    /// Every power action, in table order.
    pub fn all() -> (r: [PowerAction; 6])
        ensures
            forall|i: int| 0 <= i < 6 ==> action_index(#[trigger] r@[i]) == i,
    {
        [
            PowerAction::Reboot,
            PowerAction::PowerOff,
            PowerAction::Suspend,
            PowerAction::Hibernate,
            PowerAction::HybridSleep,
            PowerAction::SuspendThenHibernate,
        ]
    }

    /// The login1 method that performs this action.
    pub fn method(self) -> (r: &'static str)
        ensures
            r@ == action_method(self),
    {
        match self {
            PowerAction::Reboot => "Reboot",
            PowerAction::PowerOff => "PowerOff",
            PowerAction::Suspend => "Suspend",
            PowerAction::Hibernate => "Hibernate",
            PowerAction::HybridSleep => "HybridSleep",
            PowerAction::SuspendThenHibernate => "SuspendThenHibernate",
        }
    }

    /// The login1 method that tells whether this action is allowed.
    pub fn capability_method(self) -> (r: String)
        ensures
            r@ == "Can"@ + action_method(self),
    {
        let mut s = String::new();
        crate::text::append(&mut s, "Can");
        crate::text::append(&mut s, self.method());
        s
    }

    /// The position of this action in capability tables.
    pub fn index(self) -> (r: usize)
        ensures
            r == action_index(self),
    {
        match self {
            PowerAction::Reboot => 0,
            PowerAction::PowerOff => 1,
            PowerAction::Suspend => 2,
            PowerAction::Hibernate => 3,
            PowerAction::HybridSleep => 4,
            PowerAction::SuspendThenHibernate => 5,
        }
    }
}

/// What login1 currently allows and holds for the shell.
#[derive(Clone, Debug, PartialEq, Eq)]
pub struct LoginState {
    pub available: bool,
    pub session: Option<String>,
    pub capabilities: [bool; 6],
    pub inhibited: bool,
}

impl LoginState {
    /// The state with login1 absent.
    pub fn new() -> (r: LoginState)
        ensures
            !r.available,
            r.session is None,
            forall|i: int| 0 <= i < 6 ==> !#[trigger] r.capabilities@[i],
            !r.inhibited,
    {
        LoginState { available: false, session: None, capabilities: [false; 6], inhibited: false }
    }

    /// Whether login1 allows `action`.
    pub fn can(&self, action: PowerAction) -> (r: bool)
        ensures
            r == self.capabilities@[action_index(action)],
    {
        self.capabilities[action.index()]
    }
}

/// Whether a `Can*` reply allows the action: a `(s)` reply whose text is `yes`.
pub open spec fn allows(reply: Option<Value>) -> bool {
    match reply {
        Some(Value::Tuple(xs)) => xs@.len() >= 1 && get_string(xs@[0]) == Some("yes"@),
        _ => false,
    }
}

/// Reads a `Can*` reply; a failed call or any other answer forbids the action.
pub fn capability_allowed(reply: Option<&Value>) -> (r: bool)
    ensures
        r == allows(
            match reply {
                Some(v) => Some(*v),
                None => None,
            },
        ),
{
    match reply {
        Some(Value::Tuple(xs)) => {
            if xs.len() < 1 {
                return false;
            }
            match value_string(&xs[0]) {
                Some(s) => str_eq(s.as_str(), "yes"),
                None => false,
            }
        },
        _ => false,
    }
}

/// Whether a device may be named in a `SetBrightness` request: a backlight or LED
/// device whose name is not empty, `.` or `..` and holds no `/` or NUL.
pub open spec fn brightness_target(subsystem: Seq<char>, name: Seq<char>) -> bool {
    &&& (subsystem == "backlight"@ || subsystem == "leds"@)
    &&& name.len() > 0
    &&& name != "."@
    &&& name != ".."@
    &&& forall|i: int| 0 <= i < name.len() ==> #[trigger] name[i] != '/' && name[i] != '\0'
}

/// Checks the device of a `SetBrightness` request.
pub fn valid_brightness_target(subsystem: &str, name: &str) -> (r: bool)
    ensures
        r == brightness_target(subsystem@, name@),
{
    if !(str_eq(subsystem, "backlight") || str_eq(subsystem, "leds")) {
        return false;
    }
    if name.is_empty() || str_eq(name, ".") || str_eq(name, "..") {
        return false;
    }
    let c = chars_of(name);
    let mut i: usize = 0;
    while i < c.len()
        invariant
            i <= c@.len(),
            c@ == name@,
            forall|j: int| 0 <= j < i ==> #[trigger] c@[j] != '/' && c@[j] != '\0',
        decreases c@.len() - i,
    {
        if c[i] == '/' || c[i] == '\0' {
            return false;
        }
        i += 1;
    }
    true
}

/// Why a session could not be used.
#[derive(Clone, Copy, Debug, PartialEq, Eq, Structural)]
pub enum SessionError {
    InvalidProperties,
    OtherUser,
    MissingId,
    InvalidInventory,
    Ambiguous,
    NotFound,
}

/// The text of each error.
pub open spec fn session_error_message(e: SessionError) -> Seq<char> {
    match e {
        SessionError::InvalidProperties => "Invalid session properties"@,
        SessionError::OtherUser => "login1 session belongs to a different user"@,
        SessionError::MissingId => "Missing session identifier"@,
        SessionError::InvalidInventory => "Invalid session inventory"@,
        SessionError::Ambiguous => "Several active sessions match this user; set XDG_SESSION_ID"@,
        SessionError::NotFound => "No current session found"@,
    }
}

impl SessionError {
    /// The message reported for this error.
    pub fn message(&self) -> (r: &'static str)
        ensures
            r@ == session_error_message(*self),
    {
        match self {
            SessionError::InvalidProperties => "Invalid session properties",
            SessionError::OtherUser => "login1 session belongs to a different user",
            SessionError::MissingId => "Missing session identifier",
            SessionError::InvalidInventory => "Invalid session inventory",
            SessionError::Ambiguous => "Several active sessions match this user; set XDG_SESSION_ID",
            SessionError::NotFound => "No current session found",
        }
    }
}

/// The owner of a session: a `User` value of shape `(uo)`.
pub open spec fn session_user(v: Value) -> Option<u32> {
    match v {
        Value::Tuple(xs) => if xs@.len() >= 2 && get_u32(xs@[0]) is Some && xs@[1] is ObjectPath {
            get_u32(xs@[0])
        } else {
            None
        },
        _ => None,
    }
}

/// The identifier and activity of a session from its `GetAll` reply, checked to
/// belong to `uid`.
pub open spec fn session_of(reply: Value, uid: u32) -> Result<(Seq<char>, bool), SessionError> {
    match reply {
        Value::Tuple(xs) => if xs@.len() >= 1 && xs@[0] is Dict {
            let entries = xs@[0]->Dict_0@;
            let user = match lookup(entries, "User"@) {
                Some(u) => session_user(u),
                None => None,
            };
            if user != Some(uid) {
                Err(SessionError::OtherUser)
            } else {
                match lookup(entries, "Id"@) {
                    Some(i) => match get_string(i) {
                        Some(id) => if id.len() > 0 {
                            Ok((
                                id,
                                match lookup(entries, "State"@) {
                                    Some(s) => get_string(s) == Some("active"@),
                                    None => false,
                                },
                            ))
                        } else {
                            Err(SessionError::MissingId)
                        },
                        None => Err(SessionError::MissingId),
                    },
                    None => Err(SessionError::MissingId),
                }
            }
        } else {
            Err(SessionError::InvalidProperties)
        },
        _ => Err(SessionError::InvalidProperties),
    }
}

fn user_of(v: &Value) -> (r: Option<u32>)
    ensures
        r == session_user(*v),
{
    match v {
        Value::Tuple(xs) => {
            if xs.len() < 2 {
                return None;
            }
            match (&xs[0], &xs[1]) {
                (Value::UInt32(u), Value::ObjectPath(_)) => Some(*u),
                _ => None,
            }
        },
        _ => None,
    }
}

/// Reads a session's `GetAll` reply: its identifier and whether it is active.
pub fn session_properties(reply: &Value, uid: u32) -> (r: Result<(String, bool), SessionError>)
    ensures
        match session_of(*reply, uid) {
            Ok((id, active)) => r matches Ok((s, a)) && s@ == id && a == active,
            Err(e) => r == Err::<(String, bool), SessionError>(e),
        },
{
    let entries = match reply {
        Value::Tuple(xs) => {
            if xs.len() < 1 {
                return Err(SessionError::InvalidProperties);
            }
            match &xs[0] {
                Value::Dict(e) => e,
                _ => return Err(SessionError::InvalidProperties),
            }
        },
        _ => return Err(SessionError::InvalidProperties),
    };
    let user = match dict_get(entries, "User") {
        Some(u) => user_of(u),
        None => None,
    };
    if user != Some(uid) {
        return Err(SessionError::OtherUser);
    }
    let id = match dict_get(entries, "Id") {
        Some(i) => match value_string(i) {
            Some(s) => s,
            None => return Err(SessionError::MissingId),
        },
        None => return Err(SessionError::MissingId),
    };
    if id.as_str().is_empty() {
        return Err(SessionError::MissingId);
    }
    let active = match dict_get(entries, "State") {
        Some(s) => match value_string(s) {
            Some(t) => str_eq(t.as_str(), "active"),
            None => false,
        },
        None => false,
    };
    Ok((id, active))
}

/// A lookup of the session object by the shell's process or by its session id.
#[derive(Clone, Debug, PartialEq, Eq)]
pub enum SessionQuery {
    ByPid(u32),
    ById(String),
}

/// The direct lookups to try, in order: by process, then by `XDG_SESSION_ID` when set.
pub fn session_queries(pid: u32, session_id: Option<&str>) -> (r: Vec<SessionQuery>)
    ensures
        r@.len() == (if session_id is Some { 2int } else { 1int }),
        r@[0] == SessionQuery::ByPid(pid),
        session_id matches Some(id) ==> r@[1] matches SessionQuery::ById(s) && s@ == id@,
{
    let mut r: Vec<SessionQuery> = Vec::new();
    r.push(SessionQuery::ByPid(pid));
    match session_id {
        Some(id) => r.push(SessionQuery::ById(id.to_owned())),
        None => {},
    }
    r
}

/// A row of `ListSessions`: the session's object path when it belongs to `uid` and
/// sits on a seat, as `(susso)`.
pub open spec fn listed_path(v: Value, uid: u32) -> Option<Option<Seq<char>>> {
    match v {
        Value::Tuple(xs) => if xs@.len() >= 5 && get_string(xs@[0]) is Some && get_u32(xs@[1]) is Some
            && get_string(xs@[2]) is Some && get_string(xs@[3]) is Some && xs@[4] is ObjectPath {
            if get_u32(xs@[1]) == Some(uid) && get_string(xs@[3])->0.len() > 0 {
                Some(Some(xs@[4]->ObjectPath_0@))
            } else {
                Some(None)
            }
        } else {
            None
        },
        _ => None,
    }
}

/// The candidate sessions of a `ListSessions` reply: every row must be well formed;
/// the paths of rows of `uid` on a seat, in order.
pub open spec fn listed_paths(rows: Seq<Value>, uid: u32) -> Option<Seq<Seq<char>>>
    decreases rows.len(),
{
    if rows.len() == 0 {
        Some(Seq::empty())
    } else {
        match (listed_paths(rows.drop_last(), uid), listed_path(rows.last(), uid)) {
            (Some(ps), Some(Some(p))) => Some(ps.push(p)),
            (Some(ps), Some(None)) => Some(ps),
            _ => None,
        }
    }
}

/// The candidate sessions of a `ListSessions` reply of shape `(a(susso))`.
pub open spec fn session_candidates(reply: Value, uid: u32) -> Option<Seq<Seq<char>>> {
    match reply {
        Value::Tuple(xs) => if xs@.len() >= 1 {
            match children(xs@[0]) {
                Some(rows) => listed_paths(rows, uid),
                None => None,
            }
        } else {
            None
        },
        _ => None,
    }
}

fn row_path(v: &Value, uid: u32) -> (r: Option<Option<String>>)
    ensures
        match listed_path(*v, uid) {
            Some(Some(p)) => r matches Some(Some(s)) && s@ == p,
            Some(None) => r == Some(None::<String>),
            None => r is None,
        },
{
    let xs = match v {
        Value::Tuple(xs) => xs,
        _ => return None,
    };
    if xs.len() < 5 {
        return None;
    }
    match (value_string(&xs[0]), &xs[1], value_string(&xs[2]), value_string(&xs[3]), &xs[4]) {
        (Some(_), Value::UInt32(u), Some(_), Some(seat), Value::ObjectPath(p)) => {
            if *u == uid && !seat.as_str().is_empty() {
                Some(Some(copy_string(p)))
            } else {
                Some(None)
            }
        },
        _ => None,
    }
}

/// The texts of a list of strings.
pub open spec fn texts(s: Seq<String>) -> Seq<Seq<char>> {
    s.map_values(|x: String| x@)
}

/// Reads a `ListSessions` reply into the candidate session paths.
#[verifier::loop_isolation(false)]
pub fn list_candidates(reply: &Value, uid: u32) -> (r: Result<Vec<String>, SessionError>)
    ensures
        match session_candidates(*reply, uid) {
            Some(ps) => r matches Ok(v) && texts(v@) == ps,
            None => r == Err::<Vec<String>, SessionError>(SessionError::InvalidInventory),
        },
{
    let xs = match reply {
        Value::Tuple(xs) => xs,
        _ => return Err(SessionError::InvalidInventory),
    };
    if xs.len() < 1 {
        return Err(SessionError::InvalidInventory);
    }
    let rows = match &xs[0] {
        Value::Array(_, rows) => rows,
        Value::Tuple(rows) => rows,
        Value::Variant(b) => {
            assert(seq![**b].drop_last() =~= Seq::<Value>::empty());
            assert(listed_paths(Seq::<Value>::empty(), uid) == Some(Seq::<Seq<char>>::empty()));
            assert(seq![**b].last() == **b);
            assert(children(xs@[0]) == Some(seq![**b]));
            return match row_path(b, uid) {
                Some(Some(p)) => {
                    let mut v: Vec<String> = Vec::new();
                    let ghost pv = p@;
                    v.push(p);
                    assert(texts(v@) =~= Seq::<Seq<char>>::empty().push(pv));
                    Ok(v)
                },
                Some(None) => {
                    let v: Vec<String> = Vec::new();
                    assert(texts(v@) =~= Seq::<Seq<char>>::empty());
                    Ok(v)
                },
                None => Err(SessionError::InvalidInventory),
            };
        },
        _ => return Err(SessionError::InvalidInventory),
    };
    let mut out: Vec<String> = Vec::new();
    let mut i: usize = 0;
    assert(rows@.take(0) =~= Seq::<Value>::empty());
    assert(texts(out@) =~= Seq::<Seq<char>>::empty());
    while i < rows.len()
        invariant
            i <= rows@.len(),
            listed_paths(rows@.take(i as int), uid) == Some(texts(out@)),
        decreases rows@.len() - i,
    {
        assert(rows@.take(i + 1).drop_last() =~= rows@.take(i as int));
        match row_path(&rows[i], uid) {
            Some(Some(p)) => {
                let ghost before = out@;
                let ghost pv = p@;
                out.push(p);
                assert(texts(out@) =~= texts(before).push(pv));
            },
            Some(None) => {},
            None => {
                proof { lemma_listed_prefix_none(rows@, uid, i + 1); }
                return Err(SessionError::InvalidInventory);
            },
        }
        i += 1;
    }
    assert(rows@.take(i as int) =~= rows@);
    Ok(out)
}

proof fn lemma_listed_prefix_none(rows: Seq<Value>, uid: u32, n: int)
    requires
        0 <= n <= rows.len(),
        listed_paths(rows.take(n), uid) is None,
    ensures
        listed_paths(rows, uid) is None,
    decreases rows.len() - n,
{
    if n < rows.len() {
        assert(rows.take(n + 1).drop_last() =~= rows.take(n));
        lemma_listed_prefix_none(rows, uid, n + 1);
    } else {
        assert(rows.take(n) =~= rows);
    }
}

/// The search through the listed candidates for the one active session of the user.
#[derive(Clone, Debug, PartialEq, Eq)]
pub struct SessionPick {
    pub found: Option<(String, String)>,
}

impl SessionPick {
    /// A search that has found nothing yet.
    pub fn new() -> (r: SessionPick)
        ensures
            r.found is None,
    {
        SessionPick { found: None }
    }

    /// Takes the properties read for candidate `path` (`None` when reading failed).
    /// An active session is kept; a second active one makes the search ambiguous.
    pub fn take(&mut self, path: &str, props: Option<(String, bool)>) -> (r: Result<(), SessionError>)
        ensures
            match props {
                Some((id, true)) => if old(self).found is Some {
                    r == Err::<(), SessionError>(SessionError::Ambiguous) && final(self).found == old(self).found
                } else {
                    r is Ok && (final(self).found matches Some((p, i)) && p@ == path@ && i@ == id@)
                },
                _ => r is Ok && final(self).found == old(self).found,
            },
    {
        match props {
            Some((id, true)) => {
                if self.found.is_some() {
                    return Err(SessionError::Ambiguous);
                }
                self.found = Some((path.to_owned(), id));
                Ok(())
            },
            _ => Ok(()),
        }
    }

    /// The session found, once every candidate was taken.
    pub fn finish(self) -> (r: Result<(String, String), SessionError>)
        ensures
            match self.found {
                Some(f) => r == Ok::<(String, String), SessionError>(f),
                None => r == Err::<(String, String), SessionError>(SessionError::NotFound),
            },
    {
        match self.found {
            Some(f) => Ok(f),
            None => Err(SessionError::NotFound),
        }
    }
}

/// The idle inhibitor: what the user wants, and whether a lock is held or requested.
/// Replies carry the generation they were requested in; a newer request or a release
/// makes older replies stale.
#[derive(Clone, Copy, Debug, PartialEq, Eq, Structural)]
pub struct Inhibitor {
    pub desired: bool,
    pub held: bool,
    pub requesting: bool,
    pub generation: u64,
}

/// What to do after the user changed the inhibitor.
#[derive(Clone, Copy, Debug, PartialEq, Eq, Structural)]
pub enum InhibitStep {
    /// Cancel any request, drop any held lock and report the inhibitor off.
    Release,
    /// Ask login1 for a lock, tagging the reply with this generation.
    Request(u64),
    /// Nothing to do.
    Idle,
}

/// Why an `Inhibit` reply gave no lock.
#[derive(Clone, Copy, Debug, PartialEq, Eq, Structural)]
pub enum InhibitError {
    InvalidReply,
    MissingDescriptor,
    InvalidIndex,
}

/// The text of each error.
pub open spec fn inhibit_error_message(e: InhibitError) -> Seq<char> {
    match e {
        InhibitError::InvalidReply => "Invalid inhibitor reply"@,
        InhibitError::MissingDescriptor => "Missing inhibitor descriptor"@,
        InhibitError::InvalidIndex => "Invalid inhibitor descriptor index"@,
    }
}

impl InhibitError {
    /// The message reported for this error.
    pub fn message(&self) -> (r: &'static str)
        ensures
            r@ == inhibit_error_message(*self),
    {
        match self {
            InhibitError::InvalidReply => "Invalid inhibitor reply",
            InhibitError::MissingDescriptor => "Missing inhibitor descriptor",
            InhibitError::InvalidIndex => "Invalid inhibitor descriptor index",
        }
    }
}

impl Inhibitor {
    /// No inhibitor wanted, held or requested.
    pub fn new() -> (r: Inhibitor)
        ensures
            r == (Inhibitor { desired: false, held: false, requesting: false, generation: 0 }),
    {
        Inhibitor { desired: false, held: false, requesting: false, generation: 0 }
    }

    /// The user turns the inhibitor on or off. Turning it off starts a new generation
    /// and releases everything; turning it on requests a lock unless one is held or
    /// requested, or login1 is not connected.
    pub fn set(&mut self, enabled: bool, connected: bool) -> (r: InhibitStep)
        ensures
            final(self).desired == enabled,
            !enabled ==> r == InhibitStep::Release && !final(self).held && !final(self).requesting
                && final(self).generation == old(self).generation.wrapping_add(1),
            enabled && (old(self).held || old(self).requesting || !connected) ==> r == InhibitStep::Idle
                && *final(self) == (Inhibitor { desired: true, ..*old(self) }),
            enabled && !old(self).held && !old(self).requesting && connected ==> r == InhibitStep::Request(
                old(self).generation,
            ) && *final(self) == (Inhibitor { desired: true, requesting: true, ..*old(self) }),
    {
        self.desired = enabled;
        if !enabled {
            self.generation = self.generation.wrapping_add(1);
            self.held = false;
            self.requesting = false;
            return InhibitStep::Release;
        }
        if self.held || self.requesting || !connected {
            return InhibitStep::Idle;
        }
        self.requesting = true;
        InhibitStep::Request(self.generation)
    }

    /// login1 went away or reappeared: nothing is held or requested any more, and a
    /// new generation begins, so a reply to an earlier request is stale.
    pub fn reset(&mut self)
        ensures
            *final(self) == (Inhibitor {
                held: false,
                requesting: false,
                generation: old(self).generation.wrapping_add(1),
                ..*old(self)
            }),
    {
        self.generation = self.generation.wrapping_add(1);
        self.held = false;
        self.requesting = false;
    }

    /// A reply to the request of `generation` arrived. A stale reply changes nothing
    /// and is dropped; a current one ends the request, and a lock it carries is kept
    /// only while the user still wants it. Returns whether the lock is kept.
    pub fn reply(&mut self, generation: u64, lock: bool) -> (r: bool)
        ensures
            generation != old(self).generation ==> !r && *final(self) == *old(self),
            generation == old(self).generation ==> r == (lock && old(self).desired) && *final(self) == (
            Inhibitor { requesting: false, held: old(self).held || r, ..*old(self) }),
    {
        if generation != self.generation {
            return false;
        }
        self.requesting = false;
        let keep = lock && self.desired;
        if keep {
            self.held = true;
        }
        keep
    }
}

/// Checks an `Inhibit` reply: a `(h)` handle that indexes the descriptor list.
pub fn inhibitor_index(reply: &Value, descriptors: Option<i32>) -> (r: Result<i32, InhibitError>)
    ensures
        match reply {
            Value::Tuple(xs) => if xs@.len() >= 1 && xs@[0] is Handle {
                let index = xs@[0]->Handle_0;
                match descriptors {
                    None => r == Err::<i32, InhibitError>(InhibitError::MissingDescriptor),
                    Some(n) => if 0 <= index < n {
                        r == Ok::<i32, InhibitError>(index)
                    } else {
                        r == Err::<i32, InhibitError>(InhibitError::InvalidIndex)
                    },
                }
            } else {
                r == Err::<i32, InhibitError>(InhibitError::InvalidReply)
            },
            _ => r == Err::<i32, InhibitError>(InhibitError::InvalidReply),
        },
{
    let index = match reply {
        Value::Tuple(xs) => {
            if xs.len() < 1 {
                return Err(InhibitError::InvalidReply);
            }
            match &xs[0] {
                Value::Handle(h) => *h,
                _ => return Err(InhibitError::InvalidReply),
            }
        },
        _ => return Err(InhibitError::InvalidReply),
    };
    match descriptors {
        None => Err(InhibitError::MissingDescriptor),
        Some(n) => if 0 <= index && index < n {
            Ok(index)
        } else {
            Err(InhibitError::InvalidIndex)
        },
    }
}

/// Whether a lock is held only while the user wants it.
pub open spec fn consistent(i: Inhibitor) -> bool {
    i.held ==> i.desired
}

/// Every step of the inhibitor keeps a held lock wanted: turning it off drops the lock,
/// and a reply keeps its lock only while the inhibitor is still wanted.
pub proof fn lemma_inhibitor_consistent(before: Inhibitor, enabled: bool, connected: bool, generation: u64, lock: bool)
    requires
        consistent(before),
    ensures
        consistent(Inhibitor { desired: enabled, held: if enabled { before.held } else { false }, ..before }),
        consistent(
            Inhibitor { held: false, requesting: false, generation: before.generation.wrapping_add(1), ..before },
        ),
        generation == before.generation ==> consistent(
            Inhibitor { requesting: false, held: before.held || (lock && before.desired), ..before },
        ),
{
}

/// Why a login1 request is refused before it is sent.
#[derive(Clone, Copy, Debug, PartialEq, Eq, Structural)]
pub enum RequestError {
    NotPermitted,
    NoSession,
    InvalidDevice,
}

/// The text of each refusal.
pub open spec fn request_error_message(e: RequestError) -> Seq<char> {
    match e {
        RequestError::NotPermitted => "login1 does not permit this power action"@,
        RequestError::NoSession => "No current login1 session is available"@,
        RequestError::InvalidDevice => "Invalid brightness device"@,
    }
}

impl RequestError {
    /// The message reported for this refusal.
    pub fn message(&self) -> (r: &'static str)
        ensures
            r@ == request_error_message(*self),
    {
        match self {
            RequestError::NotPermitted => "login1 does not permit this power action",
            RequestError::NoSession => "No current login1 session is available",
            RequestError::InvalidDevice => "Invalid brightness device",
        }
    }
}

/// A login1 method call: the object, its interface and the method.
#[derive(Clone, Debug, PartialEq, Eq)]
pub struct LoginCall {
    pub path: String,
    pub interface: &'static str,
    pub method: &'static str,
}

/// The call that performs a power action, when login1 permits it: the manager's
/// method of the action's name, asked without interaction.
pub fn power_call(state: &LoginState, action: PowerAction) -> (r: Result<LoginCall, RequestError>)
    ensures
        !state.capabilities@[action_index(action)] ==> r == Err::<LoginCall, RequestError>(RequestError::NotPermitted),
        state.capabilities@[action_index(action)] ==> (r matches Ok(c) && c.path@ == "/org/freedesktop/login1"@
            && c.interface@ == "org.freedesktop.login1.Manager"@ && c.method@ == action_method(action)),
{
    if !state.can(action) {
        return Err(RequestError::NotPermitted);
    }
    Ok(LoginCall {
        path: "/org/freedesktop/login1".to_owned(),
        interface: "org.freedesktop.login1.Manager",
        method: action.method(),
    })
}

/// The call that ends the current session, when there is one.
pub fn terminate_call(session: Option<&str>) -> (r: Result<LoginCall, RequestError>)
    ensures
        session is None ==> r == Err::<LoginCall, RequestError>(RequestError::NoSession),
        session matches Some(p) ==> (r matches Ok(c) && c.path@ == p@ && c.interface@
            == "org.freedesktop.login1.Session"@ && c.method@ == "Terminate"@),
{
    match session {
        None => Err(RequestError::NoSession),
        Some(p) => Ok(LoginCall { path: p.to_owned(), interface: "org.freedesktop.login1.Session", method: "Terminate" }),
    }
}

/// The call that sets a device's brightness through the current session: the device
/// must be a valid backlight or LED, and a session must be known.
pub fn brightness_call(session: Option<&str>, subsystem: &str, name: &str) -> (r: Result<LoginCall, RequestError>)
    ensures
        !brightness_target(subsystem@, name@) ==> r == Err::<LoginCall, RequestError>(RequestError::InvalidDevice),
        brightness_target(subsystem@, name@) && session is None ==> r == Err::<LoginCall, RequestError>(
            RequestError::NoSession,
        ),
        brightness_target(subsystem@, name@) && session is Some ==> (r matches Ok(c) && c.path@ == session->0@
            && c.interface@ == "org.freedesktop.login1.Session"@ && c.method@ == "SetBrightness"@),
{
    if !valid_brightness_target(subsystem, name) {
        return Err(RequestError::InvalidDevice);
    }
    match session {
        None => Err(RequestError::NoSession),
        Some(p) => Ok(LoginCall { path: p.to_owned(), interface: "org.freedesktop.login1.Session", method: "SetBrightness" }),
    }
}

} // verus!

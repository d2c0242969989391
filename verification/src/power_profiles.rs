//! The power-profiles-daemon contract: the offered profiles, the active one, and requests.
use crate::text::{contains_string, copy_string, str_eq, strings_contain};
use crate::variant::{children, get_string, lookup, value_string, dict_get, Value};
use vstd::prelude::*;

verus! {

/// The profiles a provider offers and the one it runs.
#[derive(Clone, Debug, PartialEq, Eq)]
pub struct ProfilesState {
    pub profiles: Vec<String>,
    pub active: Option<String>,
}

/// Whether a provider state can be shown: it runs a profile and offers some.
pub open spec fn offers(s: ProfilesState) -> bool {
    s.active is Some && s.profiles@.len() > 0
}

impl ProfilesState {
    /// The state of a missing provider.
    pub fn new() -> (r: ProfilesState)
        ensures
            r.profiles@.len() == 0,
            r.active is None,
    {
        ProfilesState { profiles: Vec::new(), active: None }
    }

    /// Whether the provider runs a profile and offers at least one.
    pub fn available(&self) -> (r: bool)
        ensures
            r == offers(*self),
    {
        self.active.is_some() && self.profiles.len() > 0
    }
}

/// The icon for a profile.
pub open spec fn icon_of(profile: Option<Seq<char>>) -> Seq<char> {
    match profile {
        Some(p) => if p == "performance"@ {
            "power-profile-performance-symbolic"@
        } else if p == "power-saver"@ {
            "power-profile-power-saver-symbolic"@
        } else {
            "power-profile-balanced-symbolic"@
        },
        None => "power-profile-balanced-symbolic"@,
    }
}

/// The icon for a profile; unknown profiles show as balanced.
pub fn profile_icon(profile: Option<&str>) -> (r: &'static str)
    ensures
        r@ == icon_of(
            match profile {
                Some(p) => Some(p@),
                None => None,
            },
        ),
{
    match profile {
        Some(p) => if str_eq(p, "performance") {
            "power-profile-performance-symbolic"
        } else if str_eq(p, "power-saver") {
            "power-profile-power-saver-symbolic"
        } else {
            "power-profile-balanced-symbolic"
        },
        None => "power-profile-balanced-symbolic",
    }
}

/// The `Profile` name of an entry of the `Profiles` list: the entry must be a
/// dictionary whose `Profile` is a string.
pub open spec fn entry_name(v: Value) -> Option<Seq<char>> {
    match v {
        Value::Dict(entries) => match lookup(entries@, "Profile"@) {
            Some(x) => get_string(x),
            None => None,
        },
        _ => None,
    }
}

/// Whether an entry has a nonempty `Profile` name.
pub open spec fn named(v: Value) -> bool {
    &&& entry_name(v) is Some
    &&& entry_name(v)->Some_0.len() > 0
}

/// Whether every entry has a nonempty `Profile` name.
pub open spec fn well_named(items: Seq<Value>) -> bool {
    forall|i: int| 0 <= i < items.len() ==> #[trigger] named(items[i])
}

/// The `Profile` names of the entries, in order.
pub open spec fn names_of(items: Seq<Value>) -> Seq<Seq<char>> {
    items.map_values(|v: Value| entry_name(v)->Some_0)
}

/// The names without repeats, each where it first occurs.
pub open spec fn first_occurrences(names: Seq<Seq<char>>) -> Seq<Seq<char>>
    decreases names.len(),
{
    if names.len() == 0 {
        Seq::empty()
    } else {
        let kept = first_occurrences(names.drop_last());
        if kept.contains(names.last()) {
            kept
        } else {
            kept.push(names.last())
        }
    }
}

/// The provider state its `ActiveProfile` and `Profiles` properties describe: both must be
/// present and well typed, and no profile may have an empty name. An empty active name
/// means no profile is active.
pub open spec fn profiles_of(active: Option<Value>, profiles: Option<Value>) -> Option<(Seq<Seq<char>>, Option<Seq<char>>)> {
    match (active, profiles) {
        (Some(a), Some(p)) => match (get_string(a), children(p)) {
            (Some(name), Some(items)) => if well_named(items) {
                Some((first_occurrences(names_of(items)), if name.len() == 0 { None } else { Some(name) }))
            } else {
                None
            },
            _ => None,
        },
        _ => None,
    }
}

/// The texts of a list of strings.
pub open spec fn texts(s: Seq<String>) -> Seq<Seq<char>> {
    s.map_values(|x: String| x@)
}

fn child_values(v: &Value) -> (r: Option<&Vec<Value>>)
    requires
        !(*v is Variant),
    ensures
        match r {
            Some(xs) => children(*v) == Some(xs@),
            None => children(*v) is None,
        },
{
    match v {
        Value::Array(_, xs) => Some(xs),
        Value::Tuple(xs) => Some(xs),
        _ => None,
    }
}

fn profile_name(item: &Value) -> (r: Option<String>)
    ensures
        match r {
            Some(n) => entry_name(*item) == Some(n@),
            None => entry_name(*item) is None,
        },
{
    match item {
        Value::Dict(entries) => match dict_get(entries, "Profile") {
            Some(v) => value_string(v),
            None => None,
        },
        _ => None,
    }
}

/// Adds the name of one entry to the names read so far, unless it is already there;
/// false when the entry has no nonempty name.
fn add_entry(out: &mut Vec<String>, item: &Value) -> (r: bool)
    ensures
        r == named(*item),
        r ==> texts(final(out)@) == (if texts(old(out)@).contains(entry_name(*item)->Some_0) {
            texts(old(out)@)
        } else {
            texts(old(out)@).push(entry_name(*item)->Some_0)
        }),
{
    let n = match profile_name(item) {
        Some(n) => n,
        None => return false,
    };
    if n.as_str().is_empty() {
        return false;
    }
    proof { lemma_texts_contains(out@, n@); }
    if !contains_string(out, n.as_str()) {
        let ghost before = out@;
        let ghost nv = n@;
        out.push(n);
        assert(texts(out@) =~= texts(before).push(nv));
    }
    true
}

/// Reads the provider state from its `ActiveProfile` and `Profiles` properties.
#[verifier::loop_isolation(false)]
pub fn parse_state(active: Option<&Value>, profiles: Option<&Value>) -> (r: Option<ProfilesState>)
    ensures
        match profiles_of(
            match active { Some(a) => Some(*a), None => None },
            match profiles { Some(p) => Some(*p), None => None },
        ) {
            Some((names, act)) => r matches Some(s) && texts(s.profiles@) == names && match act {
                Some(a) => s.active matches Some(x) && x@ == a,
                None => s.active is None,
            },
            None => r is None,
        },
{
    let a = match active {
        Some(a) => a,
        None => return None,
    };
    let p = match profiles {
        Some(p) => p,
        None => return None,
    };
    let name = match value_string(a) {
        Some(n) => n,
        None => return None,
    };
    let mut out: Vec<String> = Vec::new();
    match p {
        Value::Variant(inner) => {
            let ghost items = seq![**inner];
            assert(items.take(0) =~= Seq::<Value>::empty());
            assert(texts(out@) =~= Seq::<Seq<char>>::empty());
            if !add_entry(&mut out, inner) {
                assert(!well_named(items)) by {
                    assert(!named(items[0]));
                };
                return None;
            }
            assert(names_of(items) =~= seq![entry_name(**inner)->Some_0]);
            assert(names_of(items).drop_last() =~= Seq::<Seq<char>>::empty());
            assert(first_occurrences(Seq::<Seq<char>>::empty()) == Seq::<Seq<char>>::empty());
            assert(first_occurrences(names_of(items)) =~= seq![entry_name(**inner)->Some_0]);
            assert(texts(out@) =~= seq![entry_name(**inner)->Some_0]);
            assert(well_named(items));
        },
        _ => {
            let items = match child_values(p) {
                Some(xs) => xs,
                None => return None,
            };
            let mut i: usize = 0;
            while i < items.len()
                invariant
                    i <= items@.len(),
                    well_named(items@.take(i as int)),
                    texts(out@) == first_occurrences(names_of(items@.take(i as int))),
                decreases items@.len() - i,
            {
                let ghost t = items@.take(i as int);
                let ghost t1 = items@.take(i + 1);
                assert(t1 =~= t.push(items@[i as int]));
                if !add_entry(&mut out, &items[i]) {
                    assert(!well_named(items@)) by {
                        assert(!named(items@[i as int]));
                    };
                    return None;
                }
                assert(names_of(t1).drop_last() =~= names_of(t));
                assert(names_of(t1).last() == entry_name(items@[i as int])->Some_0);
                assert(well_named(t1)) by {
                    assert forall|k: int| 0 <= k < t1.len() implies #[trigger] named(t1[k]) by {
                        if k < i {
                            assert(t1[k] == t[k]);
                        }
                    };
                };
                i += 1;
            }
            assert(items@.take(i as int) =~= items@);
        },
    }
    let act = if name.as_str().is_empty() { None } else { Some(name) };
    Some(ProfilesState { profiles: out, active: act })
}

proof fn lemma_texts_contains(s: Seq<String>, p: Seq<char>)
    ensures
        texts(s).contains(p) == strings_contain(s, p),
{
    if strings_contain(s, p) {
        let i = choose|i: int| 0 <= i < s.len() && s[i]@ == p;
        assert(texts(s)[i] == p);
    }
    if texts(s).contains(p) {
        let i = choose|i: int| 0 <= i < texts(s).len() && texts(s)[i] == p;
        assert(s[i]@ == p);
    }
}

/// Why a profile request was refused before it was sent.
#[derive(Clone, Copy, Debug, PartialEq, Eq, Structural)]
pub enum ProfileError {
    /// No provider, or the provider offers nothing.
    Unavailable,
    /// The provider does not offer the profile.
    NotOffered,
}

/// The text of each refusal.
pub open spec fn profile_error_message(e: ProfileError) -> Seq<char> {
    match e {
        ProfileError::Unavailable => "Power profiles service is unavailable"@,
        ProfileError::NotOffered => "Power profile is not offered by this provider"@,
    }
}

impl ProfileError {
    /// The message reported for the refusal.
    pub fn message(&self) -> (r: &'static str)
        ensures
            r@ == profile_error_message(*self),
    {
        match self {
            ProfileError::Unavailable => "Power profiles service is unavailable",
            ProfileError::NotOffered => "Power profile is not offered by this provider",
        }
    }
}

/// Checks a request to switch to `profile` before it is sent to the provider.
pub fn check_profile(state: &ProfilesState, connected: bool, profile: &str) -> (r: Result<(), ProfileError>)
    ensures
        r == (if !connected || !offers(*state) {
            Err(ProfileError::Unavailable)
        } else if !strings_contain(state.profiles@, profile@) {
            Err(ProfileError::NotOffered)
        } else {
            Ok(())
        }),
{
    if !connected || !state.available() {
        return Err(ProfileError::Unavailable);
    }
    if !contains_string(&state.profiles, profile) {
        return Err(ProfileError::NotOffered);
    }
    Ok(())
}

/// The offered profiles never repeat, and hold exactly the names read.
pub proof fn lemma_profiles_unique(names: Seq<Seq<char>>)
    ensures
        first_occurrences(names).no_duplicates(),
        forall|n: Seq<char>| #[trigger] first_occurrences(names).contains(n) <==> names.contains(n),
    decreases names.len(),
{
    if names.len() > 0 {
        let init = names.drop_last();
        lemma_profiles_unique(init);
        let kept = first_occurrences(init);
        assert forall|n: Seq<char>| #[trigger] first_occurrences(names).contains(n) <==> names.contains(n) by {
            if names.contains(n) {
                let i = choose|i: int| 0 <= i < names.len() && names[i] == n;
                if i < names.len() - 1 {
                    assert(init[i] == n);
                    assert(init.contains(n));
                }
            }
            if init.contains(n) {
                let i = choose|i: int| 0 <= i < init.len() && init[i] == n;
                assert(names[i] == n);
            }
            if !kept.contains(names.last()) {
                if first_occurrences(names).contains(n) && !kept.contains(n) {
                    let i = choose|i: int| 0 <= i < first_occurrences(names).len() && first_occurrences(names)[i] == n;
                    assert(i == kept.len());
                }
                if kept.contains(n) {
                    let i = choose|i: int| 0 <= i < kept.len() && kept[i] == n;
                    assert(first_occurrences(names)[i] == n);
                }
                assert(first_occurrences(names)[kept.len() as int] == names.last());
            }
        };
    }
}

} // verus!

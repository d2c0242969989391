//! The environment a compositor configuration is read in.
use vstd::prelude::*;

verus! {

/// Whether the compositor runs nested inside another display server.
#[derive(Clone, Copy, Debug, PartialEq, Eq, Structural)]
pub enum Session {
    Unknown,
    Nested,
    Desktop,
}

/// A variable table in insertion order; a later entry for a key hides earlier ones.
pub type Environment = Vec<(String, String)>;

/// The variables that an environment table defines.
pub open spec fn env_map(entries: Seq<(String, String)>) -> Map<Seq<char>, Seq<char>>
    decreases entries.len(),
{
    if entries.len() == 0 {
        Map::empty()
    } else {
        env_map(entries.drop_last()).insert(entries.last().0@, entries.last().1@)
    }
}

/// Home directory, variables and session kind used to resolve configuration paths.
#[derive(Clone, Debug)]
pub struct Context {
    pub home: Option<String>,
    pub environment: Environment,
    pub session: Session,
}

/// The meaning of a [`Context`].
pub struct ContextView {
    pub home: Option<Seq<char>>,
    pub environment: Map<Seq<char>, Seq<char>>,
    pub session: Session,
}

pub open spec fn opt_view(o: Option<String>) -> Option<Seq<char>> {
    match o {
        Some(s) => Some(s@),
        None => None,
    }
}

impl View for Context {
    type V = ContextView;

    open spec fn view(&self) -> ContextView {
        ContextView {
            home: opt_view(self.home),
            environment: env_map(self.environment@),
            session: self.session,
        }
    }
}

impl Context {
    /// A context with no home directory, no variables and an unknown session.
    pub fn new() -> (c: Self)
        ensures
            c@.home is None,
            c@.environment == Map::<Seq<char>, Seq<char>>::empty(),
            c@.session == Session::Unknown,
    {
        Context { home: None, environment: Vec::new(), session: Session::Unknown }
    }
}

/// The value of `key`, if the table defines it.
pub fn env_get<'a>(entries: &'a Environment, key: &str) -> (r: Option<&'a String>)
    ensures
        r is Some <==> env_map(entries@).contains_key(key@),
        r matches Some(v) ==> v@ == env_map(entries@)[key@],
{
    let mut i = entries.len();
    while i > 0
        invariant
            i <= entries.len(),
            forall|j: int| i <= j < entries.len() ==> entries@[j].0@ != key@,
        decreases i,
    {
        if crate::text::str_eq(entries[i - 1].0.as_str(), key) {
            proof {
                lemma_env_lookup_suffix(entries@, i as int, key@);
                assert(entries@.take(i as int).drop_last() =~= entries@.take(i - 1));
            }
            return Some(&entries[i - 1].1);
        }
        i -= 1;
    }
    proof {
        lemma_env_lookup_suffix(entries@, 0, key@);
        assert(entries@.take(0) =~= Seq::<(String, String)>::empty());
    }
    None
}

/// Entries after position `i` that never name `k` leave its lookup to the entries before.
pub proof fn lemma_env_lookup_suffix(s: Seq<(String, String)>, i: int, k: Seq<char>)
    requires
        0 <= i <= s.len(),
        forall|j: int| i <= j < s.len() ==> s[j].0@ != k,
    ensures
        env_map(s).contains_key(k) == env_map(s.take(i)).contains_key(k),
        env_map(s).contains_key(k) ==> env_map(s)[k] == env_map(s.take(i))[k],
    decreases s.len(),
{
    if s.len() == i {
        assert(s.take(i) =~= s);
    } else {
        lemma_env_lookup_suffix(s.drop_last(), i, k);
        assert(s.drop_last().take(i) =~= s.take(i));
    }
}

/// A table with the same variables except `key`.
pub fn env_remove(entries: &Environment, key: &str) -> (r: Environment)
    ensures
        env_map(r@) == env_map(entries@).remove(key@),
{
    let mut r: Environment = Vec::new();
    let mut i: usize = 0;
    while i < entries.len()
        invariant
            i <= entries.len(),
            env_map(r@) == env_map(entries@.take(i as int)).remove(key@),
        decreases entries.len() - i,
    {
        assert(entries@.take(i + 1).drop_last() =~= entries@.take(i as int));
        if !crate::text::str_eq(entries[i].0.as_str(), key) {
            let e = (entries[i].0.clone(), entries[i].1.clone());
            let ghost before = r@;
            r.push(e);
            assert(r@.drop_last() =~= before);
            assert(env_map(r@) =~= env_map(entries@.take(i + 1)).remove(key@));
        } else {
            assert(env_map(r@) =~= env_map(entries@.take(i + 1)).remove(key@));
        }
        i += 1;
    }
    assert(entries@.take(entries.len() as int) =~= entries@);
    r
}

/// A copy of a table.
pub fn env_clone(entries: &Environment) -> (r: Environment)
    ensures
        r@ == entries@,
{
    let mut r: Environment = Vec::new();
    let mut i: usize = 0;
    while i < entries.len()
        invariant
            i <= entries.len(),
            r@ == entries@.take(i as int),
        decreases entries.len() - i,
    {
        r.push((entries[i].0.clone(), entries[i].1.clone()));
        assert(r@ =~= entries@.take(i + 1));
        i += 1;
    }
    assert(entries@.take(entries.len() as int) =~= entries@);
    r
}

/// The table with `key` set to `value`.
pub fn env_insert(entries: &Environment, key: String, value: String) -> (r: Environment)
    ensures
        env_map(r@) == env_map(entries@).insert(key@, value@),
{
    let mut r = env_remove(entries, key.as_str());
    let ghost before = r@;
    let ghost k = key@;
    let ghost v = value@;
    r.push((key, value));
    assert(r@.drop_last() =~= before);
    assert(env_map(r@) =~= env_map(entries@).insert(k, v));
    r
}

/// `base` with every variable of `other` set, as `extend` on a map does.
pub fn env_extend(base: &Environment, other: &Environment) -> (r: Environment)
    ensures
        env_map(r@) == env_map(base@).union_prefer_right(env_map(other@)),
{
    let mut r = env_clone(base);
    assert(base@.take(0) =~= Seq::<(String, String)>::empty());
    let mut i: usize = 0;
    while i < other.len()
        invariant
            i <= other.len(),
            env_map(r@) == env_map(base@).union_prefer_right(env_map(other@.take(i as int))),
        decreases other.len() - i,
    {
        assert(other@.take(i + 1).drop_last() =~= other@.take(i as int));
        r = env_insert(&r, other[i].0.clone(), other[i].1.clone());
        assert(env_map(r@) =~= env_map(base@).union_prefer_right(env_map(other@.take(i + 1))));
        i += 1;
    }
    assert(other@.take(other.len() as int) =~= other@);
    r
}

} // verus!

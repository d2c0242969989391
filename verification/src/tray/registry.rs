//! The watcher's registrations: the well-known aliases items register under, the
//! owners they resolve to, and the items that follow from them.
//!
//! An item is its resolved owner and object path. An alias stays private to the
//! watcher, so when its owner changes, items of the old owner leave the inventory and
//! actions cannot reach another process through an old item.
use crate::text::{copy_string, str_eq};
use crate::tray::item::ItemKey;
use crate::tray::watcher::{bus_name_valid, is_bus_name};
use vstd::prelude::*;

verus! {

/// The name an item registered under and its object path.
#[derive(Clone, Debug, PartialEq, Eq)]
pub struct Alias {
    pub name: String,
    pub path: String,
}

/// A registration as the watcher keeps it: alias name and path, the resolved owner
/// (none while resolving) and the serial of the last change.
pub type RegView = (Seq<char>, Seq<char>, Option<Seq<char>>, u64);

/// An item as its owner and path.
pub type KeyView = (Seq<char>, Seq<char>);

pub open spec fn opt_text(o: Option<String>) -> Option<Seq<char>> {
    match o {
        Some(s) => Some(s@),
        None => None,
    }
}

pub open spec fn reg_view(r: (Alias, Option<String>, u64)) -> RegView {
    (r.0.name@, r.0.path@, opt_text(r.1), r.2)
}

pub open spec fn key_view(k: ItemKey) -> KeyView {
    (k.owner@, k.path@)
}

/// The abstract state of a registry.
pub struct RegistryView {
    pub registrations: Seq<RegView>,
    pub entries: Seq<KeyView>,
    pub hosts: Seq<Seq<char>>,
    pub serial: u64,
}

/// The registrations, items and hosts the watcher knows.
pub struct Registry {
    registrations: Vec<(Alias, Option<String>, u64)>,
    entries: Vec<ItemKey>,
    hosts: Vec<String>,
    serial: u64,
}

impl View for Registry {
    type V = RegistryView;

    closed spec fn view(&self) -> RegistryView {
        RegistryView {
            registrations: self.registrations@.map_values(|r: (Alias, Option<String>, u64)| reg_view(r)),
            entries: self.entries@.map_values(|k: ItemKey| key_view(k)),
            hosts: self.hosts@.map_values(|h: String| h@),
            serial: self.serial,
        }
    }
}

/// Whether registration `r` is the one of alias `name` at `path`.
pub open spec fn names(r: RegView, name: Seq<char>, path: Seq<char>) -> bool {
    r.0 == name && r.1 == path
}

/// The registration of an alias: the first one that names it.
pub open spec fn find_reg(regs: Seq<RegView>, name: Seq<char>, path: Seq<char>) -> Option<RegView>
    decreases regs.len(),
{
    if regs.len() == 0 {
        None
    } else if names(regs[0], name, path) {
        Some(regs[0])
    } else {
        find_reg(regs.drop_first(), name, path)
    }
}

/// Whether a registration is of another alias.
pub open spec fn other_than(name: Seq<char>, path: Seq<char>) -> spec_fn(RegView) -> bool {
    |r: RegView| !names(r, name, path)
}

/// The registrations of other aliases, in order.
pub open spec fn others(regs: Seq<RegView>, name: Seq<char>, path: Seq<char>) -> Seq<RegView> {
    regs.filter(other_than(name, path))
}

/// The items of a list of keys.
pub open spec fn keys_view(s: Seq<ItemKey>) -> Seq<KeyView> {
    s.map_values(|k: ItemKey| key_view(k))
}

/// Whether a bus name is a unique connection name.
pub open spec fn unique_name(n: Seq<char>) -> bool {
    is_bus_name(n) && n[0] == ':'
}

/// Whether a change of the owner of bus name `name` (to `owner`, empty when the name
/// was released) touches a registration: its alias is that name, or the name was
/// released and owned the registration.
pub open spec fn touched(name: Seq<char>, owner: Seq<char>) -> spec_fn(RegView) -> bool {
    |r: RegView| r.0 == name || (owner.len() == 0 && r.2 == Some(name))
}

/// The change an owner change makes to a touched registration: its alias, the new
/// owner (the new owner of its own name, else none) and whether to forget the alias
/// afterwards (a released unique name never comes back).
pub open spec fn change_of(name: Seq<char>, owner: Seq<char>) -> spec_fn(RegView) -> (KeyView, Option<Seq<char>>, bool) {
    |r: RegView| (
        (r.0, r.1),
        if r.0 == name && owner.len() > 0 { Some(owner) } else { None },
        owner.len() == 0 && unique_name(r.0),
    )
}

pub open spec fn change_view(c: (Alias, Option<String>, bool)) -> (KeyView, Option<Seq<char>>, bool) {
    ((c.0.name@, c.0.path@), opt_text(c.1), c.2)
}

/// Whether a host name is not `name`.
pub open spec fn host_other_than(name: Seq<char>) -> spec_fn(Seq<char>) -> bool {
    |h: Seq<char>| h != name
}

/// Whether an item is backed by a registration resolved to its owner at its path.
pub open spec fn live(regs: Seq<RegView>, e: KeyView) -> bool {
    exists|i: int| 0 <= i < regs.len() && #[trigger] regs[i].1 == e.1 && regs[i].2 == Some(e.0)
}

pub open spec fn live_in(regs: Seq<RegView>) -> spec_fn(KeyView) -> bool {
    |e: KeyView| live(regs, e)
}

pub open spec fn dead_in(regs: Seq<RegView>) -> spec_fn(KeyView) -> bool {
    |e: KeyView| !live(regs, e)
}

/// What the watcher keeps true: every item is backed by a registration, no item or
/// host is listed twice.
pub open spec fn registry_wf(v: RegistryView) -> bool {
    &&& v.entries.no_duplicates()
    &&& forall|i: int| 0 <= i < v.entries.len() ==> live(v.registrations, #[trigger] v.entries[i])
    &&& v.hosts.no_duplicates()
}

/// What the answer to an owner lookup did.
#[derive(Debug)]
pub enum Resolved {
    /// The alias was forgotten meanwhile: the request fails.
    Vanished,
    /// The alias changed meanwhile; the request succeeds when it is now resolved.
    Stale(bool),
    /// The lookup failed: the alias is forgotten (with any items it leaves unbacked).
    Failed(Vec<ItemKey>),
    /// The alias is resolved; these items lost their backing.
    Accepted(Vec<ItemKey>),
}

/// What a registration request needs.
#[derive(Clone, Copy, Debug, PartialEq, Eq, Structural)]
pub enum Begin {
    /// The alias is registered and resolved: the request succeeds at once.
    Owned,
    /// Resolve the alias's owner; the answer carries this serial.
    Resolve(u64),
}

/// Whether `name` is a unique connection name, as `gio::dbus_is_unique_name` tells.
pub fn is_unique_name(name: &str) -> (r: bool)
    ensures
        r == unique_name(name@),
{
    if !bus_name_valid(name) {
        return false;
    }
    let c = crate::text::chars_of(name);
    c[0] == ':'
}

fn copy_alias(a: &Alias) -> (r: Alias)
    ensures
        r.name@ == a.name@,
        r.path@ == a.path@,
{
    Alias { name: copy_string(&a.name), path: copy_string(&a.path) }
}

fn copy_key(k: &ItemKey) -> (r: ItemKey)
    ensures
        key_view(r) == key_view(*k),
{
    ItemKey { owner: copy_string(&k.owner), path: copy_string(&k.path) }
}

fn copy_owner(o: &Option<String>) -> (r: Option<String>)
    ensures
        opt_text(r) == opt_text(*o),
{
    match o {
        Some(s) => Some(copy_string(s)),
        None => None,
    }
}

proof fn lemma_find_step(regs: Seq<RegView>, name: Seq<char>, path: Seq<char>, i: int)
    requires
        0 <= i < regs.len(),
    ensures
        find_reg(regs.skip(i), name, path) == if names(regs[i], name, path) {
            Some(regs[i])
        } else {
            find_reg(regs.skip(i + 1), name, path)
        },
{
    assert(regs.skip(i).drop_first() =~= regs.skip(i + 1));
}

impl Registry {
    /// Whether the registry keeps its invariant.
    pub open spec fn wf(&self) -> bool {
        registry_wf(self@)
    }

    /// An empty registry.
    pub fn new() -> (r: Registry)
        ensures
            r.wf(),
            r@.registrations.len() == 0 && r@.entries.len() == 0 && r@.hosts.len() == 0 && r@.serial == 0,
    {
        let r = Registry { registrations: Vec::new(), entries: Vec::new(), hosts: Vec::new(), serial: 0 };
        assert(r@.entries.len() == 0);
        r
    }

    fn find(&self, alias: &Alias) -> (r: Option<usize>)
        ensures
            match r {
                Some(i) => i < self@.registrations.len() && find_reg(self@.registrations, alias.name@, alias.path@)
                    == Some(self@.registrations[i as int]),
                None => find_reg(self@.registrations, alias.name@, alias.path@) is None,
            },
    {
        let ghost regs = self@.registrations;
        let mut i: usize = 0;
        assert(regs.skip(0) =~= regs);
        while i < self.registrations.len()
            invariant
                i <= self.registrations@.len(),
                regs == self@.registrations,
                regs.len() == self.registrations@.len(),
                find_reg(regs, alias.name@, alias.path@) == find_reg(regs.skip(i as int), alias.name@, alias.path@),
            decreases self.registrations@.len() - i,
        {
            proof {
                lemma_find_step(regs, alias.name@, alias.path@, i as int);
            }
            assert(regs[i as int] == reg_view(self.registrations@[i as int]));
            if str_eq(self.registrations[i].0.name.as_str(), alias.name.as_str()) && str_eq(
                self.registrations[i].0.path.as_str(),
                alias.path.as_str(),
            ) {
                return Some(i);
            }
            i += 1;
        }
        assert(regs.skip(i as int).len() == 0);
        None
    }

    /// Starts a registration of `alias`: a resolved alias needs nothing more; an alias
    /// being resolved shares its pending serial; a new alias is recorded as resolving
    /// under a fresh serial.
    pub fn begin(&mut self, alias: &Alias) -> (r: Begin)
        requires
            old(self).wf(),
        ensures
            final(self).wf(),
            match find_reg(old(self)@.registrations, alias.name@, alias.path@) {
                Some(reg) => final(self)@ == old(self)@ && r == (if reg.2 is Some {
                    Begin::Owned
                } else {
                    Begin::Resolve(reg.3)
                }),
                None => {
                    let s = old(self)@.serial.wrapping_add(1);
                    &&& r == Begin::Resolve(s)
                    &&& final(self)@ == RegistryView {
                        registrations: old(self)@.registrations.push((alias.name@, alias.path@, None, s)),
                        serial: s,
                        ..old(self)@
                    }
                },
            },
    {
        match self.find(alias) {
            Some(i) => {
                if self.registrations[i].1.is_some() {
                    Begin::Owned
                } else {
                    Begin::Resolve(self.registrations[i].2)
                }
            },
            None => {
                let ghost before = self@;
                self.serial = self.serial.wrapping_add(1);
                let reg = (copy_alias(alias), None, self.serial);
                let ghost rv = reg_view(reg);
                self.registrations.push(reg);
                assert(self@.registrations =~= before.registrations.push(rv));
                assert(self@.entries == before.entries);
                assert forall|i: int| 0 <= i < self@.entries.len() implies live(
                    self@.registrations,
                    #[trigger] self@.entries[i],
                ) by {
                    let e = before.entries[i];
                    assert(live(before.registrations, e));
                    let j = choose|j: int| 0 <= j < before.registrations.len() && #[trigger] before.registrations[j].1 == e.1
                        && before.registrations[j].2 == Some(e.0);
                    assert(self@.registrations[j] == before.registrations[j]);
                };
                Begin::Resolve(self.serial)
            },
        }
    }

    fn is_live(&self, k: &ItemKey) -> (r: bool)
        ensures
            r == live(self@.registrations, key_view(*k)),
    {
        let ghost regs = self@.registrations;
        let mut i: usize = 0;
        while i < self.registrations.len()
            invariant
                i <= self.registrations@.len(),
                regs == self@.registrations,
                regs.len() == self.registrations@.len(),
                forall|j: int| 0 <= j < i ==> !(#[trigger] regs[j].1 == k.path@ && regs[j].2 == Some(k.owner@)),
            decreases self.registrations@.len() - i,
        {
            assert(regs[i as int] == reg_view(self.registrations@[i as int]));
            let r = &self.registrations[i];
            if str_eq(r.0.path.as_str(), k.path.as_str()) {
                match &r.1 {
                    Some(o) => {
                        if str_eq(o.as_str(), k.owner.as_str()) {
                            assert(regs[i as int].1 == k.path@ && regs[i as int].2 == Some(k.owner@));
                            return true;
                        }
                    },
                    None => {},
                }
            }
            i += 1;
        }
        false
    }

    /// Drops the items that no registration backs, handing them back in order.
    fn prune(&mut self) -> (removed: Vec<ItemKey>)
        requires
            old(self)@.entries.no_duplicates(),
            old(self)@.hosts.no_duplicates(),
        ensures
            final(self).wf(),
            final(self)@ == (RegistryView {
                entries: old(self)@.entries.filter(live_in(old(self)@.registrations)),
                ..old(self)@
            }),
            keys_view(removed@) == old(self)@.entries.filter(dead_in(old(self)@.registrations)),
    {
        let ghost regs = self@.registrations;
        let ghost es = self@.entries;
        let mut kept: Vec<ItemKey> = Vec::new();
        let mut removed: Vec<ItemKey> = Vec::new();
        let mut i: usize = 0;
        proof {
            crate::stable::lemma_filter_empty(live_in(regs));
            crate::stable::lemma_filter_empty(dead_in(regs));
            assert(es.take(0) =~= Seq::<KeyView>::empty());
            assert(keys_view(kept@) =~= Seq::<KeyView>::empty());
            assert(keys_view(removed@) =~= Seq::<KeyView>::empty());
        }
        while i < self.entries.len()
            invariant
                i <= self.entries@.len(),
                regs == self@.registrations,
                es == self@.entries,
                es.len() == self.entries@.len(),
                keys_view(kept@) == es.take(i as int).filter(live_in(regs)),
                keys_view(removed@) == es.take(i as int).filter(dead_in(regs)),
            decreases self.entries@.len() - i,
        {
            proof {
                es.take(i as int).lemma_filter_push(es[i as int], live_in(regs));
                es.take(i as int).lemma_filter_push(es[i as int], dead_in(regs));
                assert(es.take(i + 1) =~= es.take(i as int).push(es[i as int]));
            }
            let k = copy_key(&self.entries[i]);
            assert(key_view(k) == es[i as int]);
            if self.is_live(&k) {
                let ghost before = kept@;
                kept.push(k);
                assert(keys_view(kept@) =~= keys_view(before).push(key_view(k)));
            } else {
                let ghost before = removed@;
                removed.push(k);
                assert(keys_view(removed@) =~= keys_view(before).push(key_view(k)));
            }
            i += 1;
        }
        assert(es.take(i as int) =~= es);
        self.entries = kept;
        proof {
            crate::stable::lemma_filter_distinct(es, live_in(regs));
            assert forall|j: int| 0 <= j < self@.entries.len() implies live(self@.registrations, #[trigger] self@.entries[j]) by {
                es.lemma_filter_pred(live_in(regs), j);
            };
        }
        removed
    }

    fn without_alias(&mut self, alias: &Alias)
        ensures
            final(self)@ == (RegistryView {
                registrations: others(old(self)@.registrations, alias.name@, alias.path@),
                ..old(self)@
            }),
    {
        let ghost regs = self@.registrations;
        let ghost pred = other_than(alias.name@, alias.path@);
        let mut kept: Vec<(Alias, Option<String>, u64)> = Vec::new();
        let mut i: usize = 0;
        proof {
            crate::stable::lemma_filter_empty(pred);
            assert(regs.take(0) =~= Seq::<RegView>::empty());
            assert(kept@.map_values(|r: (Alias, Option<String>, u64)| reg_view(r)) =~= Seq::<RegView>::empty());
        }
        while i < self.registrations.len()
            invariant
                i <= self.registrations@.len(),
                regs == self@.registrations,
                regs.len() == self.registrations@.len(),
                pred == other_than(alias.name@, alias.path@),
                kept@.map_values(|r: (Alias, Option<String>, u64)| reg_view(r)) == regs.take(i as int).filter(pred),
            decreases self.registrations@.len() - i,
        {
            proof {
                regs.take(i as int).lemma_filter_push(regs[i as int], pred);
                assert(regs.take(i + 1) =~= regs.take(i as int).push(regs[i as int]));
            }
            assert(regs[i as int] == reg_view(self.registrations@[i as int]));
            let r = &self.registrations[i];
            if !(str_eq(r.0.name.as_str(), alias.name.as_str()) && str_eq(r.0.path.as_str(), alias.path.as_str())) {
                let c = (copy_alias(&r.0), copy_owner(&r.1), r.2);
                let ghost before = kept@;
                kept.push(c);
                assert(kept@.map_values(|r: (Alias, Option<String>, u64)| reg_view(r)) =~= before.map_values(
                    |r: (Alias, Option<String>, u64)| reg_view(r),
                ).push(reg_view(c)));
            }
            i += 1;
        }
        assert(regs.take(i as int) =~= regs);
        self.registrations = kept;
    }

    /// Records `owner` (none: unresolved) as the owner of `alias` under a fresh serial,
    /// and drops the items no registration backs any more, handing them back.
    pub fn assign(&mut self, alias: &Alias, owner: Option<String>) -> (removed: Vec<ItemKey>)
        requires
            old(self).wf(),
        ensures
            final(self).wf(),
            final(self)@.serial == old(self)@.serial.wrapping_add(1),
            final(self)@.registrations == others(old(self)@.registrations, alias.name@, alias.path@).push(
                (alias.name@, alias.path@, opt_text(owner), final(self)@.serial),
            ),
            final(self)@.entries == old(self)@.entries.filter(live_in(final(self)@.registrations)),
            final(self)@.hosts == old(self)@.hosts,
            keys_view(removed@) == old(self)@.entries.filter(dead_in(final(self)@.registrations)),
    {
        self.without_alias(alias);
        self.serial = self.serial.wrapping_add(1);
        let ghost before = self@.registrations;
        let reg = (copy_alias(alias), owner, self.serial);
        let ghost rv = reg_view(reg);
        self.registrations.push(reg);
        assert(self@.registrations =~= before.push(rv));
        self.prune()
    }

    /// Adds the item `key` when a registration backs it and it is not listed yet;
    /// returns whether it was added.
    pub fn add_entry(&mut self, key: ItemKey) -> (r: bool)
        requires
            old(self).wf(),
        ensures
            final(self).wf(),
            r == (live(old(self)@.registrations, key_view(key)) && !old(self)@.entries.contains(key_view(key))),
            final(self)@ == (RegistryView {
                entries: if r { old(self)@.entries.push(key_view(key)) } else { old(self)@.entries },
                ..old(self)@
            }),
    {
        if !self.is_live(&key) {
            return false;
        }
        let ghost es = self@.entries;
        let mut i: usize = 0;
        while i < self.entries.len()
            invariant
                i <= self.entries@.len(),
                es == self@.entries,
                es.len() == self.entries@.len(),
                self.wf(),
                forall|j: int| 0 <= j < i ==> #[trigger] es[j] != key_view(key),
            decreases self.entries@.len() - i,
        {
            assert(es[i as int] == key_view(self.entries@[i as int]));
            if str_eq(self.entries[i].owner.as_str(), key.owner.as_str()) && str_eq(
                self.entries[i].path.as_str(),
                key.path.as_str(),
            ) {
                assert(es[i as int] == key_view(key));
                return false;
            }
            i += 1;
        }
        let ghost kv = key_view(key);
        self.entries.push(key);
        assert(self@.entries =~= es.push(kv));
        proof {
            assert forall|a: int, b: int| 0 <= a < self@.entries.len() && 0 <= b < self@.entries.len() && a != b
                implies self@.entries[a] != self@.entries[b] by {
                if a < es.len() && b < es.len() {
                } else if a == es.len() {
                    assert(es[b] != kv);
                } else {
                    assert(es[a] != kv);
                }
            };
        }
        true
    }

    /// Forgets `alias`, dropping the items no registration backs any more.
    pub fn forget(&mut self, alias: &Alias) -> (removed: Vec<ItemKey>)
        requires
            old(self).wf(),
        ensures
            final(self).wf(),
            final(self)@.registrations == others(old(self)@.registrations, alias.name@, alias.path@),
            final(self)@.entries == old(self)@.entries.filter(live_in(final(self)@.registrations)),
            final(self)@.hosts == old(self)@.hosts,
            final(self)@.serial == old(self)@.serial,
            keys_view(removed@) == old(self)@.entries.filter(dead_in(final(self)@.registrations)),
    {
        self.without_alias(alias);
        self.prune()
    }

    /// Takes the answer to the owner lookup started with `serial` for `alias`; `owner`
    /// is the resolved unique name, or none when the lookup failed.
    pub fn resolved(&mut self, alias: &Alias, serial: u64, owner: Option<String>) -> (r: Resolved)
        requires
            old(self).wf(),
        ensures
            final(self).wf(),
            match find_reg(old(self)@.registrations, alias.name@, alias.path@) {
                None => r is Vanished && final(self)@ == old(self)@,
                Some(reg) => if reg.3 != serial {
                    r == Resolved::Stale(reg.2 is Some) && final(self)@ == old(self)@
                } else {
                    match owner {
                        None => r matches Resolved::Failed(removed) && {
                            &&& final(self)@.registrations == others(old(self)@.registrations, alias.name@, alias.path@)
                            &&& final(self)@.entries == old(self)@.entries.filter(live_in(final(self)@.registrations))
                            &&& final(self)@.hosts == old(self)@.hosts
                            &&& final(self)@.serial == old(self)@.serial
                            &&& keys_view(removed@) == old(self)@.entries.filter(dead_in(final(self)@.registrations))
                        },
                        Some(o) => r matches Resolved::Accepted(removed) && {
                            &&& final(self)@.serial == old(self)@.serial.wrapping_add(1)
                            &&& final(self)@.registrations == others(old(self)@.registrations, alias.name@, alias.path@).push(
                                (alias.name@, alias.path@, Some(o@), final(self)@.serial),
                            )
                            &&& final(self)@.entries == old(self)@.entries.filter(live_in(final(self)@.registrations))
                            &&& final(self)@.hosts == old(self)@.hosts
                            &&& keys_view(removed@) == old(self)@.entries.filter(dead_in(final(self)@.registrations))
                        },
                    }
                },
            },
    {
        let i = match self.find(alias) {
            None => return Resolved::Vanished,
            Some(i) => i,
        };
        if self.registrations[i].2 != serial {
            return Resolved::Stale(self.registrations[i].1.is_some());
        }
        match owner {
            None => Resolved::Failed(self.forget(alias)),
            Some(o) => Resolved::Accepted(self.assign(alias, Some(o))),
        }
    }

    /// The registrations an owner change of bus name `name` touches, with the change for
    /// each: `owner` is the new owner, empty when the name was released.
    pub fn affected(&self, name: &str, owner: &str) -> (r: Vec<(Alias, Option<String>, bool)>)
        ensures
            r@.map_values(|c: (Alias, Option<String>, bool)| change_view(c)) == self@.registrations.filter(
                touched(name@, owner@),
            ).map_values(change_of(name@, owner@)),
    {
        let ghost regs = self@.registrations;
        let ghost pred = touched(name@, owner@);
        let ghost f = change_of(name@, owner@);
        let released = owner.is_empty();
        let mut out: Vec<(Alias, Option<String>, bool)> = Vec::new();
        let mut i: usize = 0;
        proof {
            crate::stable::lemma_filter_empty(pred);
            assert(regs.take(0) =~= Seq::<RegView>::empty());
            assert(out@.map_values(|c: (Alias, Option<String>, bool)| change_view(c)) =~= Seq::<(KeyView, Option<Seq<char>>, bool)>::empty());
        }
        while i < self.registrations.len()
            invariant
                i <= self.registrations@.len(),
                regs == self@.registrations,
                regs.len() == self.registrations@.len(),
                pred == touched(name@, owner@),
                f == change_of(name@, owner@),
                released == (owner@.len() == 0),
                out@.map_values(|c: (Alias, Option<String>, bool)| change_view(c)) == regs.take(i as int).filter(pred).map_values(f),
            decreases self.registrations@.len() - i,
        {
            proof {
                regs.take(i as int).lemma_filter_push(regs[i as int], pred);
                assert(regs.take(i + 1) =~= regs.take(i as int).push(regs[i as int]));
            }
            assert(regs[i as int] == reg_view(self.registrations@[i as int]));
            let r = &self.registrations[i];
            let own_name = str_eq(r.0.name.as_str(), name);
            let owned_by = match &r.1 {
                Some(o) => released && str_eq(o.as_str(), name),
                None => false,
            };
            if own_name || owned_by {
                let next = if own_name && !released { Some(owner.to_owned()) } else { None };
                let forget = released && is_unique_name(r.0.name.as_str());
                let c = (copy_alias(&r.0), next, forget);
                let ghost before = out@;
                let ghost t = regs.take(i as int).filter(pred);
                out.push(c);
                assert(out@.map_values(|c: (Alias, Option<String>, bool)| change_view(c)) =~= before.map_values(
                    |c: (Alias, Option<String>, bool)| change_view(c),
                ).push(change_view(c)));
                assert(t.push(regs[i as int]).map_values(f) =~= t.map_values(f).push(f(regs[i as int])));
            }
            i += 1;
        }
        assert(regs.take(i as int) =~= regs);
        out
    }

    /// Records a host; returns whether it is new.
    pub fn add_host(&mut self, owner: String) -> (r: bool)
        requires
            old(self).wf(),
        ensures
            final(self).wf(),
            r == !old(self)@.hosts.contains(owner@),
            final(self)@ == (RegistryView {
                hosts: if r { old(self)@.hosts.push(owner@) } else { old(self)@.hosts },
                ..old(self)@
            }),
    {
        let ghost hs = self@.hosts;
        let mut i: usize = 0;
        while i < self.hosts.len()
            invariant
                i <= self.hosts@.len(),
                hs == self@.hosts,
                hs.len() == self.hosts@.len(),
                self.wf(),
                forall|j: int| 0 <= j < i ==> #[trigger] hs[j] != owner@,
            decreases self.hosts@.len() - i,
        {
            assert(hs[i as int] == self.hosts@[i as int]@);
            if str_eq(self.hosts[i].as_str(), owner.as_str()) {
                return false;
            }
            i += 1;
        }
        let ghost ov = owner@;
        self.hosts.push(owner);
        assert(self@.hosts =~= hs.push(ov));
        assert(self@.entries == old(self)@.entries);
        proof {
            assert forall|a: int, b: int| 0 <= a < self@.hosts.len() && 0 <= b < self@.hosts.len() && a != b
                implies self@.hosts[a] != self@.hosts[b] by {
                if a < hs.len() && b < hs.len() {
                } else if a == hs.len() {
                    assert(hs[b] != ov);
                } else {
                    assert(hs[a] != ov);
                }
            };
        }
        true
    }

    /// Forgets the host `name`.
    pub fn remove_host(&mut self, name: &str)
        requires
            old(self).wf(),
        ensures
            final(self).wf(),
            final(self)@ == (RegistryView { hosts: old(self)@.hosts.filter(host_other_than(name@)), ..old(self)@ }),
    {
        let ghost hs = self@.hosts;
        let ghost pred = host_other_than(name@);
        let mut kept: Vec<String> = Vec::new();
        let mut i: usize = 0;
        proof {
            crate::stable::lemma_filter_empty(pred);
            assert(hs.take(0) =~= Seq::<Seq<char>>::empty());
            assert(kept@.map_values(|h: String| h@) =~= Seq::<Seq<char>>::empty());
        }
        while i < self.hosts.len()
            invariant
                i <= self.hosts@.len(),
                hs == self@.hosts,
                hs.len() == self.hosts@.len(),
                pred == host_other_than(name@),
                kept@.map_values(|h: String| h@) == hs.take(i as int).filter(pred),
            decreases self.hosts@.len() - i,
        {
            proof {
                hs.take(i as int).lemma_filter_push(hs[i as int], pred);
                assert(hs.take(i + 1) =~= hs.take(i as int).push(hs[i as int]));
            }
            assert(hs[i as int] == self.hosts@[i as int]@);
            if !str_eq(self.hosts[i].as_str(), name) {
                let h = copy_string(&self.hosts[i]);
                let ghost before = kept@;
                kept.push(h);
                assert(kept@.map_values(|h: String| h@) =~= before.map_values(|h: String| h@).push(h@));
            }
            i += 1;
        }
        assert(hs.take(i as int) =~= hs);
        self.hosts = kept;
        proof {
            crate::stable::lemma_filter_distinct(hs, pred);
        }
    }

    /// The registrations of the listed items: owner followed by path.
    pub fn registered(&self) -> (r: Vec<String>)
        ensures
            r@.map_values(|s: String| s@) == self@.entries.map_values(|e: KeyView| e.0 + e.1),
    {
        let ghost es = self@.entries;
        let mut out: Vec<String> = Vec::new();
        let mut i: usize = 0;
        while i < self.entries.len()
            invariant
                i <= self.entries@.len(),
                es == self@.entries,
                es.len() == self.entries@.len(),
                out@.map_values(|s: String| s@) == es.take(i as int).map_values(|e: KeyView| e.0 + e.1),
            decreases self.entries@.len() - i,
        {
            let s = self.entries[i].registration();
            let ghost before = out@;
            let ghost sv = s@;
            out.push(s);
            assert(es[i as int] == key_view(self.entries@[i as int]));
            assert(es.take(i + 1) =~= es.take(i as int).push(es[i as int]));
            assert(es.take(i + 1).map_values(|e: KeyView| e.0 + e.1) =~= es.take(i as int).map_values(|e: KeyView| e.0 + e.1).push(
                es[i as int].0 + es[i as int].1,
            ));
            assert(out@.map_values(|s: String| s@) =~= before.map_values(|s: String| s@).push(sv));
            assert(out@.map_values(|s: String| s@) =~= es.take(i + 1).map_values(|e: KeyView| e.0 + e.1));
            i += 1;
        }
        assert(es.take(i as int) =~= es);
        out
    }

    /// Forgets every registration, item and host, handing back the items.
    pub fn clear(&mut self) -> (removed: Vec<ItemKey>)
        ensures
            final(self).wf(),
            final(self)@ == (RegistryView {
                registrations: Seq::empty(),
                entries: Seq::empty(),
                hosts: Seq::empty(),
                serial: old(self)@.serial,
            }),
            keys_view(removed@) == old(self)@.entries,
    {
        let mut removed: Vec<ItemKey> = Vec::new();
        std::mem::swap(&mut removed, &mut self.entries);
        self.registrations = Vec::new();
        self.hosts = Vec::new();
        assert(self@.registrations =~= Seq::<RegView>::empty());
        assert(self@.entries =~= Seq::<KeyView>::empty());
        assert(self@.hosts =~= Seq::<Seq<char>>::empty());
        removed
    }
}

proof fn lemma_find_push(regs: Seq<RegView>, name: Seq<char>, path: Seq<char>, r: RegView)
    requires
        find_reg(regs, name, path) is None,
    ensures
        find_reg(regs.push(r), name, path) == if names(r, name, path) { Some(r) } else { None },
    decreases regs.len(),
{
    if regs.len() > 0 {
        assert(!names(regs[0], name, path));
        assert(regs.push(r)[0] == regs[0]);
        assert(regs.push(r).drop_first() =~= regs.drop_first().push(r));
        lemma_find_push(regs.drop_first(), name, path, r);
    } else {
        assert(regs.push(r)[0] == r);
        assert(regs.push(r).drop_first() =~= Seq::<RegView>::empty());
        assert(find_reg(Seq::<RegView>::empty(), name, path) is None);
        assert(find_reg(regs.push(r).drop_first(), name, path) is None);
    }
}

/// Requests for an alias that is still being resolved share its serial: after a first
/// request records the alias, a second one is told to wait for the same answer.
pub proof fn lemma_pending_serial_shared(regs: Seq<RegView>, name: Seq<char>, path: Seq<char>, serial: u64)
    requires
        find_reg(regs, name, path) is None,
    ensures
        find_reg(regs.push((name, path, None, serial)), name, path) == Some((name, path, None::<Seq<char>>, serial)),
{
    lemma_find_push(regs, name, path, (name, path, None, serial));
}

/// When an alias is given another owner, an item of its old owner at its path leaves
/// the inventory unless another registration still backs it: actions cannot reach a new
/// owner through an old item.
pub proof fn lemma_reassigned_owner_drops_items(
    regs: Seq<RegView>,
    entries: Seq<KeyView>,
    name: Seq<char>,
    path: Seq<char>,
    old_owner: Seq<char>,
    owner: Option<Seq<char>>,
    serial: u64,
)
    requires
        owner != Some(old_owner),
        forall|i: int| 0 <= i < regs.len() && !names(#[trigger] regs[i], name, path) ==> !(regs[i].1 == path
            && regs[i].2 == Some(old_owner)),
    ensures
        !entries.filter(live_in(others(regs, name, path).push((name, path, owner, serial)))).contains(
            (old_owner, path),
        ),
{
    let after = others(regs, name, path).push((name, path, owner, serial));
    let kept = entries.filter(live_in(after));
    if kept.contains((old_owner, path)) {
        let k = choose|k: int| 0 <= k < kept.len() && kept[k] == (old_owner, path);
        entries.lemma_filter_pred(live_in(after), k);
        assert(live(after, (old_owner, path)));
        let i = choose|i: int| 0 <= i < after.len() && #[trigger] after[i].1 == path && after[i].2 == Some(old_owner);
        let o = others(regs, name, path);
        if i < o.len() {
            assert(after[i] == o[i]);
            regs.lemma_filter_pred(other_than(name, path), i);
            assert(o.contains(after[i]));
            regs.lemma_filter_contains_rev(other_than(name, path), after[i]);
            let j = choose|j: int| 0 <= j < regs.len() && regs[j] == after[i];
            assert(!names(regs[j], name, path));
        }
    }
}

} // verus!

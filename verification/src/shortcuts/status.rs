//! How fresh the shown shortcuts are, and when the saved configuration is read again.
use crate::text::str_eq;
use vstd::prelude::*;

verus! {

/// How the shown shortcuts relate to the saved configuration.
#[derive(Clone, Copy, Debug, PartialEq, Eq, Structural)]
pub enum Status {
    Loading,
    Current,
    Incomplete,
    Stale,
    Unavailable,
}

/// What happens to the remembered last complete configuration.
#[derive(Clone, Copy, Debug, PartialEq, Eq, Structural)]
pub enum CacheAction {
    /// Remember the configuration just read as the last complete one.
    Store,
    /// Forget the remembered configuration: it came from another file.
    Clear,
    /// Leave the remembered configuration as it is.
    Keep,
}

/// The outcome of reading the configuration again.
#[derive(Clone, Copy, Debug, PartialEq, Eq, Structural)]
pub struct Reconciled {
    pub status: Status,
    pub cache: CacheAction,
    /// Show the bindings of the remembered configuration instead of the ones just read.
    pub show_previous: bool,
}

/// The outcome of a read of `path` whose root file was `root_readable` and which was
/// `complete`, given the source of the remembered complete configuration. A partial
/// read of the remembered file shows the remembered bindings as stale.
pub open spec fn reconciled(path: Option<Seq<char>>, root_readable: bool, complete: bool, cached: Option<Seq<char>>) -> Reconciled {
    let other = cached is Some && cached != path;
    let kept = if other { None } else { cached };
    let read = if !root_readable {
        Status::Unavailable
    } else if complete {
        Status::Current
    } else {
        Status::Incomplete
    };
    if read == Status::Current {
        Reconciled {
            status: Status::Current,
            cache: if path is Some { CacheAction::Store } else if other { CacheAction::Clear } else { CacheAction::Keep },
            show_previous: false,
        }
    } else if kept is Some {
        Reconciled { status: Status::Stale, cache: CacheAction::Keep, show_previous: true }
    } else {
        Reconciled { status: read, cache: if other { CacheAction::Clear } else { CacheAction::Keep }, show_previous: false }
    }
}

fn same_source(cached: Option<&str>, path: Option<&str>) -> (r: bool)
    ensures
        r == (match (cached, path) {
            (Some(a), Some(b)) => a@ == b@,
            (None, None) => true,
            _ => false,
        }),
{
    match (cached, path) {
        (Some(a), Some(b)) => str_eq(a, b),
        (None, None) => true,
        _ => false,
    }
}

/// Decides how a fresh read of the configuration is shown.
pub fn reconcile(path: Option<&str>, root_readable: bool, complete: bool, cached: Option<&str>) -> (r: Reconciled)
    ensures
        r == reconciled(
            match path { Some(p) => Some(p@), None => None },
            root_readable,
            complete,
            match cached { Some(c) => Some(c@), None => None },
        ),
{
    let other = cached.is_some() && !same_source(cached, path);
    let kept = cached.is_some() && !other;
    let read = if !root_readable {
        Status::Unavailable
    } else if complete {
        Status::Current
    } else {
        Status::Incomplete
    };
    if read == Status::Current {
        let cache = if path.is_some() {
            CacheAction::Store
        } else if other {
            CacheAction::Clear
        } else {
            CacheAction::Keep
        };
        Reconciled { status: Status::Current, cache, show_previous: false }
    } else if kept {
        Reconciled { status: Status::Stale, cache: CacheAction::Keep, show_previous: true }
    } else {
        Reconciled {
            status: read,
            cache: if other { CacheAction::Clear } else { CacheAction::Keep },
            show_previous: false,
        }
    }
}

/// When the shortcut inventory reads the configuration: only while shown, one read at
/// a time, again whenever the configuration changed meanwhile.
#[derive(Clone, Copy, Debug, PartialEq, Eq, Structural)]
pub struct Refresher {
    pub generation: u64,
    pub dirty: bool,
    pub busy: bool,
    pub visible: bool,
    pub stopped: bool,
    pub debouncing: bool,
}

/// What a change of the configuration asks for.
#[derive(Clone, Copy, Debug, PartialEq, Eq, Structural)]
pub enum Invalidation {
    /// Nothing to start now.
    Wait,
    /// Start a short timer; when it fires, call `timer_fired`.
    Debounce,
    /// Start reading; tag the result with this generation.
    Read(u64),
}

impl Refresher {
    /// A hidden inventory that has never read.
    pub fn new() -> (r: Refresher)
        ensures
            r == (Refresher { generation: 0, dirty: true, busy: false, visible: false, stopped: false, debouncing: false }),
    {
        Refresher { generation: 0, dirty: true, busy: false, visible: false, stopped: false, debouncing: false }
    }

    /// Starts a read when shown, idle and not stopped; returns the read's generation.
    pub fn refresh(&mut self) -> (r: Option<u64>)
        ensures
            (old(self).stopped || old(self).busy || !old(self).visible) ==> r is None && *final(self) == *old(self),
            !(old(self).stopped || old(self).busy || !old(self).visible) ==> r == Some(old(self).generation)
                && *final(self) == (Refresher { busy: true, dirty: false, ..*old(self) }),
    {
        if self.stopped || self.busy || !self.visible {
            return None;
        }
        self.busy = true;
        self.dirty = false;
        Some(self.generation)
    }

    /// The inventory was shown or hidden; showing it with outdated contents reads again.
    pub fn set_visible(&mut self, visible: bool) -> (r: Option<u64>)
        ensures
            old(self).stopped ==> r is None && *final(self) == *old(self),
            !old(self).stopped && !(visible && old(self).dirty) ==> r is None
                && *final(self) == (Refresher { visible, ..*old(self) }),
            !old(self).stopped && visible && old(self).dirty && !old(self).busy ==> r == Some(old(self).generation)
                && *final(self) == (Refresher { visible, busy: true, dirty: false, ..*old(self) }),
            !old(self).stopped && visible && old(self).dirty && old(self).busy ==> r is None
                && *final(self) == (Refresher { visible, ..*old(self) }),
    {
        if self.stopped {
            return None;
        }
        self.visible = visible;
        if visible && self.dirty {
            return self.refresh();
        }
        None
    }

    /// The configuration changed: a new generation begins and a pending timer is
    /// dropped. A shown inventory reads again, at once or after a short timer.
    pub fn invalidate(&mut self, debounce: bool) -> (r: Invalidation)
        ensures
            old(self).stopped ==> r == Invalidation::Wait && *final(self) == *old(self),
            !old(self).stopped && !old(self).visible ==> r == Invalidation::Wait && *final(self) == (Refresher {
                generation: old(self).generation.wrapping_add(1),
                dirty: true,
                debouncing: false,
                ..*old(self)
            }),
            !old(self).stopped && old(self).visible && debounce ==> r == Invalidation::Debounce && *final(self) == (
            Refresher {
                generation: old(self).generation.wrapping_add(1),
                dirty: true,
                debouncing: true,
                ..*old(self)
            }),
            !old(self).stopped && old(self).visible && !debounce && old(self).busy ==> r == Invalidation::Wait
                && *final(self) == (Refresher {
                generation: old(self).generation.wrapping_add(1),
                dirty: true,
                debouncing: false,
                ..*old(self)
            }),
            !old(self).stopped && old(self).visible && !debounce && !old(self).busy ==> r == Invalidation::Read(
                old(self).generation.wrapping_add(1),
            ) && *final(self) == (Refresher {
                generation: old(self).generation.wrapping_add(1),
                dirty: false,
                busy: true,
                debouncing: false,
                ..*old(self)
            }),
    {
        if self.stopped {
            return Invalidation::Wait;
        }
        self.generation = self.generation.wrapping_add(1);
        self.dirty = true;
        self.debouncing = false;
        if !self.visible {
            return Invalidation::Wait;
        }
        if debounce {
            self.debouncing = true;
            return Invalidation::Debounce;
        }
        match self.refresh() {
            Some(g) => Invalidation::Read(g),
            None => Invalidation::Wait,
        }
    }

    /// The debounce timer fired: read now if possible.
    pub fn timer_fired(&mut self) -> (r: Option<u64>)
        ensures
            (old(self).stopped || old(self).busy || !old(self).visible) ==> r is None
                && *final(self) == (Refresher { debouncing: false, ..*old(self) }),
            !(old(self).stopped || old(self).busy || !old(self).visible) ==> r == Some(old(self).generation)
                && *final(self) == (Refresher { debouncing: false, busy: true, dirty: false, ..*old(self) }),
    {
        self.debouncing = false;
        self.refresh()
    }

    /// A read tagged `generation` ended. Its result is shown only if nothing changed
    /// since it started; the second result says whether to read again at once.
    pub fn finished(&mut self, generation: u64) -> (r: (bool, Option<u64>))
        ensures
            old(self).stopped ==> r == (false, None::<u64>) && *final(self) == *old(self),
            !old(self).stopped ==> r.0 == (generation == old(self).generation),
            !old(self).stopped && old(self).dirty && !old(self).debouncing && old(self).visible ==> r.1 == Some(
                old(self).generation,
            ) && *final(self) == (Refresher { busy: true, dirty: false, ..*old(self) }),
            !old(self).stopped && !(old(self).dirty && !old(self).debouncing && old(self).visible) ==> r.1 is None
                && *final(self) == (Refresher { busy: false, ..*old(self) }),
    {
        if self.stopped {
            return (false, None);
        }
        self.busy = false;
        let current = generation == self.generation;
        let again = if self.dirty && !self.debouncing {
            self.refresh()
        } else {
            None
        };
        (current, again)
    }

    /// Stops for good: later events change nothing.
    pub fn stop(&mut self)
        ensures
            old(self).stopped ==> *final(self) == *old(self),
            !old(self).stopped ==> *final(self) == (Refresher {
                stopped: true,
                generation: old(self).generation.wrapping_add(1),
                debouncing: false,
                ..*old(self)
            }),
    {
        if self.stopped {
            return;
        }
        self.stopped = true;
        self.generation = self.generation.wrapping_add(1);
        self.debouncing = false;
    }
}

} // verus!

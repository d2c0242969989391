//! What the shell knows of the compositor's globals, outputs, seats and windows, and
//! how each protocol event changes it. Protocol objects stay with the caller, which
//! performs the requests each step returns; the changes to publish queue up here.
use crate::keyed::{
    ascending, has_key, lemma_ascending_view, lemma_lookup_view, lemma_put_view, lemma_put_without,
    lemma_without_view, lookup, put, put_record, take_record, without, KeyOf, Keyed,
};
use crate::text::{append, decimal_string, decimal_text, str_eq};
use crate::wayland::model::{
    bind_version, ignore_set, name_views, check_temperature, interface_limit, temperature_check, flags_applied, GammaError, lemma_flags_view, native_values, Output, OutputView, Seat, SeatView, Toplevel, ToplevelView,
};
use crate::wayland::ToplevelAction;
use vstd::prelude::*;

verus! {

/// A window as it is being assembled from events, and as it was last published.
pub struct TopEntry {
    pub pending: Toplevel,
    pub published: Option<Toplevel>,
}

/// What a window entry holds.
pub struct TopEntryView {
    pub pending: ToplevelView,
    pub published: Option<ToplevelView>,
}

impl View for TopEntry {
    type V = TopEntryView;

    open spec fn view(&self) -> TopEntryView {
        TopEntryView {
            pending: self.pending@,
            published: match self.published {
                Some(t) => Some(t@),
                None => None,
            },
        }
    }
}

impl TopEntry {
    /// A copy of the entry.
    pub fn copy(&self) -> (r: TopEntry)
        ensures
            r@ == self@,
            r.key() == self.key(),
    {
        TopEntry {
            pending: self.pending.copy(),
            published: match &self.published {
                Some(t) => Some(t.copy()),
                None => None,
            },
        }
    }
}

impl Keyed for TopEntry {
    open spec fn key(&self) -> int {
        self.pending.id as int
    }
}

impl KeyOf for TopEntry {
    fn key_of(&self) -> (r: u64) {
        self.pending.id
    }
}

impl Keyed for TopEntryView {
    open spec fn key(&self) -> int {
        self.pending.id as int
    }
}

/// A gamma control of an output, with the ramp size the compositor announced.
#[derive(Clone, Copy, Debug, PartialEq, Eq, Structural)]
pub struct GammaControl {
    pub output: u32,
    pub size: u32,
}

impl Keyed for GammaControl {
    open spec fn key(&self) -> int {
        self.output as int
    }
}

impl KeyOf for GammaControl {
    fn key_of(&self) -> (r: u64) {
        self.output as u64
    }
}

/// A change for the shell to publish.
pub enum Change {
    Ready,
    Output(Output),
    OutputRemoved(Output),
    Toplevel(Toplevel),
    ToplevelRemoved(Toplevel),
    Capabilities,
    Gamma(bool),
    Diagnostic(String),
}

/// What a change says.
pub enum ChangeView {
    Ready,
    Output(OutputView),
    OutputRemoved(OutputView),
    Toplevel(ToplevelView),
    ToplevelRemoved(ToplevelView),
    Capabilities,
    Gamma(bool),
    Diagnostic(Seq<char>),
}

impl View for Change {
    type V = ChangeView;

    open spec fn view(&self) -> ChangeView {
        match self {
            Change::Ready => ChangeView::Ready,
            Change::Output(o) => ChangeView::Output(o@),
            Change::OutputRemoved(o) => ChangeView::OutputRemoved(o@),
            Change::Toplevel(t) => ChangeView::Toplevel(t@),
            Change::ToplevelRemoved(t) => ChangeView::ToplevelRemoved(t@),
            Change::Capabilities => ChangeView::Capabilities,
            Change::Gamma(b) => ChangeView::Gamma(*b),
            Change::Diagnostic(s) => ChangeView::Diagnostic(s@),
        }
    }
}

/// The shell's side of one Wayland connection.
pub struct State {
    outputs: Vec<Output>,
    seats: Vec<Seat>,
    toplevels: Vec<TopEntry>,
    next_toplevel: u64,
    foreign: Option<u32>,
    gamma_manager: Option<u32>,
    shortcut_manager: Option<u32>,
    gamma: Vec<GammaControl>,
    failed_gamma_outputs: Vec<u32>,
    temperature: Option<u32>,
    ignored_apps: Vec<String>,
    ignored_titles: Vec<String>,
    changes: Vec<Change>,
    ready: bool,
}

/// What the connection state holds: outputs, seats, windows and gamma controls in
/// ascending id order; the global names of the managers bound; the outputs whose
/// gamma control failed; the colour temperature asked for; the ignore lists; the
/// changes not yet taken; and whether the first round trips are done.
pub struct StateView {
    pub outputs: Seq<OutputView>,
    pub seats: Seq<SeatView>,
    pub toplevels: Seq<TopEntryView>,
    pub next_toplevel: u64,
    pub foreign: Option<u32>,
    pub gamma_manager: Option<u32>,
    pub shortcut_manager: Option<u32>,
    pub gamma: Seq<GammaControl>,
    pub failed: Set<u32>,
    pub temperature: Option<u32>,
    pub ignored_apps: Seq<Seq<char>>,
    pub ignored_titles: Seq<Seq<char>>,
    pub changes: Seq<ChangeView>,
    pub ready: bool,
}

/// The views of the outputs.
pub open spec fn output_views(s: Seq<Output>) -> Seq<OutputView> {
    s.map_values(|o: Output| o@)
}

/// The views of the seats.
pub open spec fn seat_views(s: Seq<Seat>) -> Seq<SeatView> {
    s.map_values(|o: Seat| o@)
}

/// The views of the window entries.
pub open spec fn entry_views(s: Seq<TopEntry>) -> Seq<TopEntryView> {
    s.map_values(|e: TopEntry| e@)
}

/// The views of the changes.
pub open spec fn change_views(s: Seq<Change>) -> Seq<ChangeView> {
    s.map_values(|c: Change| c@)
}

/// The texts of a list.
pub open spec fn text_views(s: Seq<String>) -> Seq<Seq<char>> {
    s.map_values(|t: String| t@)
}

impl View for State {
    type V = StateView;

    closed spec fn view(&self) -> StateView {
        StateView {
            outputs: output_views(self.outputs@),
            seats: seat_views(self.seats@),
            toplevels: entry_views(self.toplevels@),
            next_toplevel: self.next_toplevel,
            foreign: self.foreign,
            gamma_manager: self.gamma_manager,
            shortcut_manager: self.shortcut_manager,
            gamma: self.gamma@,
            failed: self.failed_gamma_outputs@.to_set(),
            temperature: self.temperature,
            ignored_apps: text_views(self.ignored_apps@),
            ignored_titles: text_views(self.ignored_titles@),
            changes: change_views(self.changes@),
            ready: self.ready,
        }
    }
}

/// Whether colour temperature is applied: a temperature is set and some output has a
/// gamma control.
pub open spec fn gamma_on(v: StateView) -> bool {
    v.temperature is Some && v.gamma.len() > 0
}

/// Whether gamma control can be offered: the manager is bound and some output's
/// control has not failed.
pub open spec fn gamma_offered(v: StateView) -> bool {
    v.gamma_manager is Some && exists|i: int|
        0 <= i < v.outputs.len() && !v.failed.contains(#[trigger] v.outputs[i].id)
}

/// The change that reports a switch of applied colour temperature, if there was one.
pub open spec fn flip(was: bool, now: bool) -> Seq<ChangeView> {
    if was != now {
        seq![ChangeView::Gamma(now)]
    } else {
        Seq::empty()
    }
}

/// Whether a window is published: it has an application id and a title, and neither
/// is ignored.
pub open spec fn shown(t: ToplevelView, apps: Seq<Seq<char>>, titles: Seq<Seq<char>>) -> bool {
    match (t.app_id, t.title) {
        (Some(a), Some(ti)) => !apps.contains(a) && !titles.contains(ti),
        _ => false,
    }
}

/// A window with its per-batch event flags cleared.
pub open spec fn quiet(t: ToplevelView) -> ToplevelView {
    ToplevelView { activation_event: false, entered_event: false, ..t }
}

/// A window entry after its batch is complete: the assembled state is published when
/// shown and withdrawn otherwise.
pub open spec fn published_entry(e: TopEntryView, apps: Seq<Seq<char>>, titles: Seq<Seq<char>>) -> TopEntryView {
    TopEntryView {
        pending: quiet(e.pending),
        published: if shown(e.pending, apps, titles) {
            Some(e.pending)
        } else {
            None
        },
    }
}

/// What completing a window's batch reports.
pub open spec fn publish_changes(e: TopEntryView, apps: Seq<Seq<char>>, titles: Seq<Seq<char>>) -> Seq<ChangeView> {
    if shown(e.pending, apps, titles) {
        seq![ChangeView::Toplevel(e.pending)]
    } else {
        match e.published {
            Some(p) => seq![ChangeView::ToplevelRemoved(p)],
            None => Seq::empty(),
        }
    }
}

/// The entries once each batch is completed again under the ignore lists.
pub open spec fn republished(es: Seq<TopEntryView>, apps: Seq<Seq<char>>, titles: Seq<Seq<char>>) -> Seq<TopEntryView> {
    es.map_values(|e: TopEntryView| published_entry(e, apps, titles))
}

/// What completing the batches of the windows, in order, reports.
pub open spec fn republish_changes(es: Seq<TopEntryView>, apps: Seq<Seq<char>>, titles: Seq<Seq<char>>) -> Seq<
    ChangeView,
>
    decreases es.len(),
{
    if es.len() == 0 {
        Seq::empty()
    } else {
        republish_changes(es.drop_last(), apps, titles) + publish_changes(es.last(), apps, titles)
    }
}

/// What removing the windows, in order, reports: each published one is withdrawn.
pub open spec fn removal_changes(es: Seq<TopEntryView>) -> Seq<ChangeView>
    decreases es.len(),
{
    if es.len() == 0 {
        Seq::empty()
    } else {
        removal_changes(es.drop_last()) + match es.last().published {
            Some(p) => seq![ChangeView::ToplevelRemoved(p)],
            None => Seq::<ChangeView>::empty(),
        }
    }
}

/// The ids of the windows, in order.
pub open spec fn entry_ids(es: Seq<TopEntryView>) -> Seq<u64> {
    es.map_values(|e: TopEntryView| e.pending.id)
}

/// A window that has just been announced.
pub open spec fn new_window(id: u64) -> ToplevelView {
    ToplevelView {
        id,
        app_id: None,
        title: None,
        outputs: Set::empty(),
        parent: None,
        maximized: false,
        minimized: false,
        active: false,
        fullscreen: false,
        activation_event: false,
        entered_event: false,
    }
}

/// What an action on a window needs, or why it cannot be done: an activation needs
/// a seat, the first one.
pub open spec fn action_plan(v: StateView, id: u64, action: ToplevelAction) -> Result<Option<u32>, Seq<char>> {
    if !has_key(v.toplevels, id as int) {
        Err("This window has closed"@)
    } else {
        match action {
            ToplevelAction::Activate => if v.seats.len() == 0 {
                Err("No Wayland seat is available to activate a window"@)
            } else {
                Ok(Some(v.seats[0].id))
            },
            _ => Ok(None),
        }
    }
}

/// An event on a window, with the objects it names resolved to ids.
pub enum ToplevelEvent {
    Title(String),
    AppId(String),
    OutputEnter(Option<u32>),
    OutputLeave(Option<u32>),
    State(Vec<u8>),
    Parent(Option<u64>),
    Done,
    Closed,
}

/// What withdrawing a window reports: its withdrawal, if it was published.
pub open spec fn withdrawn(e: TopEntryView) -> Seq<ChangeView> {
    match e.published {
        Some(p) => seq![ChangeView::ToplevelRemoved(p)],
        None => Seq::empty(),
    }
}

/// The state with the entry `e` holding `p` as its assembled window.
pub open spec fn with_pending(v: StateView, e: TopEntryView, p: ToplevelView) -> StateView {
    StateView { toplevels: put(v.toplevels, TopEntryView { pending: p, ..e }), ..v }
}

/// The state after the batch of the entry `e` completes.
pub open spec fn published_state(v: StateView, e: TopEntryView) -> StateView {
    StateView {
        toplevels: put(v.toplevels, published_entry(e, v.ignored_apps, v.ignored_titles)),
        changes: v.changes + publish_changes(e, v.ignored_apps, v.ignored_titles),
        ..v
    }
}

/// The state after the window of the entry `e` closes.
pub open spec fn closed_state(v: StateView, e: TopEntryView) -> StateView {
    StateView { toplevels: without(v.toplevels, e.key()), changes: v.changes + withdrawn(e), ..v }
}

/// The report of a state array whose length is not a multiple of four.
pub open spec fn bad_state_text() -> Seq<char> {
    "Foreign toplevel state is not an array of 32-bit values"@
}

/// How an event on window `id` changes the state, and whether its handle must be
/// destroyed. Events on unknown windows change nothing.
pub open spec fn toplevel_stepped(before: StateView, after: StateView, id: u64, event: ToplevelEvent, r: bool) -> bool {
    match lookup(before.toplevels, id as int) {
        None => after == before && !r,
        Some(e) => match event {
            ToplevelEvent::Title(t) => !r && after == with_pending(
                before,
                e,
                ToplevelView { title: Some(t@), ..e.pending },
            ),
            ToplevelEvent::AppId(a) => !r && after == with_pending(
                before,
                e,
                ToplevelView { app_id: Some(a@), ..e.pending },
            ),
            ToplevelEvent::OutputEnter(o) => !r && after == with_pending(
                before,
                e,
                ToplevelView {
                    outputs: match o {
                        Some(x) => e.pending.outputs.insert(x),
                        None => e.pending.outputs,
                    },
                    entered_event: true,
                    ..e.pending
                },
            ),
            ToplevelEvent::OutputLeave(o) => !r && after == with_pending(
                before,
                e,
                ToplevelView {
                    outputs: match o {
                        Some(x) => e.pending.outputs.remove(x),
                        None => e.pending.outputs,
                    },
                    entered_event: false,
                    ..e.pending
                },
            ),
            ToplevelEvent::State(bytes) => !r && if bytes@.len() % 4 != 0 {
                after == StateView { changes: before.changes.push(ChangeView::Diagnostic(bad_state_text())), ..before }
            } else {
                exists|p: ToplevelView, values: Seq<u32>|
                    native_values(bytes@, values) && #[trigger] flags_applied(e.pending, p, values) && after
                        == with_pending(before, e, p)
            },
            ToplevelEvent::Parent(parent) => !r && after == with_pending(
                before,
                e,
                ToplevelView { parent, ..e.pending },
            ),
            ToplevelEvent::Done => !r && after == published_state(before, e),
            ToplevelEvent::Closed => r && after == closed_state(before, e),
        },
    }
}

/// How an event that neither completes a window's batch nor closes it changes the
/// window's entry, from `e` to `a`, and the changes to publish, from `c0` to `c1`.
pub open spec fn amended(e: TopEntryView, a: TopEntryView, event: ToplevelEvent, c0: Seq<ChangeView>, c1: Seq<ChangeView>) -> bool {
    &&& a.published == e.published
    &&& a.pending.id == e.pending.id
    &&& !(event is State) ==> c1 == c0
    &&& match event {
        ToplevelEvent::Title(t) => a.pending == ToplevelView { title: Some(t@), ..e.pending },
        ToplevelEvent::AppId(x) => a.pending == ToplevelView { app_id: Some(x@), ..e.pending },
        ToplevelEvent::OutputEnter(o) => a.pending == ToplevelView {
            outputs: match o {
                Some(x) => e.pending.outputs.insert(x),
                None => e.pending.outputs,
            },
            entered_event: true,
            ..e.pending
        },
        ToplevelEvent::OutputLeave(o) => a.pending == ToplevelView {
            outputs: match o {
                Some(x) => e.pending.outputs.remove(x),
                None => e.pending.outputs,
            },
            entered_event: false,
            ..e.pending
        },
        ToplevelEvent::State(bytes) => if bytes@.len() % 4 != 0 {
            a == e && c1 == c0.push(ChangeView::Diagnostic(bad_state_text()))
        } else {
            c1 == c0 && exists|values: Seq<u32>|
                native_values(bytes@, values) && #[trigger] flags_applied(e.pending, a.pending, values)
        },
        ToplevelEvent::Parent(parent) => a.pending == ToplevelView { parent, ..e.pending },
        _ => true,
    }
}

/// Amending an entry in place is the step `toplevel_stepped` describes.
proof fn lemma_amended_step(before: StateView, after: StateView, id: u64, event: ToplevelEvent, e: TopEntryView, a: TopEntryView)
    requires
        ascending(before.toplevels),
        lookup(before.toplevels, id as int) == Some(e),
        !(event is Done),
        !(event is Closed),
        amended(e, a, event, before.changes, after.changes),
        after == (StateView { toplevels: put(before.toplevels, a), changes: after.changes, ..before }),
    ensures
        toplevel_stepped(before, after, id, event, false),
{
    assert(e.key() == id);
    let w = with_pending(before, e, a.pending);
    assert(a == TopEntryView { pending: a.pending, ..e });
    match event {
        ToplevelEvent::State(bytes) => {
            if bytes@.len() % 4 == 0 {
                assert(after == w);
            } else {
                crate::keyed::lemma_put_same(before.toplevels, e);
                assert(after == StateView { changes: before.changes.push(ChangeView::Diagnostic(bad_state_text())), ..before });
            }
        },
        _ => {
            assert(after == w);
        },
    }
}

/// What the caller binds for an advertised global, at which version; an output may
/// also need a gamma control.
#[derive(Clone, Copy, Debug, PartialEq, Eq, Structural)]
pub enum Bind {
    Output { version: u32, gamma: bool },
    Seat(u32),
    ForeignManager(u32),
    GammaManager(u32),
}

/// An output that has just been bound.
pub open spec fn new_output(id: u32) -> OutputView {
    OutputView {
        id,
        name: None,
        description: None,
        make: Seq::empty(),
        model: Seq::empty(),
        initialized: false,
        scale: 1,
        width: 0,
        height: 0,
    }
}

/// A seat that has just been bound.
pub open spec fn new_seat(id: u32) -> SeatView {
    SeatView { id, name: None, capabilities: 0 }
}

/// Whether output `id` gets a gamma control now: a temperature is set, the manager
/// is bound, and the output has none yet.
pub open spec fn control_added(v: StateView, id: u32) -> bool {
    v.temperature is Some && v.gamma_manager is Some && !has_key(v.gamma, id as int)
}

/// A gamma control whose ramp size is not known yet.
pub open spec fn new_control(id: u32) -> GammaControl {
    GammaControl { output: id, size: 0 }
}

/// The output ids of the gamma controls, in order.
pub open spec fn control_ids(g: Seq<GammaControl>) -> Seq<u32> {
    g.map_values(|c: GammaControl| c.output)
}

/// The state once global `name`, of a bound interface, is recorded: a new output (with
/// a gamma control when a temperature is set, and a report of any switch of applied
/// temperature), a new seat, or the name of a manager. A second foreign toplevel or
/// gamma control manager is not recorded.
pub open spec fn global_bound(v: StateView, name: u32, interface: Seq<char>) -> StateView {
    if interface == "wl_output"@ {
        let after = StateView {
            outputs: put(v.outputs, new_output(name)),
            gamma: if control_added(v, name) {
                put(v.gamma, new_control(name))
            } else {
                v.gamma
            },
            ..v
        };
        StateView { changes: v.changes + flip(gamma_on(v), gamma_on(after)), ..after }
    } else if interface == "wl_seat"@ {
        StateView { seats: put(v.seats, new_seat(name)), ..v }
    } else if interface == "zwlr_foreign_toplevel_manager_v1"@ && v.foreign is None {
        StateView { foreign: Some(name), ..v }
    } else if interface == "zwlr_gamma_control_manager_v1"@ && v.gamma_manager is None {
        StateView { gamma_manager: Some(name), ..v }
    } else if interface == "zwp_keyboard_shortcuts_inhibit_manager_v1"@ {
        StateView { shortcut_manager: Some(name), ..v }
    } else {
        v
    }
}

/// What the caller binds for global `name` of a bound interface, at `version`.
pub open spec fn global_bind(v: StateView, name: u32, interface: Seq<char>, version: u32) -> Option<Bind> {
    if interface == "wl_output"@ {
        Some(Bind::Output { version, gamma: control_added(v, name) })
    } else if interface == "wl_seat"@ {
        Some(Bind::Seat(version))
    } else if interface == "zwlr_foreign_toplevel_manager_v1"@ && v.foreign is None {
        Some(Bind::ForeignManager(version))
    } else if interface == "zwlr_gamma_control_manager_v1"@ && v.gamma_manager is None {
        Some(Bind::GammaManager(version))
    } else {
        None
    }
}

/// How an advertised global changes the state, and what to bind for it: interfaces
/// the shell does not use and version zero are ignored; otherwise the global is
/// recorded, bound at the advertised version capped at the shell's, and a change of
/// capabilities is reported.
pub open spec fn global_step(v: StateView, name: u32, interface: Seq<char>, advertised: u32) -> (StateView, Option<Bind>) {
    match interface_limit(interface) {
        None => (v, None),
        Some(m) => if advertised == 0 {
            (v, None)
        } else {
            let b = global_bound(v, name, interface);
            (
                StateView { changes: b.changes.push(ChangeView::Capabilities), ..b },
                global_bind(v, name, interface, if advertised < m {
                    advertised
                } else {
                    m
                }),
            )
        },
    }
}

/// A window entry that no longer names output `id`.
pub open spec fn forget_output(e: TopEntryView, id: u32) -> TopEntryView {
    TopEntryView {
        pending: ToplevelView { outputs: e.pending.outputs.remove(id), ..e.pending },
        published: match e.published {
            Some(p) => Some(ToplevelView { outputs: p.outputs.remove(id), ..p }),
            None => None,
        },
    }
}

/// The windows, none of them on output `id`.
pub open spec fn forget_output_all(es: Seq<TopEntryView>, id: u32) -> Seq<TopEntryView> {
    es.map_values(|e: TopEntryView| forget_output(e, id))
}

/// The state once output `name`, if there is one, is gone: with its gamma control
/// and failure, and from every window; its removal is reported, then any switch of
/// applied temperature.
pub open spec fn output_gone(v: StateView, name: u32) -> StateView {
    match lookup(v.outputs, name as int) {
        None => v,
        Some(o) => {
            let after = StateView {
                outputs: without(v.outputs, name as int),
                failed: v.failed.remove(name),
                gamma: without(v.gamma, name as int),
                toplevels: forget_output_all(v.toplevels, name),
                ..v
            };
            StateView {
                changes: v.changes.push(ChangeView::OutputRemoved(o)) + flip(gamma_on(v), gamma_on(after)),
                ..after
            }
        },
    }
}

/// The state with applied temperature switched off and every gamma control gone.
pub open spec fn gamma_off(v: StateView) -> StateView {
    StateView {
        temperature: None,
        gamma: Seq::empty(),
        changes: v.changes + flip(gamma_on(v), false),
        ..v
    }
}

/// The state once global `name` is gone, whatever it was.
pub open spec fn remove_step(v: StateView, name: u32) -> StateView {
    let v1 = output_gone(v, name);
    let v2 = StateView { seats: without(v1.seats, name as int), ..v1 };
    let v3 = if v2.foreign == Some(name) {
        StateView {
            foreign: None,
            toplevels: Seq::empty(),
            changes: v2.changes + removal_changes(v2.toplevels),
            ..v2
        }
    } else {
        v2
    };
    let v4 = if v3.gamma_manager == Some(name) {
        StateView { failed: Set::empty(), gamma_manager: None, ..gamma_off(v3) }
    } else {
        v3
    };
    let v5 = if v4.shortcut_manager == Some(name) {
        StateView { shortcut_manager: None, ..v4 }
    } else {
        v4
    };
    StateView { changes: v5.changes.push(ChangeView::Capabilities), ..v5 }
}

/// An output marked as completely announced.
pub open spec fn announced(o: OutputView) -> OutputView {
    OutputView { initialized: true, ..o }
}

/// What completing the first round trips reports: each output not yet announced.
pub open spec fn announce_changes(os: Seq<OutputView>) -> Seq<ChangeView>
    decreases os.len(),
{
    if os.len() == 0 {
        Seq::empty()
    } else {
        announce_changes(os.drop_last()) + if os.last().initialized {
            Seq::<ChangeView>::empty()
        } else {
            seq![ChangeView::Output(announced(os.last()))]
        }
    }
}

/// An event on an output.
pub enum OutputEvent {
    Geometry { make: String, model: String },
    Name(String),
    Description(String),
    Scale(i32),
    Mode { current: bool, width: i32, height: i32 },
    Done,
    Other,
}

/// An output after an event; only the current mode sets the size.
pub open spec fn output_updated(o: OutputView, event: OutputEvent) -> OutputView {
    match event {
        OutputEvent::Geometry { make, model } => OutputView { make: make@, model: model@, ..o },
        OutputEvent::Name(n) => OutputView { name: Some(n@), ..o },
        OutputEvent::Description(d) => OutputView { description: Some(d@), ..o },
        OutputEvent::Scale(f) => OutputView { scale: f, ..o },
        OutputEvent::Mode { current, width, height } => if current {
            OutputView { width, height, ..o }
        } else {
            o
        },
        OutputEvent::Done => announced(o),
        OutputEvent::Other => o,
    }
}

/// An event on a seat.
pub enum SeatEvent {
    Name(String),
    Capabilities(u32),
    Other,
}

/// A seat after an event.
pub open spec fn seat_updated(s: SeatView, event: SeatEvent) -> SeatView {
    match event {
        SeatEvent::Name(n) => SeatView { name: Some(n@), ..s },
        SeatEvent::Capabilities(c) => SeatView { capabilities: c, ..s },
        SeatEvent::Other => s,
    }
}

/// Adds `x` to the ids held, unless it is there already.
fn id_insert(v: &mut Vec<u32>, x: u32)
    ensures
        final(v)@.to_set() == old(v)@.to_set().insert(x),
{
    let mut i: usize = 0;
    while i < v.len()
        invariant
            i <= v@.len(),
            forall|j: int| 0 <= j < i ==> v@[j] != x,
        decreases v.len() - i,
    {
        if v[i] == x {
            assert(v@.to_set() =~= v@.to_set().insert(x));
            return;
        }
        i += 1;
    }
    let ghost before = v@;
    v.push(x);
    assert forall|y: u32| v@.to_set().contains(y) == before.to_set().insert(x).contains(y) by {
        if y != x && v@.contains(y) {
            let j = choose|j: int| 0 <= j < v@.len() && v@[j] == y;
            assert(before[j] == y);
        }
        if before.contains(y) {
            let j = choose|j: int| 0 <= j < before.len() && before[j] == y;
            assert(v@[j] == y);
        }
        if y == x {
            assert(v@[v@.len() - 1] == x);
        }
    };
    assert(v@.to_set() =~= before.to_set().insert(x));
}

/// Takes `x` out of the ids held.
fn id_remove(v: &mut Vec<u32>, x: u32)
    ensures
        final(v)@.to_set() == old(v)@.to_set().remove(x),
{
    let mut kept: Vec<u32> = Vec::new();
    let mut i: usize = 0;
    while i < v.len()
        invariant
            i <= v@.len(),
            forall|y: u32| kept@.contains(y) == (v@.take(i as int).contains(y) && y != x),
        decreases v.len() - i,
    {
        let ghost before = kept@;
        if v[i] != x {
            kept.push(v[i]);
        }
        assert forall|y: u32| kept@.contains(y) == (v@.take(i + 1).contains(y) && y != x) by {
            assert(v@.take(i + 1) =~= v@.take(i as int).push(v@[i as int]));
            if kept@.contains(y) && !before.contains(y) {
                let j = choose|j: int| 0 <= j < kept@.len() && kept@[j] == y;
                if j < before.len() {
                    assert(before[j] == y);
                }
                assert(y == v@[i as int]);
                assert(v@.take(i + 1)[i as int] == y);
            }
            if before.contains(y) {
                let j = choose|j: int| 0 <= j < before.len() && before[j] == y;
                assert(kept@[j] == y);
                let t = v@.take(i as int);
                let k = choose|k: int| 0 <= k < t.len() && #[trigger] t[k] == y;
                assert(v@.take(i + 1)[k] == y);
            }
            if v@.take(i + 1).contains(y) && y != x && !v@.take(i as int).contains(y) {
                let t = v@.take(i + 1);
                let j = choose|j: int| 0 <= j < t.len() && #[trigger] t[j] == y;
                if j < i {
                    assert(v@.take(i as int)[j] == y);
                }
                assert(kept@[kept@.len() - 1] == y);
            }
        };
        i += 1;
    }
    assert(v@.take(v.len() as int) =~= v@);
    assert(kept@.to_set() =~= v@.to_set().remove(x));
    *v = kept;
}

/// What the caller releases or destroys once a global is gone: the output (and its
/// gamma control), the seat, the foreign toplevel manager (stopped, with the handles
/// of its windows destroyed), and the gamma control manager (with every control).
pub struct Removal {
    pub output: bool,
    pub output_gamma: bool,
    pub seat: bool,
    pub foreign: bool,
    pub toplevels: Vec<u64>,
    pub gamma_manager: bool,
    pub controls: Vec<u32>,
}

/// The gamma controls once every output in `os` has one, added in order.
pub open spec fn added_controls(g: Seq<GammaControl>, os: Seq<OutputView>) -> Seq<GammaControl>
    decreases os.len(),
{
    if os.len() == 0 {
        g
    } else {
        let h = added_controls(g, os.drop_last());
        if has_key(h, os.last().id as int) {
            h
        } else {
            put(h, new_control(os.last().id))
        }
    }
}

/// The outputs among `os` that get a new gamma control, in order.
pub open spec fn created_ids(g: Seq<GammaControl>, os: Seq<OutputView>) -> Seq<u32>
    decreases os.len(),
{
    if os.len() == 0 {
        Seq::empty()
    } else {
        let prev = created_ids(g, os.drop_last());
        if has_key(added_controls(g, os.drop_last()), os.last().id as int) {
            prev
        } else {
            prev.push(os.last().id)
        }
    }
}

/// Whether a control's ramp size is known.
pub open spec fn sized(c: GammaControl) -> bool {
    c.size > 0
}

/// What setting a temperature asks of the caller: to create a gamma control for each
/// output listed, and to apply the temperature through each sized control listed;
/// then to report through `temperature_applied`.
pub struct TemperaturePlan {
    pub was_enabled: bool,
    pub created: Vec<u32>,
    pub apply: Vec<GammaControl>,
}

/// What the caller releases or destroys once the connection closes.
pub struct Closed {
    pub controls: Vec<u32>,
    pub toplevels: Vec<u64>,
    pub foreign: bool,
    pub gamma_manager: bool,
    pub outputs: Vec<u32>,
    pub seats: Vec<u32>,
}

/// The ids of the outputs, in order.
pub open spec fn output_ids(os: Seq<OutputView>) -> Seq<u32> {
    os.map_values(|o: OutputView| o.id)
}

/// The ids of the seats, in order.
pub open spec fn seat_ids(s: Seq<SeatView>) -> Seq<u32> {
    s.map_values(|o: SeatView| o.id)
}

/// The report that an output's gamma control failed.
pub open spec fn control_failure_text(id: u32) -> Seq<char> {
    "Gamma control unavailable for output "@ + decimal_text(id as nat) + "; another program may own it"@
}

/// The state with output `id`'s gamma control gone and marked failed.
pub open spec fn control_lost(v: StateView, id: u32) -> StateView {
    StateView { failed: v.failed.insert(id), gamma: without(v.gamma, id as int), ..v }
}

proof fn lemma_views_keyed()
    ensures
        forall|t: Output| #[trigger] t@.key() == t.key(),
        forall|t: Seat| #[trigger] t@.key() == t.key(),
        forall|t: TopEntry| #[trigger] t@.key() == t.key(),
{
}

/// The texts of a list contain `s` exactly when the list holds a string equal to it.
proof fn lemma_text_views_contain(list: Seq<String>, s: Seq<char>)
    ensures
        text_views(list).contains(s) == crate::text::strings_contain(list, s),
{
    if crate::text::strings_contain(list, s) {
        let i = choose|i: int| 0 <= i < list.len() && list[i]@ == s;
        assert(text_views(list)[i] == s);
    }
    if text_views(list).contains(s) {
        let i = choose|i: int| 0 <= i < text_views(list).len() && text_views(list)[i] == s;
        assert(list[i]@ == s);
    }
}

impl State {
    /// Whether the records are in order and every window id has been handed out.
    pub closed spec fn wf(&self) -> bool {
        &&& ascending(self.outputs@)
        &&& ascending(self.seats@)
        &&& ascending(self.toplevels@)
        &&& ascending(self.gamma@)
        &&& forall|i: int| 0 <= i < self.toplevels@.len() ==> #[trigger] self.toplevels@[i].key() <= self.next_toplevel
    }

    /// A state with nothing bound and nothing to report.
    pub fn new() -> (r: State)
        ensures
            r.wf(),
            r@ == (StateView {
                outputs: Seq::empty(),
                seats: Seq::empty(),
                toplevels: Seq::empty(),
                next_toplevel: 0,
                foreign: None,
                gamma_manager: None,
                shortcut_manager: None,
                gamma: Seq::empty(),
                failed: Set::empty(),
                temperature: None,
                ignored_apps: Seq::empty(),
                ignored_titles: Seq::empty(),
                changes: Seq::empty(),
                ready: false,
            }),
    {
        let r = State {
            outputs: Vec::new(),
            seats: Vec::new(),
            toplevels: Vec::new(),
            next_toplevel: 0,
            foreign: None,
            gamma_manager: None,
            shortcut_manager: None,
            gamma: Vec::new(),
            failed_gamma_outputs: Vec::new(),
            temperature: None,
            ignored_apps: Vec::new(),
            ignored_titles: Vec::new(),
            changes: Vec::new(),
            ready: false,
        };
        assert(r@.outputs =~= Seq::<OutputView>::empty());
        assert(r@.seats =~= Seq::<SeatView>::empty());
        assert(r@.toplevels =~= Seq::<TopEntryView>::empty());
        assert(r@.failed =~= Set::<u32>::empty());
        assert(r@.ignored_apps =~= Seq::<Seq<char>>::empty());
        assert(r@.ignored_titles =~= Seq::<Seq<char>>::empty());
        assert(r@.changes =~= Seq::<ChangeView>::empty());
        r
    }

    /// Whether the foreign toplevel manager is bound.
    pub fn has_foreign_toplevel(&self) -> (r: bool)
        ensures
            r == self@.foreign is Some,
    {
        self.foreign.is_some()
    }

    /// Whether the gamma control manager is bound.
    pub fn has_gamma(&self) -> (r: bool)
        ensures
            r == self@.gamma_manager is Some,
    {
        self.gamma_manager.is_some()
    }

    /// Whether the keyboard shortcuts inhibit manager is advertised.
    pub fn has_shortcut_inhibition(&self) -> (r: bool)
        ensures
            r == self@.shortcut_manager is Some,
    {
        self.shortcut_manager.is_some()
    }

    /// Whether a colour temperature is applied.
    pub fn gamma_enabled(&self) -> (r: bool)
        ensures
            r == gamma_on(self@),
    {
        self.temperature.is_some() && self.gamma.len() > 0
    }

    /// Whether gamma control can be offered on some output.
    pub fn gamma_available(&self) -> (r: bool)
        ensures
            r == gamma_offered(self@),
    {
        if self.gamma_manager.is_none() {
            return false;
        }
        let mut i: usize = 0;
        while i < self.outputs.len()
            invariant
                i <= self.outputs@.len(),
                self.gamma_manager is Some,
                forall|j: int| 0 <= j < i ==> self.failed_gamma_outputs@.contains(#[trigger] self.outputs@[j].id),
            decreases self.outputs.len() - i,
        {
            let id = self.outputs[i].id;
            let mut failed = false;
            let mut k: usize = 0;
            while k < self.failed_gamma_outputs.len()
                invariant
                    k <= self.failed_gamma_outputs@.len(),
                    failed == exists|j: int| 0 <= j < k && self.failed_gamma_outputs@[j] == id,
                decreases self.failed_gamma_outputs.len() - k,
            {
                if self.failed_gamma_outputs[k] == id {
                    failed = true;
                }
                k += 1;
            }
            if !failed {
                assert(!self.failed_gamma_outputs@.contains(id));
                assert(self@.outputs[i as int].id == id);
                assert(!self@.failed.contains(self@.outputs[i as int].id));
                return true;
            }
            i += 1;
        }
        assert forall|j: int| 0 <= j < self@.outputs.len() implies self@.failed.contains(
            #[trigger] self@.outputs[j].id,
        ) by {
            assert(self.failed_gamma_outputs@.contains(self.outputs@[j].id));
        };
        false
    }

    /// Whether the first round trips are done.
    pub fn is_ready(&self) -> (r: bool)
        ensures
            r == self@.ready,
    {
        self.ready
    }

    /// Hands out the changes gathered so far, oldest first, and forgets them.
    pub fn take_changes(&mut self) -> (r: Vec<Change>)
        requires
            old(self).wf(),
        ensures
            final(self).wf(),
            change_views(r@) == old(self)@.changes,
            final(self)@ == (StateView { changes: Seq::empty(), ..old(self)@ }),
    {
        let mut r: Vec<Change> = Vec::new();
        std::mem::swap(&mut r, &mut self.changes);
        assert(change_views(self.changes@) =~= Seq::<ChangeView>::empty());
        r
    }

    /// The outputs announced completely, in id order.
    pub fn outputs(&self) -> (r: Vec<Output>)
        ensures
            output_views(r@) == self@.outputs.filter(|o: OutputView| o.initialized),
    {
        let mut r: Vec<Output> = Vec::new();
        let mut i: usize = 0;
        while i < self.outputs.len()
            invariant
                i <= self.outputs@.len(),
                output_views(r@) == output_views(self.outputs@.take(i as int)).filter(|o: OutputView| o.initialized),
            decreases self.outputs.len() - i,
        {
            let ghost before = r@;
            if self.outputs[i].initialized {
                r.push(self.outputs[i].copy());
            }
            proof {
                let s = output_views(self.outputs@.take(i + 1));
                assert(s.drop_last() =~= output_views(self.outputs@.take(i as int)));
                reveal(Seq::filter);
                assert(output_views(r@) =~= s.filter(|o: OutputView| o.initialized));
            }
            i += 1;
        }
        assert(self.outputs@.take(self.outputs.len() as int) =~= self.outputs@);
        r
    }

    /// The seats, in id order.
    pub fn seats(&self) -> (r: Vec<Seat>)
        ensures
            seat_views(r@) == self@.seats,
    {
        let mut r: Vec<Seat> = Vec::new();
        let mut i: usize = 0;
        while i < self.seats.len()
            invariant
                i <= self.seats@.len(),
                seat_views(r@) == seat_views(self.seats@.take(i as int)),
            decreases self.seats.len() - i,
        {
            let ghost before = r@;
            r.push(self.seats[i].copy());
            assert(self.seats@.take(i + 1) =~= self.seats@.take(i as int).push(self.seats@[i as int]));
            assert(seat_views(r@) =~= seat_views(before).push(self.seats@[i as int]@));
            assert(seat_views(r@) =~= seat_views(self.seats@.take(i + 1)));
            i += 1;
        }
        assert(self.seats@.take(self.seats.len() as int) =~= self.seats@);
        r
    }

    /// The published windows, in id order.
    pub fn toplevels(&self) -> (r: Vec<Toplevel>)
        ensures
            r@.map_values(|t: Toplevel| t@) == published_views(self@.toplevels),
    {
        let mut r: Vec<Toplevel> = Vec::new();
        let mut i: usize = 0;
        while i < self.toplevels.len()
            invariant
                i <= self.toplevels@.len(),
                r@.map_values(|t: Toplevel| t@) == published_views(entry_views(self.toplevels@.take(i as int))),
            decreases self.toplevels.len() - i,
        {
            let ghost before = r@;
            match &self.toplevels[i].published {
                Some(t) => r.push(t.copy()),
                None => {},
            }
            proof {
                let s = entry_views(self.toplevels@.take(i + 1));
                assert(s.drop_last() =~= entry_views(self.toplevels@.take(i as int)));
                assert(r@.map_values(|t: Toplevel| t@) =~= published_views(s));
            }
            i += 1;
        }
        assert(self.toplevels@.take(self.toplevels.len() as int) =~= self.toplevels@);
        r
    }

    /// What an action on window `id` needs, or why it cannot be done.
    pub fn action(&self, id: u64, action: ToplevelAction) -> (r: Result<Option<u32>, &'static str>)
        requires
            self.wf(),
        ensures
            match (r, action_plan(self@, id, action)) {
                (Ok(a), Ok(b)) => a == b,
                (Err(a), Err(b)) => a@ == b,
                _ => false,
            },
    {
        proof {
            lemma_views_keyed();
            lemma_lookup_view(self.toplevels@, id as int);
        }
        match crate::keyed::position(&self.toplevels, id) {
            None => Err("This window has closed"),
            Some(_) => match action {
                ToplevelAction::Activate => if self.seats.len() == 0 {
                    Err("No Wayland seat is available to activate a window")
                } else {
                    Ok(Some(self.seats[0].id))
                },
                _ => Ok(None),
            },
        }
    }

    /// Takes out the entry of window `id` and puts back `e` in its place.
    proof fn lemma_replaced(old_entries: Seq<TopEntry>, mid: Seq<TopEntry>, fin: Seq<TopEntry>, e: TopEntry)
        requires
            ascending(old_entries),
            mid == without(old_entries, e.key()),
            fin == put(mid, e),
        ensures
            entry_views(fin) == put(entry_views(old_entries), e@),
    {
        lemma_views_keyed();
        lemma_put_without(old_entries, e);
        lemma_put_view(old_entries, e);
    }

    /// A new window was announced; it gets the next id.
    pub fn new_toplevel(&mut self) -> (r: u64)
        requires
            old(self).wf(),
            old(self)@.next_toplevel < u64::MAX,
        ensures
            final(self).wf(),
            r == old(self)@.next_toplevel + 1,
            final(self)@ == (StateView {
                next_toplevel: r,
                toplevels: old(self)@.toplevels.push(TopEntryView { pending: new_window(r), published: None }),
                ..old(self)@
            }),
    {
        self.next_toplevel = self.next_toplevel + 1;
        let id = self.next_toplevel;
        let pending = Toplevel {
            id,
            app_id: None,
            title: None,
            outputs: std::collections::BTreeSet::new(),
            parent: None,
            maximized: false,
            minimized: false,
            active: false,
            fullscreen: false,
            activation_event: false,
            entered_event: false,
        };
        let ghost before = self.toplevels@;
        self.toplevels.push(TopEntry { pending, published: None });
        assert(entry_views(self.toplevels@) =~= entry_views(before).push(
            TopEntryView { pending: new_window(id), published: None },
        ));
        id
    }

    /// Completes the batch of one entry: publishes the assembled window when it is
    /// shown, withdraws the published one otherwise, and clears the batch flags.
    fn settle(e: TopEntry, apps: &Vec<String>, titles: &Vec<String>, changes: &mut Vec<Change>) -> (r: TopEntry)
        ensures
            r@ == published_entry(e@, text_views(apps@), text_views(titles@)),
            r.key() == e.key(),
            change_views(final(changes)@) == change_views(old(changes)@) + publish_changes(
                e@,
                text_views(apps@),
                text_views(titles@),
            ),
    {
        let TopEntry { pending, published } = e;
        let mut pending = pending;
        let shown_now = pending.visible(apps, titles);
        proof {
            if pending.app_id is Some && pending.title is Some {
                lemma_text_views_contain(apps@, pending.app_id->0@);
                lemma_text_views_contain(titles@, pending.title->0@);
            }
        }
        let ghost before = old(changes)@;
        let new_published = if shown_now {
            changes.push(Change::Toplevel(pending.copy()));
            Some(pending.copy())
        } else {
            match published {
                Some(value) => {
                    changes.push(Change::ToplevelRemoved(value));
                },
                None => {},
            }
            None
        };
        assert(change_views(changes@) =~= change_views(before) + publish_changes(
            e@,
            text_views(apps@),
            text_views(titles@),
        ));
        pending.activation_event = false;
        pending.entered_event = false;
        TopEntry { pending, published: new_published }
    }

    /// The batch of window `id` is complete.
    fn publish(&mut self, id: u64)
        requires
            old(self).wf(),
        ensures
            final(self).wf(),
            match lookup(old(self)@.toplevels, id as int) {
                Some(e) => final(self)@ == published_state(old(self)@, e),
                None => final(self)@ == old(self)@,
            },
    {
        proof {
            lemma_views_keyed();
            lemma_lookup_view(self.toplevels@, id as int);
        }
        let ghost old_entries = self.toplevels@;
        match take_record(&mut self.toplevels, id) {
            None => {},
            Some(e) => {
                let ghost mid = self.toplevels@;
                let settled = State::settle(e, &self.ignored_apps, &self.ignored_titles, &mut self.changes);
                put_record(&mut self.toplevels, settled);
                proof {
                    State::lemma_replaced(old_entries, mid, self.toplevels@, settled);
                    crate::keyed::lemma_bounded(old_entries, settled, id as int, self.next_toplevel as int);
                    crate::keyed::lemma_bounded(mid, settled, id as int, self.next_toplevel as int);
                }
            },
        }
    }

    /// Window `id` closed; returns whether it was known, so its handle is destroyed.
    fn remove_toplevel(&mut self, id: u64) -> (r: bool)
        requires
            old(self).wf(),
        ensures
            final(self).wf(),
            match lookup(old(self)@.toplevels, id as int) {
                Some(e) => r && final(self)@ == closed_state(old(self)@, e),
                None => !r && final(self)@ == old(self)@,
            },
    {
        proof {
            lemma_views_keyed();
            lemma_lookup_view(self.toplevels@, id as int);
        }
        let ghost old_entries = self.toplevels@;
        match take_record(&mut self.toplevels, id) {
            None => false,
            Some(e) => {
                let ghost before = self.changes@;
                match e.published {
                    Some(value) => {
                        self.changes.push(Change::ToplevelRemoved(value));
                    },
                    None => {},
                }
                proof {
                    lemma_without_view(old_entries, id as int);
                    crate::keyed::lemma_bounded(old_entries, e, id as int, self.next_toplevel as int);
                    assert(change_views(self.changes@) =~= change_views(before) + withdrawn(e@));
                }
                true
            },
        }
    }

    /// Reports the withdrawal of each published entry, in order; returns the ids.
    fn withdraw_all(entries: &Vec<TopEntry>, changes: &mut Vec<Change>) -> (r: Vec<u64>)
        ensures
            r@ == entry_ids(entry_views(entries@)),
            change_views(final(changes)@) == change_views(old(changes)@) + removal_changes(entry_views(entries@)),
    {
        let ghost start = changes@;
        let mut ids: Vec<u64> = Vec::new();
        let mut i: usize = 0;
        while i < entries.len()
            invariant
                i <= entries@.len(),
                change_views(changes@) == change_views(start) + removal_changes(entry_views(entries@.take(i as int))),
                ids@ == entry_ids(entry_views(entries@.take(i as int))),
            decreases entries.len() - i,
        {
            let ghost before = changes@;
            let ghost prefix = entry_views(entries@.take(i + 1));
            assert(prefix.drop_last() =~= entry_views(entries@.take(i as int)));
            ids.push(entries[i].pending.id);
            match &entries[i].published {
                Some(value) => {
                    changes.push(Change::ToplevelRemoved(value.copy()));
                },
                None => {},
            }
            assert(change_views(changes@) =~= change_views(before) + withdrawn(prefix.last()));
            assert(change_views(changes@) =~= change_views(start) + removal_changes(prefix));
            assert(ids@ =~= entry_ids(prefix));
            i += 1;
        }
        assert(entries@.take(entries.len() as int) =~= entries@);
        ids
    }

    /// Forgets every window, in id order; returns their ids, whose handles are destroyed.
    fn remove_all_toplevels(&mut self) -> (r: Vec<u64>)
        requires
            old(self).wf(),
        ensures
            final(self).wf(),
            r@ == entry_ids(old(self)@.toplevels),
            final(self)@ == (StateView {
                toplevels: Seq::empty(),
                changes: old(self)@.changes + removal_changes(old(self)@.toplevels),
                ..old(self)@
            }),
    {
        let mut entries: Vec<TopEntry> = Vec::new();
        std::mem::swap(&mut entries, &mut self.toplevels);
        let ids = State::withdraw_all(&entries, &mut self.changes);
        assert(entry_views(self.toplevels@) =~= Seq::<TopEntryView>::empty());
        ids
    }

    /// Applies to an entry an event that neither completes its batch nor closes it.
    fn amend(e: TopEntry, event: ToplevelEvent, changes: &mut Vec<Change>) -> (r: TopEntry)
        requires
            !(event is Done),
            !(event is Closed),
        ensures
            r.key() == e.key(),
            amended(e@, r@, event, change_views(old(changes)@), change_views(final(changes)@)),
    {
        let mut e = e;
        match event {
            ToplevelEvent::Title(t) => {
                e.pending.title = Some(t);
            },
            ToplevelEvent::AppId(a) => {
                e.pending.app_id = Some(a);
            },
            ToplevelEvent::OutputEnter(o) => {
                match o {
                    Some(x) => {
                        e.pending.outputs.insert(x);
                    },
                    None => {},
                }
                e.pending.entered_event = true;
            },
            ToplevelEvent::OutputLeave(o) => {
                match o {
                    Some(x) => {
                        e.pending.outputs.remove(&x);
                    },
                    None => {},
                }
                e.pending.entered_event = false;
            },
            ToplevelEvent::State(bytes) => {
                let ghost before_pending = e.pending;
                match e.pending.apply_state(bytes.as_slice()) {
                    Ok(()) => {
                        proof {
                            let values = choose|values: Seq<u32>|
                                native_values(bytes@, values) && #[trigger] crate::wayland::model::state_applied(
                                    before_pending,
                                    e.pending,
                                    values,
                                );
                            lemma_flags_view(before_pending, e.pending, values);
                        }
                    },
                    Err(error) => {
                        let ghost before = changes@;
                        changes.push(Change::Diagnostic(error.to_owned()));
                        assert(change_views(changes@) =~= change_views(before).push(
                            ChangeView::Diagnostic(bad_state_text()),
                        ));
                    },
                }
            },
            ToplevelEvent::Parent(parent) => {
                e.pending.parent = parent;
            },
            _ => {},
        }
        e
    }

    /// Applies an event on window `id`; returns whether its handle must be destroyed.
    pub fn toplevel_event(&mut self, id: u64, event: ToplevelEvent) -> (r: bool)
        requires
            old(self).wf(),
        ensures
            final(self).wf(),
            toplevel_stepped(old(self)@, final(self)@, id, event, r),
    {
        proof {
            lemma_views_keyed();
            lemma_lookup_view(self.toplevels@, id as int);
        }
        match event {
            ToplevelEvent::Done => {
                self.publish(id);
                return false;
            },
            ToplevelEvent::Closed => {
                return self.remove_toplevel(id);
            },
            _ => {},
        }
        let ghost old_entries = self.toplevels@;
        let ghost old_view = self@;
        match take_record(&mut self.toplevels, id) {
            None => false,
            Some(e) => {
                let ghost mid = self.toplevels@;
                let ghost e0 = e;
                let ghost c0 = self@.changes;
                let amended = State::amend(e, event, &mut self.changes);
                put_record(&mut self.toplevels, amended);
                proof {
                    State::lemma_replaced(old_entries, mid, self.toplevels@, amended);
                    crate::keyed::lemma_bounded(old_entries, amended, id as int, self.next_toplevel as int);
                    crate::keyed::lemma_bounded(mid, amended, id as int, self.next_toplevel as int);
                    lemma_ascending_view(old_entries);
                    lemma_amended_step(old_view, self@, id, event, e0@, amended@);
                }
                false
            },
        }
    }

    /// Completes the batch of each entry, in order, under the ignore lists given.
    fn settle_all(entries: &Vec<TopEntry>, apps: &Vec<String>, titles: &Vec<String>, changes: &mut Vec<Change>) -> (r: Vec<TopEntry>)
        requires
            ascending(entries@),
        ensures
            ascending(r@),
            forall|i: int| 0 <= i < r@.len() ==> #[trigger] r@[i].key() == entries@[i].key(),
            r@.len() == entries@.len(),
            entry_views(r@) == entry_views(entries@).map_values(
                |e: TopEntryView| published_entry(e, text_views(apps@), text_views(titles@)),
            ),
            change_views(final(changes)@) == change_views(old(changes)@) + republish_changes(
                entry_views(entries@),
                text_views(apps@),
                text_views(titles@),
            ),
    {
        let ghost a = text_views(apps@);
        let ghost t = text_views(titles@);
        let ghost start = changes@;
        let mut settled: Vec<TopEntry> = Vec::new();
        let mut i: usize = 0;
        while i < entries.len()
            invariant
                i <= entries@.len(),
                a == text_views(apps@),
                t == text_views(titles@),
                settled@.len() == i,
                forall|j: int| 0 <= j < i ==> #[trigger] settled@[j].key() == entries@[j].key(),
                entry_views(settled@) == entry_views(entries@.take(i as int)).map_values(
                    |e: TopEntryView| published_entry(e, a, t),
                ),
                change_views(changes@) == change_views(start) + republish_changes(
                    entry_views(entries@.take(i as int)),
                    a,
                    t,
                ),
            decreases entries.len() - i,
        {
            let ghost prefix = entry_views(entries@.take(i + 1));
            assert(prefix.drop_last() =~= entry_views(entries@.take(i as int)));
            assert(prefix.last() == entries@[i as int]@);
            let e = entries[i].copy();
            let s = State::settle(e, apps, titles, changes);
            let ghost before = settled@;
            settled.push(s);
            assert(entry_views(settled@) =~= entry_views(before).push(s@));
            assert(prefix.map_values(|e: TopEntryView| published_entry(e, a, t)) =~= prefix.drop_last().map_values(
                |e: TopEntryView| published_entry(e, a, t),
            ).push(published_entry(prefix.last(), a, t)));
            i += 1;
        }
        assert(entries@.take(entries.len() as int) =~= entries@);
        assert forall|x: int, y: int| 0 <= x < y < settled@.len() implies #[trigger] settled@[x].key()
            < #[trigger] settled@[y].key() by {
            assert(entries@[x].key() < entries@[y].key());
        };
        settled
    }

    /// Replaces the ignore sets with the colon-separated names given, and completes
    /// every window's batch again under them, in id order.
    pub fn ignored(&mut self, apps: &str, titles: &str)
        requires
            old(self).wf(),
        ensures
            final(self).wf(),
            ignore_set(apps@, final(self)@.ignored_apps),
            ignore_set(titles@, final(self)@.ignored_titles),
            final(self)@ == (StateView {
                ignored_apps: final(self)@.ignored_apps,
                ignored_titles: final(self)@.ignored_titles,
                toplevels: republished(old(self)@.toplevels, final(self)@.ignored_apps, final(self)@.ignored_titles),
                changes: old(self)@.changes + republish_changes(
                    old(self)@.toplevels,
                    final(self)@.ignored_apps,
                    final(self)@.ignored_titles,
                ),
                ..old(self)@
            }),
    {
        self.ignored_apps = crate::wayland::model::ignored(apps);
        self.ignored_titles = crate::wayland::model::ignored(titles);
        assert(text_views(self.ignored_apps@) =~= name_views(self.ignored_apps@));
        assert(text_views(self.ignored_titles@) =~= name_views(self.ignored_titles@));
        let mut entries: Vec<TopEntry> = Vec::new();
        std::mem::swap(&mut entries, &mut self.toplevels);
        let settled = State::settle_all(&entries, &self.ignored_apps, &self.ignored_titles, &mut self.changes);
        self.toplevels = settled;
        assert forall|i: int| 0 <= i < self.toplevels@.len() implies #[trigger] self.toplevels@[i].key()
            <= self.next_toplevel by {
            assert(self.toplevels@[i].key() == entries@[i].key());
        };
    }

    /// A global was advertised; returns what to bind for it.
    pub fn global(&mut self, name: u32, interface: &str, advertised: u32) -> (r: Option<Bind>)
        requires
            old(self).wf(),
        ensures
            final(self).wf(),
            (final(self)@, r) == global_step(old(self)@, name, interface@, advertised),
    {
        let version = match bind_version(interface, advertised) {
            Some(v) => v,
            None => {
                return None;
            },
        };
        let ghost v0 = self@;
        let r = if str_eq(interface, "wl_output") {
            let g = self.add_output(name);
            Some(Bind::Output { version, gamma: g })
        } else if str_eq(interface, "wl_seat") {
            let ghost seats = self.seats@;
            let seat = Seat { id: name, name: None, capabilities: 0 };
            put_record(&mut self.seats, seat);
            proof {
                lemma_put_view(seats, seat);
            }
            Some(Bind::Seat(version))
        } else if str_eq(interface, "zwlr_foreign_toplevel_manager_v1") && self.foreign.is_none() {
            self.foreign = Some(name);
            Some(Bind::ForeignManager(version))
        } else if str_eq(interface, "zwlr_gamma_control_manager_v1") && self.gamma_manager.is_none() {
            self.gamma_manager = Some(name);
            Some(Bind::GammaManager(version))
        } else {
            if str_eq(interface, "zwp_keyboard_shortcuts_inhibit_manager_v1") {
                self.shortcut_manager = Some(name);
            }
            None
        };
        assert(self@ == global_bound(v0, name, interface@));
        assert(r == global_bind(v0, name, interface@, version));
        let ghost before = self.changes@;
        self.changes.push(Change::Capabilities);
        proof {
            assert(change_views(self.changes@) =~= change_views(before).push(ChangeView::Capabilities));
        }
        r
    }

    /// Output `name` was bound: it is recorded, and gets a gamma control when a
    /// temperature is set; returns whether the caller creates that control.
    fn add_output(&mut self, name: u32) -> (r: bool)
        requires
            old(self).wf(),
        ensures
            final(self).wf(),
            r == control_added(old(self)@, name),
            ({
                let after = StateView {
                    outputs: put(old(self)@.outputs, new_output(name)),
                    gamma: if r {
                        put(old(self)@.gamma, new_control(name))
                    } else {
                        old(self)@.gamma
                    },
                    ..old(self)@
                };
                final(self)@ == StateView {
                    changes: old(self)@.changes + flip(gamma_on(old(self)@), gamma_on(after)),
                    ..after
                }
            }),
    {
        proof {
            lemma_views_keyed();
        }
        let was = self.gamma_enabled();
        let ghost outs = self.outputs@;
        let o = Output {
            id: name,
            name: None,
            description: None,
            make: String::new(),
            model: String::new(),
            initialized: false,
            scale: 1,
            width: 0,
            height: 0,
        };
        put_record(&mut self.outputs, o);
        proof {
            lemma_put_view(outs, o);
            assert(o@ == new_output(name));
            crate::keyed::lemma_put_has(output_views(outs), o@);
        }
        let g = self.add_gamma(name);
        let now = self.gamma_enabled();
        let ghost before = self.changes@;
        if was != now {
            self.changes.push(Change::Gamma(now));
        }
        assert(change_views(self.changes@) =~= change_views(before) + flip(was, now));
        g
    }

    /// Gives output `id` a gamma control when a temperature is set, the manager is
    /// bound, the output exists and has none; returns whether the caller creates one.
    fn add_gamma(&mut self, id: u32) -> (r: bool)
        requires
            old(self).wf(),
        ensures
            final(self).wf(),
            r == (control_added(old(self)@, id) && has_key(old(self)@.outputs, id as int)),
            final(self)@ == (StateView {
                gamma: if r {
                    put(old(self)@.gamma, new_control(id))
                } else {
                    old(self)@.gamma
                },
                ..old(self)@
            }),
    {
        proof {
            lemma_views_keyed();
            lemma_lookup_view(self.outputs@, id as int);
        }
        if self.temperature.is_none() || self.gamma_manager.is_none() {
            return false;
        }
        if crate::keyed::position(&self.gamma, id as u64).is_some() {
            return false;
        }
        if crate::keyed::position(&self.outputs, id as u64).is_none() {
            return false;
        }
        put_record(&mut self.gamma, GammaControl { output: id, size: 0 });
        true
    }

    /// The entries, none of them naming output `id`.
    fn forget_all(entries: &Vec<TopEntry>, id: u32) -> (r: Vec<TopEntry>)
        ensures
            r@.len() == entries@.len(),
            forall|i: int| 0 <= i < r@.len() ==> #[trigger] r@[i].key() == entries@[i].key(),
            entry_views(r@) == forget_output_all(entry_views(entries@), id),
    {
        let mut r: Vec<TopEntry> = Vec::new();
        let mut i: usize = 0;
        while i < entries.len()
            invariant
                i <= entries@.len(),
                r@.len() == i,
                forall|j: int| 0 <= j < i ==> #[trigger] r@[j].key() == entries@[j].key(),
                entry_views(r@) == forget_output_all(entry_views(entries@.take(i as int)), id),
            decreases entries.len() - i,
        {
            let mut e = entries[i].copy();
            e.pending.outputs.remove(&id);
            let published = match &e.published {
                Some(p) => {
                    let mut p = p.copy();
                    p.outputs.remove(&id);
                    Some(p)
                },
                None => None,
            };
            e.published = published;
            let ghost before = r@;
            r.push(e);
            proof {
                let prefix = entry_views(entries@.take(i + 1));
                assert(prefix.drop_last() =~= entry_views(entries@.take(i as int)));
                assert(prefix.last() == entries@[i as int]@);
                assert(entry_views(r@) =~= entry_views(before).push(e@));
                assert(forget_output_all(prefix, id) =~= forget_output_all(prefix.drop_last(), id).push(
                    forget_output(prefix.last(), id),
                ));
            }
            i += 1;
        }
        assert(entries@.take(entries.len() as int) =~= entries@);
        r
    }

    /// Output `name` went away; returns whether there was one, and whether it had a
    /// gamma control; the caller releases the one and destroys the other.
    fn drop_output(&mut self, name: u32) -> (r: (bool, bool))
        requires
            old(self).wf(),
        ensures
            final(self).wf(),
            final(self)@ == output_gone(old(self)@, name),
            r.0 == has_key(old(self)@.outputs, name as int),
            r.1 == (r.0 && has_key(old(self)@.gamma, name as int)),
    {
        proof {
            lemma_views_keyed();
            lemma_lookup_view(self.outputs@, name as int);
        }
        let ghost v0 = self@;
        let ghost outs = self.outputs@;
        let was = self.gamma_enabled();
        match take_record(&mut self.outputs, name as u64) {
            None => (false, false),
            Some(o) => {
                id_remove(&mut self.failed_gamma_outputs, name);
                let g = take_record(&mut self.gamma, name as u64);
                let ghost entries = self.toplevels@;
                let forgotten = State::forget_all(&self.toplevels, name);
                self.toplevels = forgotten;
                assert forall|i: int| 0 <= i < self.toplevels@.len() implies #[trigger] self.toplevels@[i].key()
                    <= self.next_toplevel by {
                    assert(self.toplevels@[i].key() == entries[i].key());
                };
                assert forall|x: int, y: int| 0 <= x < y < self.toplevels@.len() implies #[trigger] self.toplevels@[x].key()
                    < #[trigger] self.toplevels@[y].key() by {
                    assert(entries[x].key() < entries[y].key());
                };
                let ghost before = self.changes@;
                self.changes.push(Change::OutputRemoved(o));
                let now = self.gamma_enabled();
                if was != now {
                    self.changes.push(Change::Gamma(now));
                }
                proof {
                    lemma_without_view(outs, name as int);
                    assert(change_views(self.changes@) =~= change_views(before).push(ChangeView::OutputRemoved(o@))
                        + flip(was, now));
                }
                (true, g.is_some())
            },
        }
    }

    /// Switches applied temperature off; returns the outputs whose gamma controls the
    /// caller destroys, in id order.
    pub fn disable_gamma(&mut self) -> (r: Vec<u32>)
        requires
            old(self).wf(),
        ensures
            final(self).wf(),
            r@ == control_ids(old(self)@.gamma),
            final(self)@ == gamma_off(old(self)@),
    {
        let was = self.gamma_enabled();
        self.temperature = None;
        let mut controls: Vec<GammaControl> = Vec::new();
        std::mem::swap(&mut controls, &mut self.gamma);
        let mut ids: Vec<u32> = Vec::new();
        let mut i: usize = 0;
        while i < controls.len()
            invariant
                i <= controls@.len(),
                ids@ == control_ids(controls@.take(i as int)),
            decreases controls.len() - i,
        {
            ids.push(controls[i].output);
            assert(control_ids(controls@.take(i + 1)) =~= control_ids(controls@.take(i as int)).push(
                controls@[i as int].output,
            ));
            i += 1;
        }
        assert(controls@.take(controls.len() as int) =~= controls@);
        let ghost before = self.changes@;
        if was {
            self.changes.push(Change::Gamma(false));
        }
        assert(change_views(self.changes@) =~= change_views(before) + flip(was, false));
        ids
    }

    /// Global `name` went away; returns what the caller releases or destroys.
    pub fn global_remove(&mut self, name: u32) -> (r: Removal)
        requires
            old(self).wf(),
        ensures
            final(self).wf(),
            final(self)@ == remove_step(old(self)@, name),
            r.output == has_key(old(self)@.outputs, name as int),
            r.output_gamma == (r.output && has_key(old(self)@.gamma, name as int)),
            r.seat == has_key(old(self)@.seats, name as int),
            r.foreign == (old(self)@.foreign == Some(name)),
            r.toplevels@ == (if r.foreign {
                entry_ids(old(self)@.toplevels)
            } else {
                Seq::empty()
            }),
            r.gamma_manager == (old(self)@.gamma_manager == Some(name)),
            r.controls@ == (if r.gamma_manager {
                control_ids(output_gone(old(self)@, name).gamma)
            } else {
                Seq::empty()
            }),
    {
        proof {
            lemma_views_keyed();
        }
        let ghost v0 = self@;
        let (output, output_gamma) = self.drop_output(name);
        let ghost v1 = self@;
        proof {
            lemma_lookup_view(self.seats@, name as int);
        }
        let ghost seats = self.seats@;
        let seat = take_record(&mut self.seats, name as u64).is_some();
        proof {
            lemma_without_view(seats, name as int);
            assert(entry_ids(v1.toplevels) =~= entry_ids(v0.toplevels));
        }
        let mut foreign = false;
        let mut toplevels: Vec<u64> = Vec::new();
        if self.foreign == Some(name) {
            self.foreign = None;
            foreign = true;
            toplevels = self.remove_all_toplevels();
        }
        let mut gamma_manager = false;
        let mut controls: Vec<u32> = Vec::new();
        if self.gamma_manager == Some(name) {
            controls = self.disable_gamma();
            self.failed_gamma_outputs = Vec::new();
            self.gamma_manager = None;
            gamma_manager = true;
            assert(self@.failed =~= Set::<u32>::empty());
        }
        if self.shortcut_manager == Some(name) {
            self.shortcut_manager = None;
        }
        let ghost before = self.changes@;
        self.changes.push(Change::Capabilities);
        assert(change_views(self.changes@) =~= change_views(before).push(ChangeView::Capabilities));
        Removal { output, output_gamma, seat, foreign, toplevels, gamma_manager, controls }
    }

    /// The foreign toplevel manager finished; returns the windows whose handles the
    /// caller destroys, in id order.
    pub fn foreign_finished(&mut self) -> (r: Vec<u64>)
        requires
            old(self).wf(),
        ensures
            final(self).wf(),
            r@ == entry_ids(old(self)@.toplevels),
            final(self)@ == (StateView {
                foreign: None,
                toplevels: Seq::empty(),
                changes: old(self)@.changes + removal_changes(old(self)@.toplevels) + seq![ChangeView::Capabilities],
                ..old(self)@
            }),
    {
        let ghost start = self@.changes;
        self.foreign = None;
        let ids = self.remove_all_toplevels();
        let ghost before = self.changes@;
        self.changes.push(Change::Capabilities);
        assert(change_views(self.changes@) =~= change_views(before).push(ChangeView::Capabilities));
        assert(change_views(self.changes@) =~= start + removal_changes(old(self)@.toplevels) + seq![ChangeView::Capabilities]);
        ids
    }

    /// A display round trip completed. After the second, every output is taken as
    /// announced and the state is ready; returns whether another round trip is due.
    pub fn sync_done(&mut self, second: bool) -> (r: bool)
        requires
            old(self).wf(),
        ensures
            final(self).wf(),
            r == !second,
            !second ==> final(self)@ == old(self)@,
            second ==> final(self)@ == (StateView {
                outputs: old(self)@.outputs.map_values(|o: OutputView| announced(o)),
                ready: true,
                changes: old(self)@.changes + announce_changes(old(self)@.outputs) + seq![ChangeView::Ready],
                ..old(self)@
            }),
    {
        if !second {
            return true;
        }
        let mut outputs: Vec<Output> = Vec::new();
        std::mem::swap(&mut outputs, &mut self.outputs);
        let announced_all = State::announce_all(&outputs, &mut self.changes);
        self.outputs = announced_all;
        assert forall|x: int, y: int| 0 <= x < y < self.outputs@.len() implies #[trigger] self.outputs@[x].key()
            < #[trigger] self.outputs@[y].key() by {
            assert(outputs@[x].key() < outputs@[y].key());
        };
        self.ready = true;
        let ghost before = self.changes@;
        self.changes.push(Change::Ready);
        assert(change_views(self.changes@) =~= change_views(before).push(ChangeView::Ready));
        assert(change_views(self.changes@) =~= old(self)@.changes + announce_changes(old(self)@.outputs) + seq![
            ChangeView::Ready,
        ]);
        false
    }

    /// Marks each output announced, reporting those that were not, in order.
    fn announce_all(outputs: &Vec<Output>, changes: &mut Vec<Change>) -> (r: Vec<Output>)
        ensures
            r@.len() == outputs@.len(),
            forall|i: int| 0 <= i < r@.len() ==> #[trigger] r@[i].key() == outputs@[i].key(),
            output_views(r@) == output_views(outputs@).map_values(|o: OutputView| announced(o)),
            change_views(final(changes)@) == change_views(old(changes)@) + announce_changes(output_views(outputs@)),
    {
        let ghost start = changes@;
        let mut r: Vec<Output> = Vec::new();
        let mut i: usize = 0;
        while i < outputs.len()
            invariant
                i <= outputs@.len(),
                r@.len() == i,
                forall|j: int| 0 <= j < i ==> #[trigger] r@[j].key() == outputs@[j].key(),
                output_views(r@) == output_views(outputs@.take(i as int)).map_values(|o: OutputView| announced(o)),
                change_views(changes@) == change_views(start) + announce_changes(output_views(outputs@.take(i as int))),
            decreases outputs.len() - i,
        {
            let ghost prefix = output_views(outputs@.take(i + 1));
            assert(prefix.drop_last() =~= output_views(outputs@.take(i as int)));
            assert(prefix.last() == outputs@[i as int]@);
            let mut o = outputs[i].copy();
            let ghost before = changes@;
            if !o.initialized {
                o.initialized = true;
                changes.push(Change::Output(o.copy()));
                assert(change_views(changes@) =~= change_views(before).push(ChangeView::Output(announced(prefix.last()))));
            } else {
                o.initialized = true;
                assert(change_views(changes@) =~= change_views(before) + Seq::<ChangeView>::empty());
            }
            assert(announce_changes(prefix) == announce_changes(prefix.drop_last()) + if prefix.last().initialized {
                Seq::<ChangeView>::empty()
            } else {
                seq![ChangeView::Output(announced(prefix.last()))]
            });
            assert(change_views(changes@) =~= change_views(start) + announce_changes(prefix));
            let ghost rb = r@;
            r.push(o);
            assert(output_views(r@) =~= output_views(rb).push(o@));
            assert(prefix.map_values(|o: OutputView| announced(o)) =~= prefix.drop_last().map_values(
                |o: OutputView| announced(o),
            ).push(announced(prefix.last())));
            i += 1;
        }
        assert(outputs@.take(outputs.len() as int) =~= outputs@);
        r
    }

    /// An event on output `id`; after any event of a version 1 output, once ready, the
    /// output is taken as announced and reported.
    pub fn output_event(&mut self, id: u32, event: OutputEvent, version_one: bool)
        requires
            old(self).wf(),
        ensures
            final(self).wf(),
            match lookup(old(self)@.outputs, id as int) {
                None => final(self)@ == old(self)@,
                Some(o) => {
                    let o1 = output_updated(o, event);
                    let again = version_one && old(self)@.ready;
                    let o2 = if again {
                        announced(o1)
                    } else {
                        o1
                    };
                    final(self)@ == StateView {
                        outputs: put(old(self)@.outputs, o2),
                        changes: old(self)@.changes + (if event is Done {
                            seq![ChangeView::Output(o1)]
                        } else {
                            Seq::empty()
                        }) + (if again {
                            seq![ChangeView::Output(o2)]
                        } else {
                            Seq::empty()
                        }),
                        ..old(self)@
                    }
                },
            },
    {
        proof {
            lemma_views_keyed();
            lemma_lookup_view(self.outputs@, id as int);
        }
        let ghost outs = self.outputs@;
        let ghost start = self.changes@;
        match take_record(&mut self.outputs, id as u64) {
            None => {},
            Some(o) => {
                let ghost mid = self.outputs@;
                let mut o = o;
                let done = match event {
                    OutputEvent::Geometry { make, model } => {
                        o.make = make;
                        o.model = model;
                        false
                    },
                    OutputEvent::Name(n) => {
                        o.name = Some(n);
                        false
                    },
                    OutputEvent::Description(d) => {
                        o.description = Some(d);
                        false
                    },
                    OutputEvent::Scale(f) => {
                        o.scale = f;
                        false
                    },
                    OutputEvent::Mode { current, width, height } => {
                        if current {
                            o.width = width;
                            o.height = height;
                        }
                        false
                    },
                    OutputEvent::Done => {
                        o.initialized = true;
                        true
                    },
                    OutputEvent::Other => false,
                };
                if done {
                    self.changes.push(Change::Output(o.copy()));
                }
                let ghost mid_changes = self.changes@;
                if version_one && self.ready {
                    o.initialized = true;
                    self.changes.push(Change::Output(o.copy()));
                }
                put_record(&mut self.outputs, o);
                proof {
                    lemma_put_without(outs, o);
                    lemma_put_view(outs, o);
                }
                assert(change_views(self.changes@) =~= change_views(start) + (if event is Done {
                    seq![ChangeView::Output(output_updated(lookup(output_views(outs), id as int)->0, event))]
                } else {
                    Seq::empty()
                }) + (if version_one && self.ready {
                    seq![ChangeView::Output(o@)]
                } else {
                    Seq::empty()
                }));
            },
        }
    }

    /// An event on seat `id`.
    pub fn seat_event(&mut self, id: u32, event: SeatEvent)
        requires
            old(self).wf(),
        ensures
            final(self).wf(),
            match lookup(old(self)@.seats, id as int) {
                None => final(self)@ == old(self)@,
                Some(s) => final(self)@ == StateView { seats: put(old(self)@.seats, seat_updated(s, event)), ..old(self)@ },
            },
    {
        proof {
            lemma_views_keyed();
            lemma_lookup_view(self.seats@, id as int);
        }
        let ghost seats = self.seats@;
        match take_record(&mut self.seats, id as u64) {
            None => {},
            Some(s) => {
                let mut s = s;
                match event {
                    SeatEvent::Name(n) => {
                        s.name = Some(n);
                    },
                    SeatEvent::Capabilities(c) => {
                        s.capabilities = c;
                    },
                    SeatEvent::Other => {},
                }
                put_record(&mut self.seats, s);
                proof {
                    lemma_put_without(seats, s);
                    lemma_put_view(seats, s);
                }
            },
        }
    }

    /// The compositor announced the ramp size of output `id`'s gamma control; returns
    /// the temperature the caller applies through it, if one is set.
    pub fn gamma_size(&mut self, id: u32, size: u32) -> (r: Option<u32>)
        requires
            old(self).wf(),
        ensures
            final(self).wf(),
            has_key(old(self)@.gamma, id as int) ==> r == old(self)@.temperature && final(self)@ == (StateView {
                gamma: put(old(self)@.gamma, GammaControl { output: id, size }),
                ..old(self)@
            }),
            !has_key(old(self)@.gamma, id as int) ==> r is None && final(self)@ == old(self)@,
    {
        let ghost g = self.gamma@;
        match take_record(&mut self.gamma, id as u64) {
            None => None,
            Some(_) => {
                put_record(&mut self.gamma, GammaControl { output: id, size });
                proof {
                    lemma_put_without(g, GammaControl { output: id, size });
                }
                self.temperature
            },
        }
    }

    /// Applying the temperature through output `id`'s newly sized control failed with
    /// `error`: the control is given up and the output marked failed; returns whether
    /// the caller destroys a control.
    pub fn gamma_rejected(&mut self, id: u32, error: String) -> (r: bool)
        requires
            old(self).wf(),
        ensures
            final(self).wf(),
            r == has_key(old(self)@.gamma, id as int),
            final(self)@ == (StateView {
                changes: old(self)@.changes + seq![ChangeView::Diagnostic(error@), ChangeView::Capabilities] + flip(
                    gamma_on(old(self)@),
                    gamma_on(control_lost(old(self)@, id)),
                ),
                ..control_lost(old(self)@, id)
            }),
    {
        let ghost start = self.changes@;
        let ghost e = error@;
        self.changes.push(Change::Diagnostic(error));
        id_insert(&mut self.failed_gamma_outputs, id);
        self.changes.push(Change::Capabilities);
        let was = self.gamma_enabled();
        let removed = take_record(&mut self.gamma, id as u64).is_some();
        let now = self.gamma_enabled();
        let ghost mid = self.changes@;
        if was != now {
            self.changes.push(Change::Gamma(now));
        }
        assert(change_views(self.changes@) =~= change_views(start) + seq![ChangeView::Diagnostic(e), ChangeView::Capabilities]
            + flip(was, now));
        removed
    }

    /// Output `id`'s gamma control failed, most likely because another program owns
    /// it: the control is given up and the output marked failed; returns whether the
    /// caller destroys a control.
    pub fn gamma_failed(&mut self, id: u32) -> (r: bool)
        requires
            old(self).wf(),
        ensures
            final(self).wf(),
            r == has_key(old(self)@.gamma, id as int),
            final(self)@ == (StateView {
                changes: old(self)@.changes + seq![
                    ChangeView::Capabilities,
                    ChangeView::Diagnostic(control_failure_text(id)),
                ] + flip(gamma_on(old(self)@), gamma_on(control_lost(old(self)@, id))),
                ..control_lost(old(self)@, id)
            }),
    {
        let ghost start = self.changes@;
        id_insert(&mut self.failed_gamma_outputs, id);
        self.changes.push(Change::Capabilities);
        let was = self.gamma_enabled();
        let removed = take_record(&mut self.gamma, id as u64).is_some();
        let mut text = String::new();
        append(&mut text, "Gamma control unavailable for output ");
        let number = decimal_string(id as u64);
        append(&mut text, number.as_str());
        append(&mut text, "; another program may own it");
        let ghost t = text@;
        self.changes.push(Change::Diagnostic(text));
        let now = self.gamma_enabled();
        if was != now {
            self.changes.push(Change::Gamma(now));
        }
        assert(t =~= control_failure_text(id));
        assert(change_views(self.changes@) =~= change_views(start) + seq![
            ChangeView::Capabilities,
            ChangeView::Diagnostic(control_failure_text(id)),
        ] + flip(was, now));
        removed
    }

    /// Adds a gamma control for each output that has none, in order; returns the
    /// outputs that got one.
    fn add_controls(gamma: &mut Vec<GammaControl>, outputs: &Vec<Output>) -> (r: Vec<u32>)
        requires
            ascending(old(gamma)@),
        ensures
            ascending(final(gamma)@),
            final(gamma)@ == added_controls(old(gamma)@, output_views(outputs@)),
            r@ == created_ids(old(gamma)@, output_views(outputs@)),
    {
        let ghost g0 = gamma@;
        let mut created: Vec<u32> = Vec::new();
        let mut i: usize = 0;
        while i < outputs.len()
            invariant
                i <= outputs@.len(),
                ascending(gamma@),
                gamma@ == added_controls(g0, output_views(outputs@.take(i as int))),
                created@ == created_ids(g0, output_views(outputs@.take(i as int))),
            decreases outputs.len() - i,
        {
            let ghost prefix = output_views(outputs@.take(i + 1));
            assert(prefix.drop_last() =~= output_views(outputs@.take(i as int)));
            assert(prefix.last().id == outputs@[i as int].id);
            let id = outputs[i].id;
            if crate::keyed::position(gamma, id as u64).is_none() {
                put_record(gamma, GammaControl { output: id, size: 0 });
                created.push(id);
            }
            i += 1;
        }
        assert(outputs@.take(outputs.len() as int) =~= outputs@);
        created
    }

    /// The sized gamma controls, in order.
    fn sized_controls(gamma: &Vec<GammaControl>) -> (r: Vec<GammaControl>)
        ensures
            r@ == gamma@.filter(|c: GammaControl| sized(c)),
    {
        let mut r: Vec<GammaControl> = Vec::new();
        let mut i: usize = 0;
        while i < gamma.len()
            invariant
                i <= gamma@.len(),
                r@ == gamma@.take(i as int).filter(|c: GammaControl| sized(c)),
            decreases gamma.len() - i,
        {
            proof {
                reveal(Seq::filter);
                assert(gamma@.take(i + 1).drop_last() =~= gamma@.take(i as int));
            }
            if gamma[i].size > 0 {
                r.push(gamma[i]);
            }
            i += 1;
        }
        assert(gamma@.take(gamma.len() as int) =~= gamma@);
        r
    }

    /// Asks for colour temperature `temperature`: 1000 K to 25000 K, with the gamma
    /// control manager bound. Failures are forgotten and every output gets a control;
    /// returns what the caller does next.
    pub fn set_temperature(&mut self, temperature: u32) -> (r: Result<TemperaturePlan, GammaError>)
        requires
            old(self).wf(),
        ensures
            final(self).wf(),
            match temperature_check(temperature, old(self)@.gamma_manager is Some) {
                Err(e) => r == Err::<TemperaturePlan, GammaError>(e) && final(self)@ == old(self)@,
                Ok(()) => r matches Ok(plan) && plan.was_enabled == gamma_on(old(self)@) && plan.created@ == created_ids(
                    old(self)@.gamma,
                    old(self)@.outputs,
                ) && plan.apply@ == added_controls(old(self)@.gamma, old(self)@.outputs).filter(
                    |c: GammaControl| sized(c),
                ) && final(self)@ == (StateView {
                    failed: Set::empty(),
                    temperature: Some(temperature),
                    gamma: added_controls(old(self)@.gamma, old(self)@.outputs),
                    ..old(self)@
                }),
            },
    {
        match check_temperature(temperature, self.gamma_manager.is_some()) {
            Err(e) => {
                return Err(e);
            },
            Ok(()) => {},
        }
        let was_enabled = self.gamma_enabled();
        self.failed_gamma_outputs = Vec::new();
        self.temperature = Some(temperature);
        let created = State::add_controls(&mut self.gamma, &self.outputs);
        let apply = State::sized_controls(&self.gamma);
        assert(self@.failed =~= Set::<u32>::empty());
        Ok(TemperaturePlan { was_enabled, created, apply })
    }

    /// The caller applied a temperature; `errors` are the failures it met, in order.
    pub fn temperature_applied(&mut self, was_enabled: bool, errors: Vec<String>)
        requires
            old(self).wf(),
        ensures
            final(self).wf(),
            final(self)@ == (StateView {
                changes: old(self)@.changes + errors@.map_values(|e: String| ChangeView::Diagnostic(e@)) + flip(
                    was_enabled,
                    gamma_on(old(self)@),
                ) + seq![ChangeView::Capabilities],
                ..old(self)@
            }),
    {
        State::report_errors(&errors, &mut self.changes);
        let now = self.gamma_enabled();
        let ghost mid = self.changes@;
        if was_enabled != now {
            self.changes.push(Change::Gamma(now));
        }
        self.changes.push(Change::Capabilities);
        assert(change_views(self.changes@) =~= change_views(mid) + flip(was_enabled, now) + seq![ChangeView::Capabilities]);
    }

    /// Reports each error, in order.
    fn report_errors(errors: &Vec<String>, changes: &mut Vec<Change>)
        ensures
            change_views(final(changes)@) == change_views(old(changes)@) + errors@.map_values(
                |e: String| ChangeView::Diagnostic(e@),
            ),
    {
        let ghost start = changes@;
        let mut i: usize = 0;
        while i < errors.len()
            invariant
                i <= errors@.len(),
                change_views(changes@) == change_views(start) + errors@.take(i as int).map_values(
                    |e: String| ChangeView::Diagnostic(e@),
                ),
            decreases errors.len() - i,
        {
            let ghost before = changes@;
            changes.push(Change::Diagnostic(crate::text::copy_string(&errors[i])));
            assert(errors@.take(i + 1).map_values(|e: String| ChangeView::Diagnostic(e@)) =~= errors@.take(
                i as int,
            ).map_values(|e: String| ChangeView::Diagnostic(e@)).push(ChangeView::Diagnostic(errors@[i as int]@)));
            assert(change_views(changes@) =~= change_views(before).push(ChangeView::Diagnostic(errors@[i as int]@)));
            i += 1;
        }
        assert(errors@.take(errors.len() as int) =~= errors@);
    }

    /// The connection closes: applied temperature is switched off, every window is
    /// withdrawn, and everything bound is given up; returns what the caller releases.
    pub fn close(&mut self) -> (r: Closed)
        requires
            old(self).wf(),
        ensures
            final(self).wf(),
            r.controls@ == control_ids(old(self)@.gamma),
            r.toplevels@ == entry_ids(old(self)@.toplevels),
            r.foreign == old(self)@.foreign is Some,
            r.gamma_manager == old(self)@.gamma_manager is Some,
            r.outputs@ == output_ids(old(self)@.outputs),
            r.seats@ == seat_ids(old(self)@.seats),
            final(self)@ == (StateView {
                temperature: None,
                gamma: Seq::empty(),
                toplevels: Seq::empty(),
                foreign: None,
                gamma_manager: None,
                outputs: Seq::empty(),
                seats: Seq::empty(),
                changes: old(self)@.changes + flip(gamma_on(old(self)@), false) + removal_changes(
                    old(self)@.toplevels,
                ),
                ..old(self)@
            }),
    {
        let ghost start = self@;
        let controls = self.disable_gamma();
        let toplevels = self.remove_all_toplevels();
        let foreign = self.foreign.is_some();
        self.foreign = None;
        let gamma_manager = self.gamma_manager.is_some();
        self.gamma_manager = None;
        let mut outputs: Vec<Output> = Vec::new();
        std::mem::swap(&mut outputs, &mut self.outputs);
        let mut seats: Vec<Seat> = Vec::new();
        std::mem::swap(&mut seats, &mut self.seats);
        let output_list = State::output_id_list(&outputs);
        let seat_list = State::seat_id_list(&seats);
        assert(output_views(self.outputs@) =~= Seq::<OutputView>::empty());
        assert(seat_views(self.seats@) =~= Seq::<SeatView>::empty());
        assert(self@.changes =~= start.changes + flip(gamma_on(start), false) + removal_changes(start.toplevels));
        Closed { controls, toplevels, foreign, gamma_manager, outputs: output_list, seats: seat_list }
    }

    /// The ids of the outputs, in order.
    fn output_id_list(outputs: &Vec<Output>) -> (r: Vec<u32>)
        ensures
            r@ == output_ids(output_views(outputs@)),
    {
        let mut r: Vec<u32> = Vec::new();
        let mut i: usize = 0;
        while i < outputs.len()
            invariant
                i <= outputs@.len(),
                r@ == output_ids(output_views(outputs@.take(i as int))),
            decreases outputs.len() - i,
        {
            r.push(outputs[i].id);
            assert(output_ids(output_views(outputs@.take(i + 1))) =~= output_ids(output_views(outputs@.take(i as int))).push(
                outputs@[i as int].id,
            ));
            i += 1;
        }
        assert(outputs@.take(outputs.len() as int) =~= outputs@);
        r
    }

    /// The ids of the seats, in order.
    fn seat_id_list(seats: &Vec<Seat>) -> (r: Vec<u32>)
        ensures
            r@ == seat_ids(seat_views(seats@)),
    {
        let mut r: Vec<u32> = Vec::new();
        let mut i: usize = 0;
        while i < seats.len()
            invariant
                i <= seats@.len(),
                r@ == seat_ids(seat_views(seats@.take(i as int))),
            decreases seats.len() - i,
        {
            r.push(seats[i].id);
            assert(seat_ids(seat_views(seats@.take(i + 1))) =~= seat_ids(seat_views(seats@.take(i as int))).push(
                seats@[i as int].id,
            ));
            i += 1;
        }
        assert(seats@.take(seats.len() as int) =~= seats@);
        r
    }
}

/// The published windows among the entries, in order.
pub open spec fn published_views(es: Seq<TopEntryView>) -> Seq<ToplevelView>
    decreases es.len(),
{
    if es.len() == 0 {
        Seq::empty()
    } else {
        published_views(es.drop_last()) + match es.last().published {
            Some(p) => seq![p],
            None => Seq::<ToplevelView>::empty(),
        }
    }
}

/// Completing a batch publishes a window only when it is shown under the ignore
/// lists, and then exactly as assembled; a window that is not shown is withdrawn.
pub proof fn lemma_published_are_shown(e: TopEntryView, apps: Seq<Seq<char>>, titles: Seq<Seq<char>>)
    ensures
        published_entry(e, apps, titles).published matches Some(p) ==> p == e.pending && shown(p, apps, titles),
        !shown(e.pending, apps, titles) ==> published_entry(e, apps, titles).published is None,
{
}

/// After the ignore lists change, every published window is shown under them.
pub proof fn lemma_republished_are_shown(es: Seq<TopEntryView>, apps: Seq<Seq<char>>, titles: Seq<Seq<char>>)
    ensures
        forall|i: int|
            0 <= i < es.len() ==> ((#[trigger] republished(es, apps, titles)[i]).published matches Some(p)
                ==> shown(p, apps, titles)),
{
}

} // verus!

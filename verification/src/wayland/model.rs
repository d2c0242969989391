//! Application-owned Wayland state; no protocol objects escape this module's service.
use crate::keyed::{KeyOf, Keyed};
use crate::shortcuts::context::opt_view;
use crate::shortcuts::rows::{lemma_text_refl, lemma_text_total, lemma_text_trans, text_le, text_less_eq};
use crate::text::{chars_of, contains_string, copy_string, str_eq, string_of, strings_contain};
use std::collections::BTreeSet;
use vstd::prelude::*;

verus! {

/// A compositor output.
#[derive(Clone, Debug, Default, PartialEq, Eq)]
pub struct Output {
    pub id: u32,
    pub name: Option<String>,
    pub description: Option<String>,
    pub make: String,
    pub model: String,
    pub initialized: bool,
    pub scale: i32,
    pub width: i32,
    pub height: i32,
}

/// An input seat.
#[derive(Clone, Debug, Default, PartialEq, Eq)]
pub struct Seat {
    pub id: u32,
    pub name: Option<String>,
    pub capabilities: u32,
}

/// A foreign toplevel window.
#[derive(Clone, Debug, Default, PartialEq, Eq)]
pub struct Toplevel {
    pub id: u64,
    pub app_id: Option<String>,
    pub title: Option<String>,
    pub outputs: BTreeSet<u32>,
    pub parent: Option<u64>,
    pub maximized: bool,
    pub minimized: bool,
    pub active: bool,
    pub fullscreen: bool,
    /// Compatibility event flags for the just-completed protocol batch.
    pub activation_event: bool,
    pub entered_event: bool,
}

/// What an output holds, with its texts as character sequences.
pub struct OutputView {
    pub id: u32,
    pub name: Option<Seq<char>>,
    pub description: Option<Seq<char>>,
    pub make: Seq<char>,
    pub model: Seq<char>,
    pub initialized: bool,
    pub scale: i32,
    pub width: i32,
    pub height: i32,
}

impl View for Output {
    type V = OutputView;

    open spec fn view(&self) -> OutputView {
        OutputView {
            id: self.id,
            name: opt_view(self.name),
            description: opt_view(self.description),
            make: self.make@,
            model: self.model@,
            initialized: self.initialized,
            scale: self.scale,
            width: self.width,
            height: self.height,
        }
    }
}

/// What a seat holds.
pub struct SeatView {
    pub id: u32,
    pub name: Option<Seq<char>>,
    pub capabilities: u32,
}

impl View for Seat {
    type V = SeatView;

    open spec fn view(&self) -> SeatView {
        SeatView { id: self.id, name: opt_view(self.name), capabilities: self.capabilities }
    }
}

/// What a window holds; the outputs it is on form a set.
pub struct ToplevelView {
    pub id: u64,
    pub app_id: Option<Seq<char>>,
    pub title: Option<Seq<char>>,
    pub outputs: Set<u32>,
    pub parent: Option<u64>,
    pub maximized: bool,
    pub minimized: bool,
    pub active: bool,
    pub fullscreen: bool,
    pub activation_event: bool,
    pub entered_event: bool,
}

impl View for Toplevel {
    type V = ToplevelView;

    open spec fn view(&self) -> ToplevelView {
        ToplevelView {
            id: self.id,
            app_id: opt_view(self.app_id),
            title: opt_view(self.title),
            outputs: self.outputs@,
            parent: self.parent,
            maximized: self.maximized,
            minimized: self.minimized,
            active: self.active,
            fullscreen: self.fullscreen,
            activation_event: self.activation_event,
            entered_event: self.entered_event,
        }
    }
}

impl Keyed for Output {
    open spec fn key(&self) -> int {
        self.id as int
    }
}

impl KeyOf for Output {
    fn key_of(&self) -> (r: u64) {
        self.id as u64
    }
}

impl Keyed for OutputView {
    open spec fn key(&self) -> int {
        self.id as int
    }
}

impl Keyed for Seat {
    open spec fn key(&self) -> int {
        self.id as int
    }
}

impl KeyOf for Seat {
    fn key_of(&self) -> (r: u64) {
        self.id as u64
    }
}

impl Keyed for SeatView {
    open spec fn key(&self) -> int {
        self.id as int
    }
}

/// A copy of an optional text.
pub fn copy_text(o: &Option<String>) -> (r: Option<String>)
    ensures
        opt_view(r) == opt_view(*o),
{
    match o {
        Some(s) => Some(copy_string(s)),
        None => None,
    }
}

impl Output {
    /// A copy of the output.
    pub fn copy(&self) -> (r: Output)
        ensures
            r@ == self@,
    {
        Output {
            id: self.id,
            name: copy_text(&self.name),
            description: copy_text(&self.description),
            make: copy_string(&self.make),
            model: copy_string(&self.model),
            initialized: self.initialized,
            scale: self.scale,
            width: self.width,
            height: self.height,
        }
    }
}

impl Seat {
    /// A copy of the seat.
    pub fn copy(&self) -> (r: Seat)
        ensures
            r@ == self@,
    {
        Seat { id: self.id, name: copy_text(&self.name), capabilities: self.capabilities }
    }
}

impl Toplevel {
    /// A copy of the window.
    pub fn copy(&self) -> (r: Toplevel)
        ensures
            r@ == self@,
    {
        Toplevel {
            id: self.id,
            app_id: copy_text(&self.app_id),
            title: copy_text(&self.title),
            outputs: self.outputs.clone(),
            parent: self.parent,
            maximized: self.maximized,
            minimized: self.minimized,
            active: self.active,
            fullscreen: self.fullscreen,
            activation_event: self.activation_event,
            entered_event: self.entered_event,
        }
    }
}

/// A 32-bit value stored least significant byte first.
pub open spec fn le_u32(b: Seq<u8>) -> u32 {
    (b[0] as int + b[1] as int * 256 + b[2] as int * 65536 + b[3] as int * 16777216) as u32
}

/// A 32-bit value stored most significant byte first.
pub open spec fn be_u32(b: Seq<u8>) -> u32 {
    (b[3] as int + b[2] as int * 256 + b[1] as int * 65536 + b[0] as int * 16777216) as u32
}

/// Decodes a state value in the machine's byte order, as `u32::from_ne_bytes` does.
#[verifier::external_body]
pub(crate) fn native_u32(b0: u8, b1: u8, b2: u8, b3: u8) -> (r: u32)
    ensures
        r == le_u32(seq![b0, b1, b2, b3]) || r == be_u32(seq![b0, b1, b2, b3]),
{
    u32::from_ne_bytes([b0, b1, b2, b3])
}

/// Whether `value` occurs among the state values.
pub open spec fn has_state(values: Seq<u32>, value: u32) -> bool {
    values.contains(value)
}

/// The window flags a state array sets: 0 maximized, 1 minimized, 2 active,
/// 3 fullscreen; other values are ignored. Activation follows the active flag.
pub open spec fn state_applied(before: Toplevel, after: Toplevel, values: Seq<u32>) -> bool {
    &&& after.maximized == has_state(values, 0)
    &&& after.minimized == has_state(values, 1)
    &&& after.active == has_state(values, 2)
    &&& after.fullscreen == has_state(values, 3)
    &&& after.activation_event == after.active
    &&& after.id == before.id
    &&& after.app_id == before.app_id
    &&& after.title == before.title
    &&& after.outputs == before.outputs
    &&& after.parent == before.parent
    &&& after.entered_event == before.entered_event
}

/// Whether `values` are the 32-bit values of `bytes`, four bytes each, all read least
/// significant byte first (`little`) or all most significant byte first.
pub open spec fn values_in_order(bytes: Seq<u8>, values: Seq<u32>, little: bool) -> bool {
    &&& values.len() * 4 == bytes.len()
    &&& forall|k: int|
        0 <= k < values.len() ==> #[trigger] values[k] == if little {
            le_u32(bytes.subrange(4 * k, 4 * k + 4))
        } else {
            be_u32(bytes.subrange(4 * k, 4 * k + 4))
        }
}

/// Whether `values` are the 32-bit values of `bytes`, four bytes each, all read in
/// the machine's byte order, which is one of the two.
pub open spec fn native_values(bytes: Seq<u8>, values: Seq<u32>) -> bool {
    values_in_order(bytes, values, true) || values_in_order(bytes, values, false)
}

/// The value of four bytes, least significant first.
fn le_value(b0: u8, b1: u8, b2: u8, b3: u8) -> (r: u32)
    ensures
        r == le_u32(seq![b0, b1, b2, b3]),
{
    b0 as u32 + (b1 as u32) * 256 + (b2 as u32) * 65536 + (b3 as u32) * 16777216
}

/// The value of four bytes, most significant first.
fn be_value(b0: u8, b1: u8, b2: u8, b3: u8) -> (r: u32)
    ensures
        r == be_u32(seq![b0, b1, b2, b3]),
{
    b3 as u32 + (b2 as u32) * 256 + (b1 as u32) * 65536 + (b0 as u32) * 16777216
}

/// The window flags a state array sets, on the views of a window.
pub open spec fn flags_applied(before: ToplevelView, after: ToplevelView, values: Seq<u32>) -> bool {
    after == ToplevelView {
        maximized: has_state(values, 0),
        minimized: has_state(values, 1),
        active: has_state(values, 2),
        fullscreen: has_state(values, 3),
        activation_event: has_state(values, 2),
        ..before
    }
}

/// Setting the flags on a window sets them on its view.
pub proof fn lemma_flags_view(before: Toplevel, after: Toplevel, values: Seq<u32>)
    requires
        state_applied(before, after, values),
    ensures
        flags_applied(before@, after@, values),
{
}

impl Toplevel {
    /// Replace the window flags with those of a decoded state array.
    pub fn apply_states(&mut self, values: &[u32])
        ensures
            state_applied(*old(self), *final(self), values@),
    {
        self.maximized = false;
        self.minimized = false;
        self.active = false;
        self.fullscreen = false;
        let mut i: usize = 0;
        while i < values.len()
            invariant
                i <= values.len(),
                self.maximized == has_state(values@.take(i as int), 0),
                self.minimized == has_state(values@.take(i as int), 1),
                self.active == has_state(values@.take(i as int), 2),
                self.fullscreen == has_state(values@.take(i as int), 3),
                self.id == old(self).id,
                self.app_id == old(self).app_id,
                self.title == old(self).title,
                self.outputs == old(self).outputs,
                self.parent == old(self).parent,
                self.entered_event == old(self).entered_event,
            decreases values.len() - i,
        {
            let v = values[i];
            assert(values@.take(i + 1) =~= values@.take(i as int).push(v));
            proof {
                broadcast use vstd::seq_lib::group_seq_properties;
            }
            if v == 0 {
                self.maximized = true;
            } else if v == 1 {
                self.minimized = true;
            } else if v == 2 {
                self.active = true;
            } else if v == 3 {
                self.fullscreen = true;
            }
            i += 1;
        }
        assert(values@.take(values.len() as int) =~= values@);
        self.activation_event = self.active;
    }

    /// Replace the window flags from a protocol state array of native 32-bit values.
    /// A length that is not a multiple of four is rejected and changes nothing.
    pub fn apply_state(&mut self, bytes: &[u8]) -> (r: Result<(), &'static str>)
        ensures
            r is Err <==> bytes@.len() % 4 != 0,
            r matches Err(m) ==> m@ == "Foreign toplevel state is not an array of 32-bit values"@,
            r is Err ==> *final(self) == *old(self),
            r is Ok ==> exists|values: Seq<u32>|
                native_values(bytes@, values) && #[trigger] state_applied(*old(self), *final(self), values),
    {
        if bytes.len() % 4 != 0 {
            return Err("Foreign toplevel state is not an array of 32-bit values");
        }
        let little = native_u32(1, 0, 0, 0) == 1;
        assert(le_u32(seq![1u8, 0u8, 0u8, 0u8]) == 1);
        assert(be_u32(seq![1u8, 0u8, 0u8, 0u8]) == 16777216);
        let mut values: Vec<u32> = Vec::new();
        let mut i: usize = 0;
        while i < bytes.len()
            invariant
                i <= bytes.len(),
                i % 4 == 0,
                bytes.len() % 4 == 0,
                values@.len() * 4 == i,
                forall|k: int|
                    0 <= k < values@.len() ==> #[trigger] values@[k] == if little {
                        le_u32(bytes@.subrange(4 * k, 4 * k + 4))
                    } else {
                        be_u32(bytes@.subrange(4 * k, 4 * k + 4))
                    },
            decreases bytes.len() - i,
        {
            let v = if little {
                le_value(bytes[i], bytes[i + 1], bytes[i + 2], bytes[i + 3])
            } else {
                be_value(bytes[i], bytes[i + 1], bytes[i + 2], bytes[i + 3])
            };
            let ghost k = values@.len() as int;
            assert(bytes@.subrange(4 * k, 4 * k + 4) =~= seq![bytes[i as int], bytes[i + 1], bytes[i + 2], bytes[i + 3]]);
            values.push(v);
            i += 4;
        }
        assert(values_in_order(bytes@, values@, little));
        self.apply_states(values.as_slice());
        Ok(())
    }

    /// Whether the window is listed: it has an application id and a title and
    /// neither is named exactly in the ignore lists.
    pub fn visible(&self, ignored_apps: &Vec<String>, ignored_titles: &Vec<String>) -> (r: bool)
        ensures
            r == listed(*self, ignored_apps@, ignored_titles@),
    {
        match (&self.app_id, &self.title) {
            (Some(a), Some(t)) => !contains_string(ignored_apps, a.as_str()) && !contains_string(
                ignored_titles,
                t.as_str(),
            ),
            _ => false,
        }
    }
}

/// Whether a window has an application id and a title, neither of them ignored.
pub open spec fn listed(t: Toplevel, apps: Seq<String>, titles: Seq<String>) -> bool {
    match (t.app_id, t.title) {
        (Some(a), Some(ti)) => !strings_contain(apps, a@) && !strings_contain(titles, ti@),
        _ => false,
    }
}

/// The pieces of `s` between colons, in order; a string without colons is one piece.
pub open spec fn split_colon(s: Seq<char>) -> Seq<Seq<char>>
    decreases s.len(),
{
    if s.len() == 0 {
        seq![Seq::empty()]
    } else {
        let prev = split_colon(s.drop_last());
        if s.last() == ':' {
            prev.push(Seq::empty())
        } else {
            prev.update(prev.len() - 1, prev.last().push(s.last()))
        }
    }
}

proof fn lemma_split_nonempty(s: Seq<char>)
    ensures
        split_colon(s).len() >= 1,
    decreases s.len(),
{
    if s.len() > 0 {
        lemma_split_nonempty(s.drop_last());
    }
}

/// The exact names of a colon-separated ignore setting; an empty setting names none.
pub open spec fn ignored_names(value: Seq<char>) -> Seq<Seq<char>> {
    if value.len() == 0 {
        Seq::empty()
    } else {
        split_colon(value)
    }
}

/// The pieces of a colon-separated setting, in order, repeats kept.
fn split_setting(value: &str) -> (r: Vec<String>)
    ensures
        r@.map_values(|x: String| x@) == ignored_names(value@),
{
    let c = chars_of(value);
    if c.len() == 0 {
        let r: Vec<String> = Vec::new();
        assert(r@.map_values(|x: String| x@) =~= Seq::<Seq<char>>::empty());
        return r;
    }
    let mut pieces: Vec<String> = Vec::new();
    let mut current: Vec<char> = Vec::new();
    let mut i: usize = 0;
    assert(c@.take(0) =~= Seq::<char>::empty());
    while i < c.len()
        invariant
            i <= c.len(),
            c@ == value@,
            pieces@.map_values(|x: String| x@).push(current@) == split_colon(c@.take(i as int)),
        decreases c.len() - i,
    {
        assert(c@.take(i + 1).drop_last() =~= c@.take(i as int));
        let ghost prev = split_colon(c@.take(i as int));
        if c[i] == ':' {
            let piece = string_of(current.as_slice());
            let ghost before = pieces@;
            pieces.push(piece);
            current = Vec::new();
            assert(pieces@.map_values(|x: String| x@) =~= before.map_values(|x: String| x@).push(piece@));
            assert(pieces@.map_values(|x: String| x@).push(current@) =~= prev.push(Seq::empty()));
        } else {
            current.push(c[i]);
            assert(pieces@.map_values(|x: String| x@).push(current@) =~= prev.update(prev.len() - 1, prev.last().push(c@[i as int])));
        }
        i += 1;
    }
    assert(c@.take(c.len() as int) =~= c@);
    let last = string_of(current.as_slice());
    let ghost before = pieces@;
    pieces.push(last);
    assert(pieces@.map_values(|x: String| x@) =~= before.map_values(|x: String| x@).push(last@));
    pieces
}

/// The texts of a list of strings.
pub open spec fn name_views(s: Seq<String>) -> Seq<Seq<char>> {
    s.map_values(|x: String| x@)
}

/// Whether texts are in strictly ascending character order, so none occurs twice.
pub open spec fn strictly_ascending(s: Seq<Seq<char>>) -> bool {
    forall|i: int, j: int| 0 <= i < j < s.len() ==> text_le(#[trigger] s[i], #[trigger] s[j]) && s[i] != s[j]
}

/// Whether `list` is the set of names of the ignore setting `value`: each name once,
/// in ascending order.
pub open spec fn ignore_set(value: Seq<char>, list: Seq<Seq<char>>) -> bool {
    &&& strictly_ascending(list)
    &&& forall|x: Seq<char>| list.contains(x) <==> ignored_names(value).contains(x)
}

/// The set of names of a colon-separated ignore setting, ascending, each once; an
/// empty setting names none.
pub fn ignored(value: &str) -> (r: Vec<String>)
    ensures
        ignore_set(value@, name_views(r@)),
{
    let pieces = split_setting(value);
    let mut out: Vec<String> = Vec::new();
    let mut i: usize = 0;
    while i < pieces.len()
        invariant
            i <= pieces@.len(),
            name_views(pieces@) == ignored_names(value@),
            strictly_ascending(name_views(out@)),
            forall|x: Seq<char>| name_views(out@).contains(x) <==> name_views(pieces@.take(i as int)).contains(x),
        decreases pieces@.len() - i,
    {
        let ghost p = pieces@[i as int]@;
        insert_name(&mut out, &pieces[i]);
        proof {
            let t0 = name_views(pieces@.take(i as int));
            let t1 = name_views(pieces@.take(i + 1));
            assert(t1 =~= t0.push(p));
            assert forall|x: Seq<char>| t1.contains(x) <==> (t0.contains(x) || x == p) by {
                if t1.contains(x) {
                    let k = choose|k: int| 0 <= k < t1.len() && t1[k] == x;
                    if k < t0.len() {
                        assert(t0[k] == x);
                    }
                }
                if t0.contains(x) {
                    let k = choose|k: int| 0 <= k < t0.len() && t0[k] == x;
                    assert(t1[k] == x);
                }
                if x == p {
                    assert(t1[i as int] == x);
                }
            };
        }
        i += 1;
    }
    proof {
        assert(pieces@.take(pieces@.len() as int) =~= pieces@);
    }
    out
}

/// An ignore setting names one list: two lists that both are its ignore set, each
/// ascending and holding exactly its names, are the same list.
pub proof fn lemma_ignore_set_unique(value: Seq<char>, a: Seq<Seq<char>>, b: Seq<Seq<char>>)
    requires
        ignore_set(value, a),
        ignore_set(value, b),
    ensures
        a == b,
{
    lemma_ascending_unique(a, b);
}

proof fn lemma_ascending_unique(a: Seq<Seq<char>>, b: Seq<Seq<char>>)
    requires
        strictly_ascending(a),
        strictly_ascending(b),
        forall|x: Seq<char>| a.contains(x) <==> b.contains(x),
    ensures
        a == b,
    decreases a.len(),
{
    if a.len() == 0 {
        if b.len() > 0 {
            assert(b.contains(b[0]));
        }
        assert(a =~= b);
    } else if b.len() == 0 {
        assert(a.contains(a[0]));
    } else {
        assert(a.contains(a[0]));
        assert(b.contains(b[0]));
        let ia = choose|i: int| 0 <= i < a.len() && a[i] == b[0];
        let ib = choose|i: int| 0 <= i < b.len() && b[i] == a[0];
        if ia > 0 {
            assert(text_le(a[0], a[ia]));
        } else {
            lemma_text_refl(a[0]);
        }
        if ib > 0 {
            assert(text_le(b[0], b[ib]));
        } else {
            lemma_text_refl(b[0]);
        }
        lemma_text_antisym(a[0], b[0]);
        let ra = a.drop_first();
        let rb = b.drop_first();
        assert forall|x: Seq<char>| ra.contains(x) <==> rb.contains(x) by {
            if ra.contains(x) {
                let k = choose|k: int| 0 <= k < ra.len() && ra[k] == x;
                assert(a[k + 1] == x && a[0] != a[k + 1]);
                assert(a.contains(x));
                let m = choose|m: int| 0 <= m < b.len() && b[m] == x;
                assert(m != 0);
                assert(rb[m - 1] == x);
            }
            if rb.contains(x) {
                let k = choose|k: int| 0 <= k < rb.len() && rb[k] == x;
                assert(b[k + 1] == x && b[0] != b[k + 1]);
                assert(b.contains(x));
                let m = choose|m: int| 0 <= m < a.len() && a[m] == x;
                assert(m != 0);
                assert(ra[m - 1] == x);
            }
        };
        assert forall|i: int, j: int| 0 <= i < j < ra.len() implies text_le(#[trigger] ra[i], #[trigger] ra[j]) && ra[i] != ra[j] by {
            assert(ra[i] == a[i + 1] && ra[j] == a[j + 1]);
        };
        assert forall|i: int, j: int| 0 <= i < j < rb.len() implies text_le(#[trigger] rb[i], #[trigger] rb[j]) && rb[i] != rb[j] by {
            assert(rb[i] == b[i + 1] && rb[j] == b[j + 1]);
        };
        lemma_ascending_unique(ra, rb);
        assert(a =~= seq![a[0]] + ra);
        assert(b =~= seq![b[0]] + rb);
    }
}

proof fn lemma_text_antisym(a: Seq<char>, b: Seq<char>)
    requires
        text_le(a, b),
        text_le(b, a),
    ensures
        a == b,
    decreases a.len(),
{
    if a.len() > 0 && b.len() > 0 {
        lemma_text_antisym(a.drop_first(), b.drop_first());
        assert(a =~= seq![a[0]] + a.drop_first());
        assert(b =~= seq![b[0]] + b.drop_first());
    } else {
        assert(a =~= b);
    }
}

/// Adds `name` to a strictly ascending list of names unless it is there already.
fn insert_name(out: &mut Vec<String>, name: &String)
    requires
        strictly_ascending(name_views(old(out)@)),
    ensures
        strictly_ascending(name_views(final(out)@)),
        forall|x: Seq<char>| #[trigger] name_views(final(out)@).contains(x) <==> (name_views(old(out)@).contains(x) || x == name@),
{
    let ghost v0 = name_views(out@);
    let mut j: usize = 0;
    while j < out.len()
        invariant
            j <= out@.len(),
            name_views(out@) == v0,
            strictly_ascending(v0),
            forall|k: int| 0 <= k < j ==> #[trigger] v0[k] != name@ && !text_le(name@, v0[k]),
        ensures
            j <= out@.len(),
            name_views(out@) == v0,
            forall|k: int| 0 <= k < j ==> #[trigger] v0[k] != name@ && !text_le(name@, v0[k]),
            j < out@.len() ==> text_le(name@, v0[j as int]) && v0[j as int] != name@,
        decreases out@.len() - j,
    {
        if str_eq(out[j].as_str(), name.as_str()) {
            proof {
                assert(v0[j as int] == name@);
                assert forall|x: Seq<char>| v0.contains(x) <==> (v0.contains(x) || x == name@) by {
                    if x == name@ {
                        assert(v0[j as int] == x);
                    }
                };
            }
            return;
        }
        if text_less_eq(name.as_str(), out[j].as_str()) {
            break;
        }
        j += 1;
    }
    let ghost at = j as int;
    proof {
        assert forall|k: int| 0 <= k < at implies text_le(#[trigger] v0[k], name@) by {
            lemma_text_total(v0[k], name@);
        };
    }
    out.insert(j, copy_string(name));
    proof {
        let v1 = name_views(out@);
        assert(v1 =~= v0.insert(at, name@));
        assert forall|a: int, b: int| 0 <= a < b < v1.len() implies text_le(#[trigger] v1[a], #[trigger] v1[b]) && v1[a]
            != v1[b] by {
            if b < at {
                assert(v1[a] == v0[a] && v1[b] == v0[b]);
            } else if b == at {
                assert(v1[a] == v0[a]);
            } else if a < at {
                assert(v1[a] == v0[a] && v1[b] == v0[b - 1]);
                assert(text_le(v0[a], name@));
                assert(text_le(name@, v0[at]));
                if at < b - 1 {
                    lemma_text_trans(name@, v0[at], v0[b - 1]);
                }
                lemma_text_trans(v0[a], name@, v0[b - 1]);
                if v0[a] == v0[b - 1] {
                    assert(v0[a] != v0[b - 1]);
                }
            } else if a == at {
                assert(v1[b] == v0[b - 1]);
                assert(text_le(name@, v0[at]));
                if at < b - 1 {
                    lemma_text_trans(name@, v0[at], v0[b - 1]);
                }
                if v0[b - 1] == name@ {
                    lemma_text_antisym(name@, v0[at]);
                }
            } else {
                assert(v1[a] == v0[a - 1] && v1[b] == v0[b - 1]);
            }
        };
        assert forall|x: Seq<char>| v1.contains(x) <==> (v0.contains(x) || x == name@) by {
            if v1.contains(x) {
                let k = choose|k: int| 0 <= k < v1.len() && v1[k] == x;
                if k < at {
                    assert(v0[k] == x);
                } else if k > at {
                    assert(v0[k - 1] == x);
                }
            }
            if v0.contains(x) {
                let k = choose|k: int| 0 <= k < v0.len() && v0[k] == x;
                if k < at {
                    assert(v1[k] == x);
                } else {
                    assert(v1[k + 1] == x);
                }
            }
            if x == name@ {
                assert(v1[at] == x);
            }
        };
    }
}

/// The protocol version to bind: the advertised one, capped at what the shell
/// supports; an advertised version of zero cannot be bound.
pub fn version(advertised: u32, maximum: u32) -> (r: Option<u32>)
    ensures
        r == if advertised > 0 {
            Some(if advertised < maximum { advertised } else { maximum })
        } else {
            None::<u32>
        },
{
    if advertised > 0 {
        Some(if advertised < maximum { advertised } else { maximum })
    } else {
        None
    }
}

/// The highest version of each global interface the shell binds; others are ignored.
pub open spec fn interface_limit(interface: Seq<char>) -> Option<u32> {
    if interface == "wl_output"@ {
        Some(4u32)
    } else if interface == "wl_seat"@ {
        Some(7u32)
    } else if interface == "zwlr_foreign_toplevel_manager_v1"@ {
        Some(3u32)
    } else if interface == "zwlr_gamma_control_manager_v1"@ || interface
        == "zwp_keyboard_shortcuts_inhibit_manager_v1"@ {
        Some(1u32)
    } else {
        None
    }
}

/// The highest version of `interface` the shell binds, if it binds the interface.
pub fn interface_maximum(interface: &str) -> (r: Option<u32>)
    ensures
        r == interface_limit(interface@),
{
    if str_eq(interface, "wl_output") {
        Some(4)
    } else if str_eq(interface, "wl_seat") {
        Some(7)
    } else if str_eq(interface, "zwlr_foreign_toplevel_manager_v1") {
        Some(3)
    } else if str_eq(interface, "zwlr_gamma_control_manager_v1") || str_eq(
        interface,
        "zwp_keyboard_shortcuts_inhibit_manager_v1",
    ) {
        Some(1)
    } else {
        None
    }
}

/// The version to bind an advertised global at, if the shell binds it.
pub fn bind_version(interface: &str, advertised: u32) -> (r: Option<u32>)
    ensures
        r == match interface_limit(interface@) {
            Some(m) => if advertised > 0 {
                Some(if advertised < m { advertised } else { m })
            } else {
                None::<u32>
            },
            None => None::<u32>,
        },
{
    match interface_maximum(interface) {
        Some(m) => version(advertised, m),
        None => None,
    }
}

/// Why a colour temperature cannot be applied.
#[derive(Clone, Copy, Debug, PartialEq, Eq, Structural)]
pub enum GammaError {
    OutOfRange,
    Unsupported,
}

/// The text of each error.
pub open spec fn gamma_error_message(e: GammaError) -> Seq<char> {
    match e {
        GammaError::OutOfRange => "Gamma temperature must be between 1000 and 25000 K"@,
        GammaError::Unsupported => "The compositor does not support gamma control"@,
    }
}

impl GammaError {
    /// The message reported for this error.
    pub fn message(&self) -> (r: &'static str)
        ensures
            r@ == gamma_error_message(*self),
    {
        match self {
            GammaError::OutOfRange => "Gamma temperature must be between 1000 and 25000 K",
            GammaError::Unsupported => "The compositor does not support gamma control",
        }
    }
}

/// Whether a colour temperature can be applied: 1000 K to 25000 K, on a compositor
/// with gamma control.
pub open spec fn temperature_check(temperature: u32, has_gamma: bool) -> Result<(), GammaError> {
    if !(1000 <= temperature <= 25000) {
        Err(GammaError::OutOfRange)
    } else if !has_gamma {
        Err(GammaError::Unsupported)
    } else {
        Ok(())
    }
}

/// Checks a colour temperature request: 1000 K to 25000 K, on a compositor with
/// gamma control.
pub fn check_temperature(temperature: u32, has_gamma: bool) -> (r: Result<(), GammaError>)
    ensures
        r == temperature_check(temperature, has_gamma),
{
    if !(1000 <= temperature && temperature <= 25000) {
        return Err(GammaError::OutOfRange);
    }
    if !has_gamma {
        return Err(GammaError::Unsupported);
    }
    Ok(())
}

} // verus!

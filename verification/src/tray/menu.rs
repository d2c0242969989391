//! An owned, bounded tree read from a `com.canonical.dbusmenu` layout.
use crate::variant::{dict_get, get_bool, get_string, lookup, value_string, Ty, Value};
use vstd::prelude::*;

verus! {

pub const MAX_DEPTH: usize = 64;
pub const MAX_NODES: usize = 4096;
pub const MAX_LABEL_BYTES: usize = 1_048_576;

/// One menu entry and its children.
#[derive(Debug)]
pub struct MenuNode {
    pub id: i32,
    pub label: String,
    pub visible: bool,
    pub separator: bool,
    pub children: Vec<MenuNode>,
}

/// The meaning of a [`MenuNode`].
pub struct MenuNodeView {
    pub id: i32,
    pub label: Seq<char>,
    pub visible: bool,
    pub separator: bool,
    pub children: Seq<MenuNodeView>,
}

pub open spec fn node_view(n: MenuNode) -> MenuNodeView
    decreases n,
{
    MenuNodeView {
        id: n.id,
        label: n.label@,
        visible: n.visible,
        separator: n.separator,
        children: Seq::new(
            n.children@.len(),
            |i: int|
                if 0 <= i < n.children@.len() {
                    node_view(n.children@[i])
                } else {
                    arbitrary()
                },
        ),
    }
}

/// Why a menu layout was rejected.
#[derive(Clone, Copy, Debug, PartialEq, Eq, Structural)]
pub enum MenuError {
    TooDeep,
    TooManyNodes,
    Shape,
    RootNegative,
    RootNotZero,
    DuplicateId,
    LabelNotString,
    LabelOverflow,
    LabelsTooLarge,
    VisibleNotBoolean,
    TypeNotString,
    ChildNotVariant,
}

/// The text of each rejection.
pub open spec fn menu_error_message(e: MenuError) -> Seq<char> {
    match e {
        MenuError::TooDeep => "Menu layout exceeds the 64-level depth limit"@,
        MenuError::TooManyNodes => "Menu layout exceeds the 4096-node limit"@,
        MenuError::Shape => "Menu node must have signature (ia{sv}av)"@,
        MenuError::RootNegative => "Menu root must be nonnegative"@,
        MenuError::RootNotZero => "GetLayout root must have identifier zero"@,
        MenuError::DuplicateId => "Menu layout contains duplicate identifiers"@,
        MenuError::LabelNotString => "Menu label must be a string"@,
        MenuError::LabelOverflow => "Menu label sizes overflow"@,
        MenuError::LabelsTooLarge => "Menu labels exceed the 1 MiB total byte limit"@,
        MenuError::VisibleNotBoolean => "Menu visibility must be a boolean"@,
        MenuError::TypeNotString => "Menu type must be a string"@,
        MenuError::ChildNotVariant => "Menu children must be variants"@,
    }
}

impl MenuError {
    /// The diagnostic reported for this rejection.
    pub fn message(&self) -> (r: &'static str)
        ensures
            r@ == menu_error_message(*self),
    {
        match self {
            MenuError::TooDeep => "Menu layout exceeds the 64-level depth limit",
            MenuError::TooManyNodes => "Menu layout exceeds the 4096-node limit",
            MenuError::Shape => "Menu node must have signature (ia{sv}av)",
            MenuError::RootNegative => "Menu root must be nonnegative",
            MenuError::RootNotZero => "GetLayout root must have identifier zero",
            MenuError::DuplicateId => "Menu layout contains duplicate identifiers",
            MenuError::LabelNotString => "Menu label must be a string",
            MenuError::LabelOverflow => "Menu label sizes overflow",
            MenuError::LabelsTooLarge => "Menu labels exceed the 1 MiB total byte limit",
            MenuError::VisibleNotBoolean => "Menu visibility must be a boolean",
            MenuError::TypeNotString => "Menu type must be a string",
            MenuError::ChildNotVariant => "Menu children must be variants",
        }
    }
}

/// What a layout has used of its limits so far.
#[verifier::ext_equal]
pub struct BudgetView {
    pub nodes: int,
    pub labels: int,
    pub ids: Set<i32>,
}

/// Whether a value has the node signature `(ia{sv}av)`.
pub open spec fn is_node_shape(v: Value) -> bool {
    match v {
        Value::Tuple(xs) => xs@.len() == 3 && xs@[0] is Int32 && xs@[1] is Dict && (
        match xs@[2] {
            Value::Array(t, _) => t is Variant,
            _ => false,
        }),
        _ => false,
    }
}

pub open spec fn node_id(v: Value) -> i32 {
    match v {
        Value::Tuple(xs) => match xs@[0] {
            Value::Int32(i) => i,
            _ => 0,
        },
        _ => 0,
    }
}

pub open spec fn node_properties(v: Value) -> Seq<(String, Value)> {
    match v {
        Value::Tuple(xs) => match xs@[1] {
            Value::Dict(es) => es@,
            _ => Seq::empty(),
        },
        _ => Seq::empty(),
    }
}

/// The size of a label in UTF-8 bytes.
pub open spec fn byte_len(s: Seq<char>) -> int {
    (vstd::utf8::encode_utf8(s).len() as usize) as int
}

/// The node's own properties: label, visibility and separator, or the first invalid one.
pub open spec fn node_fields(props: Seq<(String, Value)>) -> Result<(Seq<char>, bool, bool), MenuError> {
    let label = match lookup(props, "label"@) {
        Some(x) => get_string(x),
        None => Some(Seq::empty()),
    };
    let visible = match lookup(props, "visible"@) {
        Some(x) => get_bool(x),
        None => Some(true),
    };
    let kind = match lookup(props, "type"@) {
        Some(x) => match get_string(x) {
            Some(t) => Some(t == "separator"@),
            None => None,
        },
        None => Some(false),
    };
    if label is None {
        Err(MenuError::LabelNotString)
    } else if visible is None {
        Err(MenuError::VisibleNotBoolean)
    } else if kind is None {
        Err(MenuError::TypeNotString)
    } else {
        Ok((label->0, visible->0, kind->0))
    }
}

/// Parses one node at `depth`, charging it to the budget. Negative identifiers are
/// skipped with their children unread.
pub open spec fn parse_node_spec(v: Value, depth: int, b: BudgetView) -> (
    Result<Option<MenuNodeView>, MenuError>,
    BudgetView,
)
    decreases v, 0int,
{
    if depth > MAX_DEPTH {
        (Err(MenuError::TooDeep), b)
    } else {
        let b1 = BudgetView { nodes: b.nodes + 1, ..b };
        if b1.nodes > MAX_NODES {
            (Err(MenuError::TooManyNodes), b1)
        } else if !is_node_shape(v) {
            (Err(MenuError::Shape), b1)
        } else if node_id(v) < 0 {
            (Ok(None), b1)
        } else if b1.ids.contains(node_id(v)) {
            (Err(MenuError::DuplicateId), b1)
        } else {
            let b2 = BudgetView { ids: b1.ids.insert(node_id(v)), ..b1 };
            let props = node_properties(v);
            let label = match lookup(props, "label"@) {
                Some(x) => get_string(x),
                None => Some(Seq::empty()),
            };
            if label is None {
                (Err(MenuError::LabelNotString), b2)
            } else {
                let total = b2.labels + byte_len(label->0);
                let b3 = BudgetView { labels: total, ..b2 };
                if total > usize::MAX {
                    (Err(MenuError::LabelOverflow), b2)
                } else if total > MAX_LABEL_BYTES {
                    (Err(MenuError::LabelsTooLarge), b3)
                } else {
                    match node_fields(props) {
                        Err(e) => (Err(e), b3),
                        Ok(fields) => match v {
                            Value::Tuple(xs) => match xs@[2] {
                                Value::Array(_, cs) => {
                                    let (kids, b4) = parse_children_spec(
                                        cs@,
                                        0,
                                        depth,
                                        b3,
                                        Seq::empty(),
                                    );
                                    match kids {
                                        Err(e) => (Err(e), b4),
                                        Ok(children) => (
                                            Ok(
                                                Some(
                                                    MenuNodeView {
                                                        id: node_id(v),
                                                        label: fields.0,
                                                        visible: fields.1,
                                                        separator: fields.2,
                                                        children,
                                                    },
                                                ),
                                            ),
                                            b4,
                                        ),
                                    }
                                },
                                _ => (Err(MenuError::Shape), b3),
                            },
                            _ => (Err(MenuError::Shape), b3),
                        },
                    }
                }
            }
        }
    }
}

/// Parses the children `cs[i..]` of a node at `depth`, appending kept ones to `acc`.
pub open spec fn parse_children_spec(
    cs: Seq<Value>,
    i: int,
    depth: int,
    b: BudgetView,
    acc: Seq<MenuNodeView>,
) -> (Result<Seq<MenuNodeView>, MenuError>, BudgetView)
    decreases cs, cs.len() - i,
{
    if i < 0 || i >= cs.len() {
        (Ok(acc), b)
    } else {
        match cs[i] {
            Value::Variant(inner) => {
                let (r, b1) = parse_node_spec(*inner, depth + 1, b);
                match r {
                    Err(e) => (Err(e), b1),
                    Ok(None) => parse_children_spec(cs, i + 1, depth, b1, acc),
                    Ok(Some(n)) => parse_children_spec(cs, i + 1, depth, b1, acc.push(n)),
                }
            },
            _ => (Err(MenuError::ChildNotVariant), b),
        }
    }
}

pub open spec fn nodes_view(s: Seq<MenuNode>) -> Seq<MenuNodeView> {
    Seq::new(s.len(), |i: int| node_view(s[i]))
}

pub open spec fn result_view(r: Result<Option<MenuNode>, MenuError>) -> Result<Option<MenuNodeView>, MenuError> {
    match r {
        Ok(Some(n)) => Ok(Some(node_view(n))),
        Ok(None) => Ok(None),
        Err(e) => Err(e),
    }
}

/// The limits consumed while reading one layout.
pub struct Budget {
    pub nodes: usize,
    pub labels: usize,
    pub ids: Vec<i32>,
}

pub open spec fn budget_view(b: Budget) -> BudgetView {
    BudgetView { nodes: b.nodes as int, labels: b.labels as int, ids: b.ids@.to_set() }
}

pub open spec fn within_limits(b: Budget) -> bool {
    b.nodes <= MAX_NODES && b.labels <= MAX_LABEL_BYTES
}

fn contains_id(ids: &Vec<i32>, id: i32) -> (r: bool)
    ensures
        r == ids@.to_set().contains(id),
{
    let mut i: usize = 0;
    while i < ids.len()
        invariant
            i <= ids.len(),
            forall|j: int| 0 <= j < i ==> ids@[j] != id,
        decreases ids.len() - i,
    {
        if ids[i] == id {
            assert(ids@.contains(id));
            return true;
        }
        i += 1;
    }
    assert(!ids@.contains(id));
    false
}

/// Reads one node and, unless its identifier is negative, its subtree.
fn parse_node(value: &Value, depth: usize, budget: &mut Budget) -> (r: Result<Option<MenuNode>, MenuError>)
    requires
        within_limits(*old(budget)),
        depth <= MAX_DEPTH + 1,
    ensures
        result_view(r) == parse_node_spec(*value, depth as int, budget_view(*old(budget))).0,
        budget_view(*final(budget)) == parse_node_spec(*value, depth as int, budget_view(*old(budget))).1,
        r is Ok ==> within_limits(*final(budget)),
    decreases value, 0int,
{
    let ghost b0 = budget_view(*budget);
    if depth > MAX_DEPTH {
        return Err(MenuError::TooDeep);
    }
    budget.nodes = budget.nodes + 1;
    assert(budget_view(*budget) =~= BudgetView { nodes: b0.nodes + 1, ..b0 });
    if budget.nodes > MAX_NODES {
        return Err(MenuError::TooManyNodes);
    }
    let xs = match value {
        Value::Tuple(xs) => xs,
        _ => {
            return Err(MenuError::Shape);
        },
    };
    if xs.len() != 3 {
        return Err(MenuError::Shape);
    }
    let (id, props, kids) = match (&xs[0], &xs[1], &xs[2]) {
        (Value::Int32(id), Value::Dict(es), Value::Array(Ty::Variant, cs)) => (*id, es, cs),
        _ => {
            return Err(MenuError::Shape);
        },
    };
    assert(decreases_to!(*value => *kids)) by {
        assert(decreases_to!(*value => *xs));
        assert(decreases_to!(*xs => xs@));
        assert(decreases_to!(xs@ => xs@[2]));
    };
    assert(is_node_shape(*value));
    assert(node_id(*value) == id);
    assert(node_properties(*value) == props@);
    if id < 0 {
        return Ok(None);
    }
    if contains_id(&budget.ids, id) {
        return Err(MenuError::DuplicateId);
    }
    let ghost b1 = budget_view(*budget);
    let ghost ids0 = budget.ids@;
    budget.ids.push(id);
    proof {
        Seq::lemma_to_set_insert_commutes(ids0, id);
        assert(budget.ids@ =~= ids0 + seq![id]);
    }
    let ghost b2 = budget_view(*budget);
    let label = match dict_get(props, "label") {
        Some(x) => match value_string(x) {
            Some(s) => s,
            None => {
                return Err(MenuError::LabelNotString);
            },
        },
        None => String::new(),
    };
    let total = match budget.labels.checked_add(label.as_str().len()) {
        Some(t) => t,
        None => {
            return Err(MenuError::LabelOverflow);
        },
    };
    budget.labels = total;
    let ghost b3 = budget_view(*budget);
    assert(b3 =~= BudgetView { labels: b2.labels + byte_len(label@), ..b2 });
    if total > MAX_LABEL_BYTES {
        return Err(MenuError::LabelsTooLarge);
    }
    let visible = match dict_get(props, "visible") {
        Some(x) => match x {
            Value::Bool(b) => *b,
            _ => {
                return Err(MenuError::VisibleNotBoolean);
            },
        },
        None => true,
    };
    let separator = match dict_get(props, "type") {
        Some(x) => match value_string(x) {
            Some(t) => crate::text::str_eq(t.as_str(), "separator"),
            None => {
                return Err(MenuError::TypeNotString);
            },
        },
        None => false,
    };
    assert(node_fields(props@) == Ok::<(Seq<char>, bool, bool), MenuError>((label@, visible, separator)));
    let mut children: Vec<MenuNode> = Vec::new();
    let mut i: usize = 0;
    assert(nodes_view(children@) =~= Seq::<MenuNodeView>::empty());
    #[verifier::loop_isolation(false)]
    while i < kids.len()
        invariant
            i <= kids.len(),
            depth <= MAX_DEPTH,
            within_limits(*budget),
            decreases_to!(*value => *kids),
            parse_children_spec(kids@, 0, depth as int, b3, Seq::empty()) == parse_children_spec(
                kids@,
                i as int,
                depth as int,
                budget_view(*budget),
                nodes_view(children@),
            ),
        decreases kids.len() - i,
    {
        match &kids[i] {
            Value::Variant(inner) => {
                assert(decreases_to!(*value => **inner)) by {
                    assert(decreases_to!(*kids => kids@));
                    assert(decreases_to!(kids@ => kids@[i as int]));
                };
                let ghost before = children@;
                match parse_node(inner, depth + 1, budget) {
                    Err(e) => {
                        return Err(e);
                    },
                    Ok(None) => {},
                    Ok(Some(n)) => {
                        children.push(n);
                        assert(nodes_view(children@) =~= nodes_view(before).push(node_view(n)));
                    },
                }
            },
            _ => {
                return Err(MenuError::ChildNotVariant);
            },
        }
        i += 1;
    }
    let node = MenuNode { id, label, visible, separator, children };
    assert(node_view(node).children =~= nodes_view(node.children@));
    Ok(Some(node))
}

/// The tree a `GetLayout` reply describes, or why it is rejected.
pub open spec fn layout_spec(v: Value) -> Result<MenuNodeView, MenuError> {
    match parse_node_spec(v, 0, BudgetView { nodes: 0, labels: 0, ids: Set::empty() }).0 {
        Err(e) => Err(e),
        Ok(None) => Err(MenuError::RootNegative),
        Ok(Some(n)) => if n.id != 0 {
            Err(MenuError::RootNotZero)
        } else {
            Ok(n)
        },
    }
}

/// Reads a `GetLayout` tree: at most 64 levels below the root, 4096 nodes and
/// 1 MiB of labels in all, with unique nonnegative identifiers and a root of zero.
/// Nodes with negative identifiers are skipped with their children.
pub fn parse_layout(layout: &Value) -> (r: Result<MenuNode, MenuError>)
    ensures
        match r {
            Ok(n) => layout_spec(*layout) == Ok::<MenuNodeView, MenuError>(node_view(n)),
            Err(e) => layout_spec(*layout) == Err::<MenuNodeView, MenuError>(e),
        },
{
    let mut budget = Budget { nodes: 0, labels: 0, ids: Vec::new() };
    assert(budget_view(budget) =~= BudgetView { nodes: 0, labels: 0, ids: Set::empty() });
    match parse_node(layout, 0, &mut budget) {
        Err(e) => Err(e),
        Ok(None) => Err(MenuError::RootNegative),
        Ok(Some(root)) => if root.id != 0 {
            Err(MenuError::RootNotZero)
        } else {
            Ok(root)
        },
    }
}

/// Whether `id` names a visible, non-separator entry reachable through visible entries.
pub open spec fn has_action_spec(n: MenuNode, id: i32) -> bool
    decreases n, 1int,
{
    n.visible && !n.separator && (n.id == id || any_child_has_action(n.children@, 0, id))
}

/// Whether some child from position `i` on offers the action `id`.
pub open spec fn any_child_has_action(cs: Seq<MenuNode>, i: int, id: i32) -> bool
    decreases cs, cs.len() - i,
{
    if i < 0 || i >= cs.len() {
        false
    } else {
        has_action_spec(cs[i], id) || any_child_has_action(cs, i + 1, id)
    }
}

/// Whether activating `id` in this subtree reaches a current visible action.
pub fn has_action(node: &MenuNode, id: i32) -> (r: bool)
    ensures
        r == has_action_spec(*node, id),
    decreases node, 1int,
{
    if !node.visible || node.separator {
        return false;
    }
    if node.id == id {
        return true;
    }
    children_have_action(&node.children, 0, id)
}

fn children_have_action(cs: &Vec<MenuNode>, i: usize, id: i32) -> (r: bool)
    requires
        i <= cs.len(),
    ensures
        r == any_child_has_action(cs@, i as int, id),
    decreases cs@, cs.len() - i,
{
    if i >= cs.len() {
        return false;
    }
    assert(decreases_to!(cs@ => cs@[i as int]));
    if has_action(&cs[i], id) {
        return true;
    }
    children_have_action(cs, i + 1, id)
}

/// The last valid menu tree of an endpoint and whether actions can be sent to it.
#[derive(Debug)]
pub struct MenuState {
    pub available: bool,
    pub revision: u32,
    pub root: Option<MenuNode>,
}

impl MenuState {
    /// An unavailable endpoint with no tree.
    pub fn new() -> (s: Self)
        ensures
            !s.available,
            s.revision == 0,
            s.root is None,
    {
        MenuState { available: false, revision: 0, root: None }
    }
}

/// Whether a click on `id` may be sent: a positive identifier of a visible action under
/// one of the root's children while the endpoint is available.
pub fn can_activate(state: &MenuState, id: i32) -> (r: bool)
    ensures
        r == (id > 0 && state.available && state.root is Some && any_child_has_action(
            state.root->0.children@,
            0,
            id,
        )),
{
    if id <= 0 || !state.available {
        return false;
    }
    match &state.root {
        Some(root) => children_have_action(&root.children, 0, id),
        None => false,
    }
}

/// Why a request on a menu item is refused before it is sent.
#[derive(Clone, Copy, Debug, PartialEq, Eq, Structural)]
pub enum MenuRequestError {
    NegativeId,
    NotAction,
    Unavailable,
}

/// The text of each refusal.
pub open spec fn menu_request_message(e: MenuRequestError) -> Seq<char> {
    match e {
        MenuRequestError::NegativeId => "Menu identifiers must be nonnegative"@,
        MenuRequestError::NotAction => "Menu item is not a current visible action"@,
        MenuRequestError::Unavailable => "Menu endpoint is unavailable"@,
    }
}

impl MenuRequestError {
    /// The message reported for this refusal.
    pub fn message(&self) -> (r: &'static str)
        ensures
            r@ == menu_request_message(*self),
    {
        match self {
            MenuRequestError::NegativeId => "Menu identifiers must be nonnegative",
            MenuRequestError::NotAction => "Menu item is not a current visible action",
            MenuRequestError::Unavailable => "Menu endpoint is unavailable",
        }
    }
}

/// The life of one menu endpoint: whether the service runs, whether the endpoint's
/// owner is on the bus, the generation that tags everything started since the last
/// start, and the number of the latest layout request. Replies and callbacks tagged
/// with an older generation or request are stale and dropped.
#[derive(Clone, Copy, Debug, PartialEq, Eq, Structural)]
pub struct MenuSession {
    pub running: bool,
    pub owned: bool,
    pub generation: u64,
    pub revision: u64,
}

impl MenuSession {
    /// A stopped session whose owner has not been seen.
    pub fn new() -> (r: MenuSession)
        ensures
            r == (MenuSession { running: false, owned: false, generation: 0, revision: 0 }),
    {
        MenuSession { running: false, owned: false, generation: 0, revision: 0 }
    }

    /// Starts watching the endpoint; returns the generation that tags the watches,
    /// or nothing when it already runs.
    pub fn start(&mut self) -> (r: Option<u64>)
        ensures
            old(self).running ==> r is None && *final(self) == *old(self),
            !old(self).running ==> r == Some(old(self).generation) && *final(self) == (MenuSession {
                running: true,
                ..*old(self)
            }),
    {
        if self.running {
            return None;
        }
        self.running = true;
        Some(self.generation)
    }

    /// Whether something tagged with `generation` still belongs to this run.
    pub fn current(&self, generation: u64) -> (r: bool)
        ensures
            r == (self.running && self.generation == generation),
    {
        self.running && self.generation == generation
    }

    /// Supersedes any layout request in flight and, when running with the owner on
    /// the bus, starts a new one; returns its generation and request number.
    pub fn refresh(&mut self) -> (r: Option<(u64, u64)>)
        ensures
            !(old(self).running && old(self).owned) ==> r is None && *final(self) == *old(self),
            old(self).running && old(self).owned ==> r == Some((old(self).generation, old(self).revision.wrapping_add(1)))
                && *final(self) == (MenuSession { revision: old(self).revision.wrapping_add(1), ..*old(self) }),
    {
        if !self.running || !self.owned {
            return None;
        }
        self.revision = self.revision.wrapping_add(1);
        Some((self.generation, self.revision))
    }

    /// Whether the reply to request `revision` of `generation` is the one awaited: the
    /// run is the same, the owner is still there and no later request was made. A
    /// failed read is retried under the same condition.
    pub fn reply_current(&self, generation: u64, revision: u64) -> (r: bool)
        ensures
            r == accepts(*self, generation, revision),
    {
        self.current(generation) && self.owned && self.revision == revision
    }

    /// The owner appeared on the bus for the watch of `generation`; returns the layout
    /// request that follows, if the watch is current.
    pub fn owner_appeared(&mut self, generation: u64) -> (r: Option<(u64, u64)>)
        ensures
            !(old(self).running && old(self).generation == generation) ==> r is None && *final(self) == *old(self),
            old(self).running && old(self).generation == generation ==> r == Some(
                (generation, old(self).revision.wrapping_add(1)),
            ) && *final(self) == (MenuSession {
                owned: true,
                revision: old(self).revision.wrapping_add(1),
                ..*old(self)
            }),
    {
        if !self.current(generation) {
            return None;
        }
        self.owned = true;
        self.refresh()
    }

    /// The owner left the bus or the connection closed: any request in flight is
    /// superseded and actions stop; the caller publishes an unavailable, empty menu.
    pub fn owner_lost(&mut self)
        ensures
            *final(self) == (MenuSession { owned: false, revision: old(self).revision.wrapping_add(1), ..*old(self) }),
    {
        self.owned = false;
        self.revision = self.revision.wrapping_add(1);
    }

    /// Stops the session: a new generation begins, so everything tagged before is
    /// stale, and the owner is taken as lost.
    pub fn stop(&mut self)
        ensures
            *final(self) == (MenuSession {
                running: false,
                owned: false,
                generation: old(self).generation.wrapping_add(1),
                revision: old(self).revision.wrapping_add(1),
            }),
    {
        self.running = false;
        self.generation = self.generation.wrapping_add(1);
        self.owner_lost();
    }

    /// Whether actions can be sent: the session runs and the owner is on the bus.
    pub fn actions_allowed(&self) -> (r: bool)
        ensures
            r == (self.running && self.owned),
    {
        self.running && self.owned
    }
}

/// Checks an `AboutToShow` request for item `id` before it is sent.
pub fn about_to_show_check(session: &MenuSession, id: i32) -> (r: Result<(), MenuRequestError>)
    ensures
        r == (if id < 0 {
            Err(MenuRequestError::NegativeId)
        } else if !(session.running && session.owned) {
            Err(MenuRequestError::Unavailable)
        } else {
            Ok(())
        }),
{
    if id < 0 {
        return Err(MenuRequestError::NegativeId);
    }
    if !session.actions_allowed() {
        return Err(MenuRequestError::Unavailable);
    }
    Ok(())
}

/// Checks a click on item `id` before it is sent: it must be a current visible
/// action, and the endpoint reachable.
pub fn activate_check(session: &MenuSession, state: &MenuState, id: i32) -> (r: Result<(), MenuRequestError>)
    ensures
        r == (if !(id > 0 && state.available && state.root is Some && any_child_has_action(
            state.root->0.children@,
            0,
            id,
        )) {
            Err(MenuRequestError::NotAction)
        } else if !(session.running && session.owned) {
            Err(MenuRequestError::Unavailable)
        } else {
            Ok(())
        }),
{
    if !can_activate(state, id) {
        return Err(MenuRequestError::NotAction);
    }
    if !session.actions_allowed() {
        return Err(MenuRequestError::Unavailable);
    }
    Ok(())
}

/// Whether a session awaits the reply to request `revision` of `generation`.
pub open spec fn accepts(s: MenuSession, generation: u64, revision: u64) -> bool {
    s.running && s.generation == generation && s.owned && s.revision == revision
}

/// Only the latest request of the current run is answered: a newer request, the
/// owner leaving, or a stop each make every earlier reply stale.
pub proof fn lemma_stale_replies(s: MenuSession, generation: u64, revision: u64)
    ensures
        !accepts(MenuSession { revision: s.revision.wrapping_add(1), ..s }, generation, s.revision),
        !accepts(MenuSession { owned: false, revision: s.revision.wrapping_add(1), ..s }, generation, revision),
        !accepts(
            MenuSession {
                running: false,
                owned: false,
                generation: s.generation.wrapping_add(1),
                revision: s.revision.wrapping_add(1),
            },
            generation,
            revision,
        ),
{
}

} // verus!

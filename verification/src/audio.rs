//! The audio inventory: node kinds, endpoint identity, routing and volume-control checks.
use crate::text::{append, copy_string, decimal_string, decimal_text, str_eq};
use vstd::prelude::*;

verus! {

/// The PipeWire media classes the shell follows.
#[derive(Clone, Copy, Debug, PartialEq, Eq, Structural)]
pub enum NodeKind {
    Sink,
    Source,
    InputStream,
    OutputStream,
}

/// The media class that names a node kind.
pub open spec fn class_of(k: NodeKind) -> Seq<char> {
    match k {
        NodeKind::Sink => "Audio/Sink"@,
        NodeKind::Source => "Audio/Source"@,
        NodeKind::InputStream => "Stream/Input/Audio"@,
        NodeKind::OutputStream => "Stream/Output/Audio"@,
    }
}

/// The node kind a media class names, if it names one.
pub open spec fn kind_of_class(c: Seq<char>) -> Option<NodeKind> {
    if c == "Audio/Sink"@ {
        Some(NodeKind::Sink)
    } else if c == "Audio/Source"@ {
        Some(NodeKind::Source)
    } else if c == "Stream/Input/Audio"@ {
        Some(NodeKind::InputStream)
    } else if c == "Stream/Output/Audio"@ {
        Some(NodeKind::OutputStream)
    } else {
        None
    }
}

impl NodeKind {
    /// The media class of this kind.
    pub fn media_class(self) -> (r: &'static str)
        ensures
            r@ == class_of(self),
    {
        match self {
            NodeKind::Sink => "Audio/Sink",
            NodeKind::Source => "Audio/Source",
            NodeKind::InputStream => "Stream/Input/Audio",
            NodeKind::OutputStream => "Stream/Output/Audio",
        }
    }

    /// The kind a media class names.
    pub fn from_class(class: &str) -> (r: Option<NodeKind>)
        ensures
            r == kind_of_class(class@),
    {
        if str_eq(class, "Audio/Sink") {
            Some(NodeKind::Sink)
        } else if str_eq(class, "Audio/Source") {
            Some(NodeKind::Source)
        } else if str_eq(class, "Stream/Input/Audio") {
            Some(NodeKind::InputStream)
        } else if str_eq(class, "Stream/Output/Audio") {
            Some(NodeKind::OutputStream)
        } else {
            None
        }
    }
}

/// Reading a kind's media class back gives the kind.
pub proof fn lemma_class_roundtrip(k: NodeKind)
    ensures
        kind_of_class(class_of(k)) == Some(k),
{
    reveal_strlit("Audio/Sink");
    reveal_strlit("Audio/Source");
    reveal_strlit("Stream/Input/Audio");
    reveal_strlit("Stream/Output/Audio");
    let sink = "Audio/Sink"@;
    let source = "Audio/Source"@;
    let input = "Stream/Input/Audio"@;
    let output = "Stream/Output/Audio"@;
    assert(source[7] != sink[7]);
    assert(input[0] != sink[0] && input[0] != source[0]);
    assert(output[0] != sink[0] && output[0] != source[0] && output[7] != input[7]);
}

/// The run state of a node.
#[derive(Clone, Copy, Debug, PartialEq, Eq, Structural)]
pub enum NodeState {
    Error,
    Creating,
    Suspended,
    Idle,
    Running,
    Unknown,
}

/// The direction of a port.
#[derive(Clone, Copy, Debug, PartialEq, Eq, Structural)]
pub enum Direction {
    Input,
    Output,
}

/// A node of the audio graph. Its mixer levels are kept by the caller; the inventory
/// records whether the mixer reported them, and whether it reported the node muted.
#[derive(Clone, Debug, PartialEq, Eq)]
pub struct AudioNode {
    pub id: u32,
    /// Monotonic PipeWire identity; unlike the bound id, this is not reused after hotplug.
    pub serial: u64,
    pub kind: NodeKind,
    pub name: String,
    pub description: String,
    pub nickname: String,
    pub application: String,
    pub media: String,
    pub state: NodeState,
    pub volume_muted: Option<bool>,
}

/// A port of a node.
#[derive(Clone, Debug, PartialEq, Eq)]
pub struct AudioPort {
    pub id: u32,
    pub node: u32,
    pub index: u32,
    pub direction: Direction,
    pub channel: Option<String>,
    pub monitor: bool,
}

/// A link between two ports.
#[derive(Clone, Copy, Debug, PartialEq, Eq, Structural)]
pub struct AudioLink {
    pub id: u32,
    pub output_node: u32,
    pub output_port: u32,
    pub input_node: u32,
    pub input_port: u32,
}

/// The audio graph as last observed.
#[derive(Clone, Debug, PartialEq, Eq)]
pub struct AudioState {
    pub available: bool,
    pub nodes: Vec<AudioNode>,
    pub ports: Vec<AudioPort>,
    pub links: Vec<AudioLink>,
    pub default_sink: Option<u32>,
    pub default_source: Option<u32>,
}

/// The first node with the given id.
pub open spec fn first_node(nodes: Seq<AudioNode>, id: u32) -> Option<AudioNode>
    decreases nodes.len(),
{
    if nodes.len() == 0 {
        None
    } else if nodes[0].id == id {
        Some(nodes[0])
    } else {
        first_node(nodes.drop_first(), id)
    }
}

/// Whether some node is a source that is running.
pub open spec fn capturing(nodes: Seq<AudioNode>) -> bool {
    exists|i: int| 0 <= i < nodes.len() && #[trigger] nodes[i].kind == NodeKind::Source
        && nodes[i].state == NodeState::Running
}

proof fn lemma_first_node_step(nodes: Seq<AudioNode>, id: u32, i: int)
    requires
        0 <= i < nodes.len(),
    ensures
        first_node(nodes.skip(i), id) == if nodes[i].id == id {
            Some(nodes[i])
        } else {
            first_node(nodes.skip(i + 1), id)
        },
{
    assert(nodes.skip(i).drop_first() =~= nodes.skip(i + 1));
}

impl AudioState {
    /// An empty, unavailable inventory.
    pub fn new() -> (r: AudioState)
        ensures
            !r.available,
            r.nodes@.len() == 0,
            r.ports@.len() == 0,
            r.links@.len() == 0,
            r.default_sink is None,
            r.default_source is None,
    {
        AudioState {
            available: false,
            nodes: Vec::new(),
            ports: Vec::new(),
            links: Vec::new(),
            default_sink: None,
            default_source: None,
        }
    }

    /// The first node with the given id.
    pub fn node(&self, id: u32) -> (r: Option<&AudioNode>)
        ensures
            match r {
                Some(n) => first_node(self.nodes@, id) == Some(*n),
                None => first_node(self.nodes@, id) is None,
            },
    {
        let mut i: usize = 0;
        assert(self.nodes@.skip(0) =~= self.nodes@);
        while i < self.nodes.len()
            invariant
                i <= self.nodes@.len(),
                first_node(self.nodes@, id) == first_node(self.nodes@.skip(i as int), id),
            decreases self.nodes@.len() - i,
        {
            proof {
                lemma_first_node_step(self.nodes@, id, i as int);
            }
            if self.nodes[i].id == id {
                return Some(&self.nodes[i]);
            }
            i += 1;
        }
        assert(self.nodes@.skip(i as int).len() == 0);
        None
    }

    /// Whether a microphone is capturing: some source node is running.
    pub fn microphone_active(&self) -> (r: bool)
        ensures
            r == capturing(self.nodes@),
    {
        let mut i: usize = 0;
        while i < self.nodes.len()
            invariant
                i <= self.nodes@.len(),
                forall|j: int| 0 <= j < i ==> !(#[trigger] self.nodes@[j].kind == NodeKind::Source
                    && self.nodes@[j].state == NodeState::Running),
            decreases self.nodes@.len() - i,
        {
            if self.nodes[i].kind == NodeKind::Source && self.nodes[i].state == NodeState::Running {
                return true;
            }
            i += 1;
        }
        false
    }
}

/// The node the defaults plugin names, if it exists with the expected kind.
pub open spec fn default_of(nodes: Seq<AudioNode>, id: u32, kind: NodeKind) -> Option<u32> {
    if exists|i: int| 0 <= i < nodes.len() && #[trigger] nodes[i].id == id && nodes[i].kind == kind {
        Some(id)
    } else {
        None
    }
}

/// Resolves the default node that the defaults plugin reported as `id`.
pub fn default_node(nodes: &Vec<AudioNode>, id: u32, kind: NodeKind) -> (r: Option<u32>)
    ensures
        r == default_of(nodes@, id, kind),
{
    let mut i: usize = 0;
    while i < nodes.len()
        invariant
            i <= nodes@.len(),
            forall|j: int| 0 <= j < i ==> !(#[trigger] nodes@[j].id == id && nodes@[j].kind == kind),
        decreases nodes@.len() - i,
    {
        if nodes[i].id == id && nodes[i].kind == kind {
            return Some(id);
        }
        i += 1;
    }
    None
}

/// Why a volume or mute request failed.
#[derive(Clone, Copy, Debug, PartialEq, Eq, Structural)]
pub enum AudioError {
    Unavailable,
    NodeNotFound(u32),
    VolumeUnavailable(u32),
    InvalidVolume,
    InvalidDelta,
    Rejected(u32),
}

/// The text of an audio error.
pub open spec fn audio_error_text(e: AudioError) -> Seq<char> {
    match e {
        AudioError::Unavailable => "audio service is unavailable"@,
        AudioError::NodeNotFound(id) => "audio node "@ + decimal_text(id as nat)
            + " is no longer available"@,
        AudioError::VolumeUnavailable(id) => "audio node "@ + decimal_text(id as nat)
            + " has no volume control"@,
        AudioError::InvalidVolume => "volume must be finite and between 0.0 and 1.0"@,
        AudioError::InvalidDelta => "volume adjustment must be finite"@,
        AudioError::Rejected(id) => "audio node "@ + decimal_text(id as nat)
            + " rejected the volume operation"@,
    }
}

fn node_message(id: u32, tail: &str) -> (r: String)
    ensures
        r@ == "audio node "@ + decimal_text(id as nat) + tail@,
{
    let mut s = String::new();
    append(&mut s, "audio node ");
    let n = decimal_string(id as u64);
    append(&mut s, n.as_str());
    append(&mut s, tail);
    s
}

impl AudioError {
    /// The message shown for this error.
    pub fn message(&self) -> (r: String)
        ensures
            r@ == audio_error_text(*self),
    {
        match self {
            AudioError::Unavailable => "audio service is unavailable".to_owned(),
            AudioError::NodeNotFound(id) => node_message(*id, " is no longer available"),
            AudioError::VolumeUnavailable(id) => node_message(*id, " has no volume control"),
            AudioError::InvalidVolume => "volume must be finite and between 0.0 and 1.0".to_owned(),
            AudioError::InvalidDelta => "volume adjustment must be finite".to_owned(),
            AudioError::Rejected(id) => node_message(*id, " rejected the volume operation"),
        }
    }
}

/// Whether a node accepts volume and mute requests, as the inventory shows it.
pub open spec fn control_result(state_available: bool, nodes: Seq<AudioNode>, id: u32) -> Result<(), AudioError> {
    if !state_available {
        Err(AudioError::Unavailable)
    } else {
        match first_node(nodes, id) {
            None => Err(AudioError::NodeNotFound(id)),
            Some(n) => if n.volume_muted is Some {
                Ok(())
            } else {
                Err(AudioError::VolumeUnavailable(id))
            },
        }
    }
}

/// Checks that node `id` accepts volume and mute requests. The mixer itself is
/// checked by the caller, which reports `Unavailable` when it is gone.
pub fn volume_control(state: &AudioState, id: u32) -> (r: Result<(), AudioError>)
    ensures
        r == control_result(state.available, state.nodes@, id),
{
    if !state.available {
        return Err(AudioError::Unavailable);
    }
    match state.node(id) {
        None => Err(AudioError::NodeNotFound(id)),
        Some(n) => if n.volume_muted.is_some() {
            Ok(())
        } else {
            Err(AudioError::VolumeUnavailable(id))
        },
    }
}

/// Why a stream could not be moved.
#[derive(Clone, Debug, PartialEq, Eq)]
pub enum RouteError {
    Unavailable,
    InvalidEndpoints,
    EndpointRemoved,
    StreamNotFound,
    InvalidName,
    Failed(String),
    Cancelled,
    Timeout,
}

/// The text of a routing error.
pub open spec fn route_error_text(e: RouteError) -> Seq<char> {
    match e {
        RouteError::Unavailable => "Stream routing is unavailable"@,
        RouteError::InvalidEndpoints => "Incompatible audio routing endpoints"@,
        RouteError::EndpointRemoved => "An audio routing endpoint was removed"@,
        RouteError::StreamNotFound => "Stream is not available through PulseAudio"@,
        RouteError::InvalidName => "Invalid audio routing name"@,
        RouteError::Failed(m) => "Stream routing failed: "@ + m@,
        RouteError::Cancelled => "Stream routing was cancelled"@,
        RouteError::Timeout => "Stream routing exceeded its two-second deadline"@,
    }
}

impl RouteError {
    /// The message shown for this error.
    pub fn message(&self) -> (r: String)
        ensures
            r@ == route_error_text(*self),
    {
        match self {
            RouteError::Unavailable => "Stream routing is unavailable".to_owned(),
            RouteError::InvalidEndpoints => "Incompatible audio routing endpoints".to_owned(),
            RouteError::EndpointRemoved => "An audio routing endpoint was removed".to_owned(),
            RouteError::StreamNotFound => "Stream is not available through PulseAudio".to_owned(),
            RouteError::InvalidName => "Invalid audio routing name".to_owned(),
            RouteError::Failed(m) => {
                let mut s = String::new();
                append(&mut s, "Stream routing failed: ");
                append(&mut s, m.as_str());
                s
            },
            RouteError::Cancelled => "Stream routing was cancelled".to_owned(),
            RouteError::Timeout => "Stream routing exceeded its two-second deadline".to_owned(),
        }
    }
}

/// A routing endpoint: a node pinned by its serial, so that a reused id does not match.
#[derive(Clone, Debug, PartialEq, Eq)]
pub struct Endpoint {
    pub id: u32,
    pub serial: u64,
    pub kind: NodeKind,
    pub name: String,
}

/// The abstract value of an endpoint.
pub struct EndpointView {
    pub id: u32,
    pub serial: u64,
    pub kind: NodeKind,
    pub name: Seq<char>,
}

impl View for Endpoint {
    type V = EndpointView;

    open spec fn view(&self) -> EndpointView {
        EndpointView { id: self.id, serial: self.serial, kind: self.kind, name: self.name@ }
    }
}

/// The endpoint node `id` gives in `nodes`: absent nodes and nodes without a serial
/// count as removed.
pub open spec fn endpoint_of(nodes: Seq<AudioNode>, id: u32) -> Result<EndpointView, RouteError> {
    match first_node(nodes, id) {
        None => Err(RouteError::EndpointRemoved),
        Some(n) => if n.serial == 0 {
            Err(RouteError::EndpointRemoved)
        } else {
            Ok(EndpointView { id, serial: n.serial, kind: n.kind, name: n.name@ })
        },
    }
}

/// Whether a stream of kind `stream` can be moved to a node of kind `target`.
pub open spec fn compatible(stream: NodeKind, target: NodeKind) -> bool {
    (stream == NodeKind::OutputStream && target == NodeKind::Sink) || (stream
        == NodeKind::InputStream && target == NodeKind::Source)
}

impl Endpoint {
    /// The endpoint for node `id` in `state`.
    pub fn from_state(state: &AudioState, id: u32) -> (r: Result<Endpoint, RouteError>)
        ensures
            match endpoint_of(state.nodes@, id) {
                Ok(v) => r matches Ok(e) && e@ == v,
                Err(x) => r == Err::<Endpoint, RouteError>(x),
            },
    {
        match state.node(id) {
            None => Err(RouteError::EndpointRemoved),
            Some(n) => {
                if n.serial == 0 {
                    return Err(RouteError::EndpointRemoved);
                }
                let name = n.name.clone();
                assert(name@ == n.name@);
                Ok(Endpoint { id, serial: n.serial, kind: n.kind, name })
            },
        }
    }

    /// Whether the same node, with the same serial, kind and name, is still present.
    pub fn present(&self, state: &AudioState) -> (r: bool)
        ensures
            r == (endpoint_of(state.nodes@, self.id) == Ok::<EndpointView, RouteError>(self@)),
    {
        match Endpoint::from_state(state, self.id) {
            Err(_) => false,
            Ok(e) => {
                let same = e.id == self.id && e.serial == self.serial && e.kind == self.kind
                    && str_eq(e.name.as_str(), self.name.as_str());
                proof {
                    if same {
                        assert(e@ == self@);
                    }
                }
                same
            },
        }
    }
}

/// The endpoints of a move of `stream` to `target`, or why it cannot be made.
pub open spec fn route_plan(available: bool, enabled: bool, nodes: Seq<AudioNode>, stream: u32, target: u32) -> Result<(EndpointView, EndpointView), RouteError> {
    if !available || !enabled {
        Err(RouteError::Unavailable)
    } else {
        match endpoint_of(nodes, stream) {
            Err(e) => Err(e),
            Ok(s) => match endpoint_of(nodes, target) {
                Err(e) => Err(e),
                Ok(t) => if compatible(s.kind, t.kind) {
                    Ok((s, t))
                } else {
                    Err(RouteError::InvalidEndpoints)
                },
            },
        }
    }
}

/// Which moves are accepted: with routing available and enabled and both nodes present
/// with a serial, a playback stream moves to a sink and a capture stream to a source,
/// with endpoints pinned to those nodes; any other pair of kinds is refused as
/// incompatible.
pub proof fn lemma_route_kinds(nodes: Seq<AudioNode>, stream: u32, target: u32, a: AudioNode, b: AudioNode)
    requires
        first_node(nodes, stream) == Some(a),
        first_node(nodes, target) == Some(b),
        a.serial != 0,
        b.serial != 0,
    ensures
        (a.kind == NodeKind::OutputStream && b.kind == NodeKind::Sink) || (a.kind == NodeKind::InputStream
            && b.kind == NodeKind::Source) ==> route_plan(true, true, nodes, stream, target) == Ok::<
            (EndpointView, EndpointView),
            RouteError,
        >(
            (
                EndpointView { id: stream, serial: a.serial, kind: a.kind, name: a.name@ },
                EndpointView { id: target, serial: b.serial, kind: b.kind, name: b.name@ },
            ),
        ),
        !((a.kind == NodeKind::OutputStream && b.kind == NodeKind::Sink) || (a.kind == NodeKind::InputStream
            && b.kind == NodeKind::Source)) ==> route_plan(true, true, nodes, stream, target) == Err::<
            (EndpointView, EndpointView),
            RouteError,
        >(RouteError::InvalidEndpoints),
{
}

/// Checks a request to move a playback stream to a sink or a capture stream to a source.
pub fn prepare_route(state: &AudioState, routing_enabled: bool, stream: u32, target: u32) -> (r: Result<(Endpoint, Endpoint), RouteError>)
    ensures
        match route_plan(state.available, routing_enabled, state.nodes@, stream, target) {
            Ok((s, t)) => r matches Ok((a, b)) && a@ == s && b@ == t,
            Err(x) => r == Err::<(Endpoint, Endpoint), RouteError>(x),
        },
{
    if !state.available || !routing_enabled {
        return Err(RouteError::Unavailable);
    }
    let s = match Endpoint::from_state(state, stream) {
        Ok(e) => e,
        Err(x) => return Err(x),
    };
    let t = match Endpoint::from_state(state, target) {
        Ok(e) => e,
        Err(x) => return Err(x),
    };
    let ok = (s.kind == NodeKind::OutputStream && t.kind == NodeKind::Sink) || (s.kind
        == NodeKind::InputStream && t.kind == NodeKind::Source);
    if !ok {
        return Err(RouteError::InvalidEndpoints);
    }
    Ok((s, t))
}

/// Whether a prepared move may go on, checked before and between its requests: the
/// service is still alive in the generation the move was prepared in (else the move is
/// cancelled), and the inventory is available with both endpoints still present, with
/// the serial, kind and name they had (else an endpoint was removed).
pub fn route_still_valid(
    alive: bool,
    prepared: u64,
    current: u64,
    state: &AudioState,
    stream: &Endpoint,
    target: &Endpoint,
) -> (r: Result<(), RouteError>)
    ensures
        r == (if !alive || prepared != current {
            Err::<(), RouteError>(RouteError::Cancelled)
        } else if !state.available || endpoint_of(state.nodes@, stream.id) != Ok::<EndpointView, RouteError>(stream@)
            || endpoint_of(state.nodes@, target.id) != Ok::<EndpointView, RouteError>(target@) {
            Err::<(), RouteError>(RouteError::EndpointRemoved)
        } else {
            Ok::<(), RouteError>(())
        }),
{
    if !alive || prepared != current {
        return Err(RouteError::Cancelled);
    }
    if !state.available || !stream.present(state) || !target.present(state) {
        return Err(RouteError::EndpointRemoved);
    }
    Ok(())
}

/// The decimal value of a run of ASCII digit characters.
pub open spec fn digits_value(d: Seq<char>) -> int
    decreases d.len(),
{
    if d.len() == 0 {
        0
    } else {
        digits_value(d.drop_last()) * 10 + (d.last() as int - '0' as int)
    }
}

/// Whether every character is an ASCII digit.
pub open spec fn all_digits(d: Seq<char>) -> bool {
    forall|i: int| 0 <= i < d.len() ==> '0' <= #[trigger] d[i] <= '9'
}

/// A `u64` as `str::parse` reads it: an optional `+`, then one or more digits, no overflow.
pub open spec fn u64_text(s: Seq<char>) -> Option<u64> {
    let d = if s.len() > 1 && s[0] == '+' { s.skip(1) } else { s };
    if d.len() > 0 && all_digits(d) && digits_value(d) <= u64::MAX {
        Some(digits_value(d) as u64)
    } else {
        None
    }
}

proof fn lemma_digits_value_grows(d: Seq<char>, n: int)
    requires
        0 <= n <= d.len(),
        all_digits(d),
    ensures
        0 <= digits_value(d.take(n)) <= digits_value(d),
    decreases d.len() - n,
{
    if n < d.len() {
        lemma_digits_value_grows(d, n + 1);
        assert(d.take(n + 1).drop_last() =~= d.take(n));
        lemma_digits_value_nonneg(d.take(n));
    } else {
        assert(d.take(n) =~= d);
        lemma_digits_value_nonneg(d);
    }
}

proof fn lemma_digits_value_nonneg(d: Seq<char>)
    requires
        all_digits(d),
    ensures
        digits_value(d) >= 0,
    decreases d.len(),
{
    if d.len() > 0 {
        assert(all_digits(d.drop_last()));
        lemma_digits_value_nonneg(d.drop_last());
    }
}

/// Reads a PipeWire object serial.
pub fn parse_u64(text: &str) -> (r: Option<u64>)
    ensures
        r == u64_text(text@),
{
    let c = crate::text::chars_of(text);
    let start: usize = if c.len() > 1 && c[0] == '+' { 1 } else { 0 };
    let ghost d = if c@.len() > 1 && c@[0] == '+' { c@.skip(1) } else { c@ };
    assert(d =~= c@.skip(start as int));
    if start == c.len() {
        return None;
    }
    let mut i: usize = start;
    let mut total: u64 = 0;
    while i < c.len()
        invariant
            start <= i <= c@.len(),
            c@ == text@,
            d =~= c@.skip(start as int),
            d == (if c@.len() > 1 && c@[0] == '+' { c@.skip(1) } else { c@ }),
            all_digits(d.take(i - start)),
            total == digits_value(d.take(i - start)),
        decreases c@.len() - i,
    {
        let ch = c[i];
        if !('0' <= ch && ch <= '9') {
            assert(d[i - start] == ch);
            return None;
        }
        let dv = (ch as u32 - '0' as u32) as u64;
        assert(d.take(i - start + 1).drop_last() =~= d.take(i - start));
        assert(all_digits(d.take(i - start + 1)));
        assert(digits_value(d.take(i - start + 1)) == total * 10 + dv);
        let next = match total.checked_mul(10) {
            Some(t) => t.checked_add(dv),
            None => None,
        };
        match next {
            None => {
                proof {
                    if all_digits(d) {
                        lemma_digits_value_grows(d, i - start + 1);
                    }
                }
                return None;
            },
            Some(t) => {
                total = t;
            },
        }
        i += 1;
    }
    assert(d.take(i - start) =~= d);
    Some(total)
}

/// The search for the stream whose `object.serial` property names a node.
#[derive(Clone, Debug, PartialEq, Eq)]
pub struct SerialLookup {
    pub serial: u64,
    pub found: Option<u32>,
    pub result: Option<Result<u32, RouteError>>,
}

impl SerialLookup {
    /// A search for `serial` that has seen nothing yet.
    pub fn new(serial: u64) -> (r: SerialLookup)
        ensures
            r.serial == serial,
            r.found is None,
            r.result is None,
    {
        SerialLookup { serial, found: None, result: None }
    }

    /// Takes one answer of a stream listing. `eol` is the listing's end marker (negative
    /// on failure, which `failure` describes); `info` is the stream's index with its
    /// `object.serial` text, when the stream has properties.
    pub fn list_item(&mut self, eol: i32, info: Option<(u32, Option<&str>)>, failure: RouteError)
        ensures
            final(self).serial == old(self).serial,
            eol != 0 ==> final(self).found == old(self).found && final(self).result == Some(
                if eol < 0 {
                    Err::<u32, RouteError>(failure)
                } else {
                    match old(self).found {
                        Some(i) => Ok::<u32, RouteError>(i),
                        None => Err(RouteError::StreamNotFound),
                    }
                },
            ),
            eol == 0 ==> final(self).result == old(self).result && final(self).found == (match info {
                Some((index, Some(text))) => if u64_text(text@) == Some(old(self).serial) {
                    Some(index)
                } else {
                    old(self).found
                },
                _ => old(self).found,
            }),
    {
        if eol != 0 {
            self.result = Some(
                if eol < 0 {
                    Err(failure)
                } else {
                    match self.found {
                        Some(i) => Ok(i),
                        None => Err(RouteError::StreamNotFound),
                    }
                },
            );
        } else {
            match info {
                Some((index, Some(text))) => {
                    if parse_u64(text) == Some(self.serial) {
                        self.found = Some(index);
                    }
                },
                _ => {},
            }
        }
    }
}

/// An inventory record ordered by its PipeWire id.
pub trait Identified: Sized {
    spec fn key(&self) -> u32;

    fn id_of(&self) -> (r: u32)
        ensures
            r == self.key(),
    ;
}

impl Identified for AudioNode {
    open spec fn key(&self) -> u32 {
        self.id
    }

    fn id_of(&self) -> (r: u32) {
        self.id
    }
}

impl Identified for AudioPort {
    open spec fn key(&self) -> u32 {
        self.id
    }

    fn id_of(&self) -> (r: u32) {
        self.id
    }
}

impl Identified for AudioLink {
    open spec fn key(&self) -> u32 {
        self.id
    }

    fn id_of(&self) -> (r: u32) {
        self.id
    }
}

/// Whether the records are in ascending id order.
pub open spec fn sorted_by_id<T: Identified>(s: Seq<T>) -> bool {
    forall|i: int, j: int| 0 <= i < j < s.len() ==> #[trigger] s[i].key() <= #[trigger] s[j].key()
}

/// Whether a record has id `k`.
pub open spec fn key_is<T: Identified>(k: u32) -> spec_fn(T) -> bool {
    |t: T| t.key() == k
}

/// The records with id `k`, in order.
pub open spec fn with_key<T: Identified>(s: Seq<T>, k: u32) -> Seq<T> {
    s.filter(key_is::<T>(k))
}

/// Sorts records by id, keeping records with equal ids in the order they came.
pub fn sort_by_id<T: Identified>(v: Vec<T>) -> (r: Vec<T>)
    ensures
        sorted_by_id(r@),
        r@.to_multiset() == v@.to_multiset(),
        forall|k: u32| #[trigger] with_key(r@, k) == with_key(v@, k),
{
    let ghost orig = v@;
    let mut rest = v;
    let mut out: Vec<T> = Vec::new();
    proof {
        vstd::seq_lib::to_multiset_len(out@);
        vstd::multiset::lemma_multiset_empty_len(out@.to_multiset());
        broadcast use vstd::multiset::group_multiset_axioms;
        assert(out@.to_multiset().add(rest@.to_multiset()) =~= orig.to_multiset());
        assert forall|k: u32| #[trigger] with_key(out@, k) + with_key(rest@, k) == with_key(orig, k) by {
            crate::stable::lemma_filter_empty(key_is::<T>(k));
            assert(with_key(out@, k) =~= Seq::<T>::empty());
            assert(with_key(out@, k) + with_key(rest@, k) =~= with_key(orig, k));
        };
    }
    while rest.len() > 0
        invariant
            sorted_by_id(out@),
            out@.to_multiset().add(rest@.to_multiset()) == orig.to_multiset(),
            forall|k: u32| #[trigger] with_key(out@, k) + with_key(rest@, k) == with_key(orig, k),
        decreases rest.len(),
    {
        let ghost before = rest@;
        let x = rest.remove(0);
        proof {
            vstd::seq_lib::to_multiset_remove(before, 0);
        }
        let k = x.id_of();
        let mut p: usize = 0;
        while p < out.len() && out[p].id_of() <= k
            invariant
                p <= out@.len(),
                forall|q: int| 0 <= q < p ==> #[trigger] out@[q].key() <= k,
            decreases out@.len() - p,
        {
            p += 1;
        }
        let ghost prev = out@;
        out.insert(p, x);
        assert(out@ == prev.insert(p as int, x));
        proof {
            vstd::seq_lib::to_multiset_insert(prev, p as int, x);
        }
        assert forall|i: int, j: int| 0 <= i < j < out@.len() implies #[trigger] out@[i].key()
            <= #[trigger] out@[j].key() by {
            if p < prev.len() {
                assert(prev[p as int].key() > k);
            }
            if j < p {
                assert(out@[i] == prev[i] && out@[j] == prev[j]);
            } else if j == p {
                assert(out@[i] == prev[i]);
            } else if i == p {
                assert(out@[j] == prev[j - 1]);
                assert(prev[p as int].key() <= prev[j - 1].key());
            } else if i < p {
                assert(out@[i] == prev[i] && out@[j] == prev[j - 1]);
            } else {
                assert(out@[i] == prev[i - 1] && out@[j] == prev[j - 1]);
            }
        };
        proof {
            vstd::seq_lib::to_multiset_contains(before, before[0]);
            assert(before.contains(before[0]));
            broadcast use vstd::multiset::group_multiset_axioms;
            assert(out@.to_multiset().add(rest@.to_multiset()) =~= orig.to_multiset());
            assert(before =~= seq![x] + rest@);
            assert forall|key: u32| #[trigger] with_key(out@, key) + with_key(rest@, key) == with_key(orig, key) by {
                let pred = key_is::<T>(key);
                rest@.lemma_filter_prepend(x, pred);
                crate::stable::lemma_filter_insert(prev, p as int, x, pred);
                if pred(x) {
                    assert forall|q: int| p <= q < prev.len() implies !pred(#[trigger] prev[q]) by {
                        assert(prev[p as int].key() > k);
                        if q > p {
                            assert(prev[p as int].key() <= prev[q].key());
                        }
                    };
                    assert(with_key(out@, key) == with_key(prev, key).push(x));
                    assert(with_key(before, key) == seq![x] + with_key(rest@, key));
                    assert(with_key(out@, key) + with_key(rest@, key) =~= with_key(prev, key) + with_key(before, key));
                } else {
                    assert(with_key(out@, key) == with_key(prev, key));
                    assert(with_key(before, key) =~= with_key(rest@, key));
                }
            };
        }
    }
    proof {
        vstd::seq_lib::to_multiset_len(rest@);
        vstd::multiset::lemma_multiset_empty_len(rest@.to_multiset());
        broadcast use vstd::multiset::group_multiset_axioms;
        assert(out@.to_multiset() =~= orig.to_multiset());
        assert forall|k: u32| #[trigger] with_key(out@, k) == with_key(orig, k) by {
            crate::stable::lemma_filter_empty(key_is::<T>(k));
            assert(rest@ =~= Seq::<T>::empty());
            assert(with_key(out@, k) + with_key(rest@, k) =~= with_key(out@, k));
        };
    }
    out
}

/// The text of a property, or empty when it is absent.
pub open spec fn or_empty(s: Option<String>) -> Seq<char> {
    match s {
        Some(t) => t@,
        None => Seq::empty(),
    }
}

/// The serial a node records: its `object.serial` read as a decimal `u64`, or 0 when
/// it is absent or does not read.
pub open spec fn serial_of(s: Option<String>) -> u64 {
    match s {
        Some(t) => match u64_text(t@) {
            Some(n) => n,
            None => 0,
        },
        None => 0,
    }
}

fn text_or_empty(s: Option<String>) -> (r: String)
    ensures
        r@ == or_empty(s),
{
    match s {
        Some(t) => t,
        None => String::new(),
    }
}

/// A node as a snapshot records it from its properties: an absent name, nickname,
/// application or media name reads as empty, an absent description as the node's name,
/// and an absent or unreadable serial as 0.
pub fn snapshot_node(
    id: u32,
    kind: NodeKind,
    state: NodeState,
    volume_muted: Option<bool>,
    name: Option<String>,
    description: Option<String>,
    serial: Option<String>,
    nickname: Option<String>,
    application: Option<String>,
    media: Option<String>,
) -> (r: AudioNode)
    ensures
        r.id == id,
        r.kind == kind,
        r.state == state,
        r.volume_muted == volume_muted,
        r.name@ == or_empty(name),
        r.description@ == (match description {
            Some(d) => d@,
            None => or_empty(name),
        }),
        r.serial == serial_of(serial),
        r.nickname@ == or_empty(nickname),
        r.application@ == or_empty(application),
        r.media@ == or_empty(media),
{
    let name = text_or_empty(name);
    let description = match description {
        Some(d) => d,
        None => copy_string(&name),
    };
    let serial = match serial {
        Some(t) => match parse_u64(t.as_str()) {
            Some(n) => n,
            None => 0,
        },
        None => 0,
    };
    AudioNode {
        id,
        serial,
        kind,
        name,
        description,
        nickname: text_or_empty(nickname),
        application: text_or_empty(application),
        media: text_or_empty(media),
        state,
        volume_muted,
    }
}

/// Whether a port is a monitor: its `port.monitor` property reads exactly `true`.
pub fn port_is_monitor(value: Option<&str>) -> (r: bool)
    ensures
        r == (match value {
            Some(v) => v@ == "true"@,
            None => false,
        }),
{
    match value {
        Some(v) => str_eq(v, "true"),
        None => false,
    }
}

/// Orders a freshly listed inventory by id (records with equal ids keep their order)
/// and resolves the default sink and source that the defaults plugin reported, if it
/// is loaded.
pub fn finish_snapshot(
    nodes: Vec<AudioNode>,
    ports: Vec<AudioPort>,
    links: Vec<AudioLink>,
    sink: Option<u32>,
    source: Option<u32>,
) -> (r: AudioState)
    ensures
        r.available,
        sorted_by_id(r.nodes@) && r.nodes@.to_multiset() == nodes@.to_multiset(),
        sorted_by_id(r.ports@) && r.ports@.to_multiset() == ports@.to_multiset(),
        sorted_by_id(r.links@) && r.links@.to_multiset() == links@.to_multiset(),
        forall|k: u32| #[trigger] with_key(r.nodes@, k) == with_key(nodes@, k),
        forall|k: u32| #[trigger] with_key(r.ports@, k) == with_key(ports@, k),
        forall|k: u32| #[trigger] with_key(r.links@, k) == with_key(links@, k),
        r.default_sink == (match sink {
            Some(id) => default_of(r.nodes@, id, NodeKind::Sink),
            None => None,
        }),
        r.default_source == (match source {
            Some(id) => default_of(r.nodes@, id, NodeKind::Source),
            None => None,
        }),
{
    let nodes = sort_by_id(nodes);
    let ports = sort_by_id(ports);
    let links = sort_by_id(links);
    let default_sink = match sink {
        Some(id) => default_node(&nodes, id, NodeKind::Sink),
        None => None,
    };
    let default_source = match source {
        Some(id) => default_node(&nodes, id, NodeKind::Source),
        None => None,
    };
    AudioState { available: true, nodes, ports, links, default_sink, default_source }
}

proof fn lemma_decimal_digits(n: nat)
    ensures
        decimal_text(n).len() > 0,
        all_digits(decimal_text(n)),
        digits_value(decimal_text(n)) == n,
        decimal_text(n)[0] != '+',
    decreases n,
{
    if n < 10 {
        let t = decimal_text(n);
        assert(t.drop_last() =~= Seq::<char>::empty());
        assert(digits_value(Seq::<char>::empty()) == 0);
        assert(t.last() == crate::text::digit_char(n));
        assert(crate::text::digit_char(n) as int - '0' as int == n);
    } else {
        lemma_decimal_digits(n / 10);
        let t = decimal_text(n);
        let h = decimal_text(n / 10);
        assert(t == h.push(crate::text::digit_char(n % 10)));
        assert(t.drop_last() =~= h);
        assert(crate::text::digit_char(n % 10) as int - '0' as int == n % 10);
        assert(all_digits(t)) by {
            assert forall|i: int| 0 <= i < t.len() implies '0' <= #[trigger] t[i] <= '9' by {
                if i < h.len() {
                    assert(t[i] == h[i]);
                }
            };
        };
        assert(t[0] == h[0]);
    }
}

/// A serial written in decimal reads back as the same serial.
pub proof fn lemma_serial_roundtrip(n: u64)
    ensures
        u64_text(decimal_text(n as nat)) == Some(n),
{
    lemma_decimal_digits(n as nat);
}

/// An endpoint stays present only while its node keeps the serial it had: a node that
/// reuses the id with another serial is a different endpoint.
pub proof fn lemma_endpoint_identity(nodes: Seq<AudioNode>, later: Seq<AudioNode>, id: u32)
    requires
        endpoint_of(nodes, id) is Ok,
        first_node(later, id) matches Some(n) && n.serial != first_node(nodes, id)->Some_0.serial,
    ensures
        endpoint_of(later, id) != endpoint_of(nodes, id),
{
}

} // verus!

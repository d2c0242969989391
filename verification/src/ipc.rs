//! The `way-sh` command protocol and the compositor stream's write queue.
use crate::shortcuts::discovery::{is_absolute, join_path, path_is_absolute, path_join};
use vstd::prelude::*;
use vstd::utf8::encode_utf8;

verus! {

/// The most commands that may run at once; more are refused at once.
pub const MAX_IN_FLIGHT: usize = 64;

/// The most bytes the compositor stream holds unsent.
pub const MAX_QUEUED: usize = 4194304;

/// The commands of the `way-sh` protocol. A volume request carries its level, which
/// the caller reads from the request.
#[derive(Clone, Copy, Debug, PartialEq, Eq, Structural)]
pub enum CommandKind {
    MessageTrayOpen,
    VolumeUp,
    VolumeDown,
    VolumeSet,
    VolumeMute,
    BrightnessUp,
    BrightnessDown,
    ThemeDark,
    ThemeLight,
    DumpDarkTheme,
    DumpLightTheme,
    ActivitiesShow,
    ActivitiesHide,
    ActivitiesToggle,
    AppSwitcherShow,
    AppSwitcherHide,
    AppSwitcherToggle,
    WorkspaceSwitcherShow,
    WorkspaceSwitcherHide,
    WorkspaceSwitcherToggle,
    OutputSwitcherShow,
    OutputSwitcherHide,
    OutputSwitcherToggle,
    WorkspaceAppSwitcherShow,
    WorkspaceAppSwitcherHide,
    WorkspaceAppSwitcherToggle,
    BlueLightFilterEnable,
    BlueLightFilterDisable,
    KeyboardBrightnessUp,
    KeyboardBrightnessDown,
    RenameSwitcherShow,
    RenameSwitcherHide,
    RenameSwitcherToggle,
}

/// The protocol opcode of each command.
pub open spec fn opcode_of(c: CommandKind) -> u32 {
    match c {
        CommandKind::MessageTrayOpen => 1,
        CommandKind::VolumeUp => 2,
        CommandKind::VolumeDown => 3,
        CommandKind::VolumeSet => 4,
        CommandKind::VolumeMute => 5,
        CommandKind::BrightnessUp => 6,
        CommandKind::BrightnessDown => 7,
        CommandKind::ThemeDark => 8,
        CommandKind::ThemeLight => 9,
        CommandKind::DumpDarkTheme => 10,
        CommandKind::DumpLightTheme => 11,
        CommandKind::ActivitiesShow => 12,
        CommandKind::ActivitiesHide => 13,
        CommandKind::ActivitiesToggle => 14,
        CommandKind::AppSwitcherShow => 15,
        CommandKind::AppSwitcherHide => 16,
        CommandKind::AppSwitcherToggle => 17,
        CommandKind::WorkspaceSwitcherShow => 18,
        CommandKind::WorkspaceSwitcherHide => 19,
        CommandKind::WorkspaceSwitcherToggle => 20,
        CommandKind::OutputSwitcherShow => 21,
        CommandKind::OutputSwitcherHide => 22,
        CommandKind::OutputSwitcherToggle => 23,
        CommandKind::WorkspaceAppSwitcherShow => 24,
        CommandKind::WorkspaceAppSwitcherHide => 25,
        CommandKind::WorkspaceAppSwitcherToggle => 26,
        CommandKind::BlueLightFilterEnable => 27,
        CommandKind::BlueLightFilterDisable => 28,
        CommandKind::KeyboardBrightnessUp => 29,
        CommandKind::KeyboardBrightnessDown => 30,
        CommandKind::RenameSwitcherShow => 31,
        CommandKind::RenameSwitcherHide => 32,
        CommandKind::RenameSwitcherToggle => 33,
    }
}

/// The command an opcode names, if any.
pub open spec fn command_of(opcode: u32) -> Option<CommandKind> {
    if exists|c: CommandKind| #[trigger] opcode_of(c) == opcode {
        Some(choose|c: CommandKind| #[trigger] opcode_of(c) == opcode)
    } else {
        None
    }
}

/// Distinct commands have distinct opcodes, all from 1 to 33.
pub proof fn lemma_opcodes_distinct(a: CommandKind, b: CommandKind)
    ensures
        1 <= opcode_of(a) <= 33,
        opcode_of(a) == opcode_of(b) ==> a == b,
{
}

/// Decoding a command's opcode gives the command back.
pub proof fn lemma_opcode_roundtrip(c: CommandKind)
    ensures
        command_of(opcode_of(c)) == Some(c),
{
    let d = choose|d: CommandKind| #[trigger] opcode_of(d) == opcode_of(c);
    lemma_opcodes_distinct(c, d);
}

impl CommandKind {
    /// The command an opcode names; opcode zero and unknown opcodes name none.
    pub fn from_opcode(opcode: u32) -> (r: Option<CommandKind>)
        ensures
            r == command_of(opcode),
            r is None <==> !(1 <= opcode <= 33),
    {
        let r = match opcode {
            1 => Some(CommandKind::MessageTrayOpen),
            2 => Some(CommandKind::VolumeUp),
            3 => Some(CommandKind::VolumeDown),
            4 => Some(CommandKind::VolumeSet),
            5 => Some(CommandKind::VolumeMute),
            6 => Some(CommandKind::BrightnessUp),
            7 => Some(CommandKind::BrightnessDown),
            8 => Some(CommandKind::ThemeDark),
            9 => Some(CommandKind::ThemeLight),
            10 => Some(CommandKind::DumpDarkTheme),
            11 => Some(CommandKind::DumpLightTheme),
            12 => Some(CommandKind::ActivitiesShow),
            13 => Some(CommandKind::ActivitiesHide),
            14 => Some(CommandKind::ActivitiesToggle),
            15 => Some(CommandKind::AppSwitcherShow),
            16 => Some(CommandKind::AppSwitcherHide),
            17 => Some(CommandKind::AppSwitcherToggle),
            18 => Some(CommandKind::WorkspaceSwitcherShow),
            19 => Some(CommandKind::WorkspaceSwitcherHide),
            20 => Some(CommandKind::WorkspaceSwitcherToggle),
            21 => Some(CommandKind::OutputSwitcherShow),
            22 => Some(CommandKind::OutputSwitcherHide),
            23 => Some(CommandKind::OutputSwitcherToggle),
            24 => Some(CommandKind::WorkspaceAppSwitcherShow),
            25 => Some(CommandKind::WorkspaceAppSwitcherHide),
            26 => Some(CommandKind::WorkspaceAppSwitcherToggle),
            27 => Some(CommandKind::BlueLightFilterEnable),
            28 => Some(CommandKind::BlueLightFilterDisable),
            29 => Some(CommandKind::KeyboardBrightnessUp),
            30 => Some(CommandKind::KeyboardBrightnessDown),
            31 => Some(CommandKind::RenameSwitcherShow),
            32 => Some(CommandKind::RenameSwitcherHide),
            33 => Some(CommandKind::RenameSwitcherToggle),
            _ => None,
        };
        proof {
            match r {
                Some(c) => {
                    assert(opcode_of(c) == opcode);
                    lemma_opcode_roundtrip(c);
                },
                None => {
                    assert forall|c: CommandKind| #[trigger] opcode_of(c) != opcode by {
                        lemma_opcodes_distinct(c, c);
                    };
                },
            }
        }
        r
    }

    /// The opcode of this command.
    pub fn opcode(self) -> (r: u32)
        ensures
            r == opcode_of(self),
    {
        match self {
            CommandKind::MessageTrayOpen => 1,
            CommandKind::VolumeUp => 2,
            CommandKind::VolumeDown => 3,
            CommandKind::VolumeSet => 4,
            CommandKind::VolumeMute => 5,
            CommandKind::BrightnessUp => 6,
            CommandKind::BrightnessDown => 7,
            CommandKind::ThemeDark => 8,
            CommandKind::ThemeLight => 9,
            CommandKind::DumpDarkTheme => 10,
            CommandKind::DumpLightTheme => 11,
            CommandKind::ActivitiesShow => 12,
            CommandKind::ActivitiesHide => 13,
            CommandKind::ActivitiesToggle => 14,
            CommandKind::AppSwitcherShow => 15,
            CommandKind::AppSwitcherHide => 16,
            CommandKind::AppSwitcherToggle => 17,
            CommandKind::WorkspaceSwitcherShow => 18,
            CommandKind::WorkspaceSwitcherHide => 19,
            CommandKind::WorkspaceSwitcherToggle => 20,
            CommandKind::OutputSwitcherShow => 21,
            CommandKind::OutputSwitcherHide => 22,
            CommandKind::OutputSwitcherToggle => 23,
            CommandKind::WorkspaceAppSwitcherShow => 24,
            CommandKind::WorkspaceAppSwitcherHide => 25,
            CommandKind::WorkspaceAppSwitcherToggle => 26,
            CommandKind::BlueLightFilterEnable => 27,
            CommandKind::BlueLightFilterDisable => 28,
            CommandKind::KeyboardBrightnessUp => 29,
            CommandKind::KeyboardBrightnessDown => 30,
            CommandKind::RenameSwitcherShow => 31,
            CommandKind::RenameSwitcherHide => 32,
            CommandKind::RenameSwitcherToggle => 33,
        }
    }
}

/// Whether a decoded command may start while `in_flight` others run.
pub fn may_start(in_flight: usize) -> (r: bool)
    ensures
        r == (in_flight < MAX_IN_FLIGHT),
{
    in_flight < MAX_IN_FLIGHT
}

/// Why the command socket cannot be placed in the runtime directory.
#[derive(Clone, Copy, Debug, PartialEq, Eq, Structural)]
pub enum SocketPathError {
    InvalidRuntime,
}

/// The text of each error.
pub open spec fn socket_path_error_message(e: SocketPathError) -> Seq<char> {
    "XDG_RUNTIME_DIR must yield an absolute socket path of at most 107 bytes with no NUL"@
}

impl SocketPathError {
    /// The message reported for this error.
    pub fn message(&self) -> (r: &'static str)
        ensures
            r@ == socket_path_error_message(*self),
    {
        "XDG_RUNTIME_DIR must yield an absolute socket path of at most 107 bytes with no NUL"
    }
}

/// Whether a socket address fits a `sockaddr_un`: at most 107 bytes and no NUL.
pub open spec fn fits_sockaddr(b: Seq<u8>) -> bool {
    b.len() < 108 && !b.contains(0u8)
}

fn has_nul(b: &[u8]) -> (r: bool)
    ensures
        r == b@.contains(0u8),
{
    let mut i: usize = 0;
    while i < b.len()
        invariant
            i <= b@.len(),
            forall|j: int| 0 <= j < i ==> b@[j] != 0u8,
        decreases b@.len() - i,
    {
        if b[i] == 0 {
            return true;
        }
        i += 1;
    }
    false
}

/// The command socket's path in `runtime`: the runtime directory must be absolute
/// and the joined path must fit a socket address.
pub fn socket_path(runtime: &str, name: &str) -> (r: Result<String, SocketPathError>)
    ensures
        match r {
            Ok(p) => p@ == path_join(runtime@, name@) && is_absolute(runtime@) && fits_sockaddr(
                encode_utf8(p@),
            ),
            Err(e) => e == SocketPathError::InvalidRuntime && (!is_absolute(runtime@) || !fits_sockaddr(
                encode_utf8(path_join(runtime@, name@)),
            )),
        },
{
    let path = join_path(runtime, name);
    if !path_is_absolute(runtime) {
        return Err(SocketPathError::InvalidRuntime);
    }
    let bytes = path.as_str().as_bytes();
    if bytes.len() >= 108 || has_nul(bytes) {
        return Err(SocketPathError::InvalidRuntime);
    }
    Ok(path)
}

/// Whether a compositor socket path can be connected: not empty, at most 107 bytes,
/// no NUL.
pub fn valid_stream_path(bytes: &[u8]) -> (r: bool)
    ensures
        r == (bytes@.len() > 0 && fits_sockaddr(bytes@)),
{
    bytes.len() > 0 && bytes.len() <= 107 && !has_nul(bytes)
}

/// Why bytes could not be queued for the compositor.
#[derive(Clone, Copy, Debug, PartialEq, Eq, Structural)]
pub enum QueueError {
    Closed,
    Full,
    NoProgress,
}

/// The text of each error.
pub open spec fn queue_error_message(e: QueueError) -> Seq<char> {
    match e {
        QueueError::Closed => "Compositor connection is closed"@,
        QueueError::Full => "Compositor command queue is full"@,
        QueueError::NoProgress => "Compositor IPC write made no progress"@,
    }
}

impl QueueError {
    /// The message reported for this error.
    pub fn message(&self) -> (r: &'static str)
        ensures
            r@ == queue_error_message(*self),
    {
        match self {
            QueueError::Closed => "Compositor connection is closed",
            QueueError::Full => "Compositor command queue is full",
            QueueError::NoProgress => "Compositor IPC write made no progress",
        }
    }
}

/// The total length of the queued messages.
pub open spec fn total(p: Seq<Vec<u8>>) -> int
    decreases p.len(),
{
    if p.len() == 0 {
        0
    } else {
        total(p.drop_last()) + p.last()@.len()
    }
}

/// The bytes still to be written: the rest of the first message, then the others.
pub open spec fn unsent(p: Seq<Vec<u8>>, offset: int) -> Seq<u8>
    decreases p.len(),
{
    if p.len() == 0 {
        Seq::empty()
    } else {
        p[0]@.skip(offset) + unsent(p.drop_first(), 0)
    }
}

/// Whether a queue holding `queued` takes a message: the stream is open and the
/// message is empty or fits in the room left below `MAX_QUEUED`.
pub open spec fn accepts(queued: Seq<u8>, message: Seq<u8>, closed: bool) -> bool {
    !closed && (message.len() == 0 || message.len() <= MAX_QUEUED - queued.len())
}

/// The queued bytes after a message is offered: appended if accepted, else unchanged.
pub open spec fn after_send(queued: Seq<u8>, message: Seq<u8>, closed: bool) -> Seq<u8> {
    if accepts(queued, message, closed) {
        queued + message
    } else {
        queued
    }
}

/// One thing that happens to a write queue: a message offered to `push` (with whether
/// the stream was closed), or a write that took `n` bytes from its front.
pub enum QueueStep {
    Send(Seq<u8>, bool),
    Write(nat),
}

/// The stream after `steps`, from a queue holding `start`: the bytes written so far,
/// the bytes still queued, and the messages accepted, joined in the order they came.
pub open spec fn replay(start: Seq<u8>, steps: Seq<QueueStep>) -> (Seq<u8>, Seq<u8>, Seq<u8>)
    decreases steps.len(),
{
    if steps.len() == 0 {
        (Seq::empty(), start, Seq::empty())
    } else {
        let (written, queued, accepted) = replay(start, steps.drop_last());
        match steps.last() {
            QueueStep::Send(m, closed) => if accepts(queued, m, closed) {
                (written, queued + m, accepted + m)
            } else {
                (written, queued, accepted)
            },
            QueueStep::Write(n) => if n <= queued.len() {
                (written + queued.take(n as int), queued.skip(n as int), accepted)
            } else {
                (written, queued, accepted)
            },
        }
    }
}

/// Delivery in order: whatever mix of sends and writes a queue sees, the bytes written
/// so far followed by those still queued are exactly what it held at first followed by
/// every accepted message, in the order the messages were accepted. So from an empty
/// queue the peer receives the accepted messages joined together, nothing lost, nothing
/// twice, and once the queue drains it has received all of them.
pub proof fn lemma_delivery_in_order(start: Seq<u8>, steps: Seq<QueueStep>)
    ensures
        replay(start, steps).0 + replay(start, steps).1 == start + replay(start, steps).2,
        replay(start, steps).1.len() == 0 ==> replay(start, steps).0 == start + replay(start, steps).2,
    decreases steps.len(),
{
    if steps.len() > 0 {
        lemma_delivery_in_order(start, steps.drop_last());
        let (w, q, a) = replay(start, steps.drop_last());
        match steps.last() {
            QueueStep::Send(m, closed) => {
                if accepts(q, m, closed) {
                    assert(w + (q + m) =~= (w + q) + m);
                    assert(start + (a + m) =~= (start + a) + m);
                }
            },
            QueueStep::Write(n) => {
                if n <= q.len() {
                    assert((w + q.take(n as int)) + q.skip(n as int) =~= w + q);
                }
            },
        }
    }
    let r = replay(start, steps);
    if r.1.len() == 0 {
        assert(r.0 + r.1 =~= r.0);
    }
}

/// The messages waiting for the compositor, written in order. `offset` bytes of the
/// first message were written already; `queued` counts the bytes still unsent.
pub struct WriteQueue {
    pending: Vec<Vec<u8>>,
    offset: usize,
    queued: usize,
}

impl WriteQueue {
    /// The bytes still to be written, in order.
    pub closed spec fn bytes(&self) -> Seq<u8> {
        unsent(self.pending@, self.offset as int)
    }

    /// The queue's bookkeeping agrees with its messages and no message is empty.
    pub closed spec fn wf(&self) -> bool {
        &&& forall|i: int| 0 <= i < self.pending@.len() ==> #[trigger] self.pending@[i]@.len() > 0
        &&& self.pending@.len() == 0 ==> self.offset == 0
        &&& self.pending@.len() > 0 ==> self.offset < self.pending@[0]@.len()
        &&& self.queued == total(self.pending@) - self.offset
        &&& self.queued <= MAX_QUEUED
    }

    /// An empty queue.
    pub fn new() -> (r: WriteQueue)
        ensures
            r.wf(),
            r.bytes().len() == 0,
    {
        WriteQueue { pending: Vec::new(), offset: 0, queued: 0 }
    }

    /// The number of bytes still to be written.
    pub fn queued(&self) -> (r: usize)
        requires
            self.wf(),
        ensures
            r == self.bytes().len(),
            r <= MAX_QUEUED,
    {
        proof { lemma_unsent_len(self.pending@, self.offset as int); }
        self.queued
    }

    /// Queues a message unless the stream is closed or the message would overflow the
    /// queue; an empty message is accepted and changes nothing.
    pub fn push(&mut self, bytes: Vec<u8>, closed: bool) -> (r: Result<(), QueueError>)
        requires
            old(self).wf(),
        ensures
            final(self).wf(),
            closed ==> r == Err::<(), QueueError>(QueueError::Closed),
            !closed && bytes@.len() == 0 ==> r is Ok,
            !closed && bytes@.len() > 0 ==> (r is Ok <==> bytes@.len() <= MAX_QUEUED - old(self).bytes().len()),
            !closed && bytes@.len() > 0 && bytes@.len() > MAX_QUEUED - old(self).bytes().len() ==> r
                == Err::<(), QueueError>(QueueError::Full),
            r is Ok <==> accepts(old(self).bytes(), bytes@, closed),
            final(self).bytes() == after_send(old(self).bytes(), bytes@, closed),
            r is Err ==> final(self).bytes() == old(self).bytes(),
            r is Ok ==> final(self).bytes() == old(self).bytes() + bytes@,
    {
        proof { lemma_unsent_len(self.pending@, self.offset as int); }
        if closed {
            return Err(QueueError::Closed);
        }
        if bytes.len() == 0 {
            proof { assert(old(self).bytes() + bytes@ =~= old(self).bytes()); }
            return Ok(());
        }
        if bytes.len() > MAX_QUEUED - self.queued {
            return Err(QueueError::Full);
        }
        let ghost before = self.pending@;
        let ghost b = bytes@;
        self.queued = self.queued + bytes.len();
        self.pending.push(bytes);
        proof {
            assert(self.pending@.drop_last() =~= before);
            lemma_unsent_push(before, self.offset as int, self.pending@.last());
        }
        Ok(())
    }

    /// The first message and how much of it was written, if anything is queued.
    pub fn front(&self) -> (r: Option<(&Vec<u8>, usize)>)
        requires
            self.wf(),
        ensures
            self.bytes().len() == 0 <==> r is None,
            r matches Some((m, o)) ==> o < m@.len() && m@.skip(o as int).len() > 0
                && m@.skip(o as int) == self.bytes().take(m@.len() - o)
                && self.front_len() == m@.len() - o,
    {
        proof { lemma_unsent_len(self.pending@, self.offset as int); }
        if self.pending.len() == 0 {
            return None;
        }
        proof {
            let p = self.pending@;
            assert(unsent(p, self.offset as int) == p[0]@.skip(self.offset as int) + unsent(p.drop_first(), 0));
            assert(unsent(p, self.offset as int).take(p[0]@.len() - self.offset) =~= p[0]@.skip(self.offset as int));
        }
        Some((&self.pending[0], self.offset))
    }

    /// Records that the first `written` bytes of the rest of the first message went
    /// out; a finished message leaves the queue. Writing nothing is an error.
    pub fn advance(&mut self, written: usize) -> (r: Result<(), QueueError>)
        requires
            old(self).wf(),
            old(self).bytes().len() > 0,
            written <= old(self).front_len(),
        ensures
            final(self).wf(),
            written == 0 ==> r == Err::<(), QueueError>(QueueError::NoProgress) && final(self).bytes() == old(self).bytes(),
            written > 0 ==> r is Ok && final(self).bytes() == old(self).bytes().skip(written as int),
            old(self).bytes() == old(self).bytes().take(written as int) + final(self).bytes(),
    {
        if written == 0 {
            return Err(QueueError::NoProgress);
        }
        proof { lemma_unsent_len(self.pending@, self.offset as int); }
        let ghost p = self.pending@;
        let ghost o = self.offset as int;
        proof {
            assert(unsent(p, o) == p[0]@.skip(o) + unsent(p.drop_first(), 0));
            lemma_total_first(p);
        }
        let flen = self.pending[0].len();
        self.offset = self.offset + written;
        self.queued = self.queued - written;
        if self.offset == flen {
            self.pending.remove(0);
            self.offset = 0;
            proof {
                assert(self.pending@ =~= p.drop_first());
                assert(unsent(p, o).skip(written as int) =~= unsent(p.drop_first(), 0));
                assert forall|i: int| 0 <= i < self.pending@.len() implies #[trigger] self.pending@[i]@.len() > 0 by {
                    assert(self.pending@[i] == p[i + 1]);
                };
            }
        } else {
            proof {
                assert(unsent(self.pending@, self.offset as int) == p[0]@.skip(o + written) + unsent(p.drop_first(), 0));
                assert(p[0]@.skip(o + written) =~= p[0]@.skip(o).skip(written as int));
                assert(unsent(p, o).skip(written as int) =~= p[0]@.skip(o).skip(written as int) + unsent(p.drop_first(), 0));
            }
        }
        Ok(())
    }

    /// The unwritten length of the first message, or zero.
    pub closed spec fn front_len(&self) -> int {
        if self.pending@.len() > 0 {
            self.pending@[0]@.len() - self.offset
        } else {
            0
        }
    }

    /// Drops everything queued, as when the stream closes.
    pub fn clear(&mut self)
        ensures
            final(self).wf(),
            final(self).bytes().len() == 0,
    {
        *self = WriteQueue::new();
    }
}

/// Whether a flush with `budget` bytes left should write again.
pub fn keep_writing(queue: &WriteQueue, budget: usize) -> (r: bool)
    requires
        queue.wf(),
    ensures
        r == (queue.bytes().len() > 0 && budget > 0),
{
    queue.queued() > 0 && budget > 0
}

/// The budget left after writing `written` bytes.
pub fn spend(budget: usize, written: usize) -> (r: usize)
    ensures
        r == (if written >= budget { 0 } else { budget - written }),
{
    budget.saturating_sub(written)
}

proof fn lemma_total_first(p: Seq<Vec<u8>>)
    requires
        p.len() > 0,
    ensures
        total(p) == p[0]@.len() + total(p.drop_first()),
    decreases p.len(),
{
    if p.len() > 1 {
        lemma_total_first(p.drop_last());
        assert(p.drop_last().drop_first() =~= p.drop_first().drop_last());
        assert(p.drop_first().last() == p.last());
        assert(p.drop_last()[0] == p[0]);
    } else {
        assert(p.drop_first().len() == 0);
        assert(p.drop_last().len() == 0);
        assert(total(p.drop_last()) == 0);
        assert(total(p.drop_first()) == 0);
        assert(p.last() == p[0]);
    }
}

proof fn lemma_unsent_len(p: Seq<Vec<u8>>, offset: int)
    requires
        p.len() > 0 ==> 0 <= offset <= p[0]@.len(),
        p.len() == 0 ==> offset == 0,
    ensures
        unsent(p, offset).len() == total(p) - offset,
    decreases p.len(),
{
    if p.len() > 0 {
        lemma_unsent_len(p.drop_first(), 0);
        lemma_total_first(p);
    }
}

proof fn lemma_unsent_push(p: Seq<Vec<u8>>, offset: int, m: Vec<u8>)
    requires
        p.len() > 0 ==> 0 <= offset <= p[0]@.len(),
        p.len() == 0 ==> offset == 0,
    ensures
        unsent(p.push(m), offset) == unsent(p, offset) + m@,
    decreases p.len(),
{
    if p.len() == 0 {
        assert(p.push(m).drop_first() =~= Seq::<Vec<u8>>::empty());
        assert(m@.skip(0) =~= m@);
        assert(p.push(m)[0] == m);
        assert(unsent(p.push(m).drop_first(), 0) == Seq::<u8>::empty());
        assert(unsent(p, offset) == Seq::<u8>::empty());
        assert(unsent(p.push(m), offset) == m@.skip(0) + Seq::<u8>::empty());
        assert(unsent(p.push(m), offset) =~= unsent(p, offset) + m@);
    } else {
        assert(p.push(m).drop_first() =~= p.drop_first().push(m));
        assert(p.push(m)[0] == p[0]);
        lemma_unsent_push(p.drop_first(), 0, m);
        assert(unsent(p.push(m), offset) == p[0]@.skip(offset) + unsent(p.drop_first().push(m), 0));
        assert(unsent(p, offset) == p[0]@.skip(offset) + unsent(p.drop_first(), 0));
        assert(unsent(p.push(m), offset) =~= unsent(p, offset) + m@);
    }
}

/// Why the command socket cannot be bound.
#[derive(Clone, Copy, Debug, PartialEq, Eq, Structural)]
pub enum BindError {
    Locked,
    NotSocket,
    LiveServer,
    Changed,
}

/// The text of each refusal.
pub open spec fn bind_error_message(e: BindError) -> Seq<char> {
    match e {
        BindError::Locked => "Another Way Shell IPC server owns this runtime directory"@,
        BindError::NotSocket => "Way Shell IPC path exists and is not a socket"@,
        BindError::LiveServer => "A live server already owns the Way Shell IPC socket"@,
        BindError::Changed => "Way Shell IPC socket changed while checking its owner"@,
    }
}

impl BindError {
    /// The message reported for this refusal.
    pub fn message(&self) -> (r: &'static str)
        ensures
            r@ == bind_error_message(*self),
    {
        match self {
            BindError::Locked => "Another Way Shell IPC server owns this runtime directory",
            BindError::NotSocket => "Way Shell IPC path exists and is not a socket",
            BindError::LiveServer => "A live server already owns the Way Shell IPC socket",
            BindError::Changed => "Way Shell IPC socket changed while checking its owner",
        }
    }
}

/// What connecting to the socket already at the path showed.
#[derive(Clone, Copy, Debug, PartialEq, Eq, Structural)]
pub enum Probe {
    /// A server answered.
    Live,
    /// The connection was refused: nobody serves the socket.
    Refused,
    /// Connecting failed otherwise.
    Failed,
}

/// The next step of binding when the path is already taken.
#[derive(Clone, Copy, Debug, PartialEq, Eq, Structural)]
pub enum StaleStep {
    /// Connect to the socket to see whether a server owns it.
    Probe,
    /// Read the path's metadata again, to be sure nothing replaced it meanwhile.
    Recheck,
    /// The socket is stale and unchanged: remove it and bind anew.
    Replace,
    /// The probe failed; its error is reported.
    ProbeFailed,
    /// Binding is refused.
    Refuse(BindError),
}

/// The next step of binding over a taken path, from what the caller found so far.
pub open spec fn stale_step(is_socket: bool, probe: Option<Probe>, recheck: Option<(bool, bool)>) -> StaleStep {
    if !is_socket {
        StaleStep::Refuse(BindError::NotSocket)
    } else {
        match probe {
            None => StaleStep::Probe,
            Some(Probe::Live) => StaleStep::Refuse(BindError::LiveServer),
            Some(Probe::Failed) => StaleStep::ProbeFailed,
            Some(Probe::Refused) => match recheck {
                None => StaleStep::Recheck,
                Some((same, socket)) => if same && socket {
                    StaleStep::Replace
                } else {
                    StaleStep::Refuse(BindError::Changed)
                },
            },
        }
    }
}

/// Recovers a path left by an earlier server. A path that is not a socket, or whose
/// socket a live server answers on, is refused; a socket that refuses connections is
/// removed and bound anew, unless it changed or stopped being a socket while it was
/// checked. `probe` and `recheck` are what the caller found so far.
pub fn stale_socket(is_socket: bool, probe: Option<Probe>, recheck: Option<(bool, bool)>) -> (r: StaleStep)
    ensures
        r == stale_step(is_socket, probe, recheck),
{
    if !is_socket {
        return StaleStep::Refuse(BindError::NotSocket);
    }
    match probe {
        None => StaleStep::Probe,
        Some(Probe::Live) => StaleStep::Refuse(BindError::LiveServer),
        Some(Probe::Failed) => StaleStep::ProbeFailed,
        Some(Probe::Refused) => match recheck {
            None => StaleStep::Recheck,
            Some((same, socket)) => if same && socket {
                StaleStep::Replace
            } else {
                StaleStep::Refuse(BindError::Changed)
            },
        },
    }
}

/// A stale socket is removed only after a refused probe and a recheck that found the
/// same socket: a live server's socket, a changed path and anything that is not a
/// socket are never removed.
pub proof fn lemma_only_stale_sockets_replaced(is_socket: bool, probe: Option<Probe>, recheck: Option<(bool, bool)>)
    ensures
        stale_step(is_socket, probe, recheck) == StaleStep::Replace ==> is_socket && probe == Some(Probe::Refused)
            && recheck == Some((true, true)),
{
}

} // verus!

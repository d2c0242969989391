//! Sysfs brightness values, device names and the targets of brightness requests.
use crate::text::{chars_of, string_of};
use vstd::prelude::*;

verus! {

/// Which brightness control a request addresses.
#[derive(Clone, Copy, Debug, PartialEq, Eq, Structural)]
pub enum ControlKind {
    Backlight,
    Keyboard,
}

impl ControlKind {
    /// The position of this control in per-control tables.
    pub fn index(self) -> (r: usize)
        ensures
            r == match self {
                ControlKind::Backlight => 0usize,
                ControlKind::Keyboard => 1usize,
            },
    {
        match self {
            ControlKind::Backlight => 0,
            ControlKind::Keyboard => 1,
        }
    }

    /// The sysfs class that holds this control's devices.
    pub fn subsystem(self) -> (r: &'static str)
        ensures
            r@ == match self {
                ControlKind::Backlight => "backlight"@,
                ControlKind::Keyboard => "leds"@,
            },
    {
        match self {
            ControlKind::Backlight => "backlight",
            ControlKind::Keyboard => "leds",
        }
    }

    /// The settings key that names this control's device directory.
    pub fn setting(self) -> (r: &'static str)
        ensures
            r@ == match self {
                ControlKind::Backlight => "backlight-directory"@,
                ControlKind::Keyboard => "keyboard-backlight-directory"@,
            },
    {
        match self {
            ControlKind::Backlight => "backlight-directory",
            ControlKind::Keyboard => "keyboard-backlight-directory",
        }
    }
}

/// A brightness device with its current and maximum raw values.
#[derive(Clone, Debug, PartialEq, Eq)]
pub struct BrightnessDevice {
    pub name: String,
    pub current: u32,
    pub maximum: u32,
}

/// Why a brightness value or request was refused.
#[derive(Clone, Copy, Debug, PartialEq, Eq, Structural)]
pub enum BrightnessError {
    Oversized,
    Invalid,
    OutOfRange,
    NoDevice,
    ExceedsMaximum,
}

/// The text of each refusal.
pub open spec fn brightness_error_message(e: BrightnessError) -> Seq<char> {
    match e {
        BrightnessError::Oversized => "Oversized sysfs brightness value"@,
        BrightnessError::Invalid => "Invalid sysfs brightness value"@,
        BrightnessError::OutOfRange => "Brightness is outside the device range"@,
        BrightnessError::NoDevice => "No configured brightness device is available"@,
        BrightnessError::ExceedsMaximum => "Brightness exceeds the device maximum"@,
    }
}

impl BrightnessError {
    /// The diagnostic reported for this refusal.
    pub fn message(&self) -> (r: &'static str)
        ensures
            r@ == brightness_error_message(*self),
    {
        match self {
            BrightnessError::Oversized => "Oversized sysfs brightness value",
            BrightnessError::Invalid => "Invalid sysfs brightness value",
            BrightnessError::OutOfRange => "Brightness is outside the device range",
            BrightnessError::NoDevice => "No configured brightness device is available",
            BrightnessError::ExceedsMaximum => "Brightness exceeds the device maximum",
        }
    }
}

/// A control character: C0, DEL or C1.
pub open spec fn is_control(c: char) -> bool {
    (c as u32) < 0x20 || (0x7f <= (c as u32) && (c as u32) < 0xa0)
}

/// A device directory name: nonempty, not `.` or `..`, without `/` or control characters.
pub open spec fn valid_device_name(s: Seq<char>) -> bool {
    &&& s.len() > 0
    &&& s != seq!['.']
    &&& s != seq!['.', '.']
    &&& forall|i: int| 0 <= i < s.len() ==> #[trigger] s[i] != '/' && !is_control(s[i])
}

/// Whether `name` can name a device directory.
pub fn valid_name(name: &str) -> (r: bool)
    ensures
        r == valid_device_name(name@),
{
    let c = chars_of(name);
    if c.len() == 0 {
        return false;
    }
    if c.len() == 1 && c[0] == '.' {
        assert(c@ =~= seq!['.']);
        return false;
    }
    if c.len() == 2 && c[0] == '.' && c[1] == '.' {
        assert(c@ =~= seq!['.', '.']);
        return false;
    }
    assert(c@ != seq!['.']);
    assert(c@ != seq!['.', '.']);
    let mut i: usize = 0;
    while i < c.len()
        invariant
            i <= c.len(),
            c@ == name@,
            forall|j: int| 0 <= j < i ==> #[trigger] c@[j] != '/' && !is_control(c@[j]),
        decreases c.len() - i,
    {
        let ch = c[i];
        let code = ch as u32;
        if ch == '/' || code < 0x20 || (0x7f <= code && code < 0xa0) {
            assert(c@[i as int] == '/' || is_control(c@[i as int]));
            return false;
        }
        i += 1;
    }
    true
}

/// The length of a UTF-8 encoded whitespace character starting `b`, or zero.
/// These are the characters `char::is_whitespace` accepts.
pub open spec fn ws_len(b: Seq<u8>) -> int {
    if b.len() >= 1 && ((0x09 <= b[0] && b[0] <= 0x0d) || b[0] == 0x20) {
        1
    } else if b.len() >= 2 && b[0] == 0xc2 && (b[1] == 0x85 || b[1] == 0xa0) {
        2
    } else if b.len() >= 3 && ((b[0] == 0xe1 && b[1] == 0x9a && b[2] == 0x80) || (b[0] == 0xe2
        && b[1] == 0x80 && ((0x80 <= b[2] && b[2] <= 0x8a) || b[2] == 0xa8 || b[2] == 0xa9 || b[2]
        == 0xaf)) || (b[0] == 0xe2 && b[1] == 0x81 && b[2] == 0x9f) || (b[0] == 0xe3 && b[1] == 0x80
        && b[2] == 0x80)) {
        3
    } else {
        0
    }
}

/// The end of the whitespace run that starts at `i`.
pub open spec fn skip_ws(b: Seq<u8>, i: int) -> int
    decreases b.len() - i,
{
    if 0 <= i < b.len() && ws_len(b.skip(i)) > 0 {
        skip_ws(b, i + ws_len(b.skip(i)))
    } else {
        i
    }
}

/// The end of the ASCII digit run that starts at `i`.
pub open spec fn digits_end(b: Seq<u8>, i: int) -> int
    decreases b.len() - i,
{
    if 0 <= i < b.len() && 0x30 <= b[i] <= 0x39 {
        digits_end(b, i + 1)
    } else {
        i
    }
}

/// The decimal value of ASCII digits.
pub open spec fn decimal(d: Seq<u8>) -> int
    decreases d.len(),
{
    if d.len() == 0 {
        0
    } else {
        decimal(d.drop_last()) * 10 + (d.last() - 0x30)
    }
}

/// A sysfs value: at most 64 bytes of decimal digits between whitespace, fitting in 32 bits.
pub open spec fn sysfs_value(b: Seq<u8>) -> Result<u32, BrightnessError> {
    let start = skip_ws(b, 0);
    let end = digits_end(b, start);
    if b.len() > 64 {
        Err(BrightnessError::Oversized)
    } else if end > start && skip_ws(b, end) == b.len() && decimal(b.subrange(start, end))
        <= u32::MAX {
        Ok(decimal(b.subrange(start, end)) as u32)
    } else {
        Err(BrightnessError::Invalid)
    }
}

fn ws_at(b: &[u8], i: usize) -> (r: usize)
    requires
        i <= b.len(),
    ensures
        r == ws_len(b@.skip(i as int)),
{
    let n = b.len() - i;
    if n >= 1 && ((0x09 <= b[i] && b[i] <= 0x0d) || b[i] == 0x20) {
        return 1;
    }
    if n >= 2 && b[i] == 0xc2 && (b[i + 1] == 0x85 || b[i + 1] == 0xa0) {
        return 2;
    }
    if n >= 3 && ((b[i] == 0xe1 && b[i + 1] == 0x9a && b[i + 2] == 0x80) || (b[i] == 0xe2 && b[i
        + 1] == 0x80 && ((0x80 <= b[i + 2] && b[i + 2] <= 0x8a) || b[i + 2] == 0xa8 || b[i + 2]
        == 0xa9 || b[i + 2] == 0xaf)) || (b[i] == 0xe2 && b[i + 1] == 0x81 && b[i + 2] == 0x9f) || (
    b[i] == 0xe3 && b[i + 1] == 0x80 && b[i + 2] == 0x80)) {
        return 3;
    }
    0
}

fn skip_whitespace(b: &[u8], start: usize) -> (r: usize)
    requires
        start <= b.len(),
    ensures
        r == skip_ws(b@, start as int),
        start <= r <= b.len(),
{
    let mut i = start;
    while i < b.len()
        invariant
            start <= i <= b.len(),
            skip_ws(b@, i as int) == skip_ws(b@, start as int),
        decreases b.len() - i,
    {
        let w = ws_at(b, i);
        if w == 0 {
            return i;
        }
        i += w;
    }
    i
}

/// Reads a sysfs brightness value.
pub fn parse(value: &[u8]) -> (r: Result<u32, BrightnessError>)
    ensures
        r == sysfs_value(value@),
{
    if value.len() > 64 {
        return Err(BrightnessError::Oversized);
    }
    let start = skip_whitespace(value, 0);
    let mut end = start;
    let mut total: u64 = 0;
    while end < value.len() && 0x30 <= value[end] && value[end] <= 0x39
        invariant
            start <= end <= value.len(),
            start == skip_ws(value@, 0),
            value.len() <= 64,
            digits_end(value@, end as int) == digits_end(value@, start as int),
            total == decimal(value@.subrange(start as int, end as int)),
            total <= u32::MAX,
        decreases value.len() - end,
    {
        let d = (value[end] - 0x30) as u64;
        assert(value@.subrange(start as int, end + 1).drop_last() =~= value@.subrange(start as int, end as int));
        let next = total * 10 + d;
        if next > 0xffff_ffff {
            proof {
                assert(digits_end(value@, end as int) == digits_end(value@, end + 1));
                lemma_digits_end(value@, end + 1);
                lemma_digits_end(value@, start as int);
                assert(decimal(value@.subrange(start as int, end + 1)) == total * 10 + d);
                lemma_decimal_grows(value@, start as int, end + 1, digits_end(value@, start as int));
            }
            return Err(BrightnessError::Invalid);
        }
        total = next;
        end += 1;
    }
    if end == start {
        return Err(BrightnessError::Invalid);
    }
    let after = skip_whitespace(value, end);
    if after != value.len() {
        return Err(BrightnessError::Invalid);
    }
    Ok(total as u32)
}

/// The digit run from `i` ends within the bytes and holds only digits.
proof fn lemma_digits_end(b: Seq<u8>, i: int)
    requires
        0 <= i <= b.len(),
    ensures
        i <= digits_end(b, i) <= b.len(),
        forall|k: int| i <= k < digits_end(b, i) ==> 0x30 <= #[trigger] b[k] <= 0x39,
    decreases b.len() - i,
{
    if i < b.len() && 0x30 <= b[i] <= 0x39 {
        lemma_digits_end(b, i + 1);
    }
}

/// A longer digit run never has a smaller value.
proof fn lemma_decimal_grows(b: Seq<u8>, start: int, mid: int, end: int)
    requires
        0 <= start <= mid <= end <= b.len(),
        forall|k: int| start <= k < end ==> 0x30 <= #[trigger] b[k] <= 0x39,
    ensures
        decimal(b.subrange(start, mid)) <= decimal(b.subrange(start, end)),
    decreases end - mid,
{
    if mid < end {
        lemma_decimal_grows(b, start, mid, end - 1);
        assert(b.subrange(start, end).drop_last() =~= b.subrange(start, end - 1));
        assert(decimal(b.subrange(start, end - 1)) >= 0) by {
            lemma_decimal_nonneg(b.subrange(start, end - 1));
        };
    } else {
        assert(b.subrange(start, mid) =~= b.subrange(start, end));
    }
}

proof fn lemma_decimal_nonneg(d: Seq<u8>)
    requires
        forall|k: int| 0 <= k < d.len() ==> 0x30 <= #[trigger] d[k] <= 0x39,
    ensures
        decimal(d) >= 0,
    decreases d.len(),
{
    if d.len() > 0 {
        lemma_decimal_nonneg(d.drop_last());
    }
}

/// A device read from its two sysfs values: the maximum first, then the current value.
pub open spec fn device_reading(current: Seq<u8>, maximum: Seq<u8>) -> Result<(u32, u32), BrightnessError> {
    match sysfs_value(maximum) {
        Err(e) => Err(e),
        Ok(m) => match sysfs_value(current) {
            Err(e) => Err(e),
            Ok(c) => if m == 0 || c > m {
                Err(BrightnessError::OutOfRange)
            } else {
                Ok((c, m))
            },
        },
    }
}

/// Builds a device from its name and the contents of its `brightness` and `max_brightness` files.
pub fn device(name: &str, current: &[u8], maximum: &[u8]) -> (r: Result<BrightnessDevice, BrightnessError>)
    ensures
        match device_reading(current@, maximum@) {
            Ok((c, m)) => r matches Ok(d) && d.name@ == name@ && d.current == c && d.maximum == m,
            Err(e) => r == Err::<BrightnessDevice, BrightnessError>(e),
        },
{
    let maximum = match parse(maximum) {
        Ok(v) => v,
        Err(e) => return Err(e),
    };
    let current = match parse(current) {
        Ok(v) => v,
        Err(e) => return Err(e),
    };
    if maximum == 0 || current > maximum {
        return Err(BrightnessError::OutOfRange);
    }
    let c = chars_of(name);
    Ok(BrightnessDevice { name: string_of(c.as_slice()), current, maximum })
}

/// An integer brightness request. Fractional requests are scaled by the caller.
#[derive(Clone, Copy, Debug, PartialEq, Eq, Structural)]
pub enum Action {
    Adjust(bool),
    Value(u32),
}

/// The step a backlight adjustment moves by: a twelfth of the range, at least one.
pub open spec fn backlight_step(maximum: u32) -> int {
    if maximum / 12 >= 1 { (maximum / 12) as int } else { 1 }
}

/// The raw value a request asks the device to take.
pub open spec fn target_value(current: u32, maximum: u32, kind: ControlKind, action: Action) -> Result<u32, BrightnessError> {
    match action {
        Action::Value(v) => if v <= maximum { Ok(v) } else { Err(BrightnessError::ExceedsMaximum) },
        Action::Adjust(up) => Ok(match (kind, up) {
            (ControlKind::Backlight, true) => {
                let raised = current + backlight_step(maximum);
                if raised <= maximum { raised as u32 } else { maximum }
            },
            (ControlKind::Backlight, false) => {
                let lowered = current - backlight_step(maximum);
                if lowered < 0 { 0u32 } else { lowered as u32 }
            },
            (ControlKind::Keyboard, true) => if current >= maximum { 0u32 } else { (current + 1) as u32 },
            (ControlKind::Keyboard, false) => if current == 0 { maximum } else { (current - 1) as u32 },
        }),
    }
}

/// The value to write for `action`, or why it cannot be served.
pub fn target(device: Option<&BrightnessDevice>, kind: ControlKind, action: Action) -> (r: Result<u32, BrightnessError>)
    ensures
        match device {
            None => r == Err::<u32, BrightnessError>(BrightnessError::NoDevice),
            Some(d) => r == target_value(d.current, d.maximum, kind, action),
        },
{
    let d = match device {
        None => return Err(BrightnessError::NoDevice),
        Some(d) => d,
    };
    match action {
        Action::Value(v) => if v <= d.maximum {
            Ok(v)
        } else {
            Err(BrightnessError::ExceedsMaximum)
        },
        Action::Adjust(up) => {
            let step = if d.maximum / 12 >= 1 { d.maximum / 12 } else { 1 };
            let value = match (kind, up) {
                (ControlKind::Backlight, true) => {
                    let raised = d.current.saturating_add(step);
                    if raised <= d.maximum { raised } else { d.maximum }
                },
                (ControlKind::Backlight, false) => d.current.saturating_sub(step),
                (ControlKind::Keyboard, true) => if d.current >= d.maximum { 0 } else { d.current + 1 },
                (ControlKind::Keyboard, false) => if d.current == 0 { d.maximum } else { d.current - 1 },
            };
            Ok(value)
        },
    }
}

/// The most requests a control holds waiting behind its active one.
pub const MAX_PENDING: usize = 64;

/// Why a brightness request was not accepted or not carried out.
#[derive(Clone, Copy, Debug, PartialEq, Eq, Structural)]
pub enum RequestError {
    /// The service is shutting down.
    Cancelled,
    /// The privileged backend is not available.
    Unavailable,
    /// The request cannot be served by the device as it stands.
    Refused(BrightnessError),
    /// Too many requests are already waiting.
    Busy,
}

/// A waiting request. `token` names the completion that the caller keeps for it.
#[derive(Clone, Copy, Debug, PartialEq, Eq, Structural)]
pub struct Pending {
    pub token: u64,
    pub action: Action,
}

/// The request being written: its operation id and the token of its completion.
#[derive(Clone, Copy, Debug, PartialEq, Eq, Structural)]
pub struct Active {
    pub id: u64,
    pub token: u64,
}

/// The operation to start after the queue advanced.
#[derive(Clone, Copy, Debug, PartialEq, Eq, Structural)]
pub struct Started {
    pub id: u64,
    pub token: u64,
    pub value: u32,
}

/// The request queue of one brightness control: requests run one at a time, in order.
/// A new generation begins whenever the device is reconfigured; callbacks carry the
/// generation and operation id they were started with, and stale ones are ignored.
pub struct Requests {
    generation: u64,
    pending: Vec<Pending>,
    active: Option<Active>,
}

/// The abstract state of a request queue.
#[verifier::ext_equal]
pub struct RequestsView {
    pub generation: u64,
    pub pending: Seq<Pending>,
    pub active: Option<Active>,
}

impl View for Requests {
    type V = RequestsView;

    closed spec fn view(&self) -> RequestsView {
        RequestsView { generation: self.generation, pending: self.pending@, active: self.active }
    }
}

/// The tokens of the requests in `p`, in order.
pub open spec fn tokens(p: Seq<Pending>) -> Seq<u64> {
    p.map_values(|q: Pending| q.token)
}

/// Whether a callback for operation `id`, started in `generation`, still owns the control.
pub open spec fn current(q: RequestsView, generation: u64, id: u64) -> bool {
    &&& q.generation == generation
    &&& q.active matches Some(a) && a.id == id
}

impl Requests {
    /// Whether the queue holds no more waiting requests than allowed.
    pub open spec fn wf(&self) -> bool {
        self@.pending.len() <= MAX_PENDING
    }

    /// An empty queue in its first generation.
    pub fn new() -> (r: Requests)
        ensures
            r.wf(),
            r@ == (RequestsView { generation: 0, pending: Seq::empty(), active: None }),
    {
        Requests { generation: 0, pending: Vec::new(), active: None }
    }

    /// The current generation.
    pub fn generation(&self) -> (r: u64)
        ensures
            r == self@.generation,
    {
        self.generation
    }

    /// The number of waiting requests.
    pub fn pending_len(&self) -> (r: usize)
        ensures
            r == self@.pending.len(),
    {
        self.pending.len()
    }

    /// The request being written, if any.
    pub fn active(&self) -> (r: Option<Active>)
        ensures
            r == self@.active,
    {
        self.active
    }

    /// Accepts a request unless the service is closing, the backend is gone, the
    /// current device cannot serve it or the queue is full. An accepted request
    /// waits at the back of the queue.
    pub fn submit(
        &mut self,
        token: u64,
        action: Action,
        device: Option<&BrightnessDevice>,
        kind: ControlKind,
        disposed: bool,
        available: bool,
    ) -> (r: Result<(), RequestError>)
        requires
            old(self).wf(),
        ensures
            final(self).wf(),
            r == (if disposed {
                Err(RequestError::Cancelled)
            } else if !available {
                Err(RequestError::Unavailable)
            } else if device.is_none() {
                Err(RequestError::Refused(BrightnessError::NoDevice))
            } else if target_value(device.unwrap().current, device.unwrap().maximum, kind, action) is Err {
                Err(RequestError::Refused(target_value(device.unwrap().current, device.unwrap().maximum, kind, action)->Err_0))
            } else if old(self)@.pending.len() >= MAX_PENDING {
                Err(RequestError::Busy)
            } else {
                Ok(())
            }),
            r is Ok ==> final(self)@ == (RequestsView {
                pending: old(self)@.pending.push(Pending { token, action }),
                ..old(self)@
            }),
            r is Err ==> final(self)@ == old(self)@,
    {
        if disposed {
            return Err(RequestError::Cancelled);
        }
        if !available {
            return Err(RequestError::Unavailable);
        }
        match target(device, kind, action) {
            Err(e) => return Err(RequestError::Refused(e)),
            Ok(_) => {},
        }
        if self.pending.len() >= MAX_PENDING {
            return Err(RequestError::Busy);
        }
        self.pending.push(Pending { token, action });
        Ok(())
    }

    /// Starts the next request when none is active. Requests that the device can no
    /// longer serve leave the queue first, with their errors, in order; the first one
    /// it can serve becomes active under operation id `id`.
    pub fn start_next(&mut self, device: Option<&BrightnessDevice>, kind: ControlKind, id: u64) -> (r: (
        Vec<(u64, BrightnessError)>,
        Option<Started>,
    ))
        requires
            old(self).wf(),
        ensures
            final(self).wf(),
            final(self)@.generation == old(self)@.generation,
            old(self)@.active is Some ==> final(self)@ == old(self)@ && r.0@.len() == 0 && r.1 is None,
            old(self)@.active is None ==> {
                let n = r.0@.len() as int;
                &&& n <= old(self)@.pending.len()
                &&& forall|i: int| 0 <= i < n ==> {
                    let p = #[trigger] old(self)@.pending[i];
                    &&& r.0@[i].0 == p.token
                    &&& device matches Some(d)
                        ==> target_value(d.current, d.maximum, kind, p.action) == Err::<u32, BrightnessError>(r.0@[i].1)
                    &&& device is None ==> r.0@[i].1 == BrightnessError::NoDevice
                }
                &&& match r.1 {
                    None => n == old(self)@.pending.len() && final(self)@.pending.len() == 0
                        && final(self)@.active is None,
                    Some(s) => {
                        let p = old(self)@.pending[n as int];
                        &&& n < old(self)@.pending.len()
                        &&& device matches Some(d)
                        &&& target_value(d.current, d.maximum, kind, p.action) == Ok::<u32, BrightnessError>(s.value)
                        &&& s.id == id
                        &&& s.token == p.token
                        &&& final(self)@.active == Some(Active { id, token: p.token })
                        &&& final(self)@.pending == old(self)@.pending.skip(n + 1int)
                    },
                }
            },
    {
        let mut failed: Vec<(u64, BrightnessError)> = Vec::new();
        if self.active.is_some() {
            return (failed, None);
        }
        let ghost start = self.pending@;
        let ghost was = self@;
        let mut i: usize = 0;
        while i < self.pending.len()
            invariant
                self.pending@ == start,
                was == old(self)@,
                was.pending == start,
                was.active is None,
                self.generation == was.generation,
                self.active is None,
                self.wf(),
                i <= start.len(),
                failed@.len() == i,
                forall|k: int| 0 <= k < i ==> {
                    let p = #[trigger] start[k];
                    &&& failed@[k].0 == p.token
                    &&& device matches Some(d)
                        ==> target_value(d.current, d.maximum, kind, p.action) == Err::<u32, BrightnessError>(failed@[k].1)
                    &&& device is None ==> failed@[k].1 == BrightnessError::NoDevice
                },
            decreases start.len() - i,
        {
            let p = self.pending[i];
            match target(device, kind, p.action) {
                Ok(value) => {
                    let mut rest: Vec<Pending> = Vec::new();
                    let mut j: usize = i + 1;
                    while j < self.pending.len()
                        invariant
                            self.pending@ == start,
                            i < j <= start.len(),
                            rest@ == start.subrange(i + 1, j as int),
                        decreases start.len() - j,
                    {
                        rest.push(self.pending[j]);
                        j += 1;
                    }
                    assert(rest@ =~= start.skip(i + 1));
                    self.pending = rest;
                    self.active = Some(Active { id, token: p.token });
                    return (failed, Some(Started { id, token: p.token, value }));
                },
                Err(e) => {
                    failed.push((p.token, e));
                },
            }
            i += 1;
        }
        self.pending = Vec::new();
        (failed, None)
    }

    /// Whether a callback for operation `id` started in `generation` is still current.
    pub fn is_current(&self, generation: u64, id: u64) -> (r: bool)
        ensures
            r == current(self@, generation, id),
    {
        match self.active {
            Some(a) => self.generation == generation && a.id == id,
            None => false,
        }
    }

    /// Ends the active operation if the callback is current, handing back its token;
    /// a stale callback changes nothing.
    pub fn complete(&mut self, generation: u64, id: u64) -> (r: Option<u64>)
        requires
            old(self).wf(),
        ensures
            final(self).wf(),
            current(old(self)@, generation, id) ==> r == Some(old(self)@.active->0.token)
                && final(self)@ == (RequestsView { active: None, ..old(self)@ }),
            !current(old(self)@, generation, id) ==> r is None && final(self)@ == old(self)@,
    {
        if !self.is_current(generation, id) {
            return None;
        }
        let a = self.active.unwrap();
        self.active = None;
        Some(a.token)
    }

    /// Drops every outstanding request, the active one first, and hands back their
    /// tokens so that each completion can be failed once.
    pub fn cancel_operations(&mut self) -> (r: Vec<u64>)
        requires
            old(self).wf(),
        ensures
            final(self).wf(),
            final(self)@ == (RequestsView { generation: old(self)@.generation, pending: Seq::empty(), active: None }),
            r@ == (match old(self)@.active {
                Some(a) => seq![a.token],
                None => Seq::empty(),
            }) + tokens(old(self)@.pending),
    {
        let mut r: Vec<u64> = Vec::new();
        let ghost head = r@;
        match self.active {
            Some(a) => r.push(a.token),
            None => {},
        }
        let ghost head = r@;
        let mut i: usize = 0;
        while i < self.pending.len()
            invariant
                i <= self.pending@.len(),
                r@ == head + tokens(self.pending@.take(i as int)),
            decreases self.pending@.len() - i,
        {
            assert(self.pending@.take(i + 1) =~= self.pending@.take(i as int).push(self.pending@[i as int]));
            r.push(self.pending[i].token);
            i += 1;
            assert(r@ =~= head + tokens(self.pending@.take(i as int)));
        }
        assert(self.pending@.take(i as int) =~= self.pending@);
        self.active = None;
        self.pending = Vec::new();
        r
    }

    /// Starts a new generation, so that callbacks of the old one are ignored, and drops
    /// every outstanding request as `cancel_operations` does.
    pub fn cancel(&mut self) -> (r: Vec<u64>)
        requires
            old(self).wf(),
        ensures
            final(self).wf(),
            final(self)@ == (RequestsView {
                generation: old(self)@.generation.wrapping_add(1),
                pending: Seq::empty(),
                active: None,
            }),
            r@ == (match old(self)@.active {
                Some(a) => seq![a.token],
                None => Seq::empty(),
            }) + tokens(old(self)@.pending),
    {
        self.generation = self.generation.wrapping_add(1);
        self.cancel_operations()
    }
}

/// Every value a request resolves to lies within the device's range.
pub proof fn lemma_target_within_range(current: u32, maximum: u32, kind: ControlKind, action: Action)
    requires
        current <= maximum,
    ensures
        target_value(current, maximum, kind, action) matches Ok(v) ==> v <= maximum,
{
}

/// A backlight step up never lowers the brightness and a step down never raises it.
pub proof fn lemma_backlight_monotone(current: u32, maximum: u32)
    requires
        current <= maximum,
    ensures
        target_value(current, maximum, ControlKind::Backlight, Action::Adjust(true))->Ok_0 >= current,
        target_value(current, maximum, ControlKind::Backlight, Action::Adjust(false))->Ok_0 <= current,
{
}

/// Keyboard backlight levels cycle: a step down undoes a step up, wrapping at the ends.
pub proof fn lemma_keyboard_cycle(current: u32, maximum: u32)
    requires
        current <= maximum,
    ensures
        target_value(
            target_value(current, maximum, ControlKind::Keyboard, Action::Adjust(true))->Ok_0,
            maximum,
            ControlKind::Keyboard,
            Action::Adjust(false),
        ) == Ok::<u32, BrightnessError>(current),
{
}

/// After a control is reconfigured, no callback of any earlier operation is current.
pub proof fn lemma_cancel_ends_operations(q: RequestsView, generation: u64, id: u64)
    requires
        q.active is None,
    ensures
        !current(q, generation, id),
{
}

} // verus!

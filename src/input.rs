//! Edge-triggered input events from raw device reports.
use vstd::prelude::*;
use vstd::string::StringSliceAdditionalSpecFns;
use vstd::utf8::encode_utf8;

verus! {

/// A typed input event, as listeners receive it.
#[derive(Clone, Copy, Debug, PartialEq, Eq)]
pub enum InputEvent {
    ButtonPressed,
    ButtonReleased,
    /// An endless knob turned by the given number of steps.
    EndlessKnob(i16),
    XYPanelPress { position: (u32, u32) },
    /// The panel was let go after `time_held_ms` milliseconds.
    XYPanelRelease { position: (u32, u32), time_held_ms: u32 },
    XYPanelSwipe { start: (u32, u32), end: (u32, u32) },
}

/// An event on one input slot of the device's layout.
#[derive(Clone, Copy, Debug, PartialEq, Eq)]
pub struct InputPayload {
    pub input: u16,
    pub event: InputEvent,
}

/// What a device with encoders and a touch strip reports besides key states.
#[derive(Clone, Copy, Debug, PartialEq, Eq)]
pub enum DeviceUpdate {
    ButtonDown(u8),
    ButtonUp(u8),
    EncoderDown(u8),
    EncoderUp(u8),
    EncoderTwist(u8, i8),
    TouchScreenPress(u16, u16),
    TouchScreenLongPress(u16, u16),
    TouchScreenSwipe((u16, u16), (u16, u16)),
}

/// How long a short press of the touch strip counts as held.
pub const SHORT_PRESS_MS: u32 = 200;

/// How long a long press of the touch strip counts as held.
pub const LONG_PRESS_MS: u32 = 1100;

/// The events one update expands to. Encoder `i` is input slot
/// `encoder_base + i`; the touch strip is slot `panel`.
pub open spec fn update_events(u: DeviceUpdate, encoder_base: u16, panel: u16) -> Seq<InputPayload> {
    match u {
        DeviceUpdate::ButtonDown(i) => seq![InputPayload { input: i as u16, event: InputEvent::ButtonPressed }],
        DeviceUpdate::ButtonUp(i) => seq![InputPayload { input: i as u16, event: InputEvent::ButtonReleased }],
        DeviceUpdate::EncoderDown(i) => seq![InputPayload { input: (encoder_base + i) as u16, event: InputEvent::ButtonPressed }],
        DeviceUpdate::EncoderUp(i) => seq![InputPayload { input: (encoder_base + i) as u16, event: InputEvent::ButtonReleased }],
        DeviceUpdate::EncoderTwist(i, amount) => seq![InputPayload { input: (encoder_base + i) as u16, event: InputEvent::EndlessKnob(amount as i16) }],
        DeviceUpdate::TouchScreenPress(x, y) => seq![
            InputPayload { input: panel, event: InputEvent::XYPanelPress { position: (x as u32, y as u32) } },
            InputPayload { input: panel, event: InputEvent::XYPanelRelease { position: (x as u32, y as u32), time_held_ms: SHORT_PRESS_MS } },
        ],
        DeviceUpdate::TouchScreenLongPress(x, y) => seq![
            InputPayload { input: panel, event: InputEvent::XYPanelPress { position: (x as u32, y as u32) } },
            InputPayload { input: panel, event: InputEvent::XYPanelRelease { position: (x as u32, y as u32), time_held_ms: LONG_PRESS_MS } },
        ],
        DeviceUpdate::TouchScreenSwipe(s, e) => seq![
            InputPayload { input: panel, event: InputEvent::XYPanelSwipe { start: (s.0 as u32, s.1 as u32), end: (e.0 as u32, e.1 as u32) } },
        ],
    }
}

/// Expands one device update into input events.
pub fn map_update(u: DeviceUpdate, encoder_base: u16, panel: u16) -> (r: Vec<InputPayload>)
    requires
        encoder_base <= u16::MAX - 255,
    ensures
        r@ == update_events(u, encoder_base, panel),
{
    let r = match u {
        DeviceUpdate::ButtonDown(i) => vec![InputPayload { input: i as u16, event: InputEvent::ButtonPressed }],
        DeviceUpdate::ButtonUp(i) => vec![InputPayload { input: i as u16, event: InputEvent::ButtonReleased }],
        DeviceUpdate::EncoderDown(i) => vec![InputPayload { input: encoder_base + i as u16, event: InputEvent::ButtonPressed }],
        DeviceUpdate::EncoderUp(i) => vec![InputPayload { input: encoder_base + i as u16, event: InputEvent::ButtonReleased }],
        DeviceUpdate::EncoderTwist(i, amount) => vec![InputPayload { input: encoder_base + i as u16, event: InputEvent::EndlessKnob(amount as i16) }],
        DeviceUpdate::TouchScreenPress(x, y) => vec![
            InputPayload { input: panel, event: InputEvent::XYPanelPress { position: (x as u32, y as u32) } },
            InputPayload { input: panel, event: InputEvent::XYPanelRelease { position: (x as u32, y as u32), time_held_ms: SHORT_PRESS_MS } },
        ],
        DeviceUpdate::TouchScreenLongPress(x, y) => vec![
            InputPayload { input: panel, event: InputEvent::XYPanelPress { position: (x as u32, y as u32) } },
            InputPayload { input: panel, event: InputEvent::XYPanelRelease { position: (x as u32, y as u32), time_held_ms: LONG_PRESS_MS } },
        ],
        DeviceUpdate::TouchScreenSwipe(s, e) => vec![
            InputPayload { input: panel, event: InputEvent::XYPanelSwipe { start: (s.0 as u32, s.1 as u32), end: (e.0 as u32, e.1 as u32) } },
        ],
    };
    assert(r@ =~= update_events(u, encoder_base, panel));
    r
}

/// The edge on key `k` between two reports (0 is up, anything else down): a
/// press when the key was up (or unknown) and is down, a release when it was
/// down and is up.
pub open spec fn key_edge(last: Seq<u8>, now: Seq<u8>, k: int) -> Seq<(u8, bool)> {
    if k < last.len() {
        if (last[k] != 0) != (now[k] != 0) {
            seq![(k as u8, now[k] != 0)]
        } else {
            Seq::empty()
        }
    } else if now[k] > 0 {
        seq![(k as u8, true)]
    } else {
        Seq::empty()
    }
}

/// The edges of keys `0..n`, in ascending key order.
pub open spec fn edges_upto(last: Seq<u8>, now: Seq<u8>, n: int) -> Seq<(u8, bool)>
    decreases n,
{
    if n <= 0 {
        Seq::empty()
    } else {
        edges_upto(last, now, n - 1) + key_edge(last, now, n - 1)
    }
}

/// All edges between two reports, as `(key, is_down)`.
pub open spec fn report_edges(last: Seq<u8>, now: Seq<u8>) -> Seq<(u8, bool)> {
    edges_upto(last, now, now.len() as int)
}

/// What a read of the device gave.
#[derive(Debug)]
pub enum ReadResult {
    /// The state of every key, by physical position (0 up, other down).
    Buttons(Vec<u8>),
    /// Nothing to read yet.
    NoData,
    /// The HID connection failed.
    Hid,
    /// Any other driver failure.
    Other,
}

/// What the runtime does after a read.
#[derive(Debug)]
pub enum PollOutcome {
    /// Key edges to hand to the key handler, in order.
    Edges(Vec<(u8, bool)>),
    Idle,
    /// The device is gone: close the runtime.
    LostConnection,
    /// An unrecoverable driver failure: close the runtime.
    Fatal,
}

/// Remembers the last key report and turns the next one into edges.
#[derive(Debug)]
pub struct InputTranslator {
    last_buttons: Vec<u8>,
}

impl InputTranslator {
    pub closed spec fn last(&self) -> Seq<u8> {
        self.last_buttons@
    }

    /// A translator that has seen no report yet.
    pub fn new() -> (r: InputTranslator)
        ensures
            r.last() == Seq::<u8>::empty(),
    {
        InputTranslator { last_buttons: Vec::new() }
    }

    /// The edges from the last report to `buttons`, which becomes the last.
    pub fn translate(&mut self, buttons: Vec<u8>) -> (r: Vec<(u8, bool)>)
        requires
            buttons@.len() <= 256,
        ensures
            r@ == report_edges(old(self).last(), buttons@),
            final(self).last() == buttons@,
    {
        let mut out: Vec<(u8, bool)> = Vec::new();
        let mut k: usize = 0;
        while k < buttons.len()
            invariant
                k <= buttons@.len(),
                buttons@.len() <= 256,
                out@ == edges_upto(self.last_buttons@, buttons@, k as int),
            decreases buttons@.len() - k,
        {
            let ghost before = out@;
            if k < self.last_buttons.len() {
                let was_down = self.last_buttons[k] != 0;
                let is_down = buttons[k] != 0;
                if was_down != is_down {
                    out.push((k as u8, is_down));
                }
            } else if buttons[k] > 0 {
                out.push((k as u8, true));
            }
            assert(out@ =~= before + key_edge(self.last_buttons@, buttons@, k as int));
            k = k + 1;
        }
        self.last_buttons = buttons;
        out
    }

    /// Handles one read: key reports become edges; no data is normal; a
    /// failed HID connection means the device is gone; anything else is fatal.
    pub fn poll(&mut self, read: ReadResult) -> (r: PollOutcome)
        requires
            read is Buttons ==> read->Buttons_0@.len() <= 256,
        ensures
            match read {
                ReadResult::Buttons(b) => r is Edges && r->Edges_0@ == report_edges(old(self).last(), b@)
                    && final(self).last() == b@,
                ReadResult::NoData => r is Idle && final(self).last() == old(self).last(),
                ReadResult::Hid => r is LostConnection && final(self).last() == old(self).last(),
                ReadResult::Other => r is Fatal && final(self).last() == old(self).last(),
            },
    {
        match read {
            ReadResult::Buttons(b) => PollOutcome::Edges(self.translate(b)),
            ReadResult::NoData => PollOutcome::Idle,
            ReadResult::Hid => PollOutcome::LostConnection,
            ReadResult::Other => PollOutcome::Fatal,
        }
    }
}

/// The events listeners receive for key edges, in the same order.
pub open spec fn edge_events(edges: Seq<(u8, bool)>) -> Seq<InputPayload> {
    edges.map_values(
        |e: (u8, bool)|
            InputPayload {
                input: e.0 as u16,
                event: if e.1 {
                    InputEvent::ButtonPressed
                } else {
                    InputEvent::ButtonReleased
                },
            },
    )
}

/// Turns key edges into `ButtonPressed` / `ButtonReleased` events.
pub fn edges_to_events(edges: &Vec<(u8, bool)>) -> (r: Vec<InputPayload>)
    ensures
        r@ == edge_events(edges@),
{
    let mut out: Vec<InputPayload> = Vec::new();
    let mut i: usize = 0;
    while i < edges.len()
        invariant
            i <= edges@.len(),
            out@ == edge_events(edges@.take(i as int)),
        decreases edges@.len() - i,
    {
        let (key, down) = edges[i];
        let event = if down {
            InputEvent::ButtonPressed
        } else {
            InputEvent::ButtonReleased
        };
        out.push(InputPayload { input: key as u16, event });
        proof {
            assert(edges@.take(i as int + 1) =~= edges@.take(i as int).push(edges@[i as int]));
        }
        assert(out@ =~= edge_events(edges@.take(i as int + 1)));
        i = i + 1;
    }
    assert(edges@.take(edges@.len() as int) =~= edges@);
    out
}

// ---- driver errors ----

/// A driver failure, as far as the runtime tells them apart.
#[derive(Debug)]
pub enum DriverFailure {
    /// The HID API reported an error with this message.
    HidApi(String),
    /// Any other HID failure.
    OtherHid,
    /// A failure outside HID.
    Other,
}

/// How the runtime treats a driver failure.
#[derive(PartialEq, Eq, Structural, Clone, Copy, Debug)]
pub enum DeviceError {
    /// The device went away; the runtime ends.
    LostConnection,
    /// Any other failure of the device.
    DeviceError,
}

/// `needle` occurs in `hay` at some position.
pub open spec fn occurs_in(needle: Seq<u8>, hay: Seq<u8>) -> bool {
    exists|i: int| 0 <= i && i + needle.len() <= hay.len() && #[trigger] hay.subrange(i, i + needle.len()) == needle
}

fn matches_at(hay: &[u8], needle: &[u8], i: usize) -> (r: bool)
    requires
        i + needle@.len() <= hay@.len(),
    ensures
        r == (hay@.subrange(i as int, i + needle@.len()) == needle@),
{
    let hay_len = hay.len();
    let mut j: usize = 0;
    while j < needle.len()
        invariant
            hay_len == hay@.len(),
            j <= needle@.len(),
            i + needle@.len() <= hay@.len(),
            forall|q: int| 0 <= q < j ==> hay@[i + q] == needle@[q],
        decreases needle@.len() - j,
    {
        if hay[i + j] != needle[j] {
            assert(hay@.subrange(i as int, i + needle@.len())[j as int] != needle@[j as int]);
            return false;
        }
        j = j + 1;
    }
    assert(hay@.subrange(i as int, i + needle@.len()) =~= needle@);
    true
}

/// Whether the UTF-8 bytes of `needle` occur in those of `hay`.
pub fn contains_text(hay: &str, needle: &str) -> (r: bool)
    ensures
        r == occurs_in(needle.spec_bytes(), hay.spec_bytes()),
{
    let h = hay.as_bytes();
    let n = needle.as_bytes();
    if n.len() > h.len() {
        return false;
    }
    let last: usize = h.len() - n.len();
    let mut i: usize = 0;
    loop
        invariant_except_break
            i <= last,
        invariant
            n@ == needle.spec_bytes(),
            h@ == hay.spec_bytes(),
            last == h@.len() - n@.len(),
            forall|q: int| 0 <= q < i ==> #[trigger] h@.subrange(q, q + n@.len()) != n@,
        ensures
            forall|q: int| 0 <= q <= last ==> #[trigger] h@.subrange(q, q + n@.len()) != n@,
        decreases last - i,
    {
        if matches_at(h, n, i) {
            return true;
        }
        if i == last {
            break;
        }
        i = i + 1;
    }
    false
}

/// The message the HID API gives when the device was unplugged.
pub open spec fn disconnect_message() -> Seq<char> {
    "device disconnected"@
}

/// A HID API error whose message mentions the device being disconnected is a
/// lost connection; every other failure is a device error.
pub fn map_error(err: &DriverFailure) -> (r: DeviceError)
    ensures
        r == (if err is HidApi && occurs_in(
            encode_utf8(disconnect_message()),
            encode_utf8(err->HidApi_0@),
        ) {
            DeviceError::LostConnection
        } else {
            DeviceError::DeviceError
        }),
{
    if let DriverFailure::HidApi(message) = err {
        if contains_text(message.as_str(), "device disconnected") {
            return DeviceError::LostConnection;
        }
    }
    DeviceError::DeviceError
}

} // verus!

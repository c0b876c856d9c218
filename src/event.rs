//! The event model: input codes, payloads and identity-stamped events.

use std::time::Duration;
use std::time::Instant;
use vstd::prelude::*;

verus! {

/// Identifier of a touch contact, assigned by the backend.
pub type FingerIndexType = i64;

#[verifier::external_type_specification]
#[verifier::external_body]
pub struct ExInstant(Instant);

/// Relies on `std::time::Instant::now`: it returns some instant; nothing is
/// known of which one.
#[verifier::external_body]
fn now() -> (r: Instant) {
    Instant::now()
}

/// A mouse button.
#[derive(Clone, Copy, Debug, PartialEq, Eq, Structural)]
pub enum Mouse {
    Left,
    Right,
    Middle,
    Back,
    Forward,
    Offic,
    Unknown(u32),
}

/// A keyboard key; a number tells apart keys that occur more than once
/// (left and right, main block and keypad).
#[derive(Clone, Copy, Debug, PartialEq, Eq, Structural)]
pub enum Keyboard {
    A,
    B,
    C,
    D,
    E,
    F,
    G,
    H,
    I,
    J,
    K,
    L,
    M,
    N,
    O,
    P,
    Q,
    R,
    S,
    T,
    U,
    V,
    W,
    X,
    Y,
    Z,
    Escape(u8),
    Function(u8),
    PrintScreen,
    ScrollLock,
    PauseBreak,
    BackQuote,
    Number { number: i32, padd: bool },
    Backspace,
    Delete,
    Insert,
    Home,
    End,
    PageUp,
    PageDown,
    NumLock,
    Slash(u8),
    Star,
    Plus(u8),
    Minus(u8),
    Enter(u8),
    Dot(u8),
    Tab,
    BracketLeft,
    BracketRight,
    CapseLock(u8),
    SemiColon,
    Quote,
    BackSlash(u8),
    Shift(u8),
    Comma(u8),
    Control(u8),
    Alt(u8),
    Space(u8),
    Command(u8),
    Super(u8),
    Properties(u8),
    ArrowUp,
    ArrowDown,
    ArrowLeft,
    ArrowRight,
    Equal,
    Menu(u8),
    Unknown(u32),
}

/// A mouse button or a keyboard key.
#[derive(Clone, Copy, Debug, PartialEq, Eq, Structural)]
pub enum Button {
    Mouse(Mouse),
    Keyboard(Keyboard),
}

/// Whether a button went down or up.
#[derive(Clone, Copy, Debug, PartialEq, Eq, Structural)]
pub enum ButtonAction {
    Press,
    Release,
}

/// What a finger did.
#[derive(Clone, Copy, Debug, PartialEq, Eq, Structural)]
pub enum TouchAction {
    Press,
    HardPress,
    Release,
}

/// Where a gesture stands.
#[derive(Clone, Copy, Debug, PartialEq, Eq, Structural)]
pub enum GestureState {
    Started,
    InMiddle,
    Ended,
    Canceled,
}

/// An exact fraction `num / den`. Normalised coordinates and ratios are
/// carried this way; a consumer that wants a float divides.
#[derive(Clone, Copy, Debug, PartialEq, Eq, Structural)]
pub struct Ratio {
    pub num: i128,
    pub den: i128,
}

/// Whether `v` fits in an `i128`.
pub open spec fn fits_i128(v: int) -> bool {
    i128::MIN <= v <= i128::MAX
}

/// `c - p` as a fraction, when every step of computing it fits in an
/// `i128`: over the shared denominator where the two have one, else over the
/// product of the denominators.
pub open spec fn ratio_diff(c: Ratio, p: Ratio) -> Option<Ratio> {
    if c.den == p.den {
        if fits_i128(c.num - p.num) {
            Some(Ratio { num: (c.num - p.num) as i128, den: c.den })
        } else {
            None
        }
    } else {
        let a = c.num * p.den;
        let b = p.num * c.den;
        let d = c.den * p.den;
        if fits_i128(a) && fits_i128(b) && fits_i128(a - b) && fits_i128(d) {
            Some(Ratio { num: (a - b) as i128, den: d as i128 })
        } else {
            None
        }
    }
}

impl Ratio {
    /// `self - p`, or `None` where it cannot be computed within `i128`.
    pub fn minus(&self, p: &Ratio) -> (r: Option<Ratio>)
        ensures
            r == ratio_diff(*self, *p),
    {
        if self.den == p.den {
            match self.num.checked_sub(p.num) {
                Some(num) => Some(Ratio { num, den: self.den }),
                None => None,
            }
        } else {
            let a = self.num.checked_mul(p.den);
            let b = p.num.checked_mul(self.den);
            let d = self.den.checked_mul(p.den);
            match (a, b, d) {
                (Some(a), Some(b), Some(d)) => match a.checked_sub(b) {
                    Some(num) => Some(Ratio { num, den: d }),
                    None => None,
                },
                _ => None,
            }
        }
    }
}

/// The size of a window: `smallest` is the shorter side.
#[derive(Clone, Copy, Debug, PartialEq, Eq, Structural)]
pub struct WindowAspects {
    pub width: i64,
    pub height: i64,
    pub smallest: i64,
}

/// The shorter of two sides.
pub open spec fn min_side(width: i64, height: i64) -> i64 {
    if width > height { height } else { width }
}

impl WindowAspects {
    /// `smallest` is the shorter of the two sides.
    pub open spec fn wf(&self) -> bool {
        self.smallest == min_side(self.width, self.height)
    }

    /// The aspects of a `width` by `height` window.
    pub fn new(width: i64, height: i64) -> (r: WindowAspects)
        ensures
            r.width == width,
            r.height == height,
            r.smallest == min_side(width, height),
            r.wf(),
    {
        let smallest = if width > height { height } else { width };
        WindowAspects { width, height, smallest }
    }

    /// `width / height`.
    pub fn ratio(&self) -> (r: Ratio)
        ensures
            r.num == self.width,
            r.den == self.height,
    {
        Ratio { num: self.width as i128, den: self.height as i128 }
    }

    /// `width / smallest`.
    pub fn normalized_width(&self) -> (r: Ratio)
        ensures
            r.num == self.width,
            r.den == self.smallest,
    {
        Ratio { num: self.width as i128, den: self.smallest as i128 }
    }

    /// `height / smallest`.
    pub fn normalized_height(&self) -> (r: Ratio)
        ensures
            r.num == self.height,
            r.den == self.smallest,
    {
        Ratio { num: self.height as i128, den: self.smallest as i128 }
    }
}

/// Side-by-side differences of two window aspects, `current - previous`.
#[derive(Clone, Copy, Debug, PartialEq, Eq, Structural)]
pub struct AspectsDelta {
    pub width: i128,
    pub height: i128,
    pub smallest: i128,
}

/// `current - previous`, side by side.
pub open spec fn delta_of(current: WindowAspects, previous: WindowAspects) -> AspectsDelta {
    AspectsDelta {
        width: (current.width - previous.width) as i128,
        height: (current.height - previous.height) as i128,
        smallest: (current.smallest - previous.smallest) as i128,
    }
}

impl AspectsDelta {
    /// `current - previous`, side by side.
    pub fn between(current: &WindowAspects, previous: &WindowAspects) -> (r: AspectsDelta)
        ensures
            r == delta_of(*current, *previous),
    {
        AspectsDelta {
            width: current.width as i128 - previous.width as i128,
            height: current.height as i128 - previous.height as i128,
            smallest: current.smallest as i128 - previous.smallest as i128,
        }
    }
}

/// A resize: the aspects after and before it, and their difference.
#[derive(Clone, Copy, Debug, PartialEq, Eq, Structural)]
pub struct WindowSizeChange {
    pub current: WindowAspects,
    pub previous: WindowAspects,
    pub delta: AspectsDelta,
}

impl WindowSizeChange {
    /// `delta` is `current - previous`.
    pub open spec fn consistent(&self) -> bool {
        self.delta == delta_of(self.current, self.previous)
    }
}

/// A change of the window itself.
#[derive(Clone, Copy, Debug, PartialEq, Eq, Structural)]
pub enum Window {
    SizeChange(WindowSizeChange),
    Focus,
    Unfocus,
}

/// A pointer or finger movement. Positions are absolute pixels; the
/// normalised forms are those of `normalize` under the aspects of the time of
/// each sample, and `normalized_delta` is their difference on each axis
/// (`None` on an axis where it does not fit in an `i128` fraction).
#[allow(inconsistent_fields)]
#[derive(Clone, Copy, Debug)]
pub enum Move {
    Mouse {
        previous: (i64, i64),
        current: (i64, i64),
        delta: (i128, i128),
        normalized_previous: (Ratio, Ratio),
        normalized_current: (Ratio, Ratio),
        normalized_delta: (Option<Ratio>, Option<Ratio>),
    },
    Touch {
        index: FingerIndexType,
        previous: (i64, i64),
        current: (i64, i64),
        delta: (i128, i128),
        normalized_previous: (Ratio, Ratio),
        normalized_current: (Ratio, Ratio),
        normalized_delta: (Option<Ratio>, Option<Ratio>),
    },
}

/// The known state of one finger.
#[derive(Clone, Copy, Debug)]
pub struct TouchState {
    pub position: (i64, i64),
    pub normalized_position: (Ratio, Ratio),
    pub hard_pressed: bool,
}

/// A recognised gesture.
#[allow(inconsistent_fields)]
#[derive(Clone, Copy, Debug)]
pub enum TouchGesture {
    Tap,
    Drag {
        index: FingerIndexType,
        start: (i64, i64),
        previous: (i64, i64),
        current: (i64, i64),
        delta: (i128, i128),
        normalized_start: (Ratio, Ratio),
        normalized_previous: (Ratio, Ratio),
        normalized_current: (Ratio, Ratio),
        normalized_delta: (Option<Ratio>, Option<Ratio>),
    },
    Scale {
        first: (FingerIndexType, TouchState),
        second: (FingerIndexType, TouchState),
        start: i64,
        previous: i64,
        current: i64,
        delta: i64,
        normalized_start: i64,
        normalized_previous: i64,
        normalized_current: i64,
        normalized_delta: i64,
    },
}

/// A touch: a recognised gesture, or one finger's contact as it happened.
#[derive(Clone, Copy, Debug)]
pub enum Touch {
    Gesture { start_time: Instant, duration: Duration, state: GestureState, data: TouchGesture },
    Raw { index: FingerIndexType, action: TouchAction, point: (i64, i64), normalized_point: (Ratio, Ratio) },
}

/// The payload of an event.
#[derive(Clone, Copy, Debug)]
pub enum Data {
    Move(Move),
    Button { button: Button, action: ButtonAction },
    Touch(Touch),
    Window(Window),
    Quit,
    /// Stops the dispatch worker; never handed to listeners.
    Terminate,
}

/// Source of event identifiers: each one is issued once, in increasing order.
pub struct EventIds {
    next: u64,
}

impl EventIds {
    /// Identifiers start at 1 and only grow.
    #[verifier::type_invariant]
    spec fn inv(&self) -> bool {
        self.next >= 1
    }

    /// The identifier that the next event will get.
    pub closed spec fn next_id(&self) -> u64 {
        self.next
    }

    /// A source whose first identifier is 1.
    pub fn new() -> (r: EventIds)
        ensures
            r.next_id() == 1,
    {
        EventIds { next: 1 }
    }

    /// Whether another identifier can be issued.
    pub fn can_issue(&self) -> (r: bool)
        ensures
            r == (self.next_id() < u64::MAX),
    {
        self.next < u64::MAX
    }
}

/// One occurrence: an identifier, the instant it was made, and its payload.
#[derive(Debug)]
pub struct Event {
    id: u64,
    time: Instant,
    data: Data,
}

impl Event {
    /// The identifier the event was stamped with.
    pub closed spec fn id(&self) -> u64 {
        self.id
    }

    /// The instant the event was made.
    pub closed spec fn time(&self) -> Instant {
        self.time
    }

    /// The payload.
    pub closed spec fn data(&self) -> Data {
        self.data
    }

    /// Stamps `data` with the next identifier of `ids` and the current instant.
    pub fn new(ids: &mut EventIds, data: Data) -> (r: Event)
        requires
            old(ids).next_id() < u64::MAX,
        ensures
            r.id() == old(ids).next_id(),
            r.id() >= 1,
            final(ids).next_id() == old(ids).next_id() + 1,
            r.data() == data,
    {
        proof {
            use_type_invariant(&*ids);
        }
        let id: u64 = ids.next;
        *ids = EventIds { next: id + 1 };
        Event { id, time: now(), data }
    }

    /// The identifier the event was stamped with.
    pub fn get_id(&self) -> (r: u64)
        ensures
            r == self.id(),
    {
        self.id
    }

    /// The instant the event was made.
    pub fn get_time(&self) -> (r: &Instant)
        ensures
            *r == self.time(),
    {
        &self.time
    }

    /// The payload.
    pub fn get_data(&self) -> (r: &Data)
        ensures
            *r == self.data(),
    {
        &self.data
    }
}

/// Events issued one after another from one source carry strictly increasing
/// identifiers: the k-th was stamped from the source's k-th state, and every
/// issue moves the source forward.
pub proof fn lemma_ids_increase(events: Seq<Event>, sources: Seq<EventIds>)
    requires
        sources.len() == events.len() + 1,
        forall|k: int| 0 <= k < events.len() ==> #[trigger] events[k].id() == sources[k].next_id(),
        forall|k: int| 0 <= k < events.len() ==> #[trigger] sources[k].next_id() < sources[k + 1].next_id(),
    ensures
        forall|i: int, j: int| 0 <= i < j < events.len() ==> events[i].id() < events[j].id(),
{
    assert forall|i: int, j: int| 0 <= i < j < events.len() implies events[i].id() < events[j].id() by {
        lemma_sources_advance(sources, i, j, events.len() as int);
    }
}

proof fn lemma_sources_advance(sources: Seq<EventIds>, i: int, j: int, n: int)
    requires
        0 <= i < j <= n,
        n < sources.len(),
        forall|k: int| 0 <= k < n ==> #[trigger] sources[k].next_id() < sources[k + 1].next_id(),
    ensures
        sources[i].next_id() < sources[j].next_id(),
    decreases j - i,
{
    if j > i + 1 {
        lemma_sources_advance(sources, i, j - 1, n);
        assert(sources[j - 1].next_id() < sources[j].next_id());
    }
}

} // verus!

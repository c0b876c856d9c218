//! The state tracker: the last known window aspects, pointer or fingers, and
//! pressed buttons, and the mutators that turn a raw signal into an event.

use std::collections::BTreeMap;
use vstd::prelude::*;
use crate::event::{
    delta_of, ratio_diff, AspectsDelta, min_side, Button, ButtonAction, Data, Event, EventIds, FingerIndexType, Move, Ratio,
    Touch, TouchAction, TouchState, Window, WindowAspects, WindowSizeChange,
};

verus! {

broadcast use vstd::laws_cmp::group_laws_cmp, vstd::std_specs::btree::group_btree_axioms;

/// `(x - width) / smallest` and `(y - height) / smallest`.
pub open spec fn normalized(a: WindowAspects, x: i64, y: i64) -> (Ratio, Ratio) {
    (
        Ratio { num: (x - a.width) as i128, den: a.smallest as i128 },
        Ratio { num: (y - a.height) as i128, den: a.smallest as i128 },
    )
}

impl WindowAspects {
    /// Coordinate `x` relative to the full width, in units of the shorter side.
    pub fn normalize_width(&self, x: i64) -> (r: Ratio)
        ensures
            r == normalized(*self, x, 0).0,
    {
        Ratio { num: x as i128 - self.width as i128, den: self.smallest as i128 }
    }

    /// Coordinate `y` relative to the full height, in units of the shorter side.
    pub fn normalize_height(&self, y: i64) -> (r: Ratio)
        ensures
            r == normalized(*self, 0, y).1,
    {
        Ratio { num: y as i128 - self.height as i128, den: self.smallest as i128 }
    }

    /// The normalised form of the point `(x, y)`.
    pub fn normalize(&self, x: i64, y: i64) -> (r: (Ratio, Ratio))
        ensures
            r == normalized(*self, x, y),
    {
        (self.normalize_width(x), self.normalize_height(y))
    }
}

/// The single pointer of a desktop target.
#[derive(Clone, Copy, Debug)]
pub struct PointerState {
    pub position: (i64, i64),
    pub normalized_position: (Ratio, Ratio),
}

/// What the target points with: fingers by index, or one mouse pointer.
pub enum Pointer {
    Touch(BTreeMap<FingerIndexType, TouchState>),
    Mouse(PointerState),
}

/// Everything the engine knows of the window and its input devices.
pub struct EngineState {
    pub aspects: WindowAspects,
    pub pointer: Pointer,
    pub pressed_buttons: Vec<Button>,
}

/// What a mutator hands back: `r` carries `d` with the next identifier, or
/// nothing is emitted and no identifier is used.
pub open spec fn issued(r: Option<Event>, d: Option<Data>, before: EventIds, after: EventIds) -> bool {
    match d {
        None => r is None && after.next_id() == before.next_id(),
        Some(d) => match r {
            Some(e) => {
                &&& e.data() == d
                &&& e.id() == before.next_id()
                &&& after.next_id() == before.next_id() + 1
            },
            None => false,
        },
    }
}

/// The same, for a mutator that always emits.
pub open spec fn issued_one(e: Event, d: Data, before: EventIds, after: EventIds) -> bool {
    issued(Some(e), Some(d), before, after)
}

/// The resize that `window_size_changed(width, height)` reports against
/// aspects `a`, or none when the size is not positive or is unchanged.
pub open spec fn size_change(a: WindowAspects, width: i64, height: i64) -> Option<WindowSizeChange> {
    if width <= 0 || height <= 0 || (width == a.width && height == a.height) {
        None
    } else {
        let current = WindowAspects { width, height, smallest: min_side(width, height) };
        Some(WindowSizeChange { current, previous: a, delta: delta_of(current, a) })
    }
}

/// The difference `c - p` of two normalised points, axis by axis.
pub open spec fn point_diff(c: (Ratio, Ratio), p: (Ratio, Ratio)) -> (Option<Ratio>, Option<Ratio>) {
    (ratio_diff(c.0, p.0), ratio_diff(c.1, p.1))
}

/// The payload of a mouse move from `p` to `cur` under aspects `a`.
pub open spec fn mouse_move(a: WindowAspects, p: PointerState, cur: (i64, i64)) -> Data {
    Data::Move(
        Move::Mouse {
            previous: p.position,
            current: cur,
            delta: ((cur.0 - p.position.0) as i128, (cur.1 - p.position.1) as i128),
            normalized_previous: p.normalized_position,
            normalized_current: normalized(a, cur.0, cur.1),
            normalized_delta: point_diff(normalized(a, cur.0, cur.1), p.normalized_position),
        },
    )
}

/// The payload of a finger move from `t` to `(x, y)` under aspects `a`.
pub open spec fn finger_moved(
    a: WindowAspects,
    index: FingerIndexType,
    t: TouchState,
    x: i64,
    y: i64,
) -> Data {
    Data::Move(
        Move::Touch {
            index,
            previous: t.position,
            current: (x, y),
            delta: ((x - t.position.0) as i128, (y - t.position.1) as i128),
            normalized_previous: t.normalized_position,
            normalized_current: normalized(a, x, y),
            normalized_delta: point_diff(normalized(a, x, y), t.normalized_position),
        },
    )
}

/// The payload of a raw touch at `(x, y)` under aspects `a`.
pub open spec fn raw_touch(
    a: WindowAspects,
    index: FingerIndexType,
    action: TouchAction,
    x: i64,
    y: i64,
) -> Data {
    Data::Touch(Touch::Raw { index, action, point: (x, y), normalized_point: normalized(a, x, y) })
}

/// The state a finger at `(x, y)` starts with.
pub open spec fn fresh_finger(a: WindowAspects, x: i64, y: i64) -> TouchState {
    TouchState { position: (x, y), normalized_position: normalized(a, x, y), hard_pressed: false }
}

impl EngineState {
    /// `smallest` matches the stored sides, and no button is listed twice.
    pub open spec fn wf(&self) -> bool {
        &&& self.aspects.wf()
        &&& self.pressed_buttons@.no_duplicates()
    }

    /// The buttons currently held down.
    pub open spec fn pressed(&self) -> Set<Button> {
        self.pressed_buttons@.to_set()
    }

    /// A zero-sized window, nothing pressed; fingers tracked by index when
    /// `multi_touch`, else one pointer at the origin.
    pub fn new(multi_touch: bool) -> (r: EngineState)
        ensures
            r.wf(),
            r.aspects == (WindowAspects { width: 0, height: 0, smallest: 0 }),
            r.pressed() == Set::<Button>::empty(),
            multi_touch <==> r.pointer is Touch,
            r.pointer is Touch ==> r.pointer->Touch_0@ == Map::<FingerIndexType, TouchState>::empty(),
            r.pointer is Mouse ==> r.pointer->Mouse_0.position == (0i64, 0i64)
                && r.pointer->Mouse_0.normalized_position == (Ratio { num: 0, den: 1 }, Ratio { num: 0, den: 1 }),
    {
        let aspects = WindowAspects { width: 0, height: 0, smallest: 0 };
        let pointer = if multi_touch {
            Pointer::Touch(BTreeMap::new())
        } else {
            let origin = Ratio { num: 0, den: 1 };
            Pointer::Mouse(PointerState { position: (0, 0), normalized_position: (origin, origin) })
        };
        let r = EngineState { aspects, pointer, pressed_buttons: Vec::new() };
        proof {
            assert(r.pressed_buttons@ == Seq::<Button>::empty());
            assert(r.pressed() =~= Set::<Button>::empty());
        }
        r
    }

    /// Overwrites the window aspects with those of a `width` by `height`
    /// window. Emits nothing.
    pub fn init_window_aspects(&mut self, width: i64, height: i64)
        requires
            old(self).wf(),
        ensures
            final(self).wf(),
            final(self).aspects == (WindowAspects { width, height, smallest: min_side(width, height) }),
            final(self).pointer == old(self).pointer,
            final(self).pressed_buttons == old(self).pressed_buttons,
    {
        self.aspects = WindowAspects::new(width, height);
    }

    /// Sets the pointer's baseline position. Emits nothing; a touch target
    /// has no pointer and is left as it is.
    pub fn init_mouse_position(&mut self, p: (i64, i64))
        requires
            old(self).wf(),
        ensures
            final(self).wf(),
            final(self).aspects == old(self).aspects,
            final(self).pressed_buttons == old(self).pressed_buttons,
            old(self).pointer is Touch ==> final(self).pointer == old(self).pointer,
            old(self).pointer is Mouse ==> final(self).pointer == Pointer::Mouse(
                PointerState { position: p, normalized_position: normalized(old(self).aspects, p.0, p.1) },
            ),
    {
        let nrm = self.aspects.normalize(p.0, p.1);
        match &mut self.pointer {
            Pointer::Mouse(m) => {
                m.position = p;
                m.normalized_position = nrm;
            },
            Pointer::Touch(_) => {},
        }
    }

    /// Moves the pointer to `cur` and emits the move, with its delta against
    /// the stored position. A touch target has no pointer: nothing happens.
    pub fn set_mouse_position(&mut self, ids: &mut EventIds, cur: (i64, i64)) -> (r: Option<Event>)
        requires
            old(self).wf(),
            old(ids).next_id() < u64::MAX,
        ensures
            final(self).wf(),
            final(self).aspects == old(self).aspects,
            final(self).pressed_buttons == old(self).pressed_buttons,
            old(self).pointer is Touch ==> {
                &&& final(self).pointer == old(self).pointer
                &&& issued(r, None, *old(ids), *final(ids))
            },
            old(self).pointer is Mouse ==> {
                &&& final(self).pointer == Pointer::Mouse(
                    PointerState {
                        position: cur,
                        normalized_position: normalized(old(self).aspects, cur.0, cur.1),
                    },
                )
                &&& issued(
                    r,
                    Some(mouse_move(old(self).aspects, old(self).pointer->Mouse_0, cur)),
                    *old(ids),
                    *final(ids),
                )
            },
    {
        let nrm = self.aspects.normalize(cur.0, cur.1);
        match &mut self.pointer {
            Pointer::Mouse(m) => {
                let d = Data::Move(
                    Move::Mouse {
                        previous: m.position,
                        current: cur,
                        delta: (
                            cur.0 as i128 - m.position.0 as i128,
                            cur.1 as i128 - m.position.1 as i128,
                        ),
                        normalized_previous: m.normalized_position,
                        normalized_current: nrm,
                        normalized_delta: (nrm.0.minus(&m.normalized_position.0), nrm.1.minus(&m.normalized_position.1)),
                    },
                );
                m.position = cur;
                m.normalized_position = nrm;
                Some(Event::new(ids, d))
            },
            Pointer::Touch(_) => None,
        }
    }

    /// A finger touches at `(x, y)`: its state starts afresh, replacing any
    /// stale one, and a press is emitted. A target without fingers does
    /// nothing.
    pub fn finger_down(&mut self, ids: &mut EventIds, x: i64, y: i64, index: FingerIndexType) -> (r:
        Option<Event>)
        requires
            old(self).wf(),
            old(ids).next_id() < u64::MAX,
        ensures
            final(self).wf(),
            final(self).aspects == old(self).aspects,
            final(self).pressed_buttons == old(self).pressed_buttons,
            old(self).pointer is Mouse ==> {
                &&& final(self).pointer == old(self).pointer
                &&& issued(r, None, *old(ids), *final(ids))
            },
            old(self).pointer is Touch ==> {
                &&& final(self).pointer is Touch
                &&& final(self).pointer->Touch_0@ == old(self).pointer->Touch_0@.insert(
                    index,
                    fresh_finger(old(self).aspects, x, y),
                )
                &&& issued(
                    r,
                    Some(raw_touch(old(self).aspects, index, TouchAction::Press, x, y)),
                    *old(ids),
                    *final(ids),
                )
            },
    {
        let nrm = self.aspects.normalize(x, y);
        match &mut self.pointer {
            Pointer::Touch(fingers) => {
                fingers.insert(index, TouchState { position: (x, y), normalized_position: nrm, hard_pressed: false });
                let d = Data::Touch(
                    Touch::Raw { index, action: TouchAction::Press, point: (x, y), normalized_point: nrm },
                );
                Some(Event::new(ids, d))
            },
            Pointer::Mouse(_) => None,
        }
    }

    /// A finger leaves at `(x, y)`: its state is dropped and a release is
    /// emitted. A target without fingers does nothing.
    pub fn finger_up(&mut self, ids: &mut EventIds, x: i64, y: i64, index: FingerIndexType) -> (r:
        Option<Event>)
        requires
            old(self).wf(),
            old(ids).next_id() < u64::MAX,
        ensures
            final(self).wf(),
            final(self).aspects == old(self).aspects,
            final(self).pressed_buttons == old(self).pressed_buttons,
            old(self).pointer is Mouse ==> {
                &&& final(self).pointer == old(self).pointer
                &&& issued(r, None, *old(ids), *final(ids))
            },
            old(self).pointer is Touch ==> {
                &&& final(self).pointer is Touch
                &&& final(self).pointer->Touch_0@ == old(self).pointer->Touch_0@.remove(index)
                &&& issued(
                    r,
                    Some(raw_touch(old(self).aspects, index, TouchAction::Release, x, y)),
                    *old(ids),
                    *final(ids),
                )
            },
    {
        let nrm = self.aspects.normalize(x, y);
        match &mut self.pointer {
            Pointer::Touch(fingers) => {
                fingers.remove(&index);
                let d = Data::Touch(
                    Touch::Raw { index, action: TouchAction::Release, point: (x, y), normalized_point: nrm },
                );
                Some(Event::new(ids, d))
            },
            Pointer::Mouse(_) => None,
        }
    }

    /// A finger moves to `(x, y)`. A finger seen before emits the move, with
    /// its delta against the stored state; an unseen one only has its state
    /// created, and nothing is emitted. Either way the stored state becomes a
    /// fresh one at `(x, y)`. A target without fingers does nothing.
    pub fn finger_move(&mut self, ids: &mut EventIds, x: i64, y: i64, index: FingerIndexType) -> (r:
        Option<Event>)
        requires
            old(self).wf(),
            old(ids).next_id() < u64::MAX,
        ensures
            final(self).wf(),
            final(self).aspects == old(self).aspects,
            final(self).pressed_buttons == old(self).pressed_buttons,
            old(self).pointer is Mouse ==> {
                &&& final(self).pointer == old(self).pointer
                &&& issued(r, None, *old(ids), *final(ids))
            },
            old(self).pointer is Touch ==> {
                &&& final(self).pointer is Touch
                &&& final(self).pointer->Touch_0@ == old(self).pointer->Touch_0@.insert(
                    index,
                    fresh_finger(old(self).aspects, x, y),
                )
                &&& issued(
                    r,
                    if old(self).pointer->Touch_0@.contains_key(index) {
                        Some(
                            finger_moved(
                                old(self).aspects,
                                index,
                                old(self).pointer->Touch_0@[index],
                                x,
                                y,
                            ),
                        )
                    } else {
                        None
                    },
                    *old(ids),
                    *final(ids),
                )
            },
    {
        let nrm = self.aspects.normalize(x, y);
        match &mut self.pointer {
            Pointer::Touch(fingers) => {
                let seen = match fingers.get(&index) {
                    Some(t) => Some(*t),
                    None => None,
                };
                fingers.insert(index, TouchState { position: (x, y), normalized_position: nrm, hard_pressed: false });
                match seen {
                    Some(t) => {
                        let d = Data::Move(
                            Move::Touch {
                                index,
                                previous: t.position,
                                current: (x, y),
                                delta: (x as i128 - t.position.0 as i128, y as i128 - t.position.1 as i128),
                                normalized_previous: t.normalized_position,
                                normalized_current: nrm,
                                normalized_delta: (nrm.0.minus(&t.normalized_position.0), nrm.1.minus(&t.normalized_position.1)),
                            },
                        );
                        Some(Event::new(ids, d))
                    },
                    None => None,
                }
            },
            Pointer::Mouse(_) => None,
        }
    }

    /// Where `b` stands among the pressed buttons, if anywhere.
    fn find_pressed(&self, b: &Button) -> (r: Option<usize>)
        ensures
            match r {
                Some(i) => i < self.pressed_buttons@.len() && self.pressed_buttons@[i as int] == *b,
                None => !self.pressed_buttons@.contains(*b),
            },
    {
        let mut i: usize = 0;
        while i < self.pressed_buttons.len()
            invariant
                i <= self.pressed_buttons@.len(),
                forall|j: int| 0 <= j < i ==> self.pressed_buttons@[j] != *b,
            decreases self.pressed_buttons@.len() - i,
        {
            if self.pressed_buttons[i] == *b {
                return Some(i);
            }
            i = i + 1;
        }
        None
    }

    /// Button `b` goes down: it joins the pressed set and a press is emitted.
    pub fn button_pressed(&mut self, ids: &mut EventIds, b: Button) -> (r: Event)
        requires
            old(self).wf(),
            old(ids).next_id() < u64::MAX,
        ensures
            final(self).wf(),
            final(self).aspects == old(self).aspects,
            final(self).pointer == old(self).pointer,
            final(self).pressed() == old(self).pressed().insert(b),
            issued_one(r, Data::Button { button: b, action: ButtonAction::Press }, *old(ids), *final(ids)),
    {
        if self.find_pressed(&b).is_none() {
            self.pressed_buttons.push(b);
            proof {
                assert(self.pressed_buttons@ == old(self).pressed_buttons@.push(b));
                assert forall|i: int, j: int|
                    0 <= i < j < self.pressed_buttons@.len() implies self.pressed_buttons@[i]
                    != self.pressed_buttons@[j] by {
                    if j == self.pressed_buttons@.len() - 1 {
                        assert(old(self).pressed_buttons@.contains(self.pressed_buttons@[i]));
                    }
                }
                old(self).pressed_buttons@.lemma_push_to_set_commute(b);
            }
        } else {
            proof {
                assert(old(self).pressed().contains(b));
                assert(self.pressed() =~= old(self).pressed().insert(b));
            }
        }
        Event::new(ids, Data::Button { button: b, action: ButtonAction::Press })
    }

    /// Button `b` goes up: it leaves the pressed set and a release is emitted.
    pub fn button_released(&mut self, ids: &mut EventIds, b: Button) -> (r: Event)
        requires
            old(self).wf(),
            old(ids).next_id() < u64::MAX,
        ensures
            final(self).wf(),
            final(self).aspects == old(self).aspects,
            final(self).pointer == old(self).pointer,
            final(self).pressed() == old(self).pressed().remove(b),
            issued_one(r, Data::Button { button: b, action: ButtonAction::Release }, *old(ids), *final(ids)),
    {
        match self.find_pressed(&b) {
            Some(i) => {
                let ghost before = self.pressed_buttons@;
                self.pressed_buttons.remove(i);
                proof {
                    assert(self.pressed_buttons@ == before.remove(i as int));
                    before.unique_seq_to_set();
                    assert forall|x: Button| #[trigger] self.pressed().contains(x) <==> old(self).pressed().remove(b).contains(x) by {
                        if self.pressed_buttons@.contains(x) {
                            let k = choose|k: int| 0 <= k < self.pressed_buttons@.len() && self.pressed_buttons@[k] == x;
                            if k < i { assert(before[k] == x); } else { assert(before[k + 1] == x); }
                        }
                        if old(self).pressed().remove(b).contains(x) {
                            let k = choose|k: int| 0 <= k < before.len() && before[k] == x;
                            if k < i { assert(self.pressed_buttons@[k] == x); } else { assert(self.pressed_buttons@[k - 1] == x); }
                        }
                    }
                    assert(self.pressed() =~= old(self).pressed().remove(b));
                }
            },
            None => {
                proof {
                    assert(self.pressed() =~= old(self).pressed().remove(b));
                }
            },
        }
        Event::new(ids, Data::Button { button: b, action: ButtonAction::Release })
    }

    /// The window now measures `width` by `height`. A size that is not
    /// positive, or equals the stored one, is ignored; any other replaces the
    /// stored aspects and emits the change, with the old aspects as
    /// `previous`.
    pub fn window_size_changed(&mut self, ids: &mut EventIds, width: i64, height: i64) -> (r: Option<Event>)
        requires
            old(self).wf(),
            old(ids).next_id() < u64::MAX,
        ensures
            final(self).wf(),
            final(self).pointer == old(self).pointer,
            final(self).pressed_buttons == old(self).pressed_buttons,
            match size_change(old(self).aspects, width, height) {
                Some(c) => final(self).aspects == c.current,
                None => final(self).aspects == old(self).aspects,
            },
            issued(
                r,
                match size_change(old(self).aspects, width, height) {
                    Some(c) => Some(Data::Window(Window::SizeChange(c))),
                    None => None,
                },
                *old(ids),
                *final(ids),
            ),
    {
        if width <= 0 || height <= 0 {
            return None;
        }
        if width == self.aspects.width && height == self.aspects.height {
            return None;
        }
        let current = WindowAspects::new(width, height);
        let previous = self.aspects;
        let delta = AspectsDelta::between(&current, &previous);
        self.aspects = current;
        Some(Event::new(ids, Data::Window(Window::SizeChange(WindowSizeChange { current, previous, delta }))))
    }

    /// The user or the system asks the application to quit.
    pub fn quit(&self, ids: &mut EventIds) -> (r: Event)
        requires
            old(ids).next_id() < u64::MAX,
        ensures
            issued_one(r, Data::Quit, *old(ids), *final(ids)),
    {
        Event::new(ids, Data::Quit)
    }

    /// The window gains focus.
    pub fn window_focus(&self, ids: &mut EventIds) -> (r: Event)
        requires
            old(ids).next_id() < u64::MAX,
        ensures
            issued_one(r, Data::Window(Window::Focus), *old(ids), *final(ids)),
    {
        Event::new(ids, Data::Window(Window::Focus))
    }

    /// The window loses focus.
    pub fn window_unfocus(&self, ids: &mut EventIds) -> (r: Event)
        requires
            old(ids).next_id() < u64::MAX,
        ensures
            issued_one(r, Data::Window(Window::Unfocus), *old(ids), *final(ids)),
    {
        Event::new(ids, Data::Window(Window::Unfocus))
    }
}

/// A size with a side that is not positive changes nothing and emits nothing.
pub proof fn lemma_non_positive_size_ignored(a: WindowAspects, width: i64, height: i64)
    requires
        width <= 0 || height <= 0,
    ensures
        size_change(a, width, height) is None,
{
}

/// Reporting the same size twice in a row emits at most once: the second
/// report finds the size already stored.
pub proof fn lemma_resize_idempotent(a: WindowAspects, width: i64, height: i64)
    ensures
        ({
            let stored = match size_change(a, width, height) {
                Some(c) => c.current,
                None => a,
            };
            size_change(stored, width, height) is None
        }),
{
}

/// The point at the window's full extent normalises to the origin.
pub proof fn lemma_extent_is_origin(a: WindowAspects)
    ensures
        normalized(a, a.width, a.height).0.num == 0,
        normalized(a, a.width, a.height).1.num == 0,
{
}

/// Under unchanged aspects the normalised delta of a move is always
/// computed, and is the pixel delta over the shorter side.
pub proof fn lemma_steady_delta_exact(a: WindowAspects, from: (i64, i64), to: (i64, i64))
    ensures
        point_diff(normalized(a, to.0, to.1), normalized(a, from.0, from.1)) == (
            Some(Ratio { num: (to.0 - from.0) as i128, den: a.smallest as i128 }),
            Some(Ratio { num: (to.1 - from.1) as i128, den: a.smallest as i128 }),
        ),
{
}

} // verus!

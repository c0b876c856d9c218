//! The decisions of the dispatch worker: what to hand to listeners, and when,
//! for each event taken from the queue or each quiet interval.

use vstd::prelude::*;
use crate::event::{delta_of, Data, Event, EventIds, Window, WindowSizeChange};

verus! {

/// How long the worker waits for an event before it hands out a pending
/// resize, in milliseconds.
pub const POLL_INTERVAL_MS: u64 = 100;

/// Whether `d` reports a window resize.
pub open spec fn is_resize(d: Data) -> bool {
    match d {
        Data::Window(Window::SizeChange(_)) => true,
        _ => false,
    }
}

/// A resize still being coalesced, `p`, followed by the sample `c`: the
/// size before the burst, and the latest one.
pub open spec fn merge(p: WindowSizeChange, c: WindowSizeChange) -> WindowSizeChange {
    WindowSizeChange { current: c.current, previous: p.previous, delta: delta_of(c.current, p.previous) }
}

/// The pending resize once the sample `c` has arrived.
pub open spec fn absorb(pending: Option<WindowSizeChange>, c: WindowSizeChange) -> WindowSizeChange {
    match pending {
        Some(p) => merge(p, c),
        None => c,
    }
}

/// What a pending resize hands out when it is flushed.
pub open spec fn flushed(pending: Option<WindowSizeChange>) -> Seq<Data> {
    match pending {
        Some(c) => seq![Data::Window(Window::SizeChange(c))],
        None => Seq::empty(),
    }
}

/// The pending resize after `input`; `None` as input is a quiet interval.
pub open spec fn after(pending: Option<WindowSizeChange>, input: Option<Data>) -> Option<WindowSizeChange> {
    match input {
        Some(Data::Window(Window::SizeChange(c))) => Some(absorb(pending, c)),
        _ => None,
    }
}

/// What is handed to listeners on `input`: a resize is held back; anything
/// else, a quiet interval or the stop signal first flushes the pending
/// resize, and an ordinary payload follows it.
pub open spec fn released(pending: Option<WindowSizeChange>, input: Option<Data>) -> Seq<Data> {
    match input {
        None => flushed(pending),
        Some(Data::Window(Window::SizeChange(_))) => Seq::empty(),
        Some(Data::Terminate) => flushed(pending),
        Some(d) => flushed(pending).push(d),
    }
}

/// The payload of an input, if it carries an event.
pub open spec fn payload(input: Option<Event>) -> Option<Data> {
    match input {
        Some(e) => Some(e.data()),
        None => None,
    }
}

/// The payloads of a sequence of events.
pub open spec fn payloads(s: Seq<Event>) -> Seq<Data> {
    s.map_values(|e: Event| e.data())
}

/// What a run of the worker over `inputs` hands out, starting from the
/// pending resize `pending`: the payloads in order, the resize left pending,
/// and whether it stopped. Nothing after the stop signal is looked at.
pub open spec fn run(pending: Option<WindowSizeChange>, inputs: Seq<Option<Data>>) -> (
    Seq<Data>,
    Option<WindowSizeChange>,
    bool,
)
    decreases inputs.len(),
{
    if inputs.len() == 0 {
        (Seq::empty(), pending, false)
    } else if inputs[0] == Some(Data::Terminate) {
        (released(pending, inputs[0]), None, true)
    } else {
        let rest = run(after(pending, inputs[0]), inputs.drop_first());
        (released(pending, inputs[0]) + rest.0, rest.1, rest.2)
    }
}

/// The inputs of a burst of resizes.
pub open spec fn burst(cs: Seq<WindowSizeChange>) -> Seq<Option<Data>> {
    cs.map_values(|c: WindowSizeChange| Some(Data::Window(Window::SizeChange(c))))
}

/// The pending resize after the samples `cs`, one after the other.
pub open spec fn absorb_all(pending: Option<WindowSizeChange>, cs: Seq<WindowSizeChange>) -> Option<
    WindowSizeChange,
>
    decreases cs.len(),
{
    if cs.len() == 0 {
        pending
    } else {
        absorb_all(Some(absorb(pending, cs[0])), cs.drop_first())
    }
}

/// The payloads of `s` other than resizes and the stop signal, in order.
pub open spec fn plain(s: Seq<Data>) -> Seq<Data>
    decreases s.len(),
{
    if s.len() == 0 {
        Seq::empty()
    } else if is_resize(s[0]) || s[0] == Data::Terminate {
        plain(s.drop_first())
    } else {
        seq![s[0]] + plain(s.drop_first())
    }
}

/// The payloads among `inputs` other than resizes and the stop signal, in
/// order.
pub open spec fn plain_inputs(inputs: Seq<Option<Data>>) -> Seq<Data>
    decreases inputs.len(),
{
    if inputs.len() == 0 {
        Seq::empty()
    } else {
        match inputs[0] {
            Some(d) => if is_resize(d) || d == Data::Terminate {
                plain_inputs(inputs.drop_first())
            } else {
                seq![d] + plain_inputs(inputs.drop_first())
            },
            None => plain_inputs(inputs.drop_first()),
        }
    }
}

proof fn lemma_run_burst(pending: Option<WindowSizeChange>, cs: Seq<WindowSizeChange>, rest: Seq<Option<Data>>)
    ensures
        run(pending, burst(cs) + rest) == run(absorb_all(pending, cs), rest),
    decreases cs.len(),
{
    if cs.len() == 0 {
        assert(burst(cs) + rest =~= rest);
    } else {
        let inputs = burst(cs) + rest;
        assert(inputs[0] == Some(Data::Window(Window::SizeChange(cs[0]))));
        assert(inputs.drop_first() =~= burst(cs.drop_first()) + rest);
        lemma_run_burst(Some(absorb(pending, cs[0])), cs.drop_first(), rest);
        let r = run(after(pending, inputs[0]), inputs.drop_first());
        assert(released(pending, inputs[0]) + r.0 =~= r.0);
    }
}

proof fn lemma_absorb_all(pending: Option<WindowSizeChange>, cs: Seq<WindowSizeChange>)
    requires
        cs.len() > 0,
        forall|i: int| 0 <= i < cs.len() ==> #[trigger] cs[i].consistent(),
    ensures
        ({
            let previous = match pending {
                Some(p) => p.previous,
                None => cs[0].previous,
            };
            absorb_all(pending, cs) == Some(
                WindowSizeChange {
                    current: cs.last().current,
                    previous,
                    delta: delta_of(cs.last().current, previous),
                },
            )
        }),
    decreases cs.len(),
{
    assert(cs[0].consistent());
    if cs.len() > 1 {
        let rest = cs.drop_first();
        assert forall|i: int| 0 <= i < rest.len() implies #[trigger] rest[i].consistent() by {
            assert(rest[i] == cs[i + 1]);
            assert(cs[i + 1].consistent());
        }
        lemma_absorb_all(Some(absorb(pending, cs[0])), rest);
    } else {
        assert(cs.drop_first().len() == 0);
    }
}

/// A burst of resizes followed by a quiet interval hands out exactly one
/// resize: from the size before the burst to the last sample, with the delta
/// between the two.
pub proof fn lemma_burst_coalesces(cs: Seq<WindowSizeChange>)
    requires
        cs.len() > 0,
        forall|i: int| 0 <= i < cs.len() ==> #[trigger] cs[i].consistent(),
    ensures
        run(None, burst(cs).push(None)).0 == seq![
            Data::Window(
                Window::SizeChange(
                    WindowSizeChange {
                        current: cs.last().current,
                        previous: cs[0].previous,
                        delta: delta_of(cs.last().current, cs[0].previous),
                    },
                ),
            ),
        ],
{
    assert(burst(cs).push(None) =~= burst(cs) + seq![None]);
    lemma_run_burst(None, cs, seq![None]);
    lemma_absorb_all(None, cs);
    let m = absorb_all(None, cs);
    let tail = seq![None::<Data>];
    assert(tail.drop_first() =~= Seq::<Option<Data>>::empty());
    assert(tail[0] == None::<Data>);
    let empty_run = run(after(m, tail[0]), Seq::<Option<Data>>::empty());
    assert(empty_run.0 == Seq::<Data>::empty());
    assert(run(m, tail).0 == flushed(m) + Seq::<Data>::empty());
    assert(flushed(m) + Seq::<Data>::empty() =~= flushed(m));
}

proof fn lemma_plain_add(a: Seq<Data>, b: Seq<Data>)
    ensures
        plain(a + b) == plain(a) + plain(b),
    decreases a.len(),
{
    if a.len() == 0 {
        assert(a + b =~= b);
        assert(plain(a) + plain(b) =~= plain(b));
    } else {
        assert((a + b).drop_first() =~= a.drop_first() + b);
        lemma_plain_add(a.drop_first(), b);
        assert((a + b)[0] == a[0]);
        if !(is_resize(a[0]) || a[0] == Data::Terminate) {
            assert(seq![a[0]] + (plain(a.drop_first()) + plain(b)) =~= (seq![a[0]] + plain(
                a.drop_first(),
            )) + plain(b));
        }
    }
}

proof fn lemma_plain_released(pending: Option<WindowSizeChange>, x: Option<Data>)
    requires
        x != Some(Data::Terminate),
    ensures
        plain(released(pending, x)) == plain_inputs(seq![x]),
{
    let f = flushed(pending);
    assert(plain(Seq::<Data>::empty()) == Seq::<Data>::empty());
    assert(plain_inputs(Seq::<Option<Data>>::empty()) == Seq::<Data>::empty());
    assert(plain(f) == Seq::<Data>::empty()) by {
        if f.len() > 0 {
            assert(f.drop_first() =~= Seq::<Data>::empty());
            assert(is_resize(f[0]));
        }
    }
    assert(seq![x].drop_first() =~= Seq::<Option<Data>>::empty());
    match x {
        Some(d) => {
            if !is_resize(d) {
                let one = seq![d];
                assert(one.drop_first() =~= Seq::<Data>::empty());
                assert(plain(one) =~= seq![d]);
                lemma_plain_add(f, one);
                assert(f.push(d) =~= f + one);
                assert(Seq::<Data>::empty() + seq![d] =~= seq![d]);
                assert(seq![d] + Seq::<Data>::empty() =~= seq![d]);
            } else {
                assert(plain(Seq::<Data>::empty()) == Seq::<Data>::empty());
            }
        },
        None => {},
    }
}

/// Once the stop signal is taken, the worker stops with nothing left
/// pending: every payload queued before it has been handed out, in order,
/// the resizes among them coalesced and flushed, and nothing queued after it
/// is looked at.
pub proof fn lemma_teardown_drains(
    pending: Option<WindowSizeChange>,
    queued: Seq<Option<Data>>,
    later: Seq<Option<Data>>,
)
    requires
        forall|i: int| 0 <= i < queued.len() ==> queued[i] != Some(Data::Terminate),
    ensures
        ({
            let r = run(pending, queued + seq![Some(Data::Terminate)] + later);
            &&& r.2
            &&& r.1 is None
            &&& r == run(pending, queued.push(Some(Data::Terminate)))
            &&& plain(r.0) == plain_inputs(queued)
        }),
    decreases queued.len(),
{
    let t = Some(Data::Terminate);
    assert(plain(Seq::<Data>::empty()) == Seq::<Data>::empty());
    assert(plain_inputs(Seq::<Option<Data>>::empty()) == Seq::<Data>::empty());
    let inputs = queued + seq![t] + later;
    let closed = queued.push(t);
    if queued.len() == 0 {
        assert(inputs[0] == t);
        assert(closed[0] == t);
        let f = flushed(pending);
        if f.len() > 0 {
            assert(f.drop_first() =~= Seq::<Data>::empty());
            assert(is_resize(f[0]));
        }
    } else {
        let x = queued[0];
        let rest = queued.drop_first();
        assert(inputs[0] == x);
        assert(closed[0] == x);
        assert(inputs.drop_first() =~= rest + seq![t] + later);
        assert(closed.drop_first() =~= rest.push(t));
        assert forall|i: int| 0 <= i < rest.len() implies rest[i] != Some(Data::Terminate) by {
            assert(rest[i] == queued[i + 1]);
        }
        lemma_teardown_drains(after(pending, x), rest, later);
        let r = run(after(pending, x), rest + seq![t] + later);
        lemma_plain_add(released(pending, x), r.0);
        lemma_plain_released(pending, x);
        assert(seq![x].drop_first() =~= Seq::<Option<Data>>::empty());
        match x {
            Some(d) => {
                if !(is_resize(d) || d == Data::Terminate) {
                    assert(plain_inputs(seq![x]) =~= seq![d]);
                } else {
                    assert(plain_inputs(seq![x]) == Seq::<Data>::empty());
                    assert(Seq::<Data>::empty() + plain_inputs(rest) =~= plain_inputs(rest));
                }
            },
            None => {
                assert(plain_inputs(seq![x]) == Seq::<Data>::empty());
                assert(Seq::<Data>::empty() + plain_inputs(rest) =~= plain_inputs(rest));
            },
        }
    }
}

/// Whether some payload of `s` is a resize.
pub open spec fn has_resize(s: Seq<Data>) -> bool {
    exists|k: int| 0 <= k < s.len() && is_resize(#[trigger] s[k])
}

/// Whether some input of `s` is a resize.
pub open spec fn has_resize_input(s: Seq<Option<Data>>) -> bool {
    exists|k: int| 0 <= k < s.len() && (#[trigger] s[k] matches Some(d) && is_resize(d))
}

/// A resize pending or queued before the stop signal is handed out, as part
/// of a coalesced resize, before the worker stops.
pub proof fn lemma_teardown_flushes_resizes(
    pending: Option<WindowSizeChange>,
    queued: Seq<Option<Data>>,
    later: Seq<Option<Data>>,
)
    requires
        forall|i: int| 0 <= i < queued.len() ==> queued[i] != Some(Data::Terminate),
        pending is Some || has_resize_input(queued),
    ensures
        has_resize(run(pending, queued + seq![Some(Data::Terminate)] + later).0),
    decreases queued.len(),
{
    let t = Some(Data::Terminate);
    let inputs = queued + seq![t] + later;
    if queued.len() == 0 {
        assert(inputs[0] == t);
        let f = flushed(pending);
        assert(is_resize(f[0]));
        assert(run(pending, inputs).0 == f);
    } else {
        let x = queued[0];
        let rest = queued.drop_first();
        assert(inputs[0] == x);
        assert(inputs.drop_first() =~= rest + seq![t] + later);
        let out = released(pending, x);
        let r = run(after(pending, x), rest + seq![t] + later);
        assert(run(pending, inputs).0 == out + r.0);
        let x_resize = x matches Some(d) && is_resize(d);
        if pending is Some && !x_resize {
            assert(is_resize(out[0]));
            assert((out + r.0)[0] == out[0]);
        } else {
            assert forall|i: int| 0 <= i < rest.len() implies rest[i] != Some(Data::Terminate) by {
                assert(rest[i] == queued[i + 1]);
            }
            if !x_resize {
                let k = choose|k: int| 0 <= k < queued.len() && (#[trigger] queued[k] matches Some(d) && is_resize(d));
                assert(k != 0);
                assert(rest[k - 1] == queued[k]);
                assert(has_resize_input(rest));
            } else {
                assert(after(pending, x) is Some);
            }
            lemma_teardown_flushes_resizes(after(pending, x), rest, later);
            let k = choose|k: int| 0 <= k < r.0.len() && is_resize(#[trigger] r.0[k]);
            assert((out + r.0)[out.len() + k] == r.0[k]);
        }
    }
}

/// An ordinary payload taken from the queue is handed out once, last, after
/// at most the flushed resize.
pub proof fn lemma_signal_passes_once(pending: Option<WindowSizeChange>, d: Data)
    requires
        !is_resize(d),
        d != Data::Terminate,
    ensures
        released(pending, Some(d)).last() == d,
        forall|k: int|
            0 <= k < released(pending, Some(d)).len() - 1 ==> released(pending, Some(d))[k] != d,
{
}

/// The worker's state between two steps.
pub struct Worker {
    pending: Option<WindowSizeChange>,
}

/// What one step asks for: the events to hand to listeners, in order, and
/// whether the worker stops after them.
pub struct Step {
    pub deliver: Vec<Event>,
    pub stop: bool,
}

impl Worker {
    /// The resize being coalesced, if any.
    pub closed spec fn pending(&self) -> Option<WindowSizeChange> {
        self.pending
    }

    /// A worker with nothing pending.
    pub fn new() -> (r: Worker)
        ensures
            r.pending() is None,
    {
        Worker { pending: None }
    }

    /// Takes one input: an event from the queue, or `None` when the poll
    /// interval passed without one. A resize is coalesced into the pending
    /// one; anything else first hands out the pending resize as a new event,
    /// then the event itself. The stop signal is never handed out.
    pub fn step(&mut self, ids: &mut EventIds, input: Option<Event>) -> (r: Step)
        requires
            old(ids).next_id() < u64::MAX,
        ensures
            final(self).pending() == after(old(self).pending(), payload(input)),
            payloads(r.deliver@) == released(old(self).pending(), payload(input)),
            r.deliver@.len() == released(old(self).pending(), payload(input)).len(),
            r.stop == (payload(input) == Some(Data::Terminate)),
            old(self).pending() is Some && !(payload(input) is Some && is_resize(payload(input)->0)) ==> {
                &&& r.deliver@[0].id() == old(ids).next_id()
                &&& final(ids).next_id() == old(ids).next_id() + 1
            },
            old(self).pending() is None || (payload(input) is Some && is_resize(payload(input)->0))
                ==> final(ids).next_id() == old(ids).next_id(),
            match input {
                Some(e) => !is_resize(e.data()) && e.data() != Data::Terminate ==> r.deliver@.last() == e,
                None => true,
            },
    {
        let mut deliver: Vec<Event> = Vec::new();
        match input {
            Some(e) => {
                let resize = match e.get_data() {
                    Data::Window(Window::SizeChange(c)) => Some(*c),
                    _ => None,
                };
                match resize {
                    Some(c) => {
                        let merged = match self.pending {
                            Some(p) => WindowSizeChange {
                                current: c.current,
                                previous: p.previous,
                                delta: crate::event::AspectsDelta::between(&c.current, &p.previous),
                            },
                            None => c,
                        };
                        self.pending = Some(merged);
                        proof {
                            assert(payloads(deliver@) =~= Seq::<Data>::empty());
                        }
                        Step { deliver, stop: false }
                    },
                    None => {
                        let stop = match e.get_data() {
                            Data::Terminate => true,
                            _ => false,
                        };
                        self.flush(ids, &mut deliver);
                        if !stop {
                            deliver.push(e);
                        }
                        proof {
                            assert(payloads(deliver@) =~= released(old(self).pending(), payload(input)));
                        }
                        Step { deliver, stop }
                    },
                }
            },
            None => {
                self.flush(ids, &mut deliver);
                Step { deliver, stop: false }
            },
        }
    }

    /// Appends the pending resize, as a new event, to `out`, and clears it.
    fn flush(&mut self, ids: &mut EventIds, out: &mut Vec<Event>)
        requires
            old(ids).next_id() < u64::MAX,
            old(out)@.len() == 0,
        ensures
            final(self).pending() is None,
            payloads(final(out)@) == flushed(old(self).pending()),
            old(self).pending() is Some ==> {
                &&& final(out)@[0].id() == old(ids).next_id()
                &&& final(ids).next_id() == old(ids).next_id() + 1
            },
            old(self).pending() is None ==> final(ids).next_id() == old(ids).next_id(),
    {
        match self.pending {
            Some(c) => {
                out.push(Event::new(ids, Data::Window(Window::SizeChange(c))));
                self.pending = None;
                proof {
                    assert(payloads(out@) =~= flushed(old(self).pending()));
                }
            },
            None => {
                proof {
                    assert(payloads(out@) =~= flushed(old(self).pending()));
                }
            },
        }
    }
}

} // verus!

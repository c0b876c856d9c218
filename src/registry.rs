//! The listener registry: non-owning handles to listeners, ordered by
//! priority, and delivery of one event through them.

use vstd::prelude::*;
use crate::event::{Data, Event};

verus! {

/// Application code that reacts to events.
pub trait Listener {
    /// Reacts to `event`; `true` means it is consumed and goes no further.
    fn on_event(&mut self, event: &Event) -> bool;
}

/// A non-owning handle to a listener, whose owner may drop it at any time.
pub trait ListenerHandle {
    /// That handing `event` to this handle's listener came back with `r`:
    /// `None` when the listener is gone, else whether it consumed the event.
    spec fn reports(&self, event: Event, r: Option<bool>) -> bool;

    /// Whether the listener is still alive.
    fn is_live(&self) -> bool;

    /// Hands `event` to the listener: `None` when it is gone, else whether it
    /// consumed the event.
    fn deliver(&self, event: &Event) -> (r: Option<bool>)
        ensures
            self.reports(*event, r),
    ;
}

/// One registration: a handle and its priority.
pub struct Entry<H> {
    pub priority: i64,
    pub handle: H,
}

/// Priorities never decrease along `s`.
pub open spec fn ordered<H>(s: Seq<Entry<H>>) -> bool {
    forall|i: int, j: int| 0 <= i < j < s.len() ==> s[i].priority <= s[j].priority
}

/// Whether `k` splits `s` into the entries of priority at most `p` and those
/// above it.
pub open spec fn splits_at<H>(s: Seq<Entry<H>>, k: int, p: i64) -> bool {
    &&& 0 <= k <= s.len()
    &&& forall|i: int| 0 <= i < k ==> s[i].priority <= p
    &&& forall|i: int| k <= i < s.len() ==> s[i].priority > p
}

/// Where an entry of priority `p` goes: after every entry of priority at most
/// `p`, before every entry above it.
pub open spec fn insertion_point<H>(s: Seq<Entry<H>>, p: i64) -> int {
    choose|k: int| splits_at(s, k, p)
}

/// `kept` is `s` without the entries whose flag in `keep` is false, in order.
pub open spec fn retained<H>(s: Seq<Entry<H>>, keep: Seq<bool>) -> Seq<Entry<H>>
    decreases s.len(),
{
    if s.len() == 0 || keep.len() == 0 {
        Seq::empty()
    } else {
        let rest = retained(s.drop_last(), keep.drop_last());
        if keep.last() { rest.push(s.last()) } else { rest }
    }
}

/// The shape of the outcomes of one delivery through `n` entries: no more
/// outcomes than entries; every outcome but the last leaves the event
/// unconsumed; and fewer outcomes than entries only when the last one
/// consumed it.
pub open spec fn delivery(n: nat, outcomes: Seq<Option<bool>>) -> bool {
    &&& outcomes.len() <= n
    &&& forall|k: int| 0 <= k < outcomes.len() - 1 ==> outcomes[k] != Some(true)
    &&& outcomes.len() < n ==> outcomes.len() > 0 && outcomes.last() == Some(true)
}

/// Listener handles by ascending priority; equal priorities in the order of
/// registration.
pub struct Registry<H> {
    entries: Vec<Entry<H>>,
}

impl<H> View for Registry<H> {
    type V = Seq<Entry<H>>;

    closed spec fn view(&self) -> Seq<Entry<H>> {
        self.entries@
    }
}

impl<H: ListenerHandle> Registry<H> {
    /// An empty registry.
    pub fn new() -> (r: Registry<H>)
        ensures
            r@ == Seq::<Entry<H>>::empty(),
    {
        Registry { entries: Vec::new() }
    }

    /// Registers `handle` at `priority`, after every handle of the same
    /// priority.
    pub fn add(&mut self, priority: i64, handle: H)
        requires
            ordered(old(self)@),
        ensures
            ordered(final(self)@),
            splits_at(old(self)@, insertion_point(old(self)@, priority), priority),
            final(self)@ == old(self)@.insert(
                insertion_point(old(self)@, priority),
                Entry { priority, handle },
            ),
    {
        let mut k: usize = self.entries.len();
        while k > 0 && self.entries[k - 1].priority > priority
            invariant
                k <= self.entries@.len(),
                self.entries@ == old(self)@,
                ordered(self.entries@),
                forall|i: int| k <= i < self.entries@.len() ==> self.entries@[i].priority > priority,
            decreases k,
        {
            k = k - 1;
        }
        proof {
            let s = old(self)@;
            assert(splits_at(s, k as int, priority));
            assert forall|j: int| splits_at(s, j, priority) implies j == k as int by {
                if j < k {
                    assert(s[j].priority > priority);
                } else if j > k {
                    assert(s[k as int].priority <= priority);
                }
            }
            assert(insertion_point(s, priority) == k as int);
        }
        self.entries.insert(k, Entry { priority, handle });
        proof {
            let s = old(self)@;
            let t = self.entries@;
            assert forall|i: int, j: int| 0 <= i < j < t.len() implies t[i].priority
                <= t[j].priority by {
                if i < k && j > k {
                    assert(t[j] == s[j - 1]);
                }
                if i > k {
                    assert(t[i] == s[i - 1] && t[j] == s[j - 1]);
                }
                if i < k && j < k {
                    assert(t[i] == s[i] && t[j] == s[j]);
                }
            }
        }
    }

    /// Keeps the entries whose flag in `keep` is true, in their order.
    pub fn retain_marked(&mut self, keep: &Vec<bool>)
        requires
            ordered(old(self)@),
            keep@.len() == old(self)@.len(),
        ensures
            ordered(final(self)@),
            final(self)@ == retained(old(self)@, keep@),
    {
        let ghost s = self.entries@;
        let mut rest: Vec<Entry<H>> = Vec::new();
        std::mem::swap(&mut rest, &mut self.entries);
        let mut kept: Vec<Entry<H>> = Vec::new();
        let mut i: usize = 0;
        while i < keep.len()
            invariant
                i <= s.len(),
                keep@.len() == s.len(),
                rest@ == s.skip(i as int),
                ordered(s),
                ordered(kept@),
                kept@ == retained(s.take(i as int), keep@.take(i as int)),
                forall|a: int, j: int|
                    0 <= a < kept@.len() && i <= j < s.len() ==> kept@[a].priority <= s[j].priority,
            decreases s.len() - i,
        {
            let e = rest.remove(0);
            proof {
                assert(e == s[i as int]);
                assert(s.take(i as int + 1).drop_last() == s.take(i as int));
                assert(keep@.take(i as int + 1).drop_last() == keep@.take(i as int));
                assert(s.skip(i as int + 1) == s.skip(i as int).drop_first());
            }
            if keep[i] {
                kept.push(e);
            }
            i = i + 1;
        }
        proof {
            assert(s.take(s.len() as int) == s);
            assert(keep@.take(s.len() as int) == keep@);
        }
        self.entries = kept;
    }

    /// Drops the entries whose listener is gone. Delivery never does this by
    /// itself: until a call of this, dead entries stay and are skipped.
    pub fn clean(&mut self)
        requires
            ordered(old(self)@),
        ensures
            ordered(final(self)@),
            exists|keep: Seq<bool>|
                keep.len() == old(self)@.len() && final(self)@ == retained(old(self)@, keep),
    {
        let mut keep: Vec<bool> = Vec::new();
        let mut i: usize = 0;
        while i < self.entries.len()
            invariant
                i <= self.entries@.len(),
                keep@.len() == i,
            decreases self.entries@.len() - i,
        {
            keep.push(self.entries[i].handle.is_live());
            i = i + 1;
        }
        self.retain_marked(&keep);
    }

    /// Hands `event` to the listeners by ascending priority, registration
    /// order within a priority, and stops at the first that consumes it.
    /// Gone listeners are skipped. The result holds what each entry reported,
    /// in order, up to where delivery stopped.
    pub fn dispatch(&self, event: &Event) -> (outcomes: Vec<Option<bool>>)
        requires
            !(event.data() is Terminate),
        ensures
            delivery(self@.len(), outcomes@),
            forall|k: int|
                0 <= k < outcomes@.len() ==> self@[k].handle.reports(*event, #[trigger] outcomes@[k]),
    {
        let mut outcomes: Vec<Option<bool>> = Vec::new();
        let mut i: usize = 0;
        while i < self.entries.len()
            invariant
                i <= self.entries@.len(),
                outcomes@.len() == i,
                forall|k: int| 0 <= k < i ==> outcomes@[k] != Some(true),
                forall|k: int|
                    0 <= k < i ==> self.entries@[k].handle.reports(*event, #[trigger] outcomes@[k]),
            decreases self.entries@.len() - i,
        {
            let o = self.entries[i].handle.deliver(event);
            outcomes.push(o);
            if o == Some(true) {
                return outcomes;
            }
            i = i + 1;
        }
        outcomes
    }
}

/// Once a listener consumes an event, no later entry, at any priority, is
/// handed it; while none consumes it, the next entry is.
pub proof fn lemma_consumption_stops(n: nat, outcomes: Seq<Option<bool>>)
    requires
        delivery(n, outcomes),
    ensures
        forall|k: int| 0 <= k < outcomes.len() && outcomes[k] == Some(true) ==> k == outcomes.len() - 1,
        forall|k: int|
            0 <= k < outcomes.len() && outcomes[k] != Some(true) && k + 1 < n ==> k + 1 < outcomes.len(),
{
}

} // verus!

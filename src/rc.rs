//! Shared ownership of a payload through counted handles.

use crate::cell::Cell;
use vstd::prelude::*;

verus! {

/// The shared record behind [`Rc`] and [`Weak`] handles.
///
/// `strong` counts the live strong handles. `weak` counts the live weak
/// handles, plus one while any strong handle lives: the strong handles hold
/// that one together and give it back when the last of them goes. The payload
/// is dropped when `strong` falls to zero; the record is freed when `weak`
/// falls to zero, and must not be used after that.
pub struct RcBox<T> {
    strong: Cell<usize>,
    weak: Cell<usize>,
    value: Option<T>,
}

/// A strong handle: it keeps the payload of its [`RcBox`] alive.
pub struct Rc<T> {
    phantom: std::marker::PhantomData<T>,
}

/// A weak handle: it keeps its [`RcBox`] allocated but not the payload. A weak
/// handle made by [`Weak::new`] belongs to no box.
pub struct Weak<T> {
    dangling: bool,
    phantom: std::marker::PhantomData<T>,
}

/// One operation on the handles of an [`RcBox`].
pub enum RcEvent {
    /// A strong handle is cloned.
    Clone,
    /// A weak handle is made from a strong one, or a weak handle is cloned.
    Downgrade,
    /// A weak handle asks for a strong one.
    Upgrade,
    /// A strong handle ends.
    Release,
    /// A weak handle ends.
    ReleaseWeak,
}

/// How `e` changes the counts `(strong, weak, payload is there)` of a record.
pub open spec fn rc_step(c: (nat, nat, bool), e: RcEvent) -> (nat, nat, bool) {
    let (s, w, p) = c;
    match e {
        RcEvent::Clone => (s + 1, w, p),
        RcEvent::Downgrade => (s, w + 1, p),
        RcEvent::Upgrade => if s > 0 {
            (s + 1, w, p)
        } else {
            c
        },
        RcEvent::Release => if s == 1 {
            (0, (w - 1) as nat, false)
        } else {
            ((s - 1) as nat, w, p)
        },
        RcEvent::ReleaseWeak => (s, (w - 1) as nat, p),
    }
}

/// The counts of a record after `events`, starting from those of a new one.
pub open spec fn counts_after(events: Seq<RcEvent>) -> (nat, nat, bool)
    decreases events.len(),
{
    if events.len() == 0 {
        (1, 1, true)
    } else {
        rc_step(counts_after(events.drop_last()), events.last())
    }
}

/// The live handles `(strong, weak)` after `events`, starting with the one
/// strong handle that a new record comes with. A refused upgrade hands out
/// nothing.
pub open spec fn handles_after(events: Seq<RcEvent>) -> (nat, nat)
    decreases events.len(),
{
    if events.len() == 0 {
        (1, 0)
    } else {
        let (hs, hw) = handles_after(events.drop_last());
        match events.last() {
            RcEvent::Clone => (hs + 1, hw),
            RcEvent::Downgrade => (hs, hw + 1),
            RcEvent::Upgrade => if hs > 0 {
                (hs + 1, hw)
            } else {
                (hs, hw)
            },
            RcEvent::Release => ((hs - 1) as nat, hw),
            RcEvent::ReleaseWeak => (hs, (hw - 1) as nat),
        }
    }
}

/// Each event is made through a handle that is live: a strong one for
/// `Clone`, `Release` and a downgrade, a weak one for `Upgrade` and
/// `ReleaseWeak`.
pub open spec fn handles_live(events: Seq<RcEvent>) -> bool
    decreases events.len(),
{
    if events.len() == 0 {
        true
    } else {
        let (hs, hw) = handles_after(events.drop_last());
        &&& handles_live(events.drop_last())
        &&& match events.last() {
            RcEvent::Clone => hs > 0,
            RcEvent::Downgrade => hs > 0 || hw > 0,
            RcEvent::Upgrade => hw > 0,
            RcEvent::Release => hs > 0,
            RcEvent::ReleaseWeak => hw > 0,
        }
    }
}

/// The number of events after which the payload was gone but had been there
/// before.
pub open spec fn payload_drops(events: Seq<RcEvent>) -> nat
    decreases events.len(),
{
    if events.len() == 0 {
        0
    } else {
        payload_drops(events.drop_last()) + if counts_after(events.drop_last()).2
            && !counts_after(events).2 {
            1nat
        } else {
            0nat
        }
    }
}

/// The number of events after which the weak count, and so the record's
/// allocation, fell to zero.
pub open spec fn frees(events: Seq<RcEvent>) -> nat
    decreases events.len(),
{
    if events.len() == 0 {
        0
    } else {
        frees(events.drop_last()) + if counts_after(events.drop_last()).1 > 0
            && counts_after(events).1 == 0 {
            1nat
        } else {
            0nat
        }
    }
}

/// The counts of a record always follow its live handles: `strong` is the
/// number of strong handles, `weak` the number of weak handles plus one
/// while a strong handle lives, and the payload is there exactly while a
/// strong handle lives.
pub proof fn lemma_counts_track_handles(events: Seq<RcEvent>)
    requires
        handles_live(events),
    ensures
        ({
            let (hs, hw) = handles_after(events);
            counts_after(events) == (hs, hw + if hs > 0 {
                1nat
            } else {
                0nat
            }, hs > 0)
        }),
    decreases events.len(),
{
    if events.len() > 0 {
        lemma_counts_track_handles(events.drop_last());
    }
}

/// The payload is dropped once, when the last strong handle ends, and never
/// before: after any run of operations it has been dropped once if no strong
/// handle lives and not at all otherwise.
pub proof fn lemma_payload_dropped_once(events: Seq<RcEvent>)
    requires
        handles_live(events),
    ensures
        payload_drops(events) == if handles_after(events).0 == 0 {
            1nat
        } else {
            0nat
        },
    decreases events.len(),
{
    lemma_counts_track_handles(events);
    if events.len() > 0 {
        lemma_payload_dropped_once(events.drop_last());
        lemma_counts_track_handles(events.drop_last());
    }
}

/// The record is freed once, when no handle of either kind is left, and
/// never before.
pub proof fn lemma_record_freed_once(events: Seq<RcEvent>)
    requires
        handles_live(events),
    ensures
        frees(events) == if handles_after(events) == (0nat, 0nat) {
            1nat
        } else {
            0nat
        },
    decreases events.len(),
{
    lemma_counts_track_handles(events);
    if events.len() > 0 {
        lemma_record_freed_once(events.drop_last());
        lemma_counts_track_handles(events.drop_last());
    }
}

/// A weak handle upgrades while a strong handle lives, and not once all
/// strong handles have ended.
pub proof fn lemma_upgrade_while_strong_lives(events: Seq<RcEvent>)
    requires
        handles_live(events),
        handles_after(events).1 > 0,
    ensures
        (counts_after(events).0 > 0) <==> (handles_after(events).0 > 0),
        rc_step(counts_after(events), RcEvent::Upgrade).0 > counts_after(events).0 <==> (
        handles_after(events).0 > 0),
{
    lemma_counts_track_handles(events);
}

impl<T> RcBox<T> {
    /// The number of live strong handles.
    pub closed spec fn strong(&self) -> nat {
        self.strong@ as nat
    }

    /// The number of live weak handles, plus one while `strong() > 0`.
    pub closed spec fn weak(&self) -> nat {
        self.weak@ as nat
    }

    /// The payload, or `None` once it has been dropped.
    pub closed spec fn payload(&self) -> Option<T> {
        self.value
    }

    /// The counts that the handle operations change: `(strong, weak, payload
    /// is there)`.
    pub open spec fn counts(&self) -> (nat, nat, bool) {
        (self.strong(), self.weak(), self.payload() is Some)
    }

    /// The number of live weak handles: `weak()` without the strong group's
    /// share.
    pub open spec fn weak_handles(&self) -> int {
        if self.strong() > 0 {
            self.weak() - 1
        } else {
            self.weak() as int
        }
    }

    /// The record is still allocated.
    pub open spec fn live(&self) -> bool {
        self.weak() > 0
    }

    /// The record's invariant: the payload is there exactly while a strong
    /// handle lives, and then the strong group holds its share of `weak`.
    pub open spec fn wf(&self) -> bool {
        &&& (self.strong() > 0 <==> self.payload() is Some)
        &&& (self.strong() > 0 ==> self.weak() >= 1)
    }
}

impl<T> Rc<T> {
    /// Moves `value` into a new record and returns the first strong handle
    /// on it with the record.
    pub fn new(value: T) -> (r: (Rc<T>, RcBox<T>))
        ensures
            r.1.wf(),
            r.1.strong() == 1,
            r.1.weak() == 1,
            r.1.payload() == Some(value),
            r.1.counts() == counts_after(Seq::empty()),
    {
        let record = RcBox { strong: Cell::new(1), weak: Cell::new(1), value: Some(value) };
        (Rc { phantom: std::marker::PhantomData }, record)
    }

    /// Makes another strong handle on the record. A strong count that would
    /// pass `usize::MAX` is ruled out by the precondition.
    pub fn clone(&self, record: &mut RcBox<T>) -> (r: Rc<T>)
        requires
            old(record).wf(),
            old(record).strong() >= 1,
            old(record).strong() < usize::MAX,
        ensures
            final(record).wf(),
            final(record).strong() == old(record).strong() + 1,
            final(record).weak() == old(record).weak(),
            final(record).payload() == old(record).payload(),
            final(record).counts() == rc_step(old(record).counts(), RcEvent::Clone),
    {
        let n = record.strong.get();
        record.strong.set(n + 1);
        Rc { phantom: std::marker::PhantomData }
    }

    /// Makes a weak handle on the record. A weak count that would pass
    /// `usize::MAX` is ruled out by the precondition.
    pub fn downgrade(&self, record: &mut RcBox<T>) -> (r: Weak<T>)
        requires
            old(record).wf(),
            old(record).strong() >= 1,
            old(record).weak() < usize::MAX,
        ensures
            !r.is_dangling(),
            final(record).wf(),
            final(record).strong() == old(record).strong(),
            final(record).weak() == old(record).weak() + 1,
            final(record).payload() == old(record).payload(),
            final(record).counts() == rc_step(old(record).counts(), RcEvent::Downgrade),
    {
        let n = record.weak.get();
        record.weak.set(n + 1);
        Weak { dangling: false, phantom: std::marker::PhantomData }
    }

    /// The number of live strong handles.
    pub fn strong_count(&self, record: &RcBox<T>) -> (r: usize)
        ensures
            r == record.strong(),
    {
        record.strong.get()
    }

    /// The number of live weak handles, without the strong group's share.
    pub fn weak_count(&self, record: &RcBox<T>) -> (r: usize)
        requires
            record.wf(),
            record.strong() >= 1,
        ensures
            r == record.weak() - 1,
    {
        record.weak.get() - 1
    }

    /// A shared reference to the payload.
    pub fn deref<'a>(&self, record: &'a RcBox<T>) -> (r: &'a T)
        requires
            record.wf(),
            record.strong() >= 1,
        ensures
            record.payload() == Some(*r),
    {
        record.value.as_ref().unwrap()
    }

    /// Returns the payload when this is the only strong handle, and the handle
    /// itself otherwise. On success the payload leaves the record and the
    /// strong group's share of `weak` is given back.
    pub fn try_unwrap(self, record: &mut RcBox<T>) -> (r: Result<T, Rc<T>>)
        requires
            old(record).wf(),
            old(record).strong() >= 1,
        ensures
            final(record).wf(),
            r is Ok <==> old(record).strong() == 1,
            r is Ok ==> {
                &&& Some(r->Ok_0) == old(record).payload()
                &&& final(record).strong() == 0
                &&& final(record).weak() == old(record).weak() - 1
                &&& final(record).payload() is None
            },
            r is Err ==> *final(record) == *old(record),
            r is Ok ==> final(record).counts() == rc_step(old(record).counts(), RcEvent::Release),
    {
        if record.strong.get() == 1 {
            record.strong.set(0);
            let w = record.weak.get();
            record.weak.set(w - 1);
            let mut taken: Option<T> = None;
            std::mem::swap(&mut record.value, &mut taken);
            match taken {
                Some(v) => Ok(v),
                None => Err(self),
            }
        } else {
            Err(self)
        }
    }

    /// An exclusive reference to the payload when this is the only handle of
    /// either kind, and `None` otherwise.
    pub fn get_mut<'a>(&self, record: &'a mut RcBox<T>) -> (r: Option<&'a mut T>)
        requires
            old(record).wf(),
            old(record).strong() >= 1,
        ensures
            r is Some <==> (old(record).strong() == 1 && old(record).weak() == 1),
            r is Some ==> {
                &&& old(record).payload() == Some(*r->Some_0)
                &&& final(record).payload() == Some(*final(r->Some_0))
                &&& final(record).strong() == old(record).strong()
                &&& final(record).weak() == old(record).weak()
            },
            r is None ==> *final(record) == *old(record),
            final(record).counts() == old(record).counts(),
    {
        if record.strong.get() == 1 && record.weak.get() == 1 {
            record.value.as_mut()
        } else {
            None
        }
    }

    /// Ends this strong handle. The last one drops the payload and gives back
    /// the strong group's share of `weak`; returns whether the record was
    /// freed, which happens when no weak handle is left either.
    pub fn release(self, record: &mut RcBox<T>) -> (freed: bool)
        requires
            old(record).wf(),
            old(record).strong() >= 1,
        ensures
            final(record).wf(),
            final(record).strong() == old(record).strong() - 1,
            final(record).payload() is None <==> old(record).strong() == 1,
            old(record).strong() > 1 ==> final(record).payload() == old(record).payload(),
            final(record).weak() == if old(record).strong() == 1 {
                old(record).weak() - 1
            } else {
                old(record).weak() as int
            },
            freed <==> !final(record).live(),
            final(record).counts() == rc_step(old(record).counts(), RcEvent::Release),
    {
        let n = record.strong.get();
        record.strong.set(n - 1);
        if n == 1 {
            record.value = None;
            let w = record.weak.get();
            record.weak.set(w - 1);
        }
        record.weak.get() == 0
    }
}

impl<T> Weak<T> {
    /// This handle belongs to no record.
    pub closed spec fn is_dangling(&self) -> bool {
        self.dangling
    }

    /// A weak handle that belongs to no record.
    pub fn new() -> (w: Weak<T>)
        ensures
            w.is_dangling(),
    {
        Weak { dangling: true, phantom: std::marker::PhantomData }
    }

    /// Makes another weak handle on the same record; a dangling handle is
    /// copied without touching the record. A weak count that would pass
    /// `usize::MAX` is ruled out by the precondition.
    pub fn clone(&self, record: &mut RcBox<T>) -> (r: Weak<T>)
        requires
            !self.is_dangling() ==> old(record).live() && old(record).weak() < usize::MAX,
        ensures
            r.is_dangling() == self.is_dangling(),
            final(record).strong() == old(record).strong(),
            final(record).payload() == old(record).payload(),
            final(record).weak() == if self.is_dangling() {
                old(record).weak() as int
            } else {
                old(record).weak() + 1 as int
            },
            !self.is_dangling() ==> final(record).counts() == rc_step(
                old(record).counts(),
                RcEvent::Downgrade,
            ),
    {
        if self.dangling {
            Weak::new()
        } else {
            let n = record.weak.get();
            record.weak.set(n + 1);
            Weak { dangling: false, phantom: std::marker::PhantomData }
        }
    }

    /// A new strong handle while the payload is alive, `None` once it has
    /// been dropped or when this handle is dangling. A strong count that would
    /// pass `usize::MAX` is ruled out by the precondition.
    pub fn upgrade(&self, record: &mut RcBox<T>) -> (r: Option<Rc<T>>)
        requires
            old(record).wf(),
            !self.is_dangling() ==> old(record).live() && old(record).strong() < usize::MAX,
        ensures
            final(record).wf(),
            r is Some <==> (!self.is_dangling() && old(record).strong() > 0),
            final(record).strong() == if r is Some {
                old(record).strong() + 1 as int
            } else {
                old(record).strong() as int
            },
            final(record).weak() == old(record).weak(),
            final(record).payload() == old(record).payload(),
            !self.is_dangling() ==> final(record).counts() == rc_step(
                old(record).counts(),
                RcEvent::Upgrade,
            ),
    {
        if self.dangling {
            return None;
        }
        let n = record.strong.get();
        if n == 0 {
            None
        } else {
            record.strong.set(n + 1);
            Some(Rc { phantom: std::marker::PhantomData })
        }
    }

    /// Ends this weak handle; returns whether the record was freed, which
    /// happens when this was the last count on it. A dangling handle leaves
    /// the record untouched.
    pub fn release(self, record: &mut RcBox<T>) -> (freed: bool)
        requires
            old(record).wf(),
            !self.is_dangling() ==> old(record).weak_handles() >= 1,
        ensures
            final(record).wf(),
            final(record).strong() == old(record).strong(),
            final(record).payload() == old(record).payload(),
            final(record).weak() == if self.is_dangling() {
                old(record).weak() as int
            } else {
                old(record).weak() - 1
            },
            freed <==> (!self.is_dangling() && !final(record).live()),
            !self.is_dangling() ==> final(record).counts() == rc_step(
                old(record).counts(),
                RcEvent::ReleaseWeak,
            ),
    {
        if self.dangling {
            return false;
        }
        let n = record.weak.get();
        record.weak.set(n - 1);
        n == 1
    }
}

} // verus!

//! A cell whose borrows are tracked at runtime.

use crate::cell::Cell;
use vstd::prelude::*;
use vstd::std_specs::cmp::{PartialEqSpec, PartialOrdSpec};
use vstd::std_specs::convert::FromSpec;

verus! {

/// How a [`RefCell`] is borrowed at the moment.
#[derive(Clone, Copy, Debug, PartialEq, Eq, Structural)]
pub enum BorrowState {
    /// `n` shared borrows are live; `n` is never zero.
    Shared(usize),
    /// No borrow is live.
    Idle,
    /// One exclusive borrow is live.
    Exclusive,
}

/// The state after a shared borrow is granted in state `s`.
pub open spec fn on_borrow(s: BorrowState) -> BorrowState {
    match s {
        BorrowState::Idle => BorrowState::Shared(1),
        BorrowState::Shared(n) => BorrowState::Shared((n + 1) as usize),
        BorrowState::Exclusive => BorrowState::Exclusive,
    }
}

/// The state after an exclusive borrow is granted in state `s`.
pub open spec fn on_borrow_mut(s: BorrowState) -> BorrowState {
    match s {
        BorrowState::Idle => BorrowState::Exclusive,
        _ => s,
    }
}

/// The state after a shared borrow is given back in state `s`.
pub open spec fn on_release(s: BorrowState) -> BorrowState {
    match s {
        BorrowState::Shared(n) => if n <= 1 {
            BorrowState::Idle
        } else {
            BorrowState::Shared((n - 1) as usize)
        },
        _ => s,
    }
}

/// The state after the exclusive borrow is given back in state `s`.
pub open spec fn on_release_mut(s: BorrowState) -> BorrowState {
    match s {
        BorrowState::Exclusive => BorrowState::Idle,
        _ => s,
    }
}

/// A shared borrow can be granted in state `s`.
pub open spec fn can_borrow(s: BorrowState) -> bool {
    !(s == BorrowState::Exclusive)
}

/// The count of shared borrows in state `s` has room for one more.
pub open spec fn has_room(s: BorrowState) -> bool {
    !(s == BorrowState::Shared(usize::MAX))
}

/// A state that the cell can be in: a shared state counts at least one borrow.
pub open spec fn state_wf(s: BorrowState) -> bool {
    !(s == BorrowState::Shared(0))
}

/// One request or release of a borrow on a [`RefCell`].
pub enum BorrowEvent {
    /// A shared borrow is requested.
    Borrow,
    /// An exclusive borrow is requested.
    BorrowMut,
    /// A shared borrow is given back.
    Release,
    /// The exclusive borrow is given back.
    ReleaseMut,
}

/// The state after event `e` in state `s`, as the cell's operations change it.
pub open spec fn step(s: BorrowState, e: BorrowEvent) -> BorrowState {
    match e {
        BorrowEvent::Borrow => on_borrow(s),
        BorrowEvent::BorrowMut => on_borrow_mut(s),
        BorrowEvent::Release => on_release(s),
        BorrowEvent::ReleaseMut => on_release_mut(s),
    }
}

/// The state after `events`, starting in state `s`.
pub open spec fn state_after(s: BorrowState, events: Seq<BorrowEvent>) -> BorrowState
    decreases events.len(),
{
    if events.len() == 0 {
        s
    } else {
        step(state_after(s, events.drop_last()), events.last())
    }
}

/// The guards live after `events` on a cell that started with none: the
/// number of shared guards, and whether the exclusive guard is live. A
/// request that is refused hands out no guard.
pub open spec fn guards_after(events: Seq<BorrowEvent>) -> (nat, bool)
    decreases events.len(),
{
    if events.len() == 0 {
        (0, false)
    } else {
        let (n, x) = guards_after(events.drop_last());
        match events.last() {
            BorrowEvent::Borrow => if x {
                (n, x)
            } else {
                (n + 1, x)
            },
            BorrowEvent::BorrowMut => if !x && n == 0 {
                (n, true)
            } else {
                (n, x)
            },
            BorrowEvent::Release => ((n - 1) as nat, x),
            BorrowEvent::ReleaseMut => (n, false),
        }
    }
}

/// Each release gives back a guard that is live, and the number of shared
/// guards never passes `usize::MAX`.
pub open spec fn well_nested(events: Seq<BorrowEvent>) -> bool
    decreases events.len(),
{
    if events.len() == 0 {
        true
    } else {
        let (n, x) = guards_after(events.drop_last());
        &&& well_nested(events.drop_last())
        &&& match events.last() {
            BorrowEvent::Borrow => n < usize::MAX,
            BorrowEvent::BorrowMut => true,
            BorrowEvent::Release => n > 0,
            BorrowEvent::ReleaseMut => x,
        }
    }
}

/// The state that the live guards `g` call for.
pub open spec fn state_of_guards(g: (nat, bool)) -> BorrowState {
    if g.1 {
        BorrowState::Exclusive
    } else if g.0 == 0 {
        BorrowState::Idle
    } else {
        BorrowState::Shared(g.0 as usize)
    }
}

/// The state of a cell that started unborrowed is always the one its live
/// guards call for: `Exclusive` exactly while the exclusive guard lives,
/// `Shared(n)` while `n > 0` shared guards live, and `Idle` when no guard is
/// live. It is never `Shared(0)`.
pub proof fn lemma_state_tracks_guards(events: Seq<BorrowEvent>)
    requires
        well_nested(events),
    ensures
        state_after(BorrowState::Idle, events) == state_of_guards(guards_after(events)),
        state_wf(state_after(BorrowState::Idle, events)),
        guards_after(events).1 ==> guards_after(events).0 == 0,
        guards_after(events).0 <= usize::MAX,
    decreases events.len(),
{
    if events.len() > 0 {
        lemma_state_tracks_guards(events.drop_last());
    }
}

/// Once every guard has been given back, a cell that started unborrowed is
/// `Idle` again.
pub proof fn lemma_idle_when_no_guard_lives(events: Seq<BorrowEvent>)
    requires
        well_nested(events),
        guards_after(events) == (0nat, false),
    ensures
        state_after(BorrowState::Idle, events) == BorrowState::Idle,
{
    lemma_state_tracks_guards(events);
}

/// Taking a shared borrow and giving it straight back leaves the state as
/// it was.
pub proof fn lemma_borrow_release_is_noop(s: BorrowState)
    requires
        state_wf(s),
        can_borrow(s),
        has_room(s),
    ensures
        on_release(on_borrow(s)) == s,
{
}

/// Giving back the last shared borrow leaves the cell `Idle`, never
/// `Shared(0)`; every release keeps the state one the cell can be in.
pub proof fn lemma_last_release_is_idle(s: BorrowState)
    requires
        state_wf(s),
        s is Shared,
    ensures
        state_wf(on_release(s)),
        s == BorrowState::Shared(1) ==> on_release(s) == BorrowState::Idle,
{
}

/// A shared borrow was refused because an exclusive borrow is live.
#[derive(Debug)]
pub struct BorrowError;

/// An exclusive borrow was refused because another borrow is live.
#[derive(Debug)]
pub struct BorrowMutError;

impl BorrowError {
    /// The message that describes the error.
    pub fn message(&self) -> (r: &'static str)
        ensures
            r@ == "already mutably borrowed"@,
    {
        let r = "already mutably borrowed";
        proof {
            reveal_strlit("already mutably borrowed");
        }
        r
    }
}

impl BorrowMutError {
    /// The message that describes the error.
    pub fn message(&self) -> (r: &'static str)
        ensures
            r@ == "already borrowed"@,
    {
        let r = "already borrowed";
        proof {
            reveal_strlit("already borrowed");
        }
        r
    }
}

/// A mutable memory location with borrows checked at runtime.
///
/// A borrow is a guard token ([`Ref`] or [`RefMut`]) that the cell hands out
/// and that is given back to the cell to end the borrow. The payload is read
/// or written through the token while it is live.
pub struct RefCell<T> {
    value: T,
    state: Cell<BorrowState>,
}

/// A live shared borrow of a [`RefCell`].
pub struct Ref {
    _token: (),
}

/// A live exclusive borrow of a [`RefCell`].
pub struct RefMut {
    _token: (),
}

impl<T> RefCell<T> {
    /// The payload.
    pub closed spec fn value(&self) -> T {
        self.value
    }

    /// The borrow state.
    pub closed spec fn state(&self) -> BorrowState {
        self.state@
    }

    /// The cell's invariant: its state is never a shared state of no borrow.
    pub open spec fn wf(&self) -> bool {
        state_wf(self.state())
    }

    /// Creates an unborrowed cell holding `value`.
    pub fn new(value: T) -> (c: Self)
        ensures
            c.wf(),
            c.value() == value,
            c.state() == BorrowState::Idle,
    {
        RefCell { value, state: Cell::new(BorrowState::Idle) }
    }

    /// Returns the current borrow state.
    pub fn borrow_state(&self) -> (r: BorrowState)
        ensures
            r == self.state(),
    {
        self.state.get()
    }

    /// Consumes an unborrowed cell and returns its payload.
    pub fn into_inner(self) -> (r: T)
        requires
            self.state() == BorrowState::Idle,
        ensures
            r == self.value(),
    {
        self.value
    }

    /// Takes a shared borrow, or fails when an exclusive borrow is live.
    pub fn try_borrow(&mut self) -> (r: Result<Ref, BorrowError>)
        requires
            old(self).wf(),
            has_room(old(self).state()),
        ensures
            final(self).wf(),
            final(self).value() == old(self).value(),
            r is Ok <==> can_borrow(old(self).state()),
            final(self).state() == on_borrow(old(self).state()),
    {
        match self.state.get() {
            BorrowState::Idle => {
                self.state.set(BorrowState::Shared(1));
                Ok(Ref { _token: () })
            },
            BorrowState::Shared(n) => {
                self.state.set(BorrowState::Shared(n + 1));
                Ok(Ref { _token: () })
            },
            BorrowState::Exclusive => Err(BorrowError),
        }
    }

    /// Takes a shared borrow; an exclusive borrow must not be live.
    pub fn borrow(&mut self) -> (r: Ref)
        requires
            old(self).wf(),
            can_borrow(old(self).state()),
            has_room(old(self).state()),
        ensures
            final(self).wf(),
            final(self).value() == old(self).value(),
            final(self).state() == on_borrow(old(self).state()),
    {
        self.try_borrow().expect("already mutably borrowed")
    }

    /// Takes the exclusive borrow, or fails when any borrow is live.
    pub fn try_borrow_mut(&mut self) -> (r: Result<RefMut, BorrowMutError>)
        requires
            old(self).wf(),
        ensures
            final(self).wf(),
            final(self).value() == old(self).value(),
            r is Ok <==> old(self).state() == BorrowState::Idle,
            final(self).state() == on_borrow_mut(old(self).state()),
    {
        match self.state.get() {
            BorrowState::Idle => {
                self.state.set(BorrowState::Exclusive);
                Ok(RefMut { _token: () })
            },
            _ => Err(BorrowMutError),
        }
    }

    /// Takes the exclusive borrow; no borrow may be live.
    pub fn borrow_mut(&mut self) -> (r: RefMut)
        requires
            old(self).wf(),
            old(self).state() == BorrowState::Idle,
        ensures
            final(self).wf(),
            final(self).value() == old(self).value(),
            final(self).state() == BorrowState::Exclusive,
    {
        self.try_borrow_mut().expect("already borrowed")
    }

    /// Stores `val` and returns the payload held before; no borrow may be live.
    pub fn replace(&mut self, val: T) -> (r: T)
        requires
            old(self).wf(),
            old(self).state() == BorrowState::Idle,
        ensures
            final(self).wf(),
            r == old(self).value(),
            final(self).value() == val,
            final(self).state() == BorrowState::Idle,
    {
        let mut val = val;
        let guard = self.borrow_mut();
        std::mem::swap(guard.deref_mut(self), &mut val);
        guard.release(self);
        val
    }

    /// Stores the value that `f` computes from the payload and returns the
    /// payload held before. The cell is exclusively borrowed while `f` runs;
    /// no borrow may be live when it is called.
    pub fn replace_with<F: FnOnce(&T) -> T>(&mut self, f: F) -> (r: T)
        requires
            old(self).wf(),
            old(self).state() == BorrowState::Idle,
            f.requires((&old(self).value(),)),
        ensures
            final(self).wf(),
            r == old(self).value(),
            f.ensures((&old(self).value(),), final(self).value()),
            final(self).state() == BorrowState::Idle,
    {
        let guard = self.borrow_mut();
        let slot = guard.deref_mut(self);
        let mut new_value = f(&*slot);
        std::mem::swap(slot, &mut new_value);
        guard.release(self);
        new_value
    }

    /// Exchanges the payloads of two cells; neither may be borrowed.
    pub fn swap(&mut self, other: &mut Self)
        requires
            old(self).wf(),
            old(other).wf(),
            old(self).state() == BorrowState::Idle,
            old(other).state() == BorrowState::Idle,
        ensures
            final(self).wf(),
            final(other).wf(),
            final(self).value() == old(other).value(),
            final(other).value() == old(self).value(),
            final(self).state() == BorrowState::Idle,
            final(other).state() == BorrowState::Idle,
    {
        let mine = self.borrow_mut();
        let theirs = other.borrow_mut();
        std::mem::swap(mine.deref_mut(self), theirs.deref_mut(other));
        mine.release(self);
        theirs.release(other);
    }

    /// Returns a reference to the payload's storage.
    pub fn as_ptr(&self) -> (r: &T)
        ensures
            *r == self.value(),
    {
        &self.value
    }

    /// Returns an exclusive reference to the payload. The exclusive handle
    /// on the cell already rules out other access, so no state is checked.
    pub fn get_mut(&mut self) -> (r: &mut T)
        ensures
            *r == old(self).value(),
            final(self).value() == *final(r),
            final(self).state() == old(self).state(),
    {
        &mut self.value
    }
}

impl Ref {
    /// Reads the payload of the cell this borrow was taken from.
    pub fn deref<'a, T>(&self, cell: &'a RefCell<T>) -> (r: &'a T)
        requires
            cell.state() is Shared,
        ensures
            *r == cell.value(),
    {
        &cell.value
    }

    /// Gives the shared borrow back to the cell it was taken from.
    pub fn release<T>(self, cell: &mut RefCell<T>)
        requires
            old(cell).wf(),
            old(cell).state() is Shared,
        ensures
            final(cell).wf(),
            final(cell).value() == old(cell).value(),
            final(cell).state() == on_release(old(cell).state()),
    {
        match cell.state.get() {
            BorrowState::Shared(n) => {
                if n == 1 {
                    cell.state.set(BorrowState::Idle);
                } else {
                    cell.state.set(BorrowState::Shared(n - 1));
                }
            },
            _ => {},
        }
    }
}

impl RefMut {
    /// Reads the payload of the cell this borrow was taken from.
    pub fn deref<'a, T>(&self, cell: &'a RefCell<T>) -> (r: &'a T)
        requires
            cell.state() == BorrowState::Exclusive,
        ensures
            *r == cell.value(),
    {
        &cell.value
    }

    /// Gives access to the payload of the cell this borrow was taken from;
    /// writes through the reference become the payload.
    pub fn deref_mut<'a, T>(&self, cell: &'a mut RefCell<T>) -> (r: &'a mut T)
        requires
            old(cell).state() == BorrowState::Exclusive,
        ensures
            *r == old(cell).value(),
            final(cell).value() == *final(r),
            final(cell).state() == old(cell).state(),
    {
        &mut cell.value
    }

    /// Gives the exclusive borrow back to the cell it was taken from.
    pub fn release<T>(self, cell: &mut RefCell<T>)
        requires
            old(cell).state() == BorrowState::Exclusive,
        ensures
            final(cell).wf(),
            final(cell).value() == old(cell).value(),
            final(cell).state() == on_release_mut(old(cell).state()),
    {
        match cell.state.get() {
            BorrowState::Exclusive => cell.state.set(BorrowState::Idle),
            _ => {},
        }
    }
}

impl<T: Default> RefCell<T> {
    /// Returns the payload and leaves `T::default()` in its place; no borrow
    /// may be live.
    pub fn take(&mut self) -> (r: T)
        requires
            old(self).wf(),
            old(self).state() == BorrowState::Idle,
        ensures
            final(self).wf(),
            r == old(self).value(),
            T::default.ensures((), final(self).value()),
            final(self).state() == BorrowState::Idle,
    {
        self.replace(T::default())
    }
}

impl<T: Default> Default for RefCell<T> {
    /// An unborrowed cell holding `T::default()`.
    fn default() -> (c: Self)
        ensures
            c.wf(),
            T::default.ensures((), c.value()),
            c.state() == BorrowState::Idle,
    {
        RefCell::new(T::default())
    }
}

impl<T: PartialEq + PartialEqSpec> PartialEq for RefCell<T> {
    /// Compares the payloads.
    fn eq(&self, other: &Self) -> (r: bool) {
        self.value.eq(&other.value)
    }
}

impl<T: PartialEq + PartialEqSpec> vstd::std_specs::cmp::PartialEqSpecImpl for RefCell<T> {
    open spec fn obeys_eq_spec() -> bool {
        T::obeys_eq_spec()
    }

    open spec fn eq_spec(&self, other: &Self) -> bool {
        self.value().eq_spec(&other.value())
    }
}

impl<T: PartialOrd + PartialOrdSpec + PartialEqSpec> PartialOrd for RefCell<T> {
    /// Compares the payloads.
    fn partial_cmp(&self, other: &Self) -> (r: Option<std::cmp::Ordering>) {
        self.value.partial_cmp(&other.value)
    }
}

impl<T: PartialOrd + PartialOrdSpec + PartialEqSpec> vstd::std_specs::cmp::PartialOrdSpecImpl for RefCell<T> {
    open spec fn obeys_partial_cmp_spec() -> bool {
        T::obeys_partial_cmp_spec()
    }

    open spec fn partial_cmp_spec(&self, other: &Self) -> Option<std::cmp::Ordering> {
        self.value().partial_cmp_spec(&other.value())
    }
}

impl<T: Clone> Clone for RefCell<T> {
    /// An unborrowed cell holding a clone of the payload.
    fn clone(&self) -> (c: Self)
        ensures
            c.wf(),
            cloned(self.value(), c.value()),
            c.state() == BorrowState::Idle,
    {
        RefCell::new(self.value.clone())
    }
}

impl<T> From<T> for RefCell<T> {
    /// An unborrowed cell holding `t`.
    fn from(t: T) -> (c: Self)
        ensures
            c.wf(),
            c.value() == t,
            c.state() == BorrowState::Idle,
    {
        RefCell { value: t, state: Cell::from(BorrowState::Idle) }
    }
}

impl<T> vstd::std_specs::convert::FromSpecImpl<T> for RefCell<T> {
    open spec fn obeys_from_spec() -> bool {
        true
    }

    closed spec fn from_spec(t: T) -> Self {
        RefCell { value: t, state: <Cell<BorrowState> as FromSpec<BorrowState>>::from_spec(BorrowState::Idle) }
    }
}

} // verus!

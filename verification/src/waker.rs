//! Registration of task wakers to be notified of configuration changes.
//!
//! The registration keeps a deduplicated list of wakers: adding a waker
//! whose target is already present is a no-op, and registering replaces
//! the list unless the head already wakes the same task.  Waking drains
//! the list; a wake requested while the list is empty is latched and
//! fires on the next addition.

use vstd::prelude::*;

verus! {

#[verifier::external_type_specification]
#[verifier::external_body]
pub struct ExWaker(core::task::Waker);

/// Whether two wakers would wake the same task: the result of
/// `Waker::will_wake`, a function of the two values alone.
pub uninterp spec fn same_wake_target(a: core::task::Waker, b: core::task::Waker) -> bool;

/// Relies on core::task::Waker::will_wake: whether the two wakers would
/// wake the same task, decided from the two values alone.
#[verifier::external_body]
fn waker_will_wake(a: &core::task::Waker, b: &core::task::Waker) -> (r: bool)
    ensures
        r == same_wake_target(*a, *b),
{
    a.will_wake(b)
}

/// Relies on core::task::Waker::clone: a waker that wakes the same task.
/// Nothing is stated of the returned value.
#[verifier::external_body]
fn waker_clone(w: &core::task::Waker) -> core::task::Waker {
    w.clone()
}

/// Relies on core::task::Waker::wake_by_ref: notifies the waker's task.
#[verifier::external_body]
fn waker_wake_by_ref(w: &core::task::Waker) {
    w.wake_by_ref()
}

/// A deduplicated list of wakers, with a latch for wakes requested
/// while the list was empty.
#[derive(Debug)]
pub struct WakerRegistration {
    /// The registered wakers, in insertion order.
    pub wakers: Vec<core::task::Waker>,
    /// Set when a wake was requested while no waker was registered; the
    /// next added waker fires immediately.
    pub wake_on_add: bool,
}

impl WakerRegistration {
    /// An empty registration.
    pub fn new() -> (r: Self)
        ensures
            r.wakers@.len() == 0,
            !r.wake_on_add,
    {
        Self { wakers: Vec::new(), wake_on_add: false }
    }

    /// Register a waker, dropping all previously registered ones —
    /// unless the first registered waker already wakes the same task,
    /// in which case the whole list is kept.
    pub fn register(&mut self, w: &core::task::Waker)
        ensures
            final(self).wake_on_add == old(self).wake_on_add,
            final(self).wakers@.len() >= 1,
            (old(self).wakers@.len() > 0 && same_wake_target(old(self).wakers@[0], *w))
                ==> final(self).wakers@ == old(self).wakers@,
            !(old(self).wakers@.len() > 0 && same_wake_target(old(self).wakers@[0], *w))
                ==> final(self).wakers@.len() == 1,
    {
        if self.wakers.len() > 0 {
            if waker_will_wake(&self.wakers[0], w) {
                return;
            }
        }
        let mut fresh: Vec<core::task::Waker> = Vec::new();
        fresh.push(waker_clone(w));
        self.wakers = fresh;
    }

    /// Add a waker at the tail, unless one with the same target is
    /// already registered.  When the list was empty and a wake was
    /// latched, the waker fires at once and the list stays empty.
    pub fn add(&mut self, w: &core::task::Waker)
        ensures
            old(self).wakers@.len() == 0 && !old(self).wake_on_add ==> final(self).wakers@.len()
                == 1 && !final(self).wake_on_add,
            old(self).wakers@.len() == 0 && old(self).wake_on_add ==> final(self).wakers@.len()
                == 0 && !final(self).wake_on_add,
            old(self).wakers@.len() > 0 ==> final(self).wake_on_add == old(self).wake_on_add,
            old(self).wakers@.len() > 0 && (exists|i: int|
                0 <= i < old(self).wakers@.len() && same_wake_target(
                    #[trigger] old(self).wakers@[i],
                    *w,
                )) ==> final(self).wakers@ == old(self).wakers@,
            old(self).wakers@.len() > 0 && !(exists|i: int|
                0 <= i < old(self).wakers@.len() && same_wake_target(
                    #[trigger] old(self).wakers@[i],
                    *w,
                )) ==> final(self).wakers@.len() == old(self).wakers@.len() + 1 && forall|j: int|
                0 <= j < old(self).wakers@.len() ==> final(self).wakers@[j]
                    == old(self).wakers@[j],
    {
        if self.wakers.len() == 0 {
            self.wakers.push(waker_clone(w));
            if self.wake_on_add {
                self.wake_on_add = false;
                self.wake_all_internal();
            }
            return;
        }
        let mut i: usize = 0;
        while i < self.wakers.len()
            invariant
                i <= self.wakers@.len(),
                self.wakers@ == old(self).wakers@,
                self.wake_on_add == old(self).wake_on_add,
                forall|j: int| 0 <= j < i ==> !same_wake_target(
                    #[trigger] self.wakers@[j],
                    *w,
                ),
            decreases self.wakers@.len() - i,
        {
            if waker_will_wake(&self.wakers[i], w) {
                return;
            }
            i = i + 1;
        }
        self.wakers.push(waker_clone(w));
    }

    /// Wake and drop every registered waker.
    fn wake_all_internal(&mut self)
        ensures
            final(self).wakers@.len() == 0,
            final(self).wake_on_add == old(self).wake_on_add,
    {
        loop
            invariant
                self.wake_on_add == old(self).wake_on_add,
            decreases self.wakers@.len(),
        {
            match self.wakers.pop() {
                Some(w) => {
                    waker_wake_by_ref(&w);
                },
                None => {
                    return;
                },
            }
        }
    }

    /// Wake every registered waker, if any, draining the list; with no
    /// waker registered, latch the wake for the next addition.
    pub fn wake_all(&mut self)
        ensures
            old(self).wakers@.len() > 0 ==> final(self).wakers@.len() == 0
                && final(self).wake_on_add == old(self).wake_on_add,
            old(self).wakers@.len() == 0 ==> final(self).wakers@ == old(self).wakers@
                && final(self).wake_on_add,
    {
        if self.wakers.len() > 0 {
            self.wake_all_internal();
        } else {
            self.wake_on_add = true;
        }
    }

    /// Drop all registered wakers without waking them, and clear the
    /// latch.
    pub fn clear(&mut self)
        ensures
            final(self).wakers@.len() == 0,
            !final(self).wake_on_add,
    {
        self.wake_on_add = false;
        self.wakers = Vec::new();
    }
}

} // verus!

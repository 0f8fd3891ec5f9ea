//! A counter that many workers share: one value, one guard that at most one
//! context holds at a time, and a count of the handles that keep it alive.
//!
//! The guard alone orders the accesses: the value can be read and written
//! only by the context that holds the guard. The count of handles decides
//! only how long the counter lives.
//!
//! What each operation does is defined on [`CounterView`], the mathematical
//! picture of a counter, and every executable operation is proved to follow
//! that definition.

use crate::blocking::Blocking;
use crate::error::Error;
use vstd::prelude::*;

verus! {

/// The mathematical picture of a shared value behind a guard.
pub struct CounterView<V> {
    /// The current value.
    pub value: V,
    /// The context that holds the guard, if any.
    pub holder: Option<nat>,
    /// The number of handles that share the counter.
    pub handles: nat,
}

impl<V> CounterView<V> {
    /// A counter right after its creation: the guard is free and there is
    /// one handle.
    pub open spec fn fresh(initial: V) -> Self {
        CounterView { value: initial, holder: None, handles: 1 }
    }

    /// The storage is gone once the last handle has been dropped.
    pub open spec fn destroyed(self) -> bool {
        self.handles == 0
    }

    /// The counter after a handle has been cloned. Only an existing handle
    /// can be cloned.
    pub open spec fn clone_handle(self) -> Self {
        if self.destroyed() {
            self
        } else {
            CounterView { handles: self.handles + 1, ..self }
        }
    }

    /// The counter after a handle has been dropped.
    pub open spec fn drop_handle(self) -> Self {
        if self.destroyed() {
            self
        } else {
            CounterView { handles: (self.handles - 1) as nat, ..self }
        }
    }

    /// Whether `context` holds the guard.
    pub open spec fn held_by(self, context: nat) -> bool {
        self.holder == Some(context)
    }

    /// What `context` is told when it asks for the guard: it gets it if the
    /// guard is free, it fails if it holds the guard already, and it has to
    /// wait while another context holds it.
    pub open spec fn acquire_result(self, context: nat) -> Blocking<Result<(), Error>> {
        match self.holder {
            None => Blocking::Ready(Ok(())),
            Some(holder) => if holder == context {
                Blocking::Ready(Err(Error::ReentrantLock))
            } else {
                Blocking::WouldBlock
            },
        }
    }

    /// The counter after `context` has asked for the guard.
    pub open spec fn acquire(self, context: nat) -> Self {
        if self.holder is None {
            CounterView { holder: Some(context), ..self }
        } else {
            self
        }
    }

    /// The counter after `context` has given the guard back. Only the holder
    /// can do so.
    pub open spec fn release(self, context: nat) -> Self {
        if self.held_by(context) {
            CounterView { holder: None, ..self }
        } else {
            self
        }
    }

    /// What `context` gets to see of the value: only the holder of the guard
    /// can read it.
    pub open spec fn read(self, context: nat) -> Option<V> {
        if self.held_by(context) {
            Some(self.value)
        } else {
            None
        }
    }

    /// The counter after `context` has stored `value`. Only the holder of
    /// the guard can do so.
    pub open spec fn write(self, context: nat, value: V) -> Self {
        if self.held_by(context) {
            CounterView { value, ..self }
        } else {
            self
        }
    }
}

/// The state that all handles of one counter share.
pub struct SharedCounter {
    value: i64,
    holder: Option<u64>,
    handles: usize,
}

impl View for SharedCounter {
    type V = CounterView<i64>;

    closed spec fn view(&self) -> CounterView<i64> {
        CounterView {
            value: self.value,
            holder: match self.holder {
                Some(context) => Some(context as nat),
                None => None,
            },
            handles: self.handles as nat,
        }
    }
}

impl SharedCounter {
    /// Creates a counter that holds `initial`, for one handle.
    pub fn new(initial: i64) -> (counter: Self)
        ensures
            counter@ == CounterView::fresh(initial),
    {
        SharedCounter { value: initial, holder: None, handles: 1 }
    }

    /// The number of handles that share the counter.
    pub fn handles(&self) -> (count: usize)
        ensures
            count == self@.handles,
    {
        self.handles
    }

    /// Whether the last handle has been dropped.
    pub fn is_destroyed(&self) -> (destroyed: bool)
        ensures
            destroyed == self@.destroyed(),
    {
        self.handles == 0
    }

    /// The context that holds the guard, if any.
    pub fn holder(&self) -> (holder: Option<u64>)
        ensures
            holder is Some <==> self@.holder is Some,
            holder matches Some(context) ==> self@.held_by(context as nat),
    {
        self.holder
    }

    /// Registers a clone of an existing handle and says whether it did.
    ///
    /// Nothing is registered once the last handle has been dropped, nor
    /// when the count of handles has reached `usize::MAX`. The value and the
    /// guard are never touched.
    pub fn clone_handle(&mut self) -> (cloned: bool)
        ensures
            cloned == (!old(self)@.destroyed() && old(self)@.handles < usize::MAX),
            cloned ==> final(self)@ == old(self)@.clone_handle(),
            !cloned ==> final(self)@ == old(self)@,
    {
        if self.handles == 0 || self.handles == usize::MAX {
            false
        } else {
            self.handles = self.handles + 1;
            true
        }
    }

    /// Takes note that a handle was dropped. With the last handle the
    /// storage is gone.
    pub fn drop_handle(&mut self)
        ensures
            final(self)@ == old(self)@.drop_handle(),
    {
        if self.handles > 0 {
            self.handles = self.handles - 1;
        }
    }

    /// Asks for the guard on behalf of `context`.
    ///
    /// The guard is handed out if it is free. A context that holds it
    /// already fails with `ReentrantLock`, and a context that finds it held
    /// by another is told to wait. In both cases nothing changes.
    pub fn acquire(&mut self, context: u64) -> (result: Blocking<Result<(), Error>>)
        ensures
            result == old(self)@.acquire_result(context as nat),
            final(self)@ == old(self)@.acquire(context as nat),
    {
        match self.holder {
            None => {
                self.holder = Some(context);
                Blocking::Ready(Ok(()))
            },
            Some(holder) => {
                if holder == context {
                    Blocking::Ready(Err(Error::ReentrantLock))
                } else {
                    Blocking::WouldBlock
                }
            },
        }
    }

    /// Gives the guard back, and says whether `context` held it.
    pub fn release(&mut self, context: u64) -> (released: bool)
        ensures
            released == old(self)@.held_by(context as nat),
            final(self)@ == old(self)@.release(context as nat),
    {
        match self.holder {
            Some(holder) => {
                if holder == context {
                    self.holder = None;
                    true
                } else {
                    false
                }
            },
            None => false,
        }
    }

    /// Reads the value, which only the holder of the guard may do.
    pub fn read(&self, context: u64) -> (value: Option<i64>)
        ensures
            value == self@.read(context as nat),
    {
        match self.holder {
            Some(holder) => {
                if holder == context {
                    Some(self.value)
                } else {
                    None
                }
            },
            None => None,
        }
    }

    /// Stores `value`, which only the holder of the guard may do, and says
    /// whether it did.
    pub fn write(&mut self, context: u64, value: i64) -> (written: bool)
        ensures
            written == old(self)@.held_by(context as nat),
            final(self)@ == old(self)@.write(context as nat, value),
    {
        match self.holder {
            Some(holder) => {
                if holder == context {
                    self.value = value;
                    true
                } else {
                    false
                }
            },
            None => false,
        }
    }

    /// Takes the guard for `context`, replaces the value by what `change`
    /// makes of it, gives the guard back and returns what `change` returned
    /// beside the new value.
    ///
    /// The guard is free again afterwards, whatever `change` returns. When
    /// the guard cannot be had, `change` is not called and nothing changes:
    /// the answer is `ReentrantLock` if `context` holds the guard already,
    /// and `WouldBlock` if another context holds it.
    pub fn with_lock<R, F: FnOnce(i64) -> (i64, R)>(&mut self, context: u64, change: F) -> (result:
        Blocking<Result<R, Error>>)
        requires
            old(self)@.holder is None ==> change.requires((old(self)@.value,)),
        ensures
            match old(self)@.acquire_result(context as nat) {
                Blocking::Ready(Ok(_)) => {
                    &&& result matches Blocking::Ready(Ok(returned))
                    &&& change.ensures((old(self)@.value,), (final(self)@.value, returned))
                    &&& final(self)@ == old(self)@.acquire(context as nat).write(
                        context as nat,
                        final(self)@.value,
                    ).release(context as nat)
                },
                Blocking::Ready(Err(error)) => {
                    &&& result == Blocking::<Result<R, Error>>::Ready(Err(error))
                    &&& final(self)@ == old(self)@
                },
                Blocking::WouldBlock => {
                    &&& result == Blocking::<Result<R, Error>>::WouldBlock
                    &&& final(self)@ == old(self)@
                },
            },
    {
        match self.holder {
            None => {
                // Nobody else can reach the counter while `change` runs, so
                // the guard is never seen taken, and it is free as well if
                // `change` does not come back.
                let (value, returned) = change(self.value);
                self.value = value;
                Blocking::Ready(Ok(returned))
            },
            Some(holder) => {
                if holder == context {
                    Blocking::Ready(Err(Error::ReentrantLock))
                } else {
                    Blocking::WouldBlock
                }
            },
        }
    }
}

/// Asking twice does no harm.
///
/// A context that asks for the guard while it holds it is told
/// `ReentrantLock`, and the counter stays exactly as it was: the value, the
/// holder and the handles.
pub proof fn law_second_acquire_changes_nothing<V>(state: CounterView<V>, context: nat)
    requires
        state.held_by(context),
    ensures
        state.acquire_result(context) == Blocking::<Result<(), Error>>::Ready(
            Err(Error::ReentrantLock),
        ),
        state.acquire(context) == state,
{
}

/// The handles decide how long the counter lives, and nothing else.
///
/// The storage goes with the last handle and not before, and it does not
/// come back. Cloning and dropping a handle never touch the value nor the
/// guard, and neither does anything that is done with the guard change the
/// number of handles.
pub proof fn law_handles_only_keep_alive<V>(state: CounterView<V>, context: nat, value: V)
    ensures
        state.drop_handle().destroyed() <==> state.handles <= 1,
        state.clone_handle().destroyed() <==> state.destroyed(),
        state.clone_handle().value == state.value && state.clone_handle().holder == state.holder,
        state.drop_handle().value == state.value && state.drop_handle().holder == state.holder,
        state.acquire(context).handles == state.handles,
        state.write(context, value).handles == state.handles,
        state.release(context).handles == state.handles,
{
}

} // verus!

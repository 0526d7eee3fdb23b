//! The data version of a cluster: a counter that advances with every change
//! to what the cluster exposes, and a single-slot signal that a change took
//! place since the signal was last consumed.

use vstd::prelude::*;

verus! {

/// The mathematical state of a data version.
pub struct DataverState {
    /// The current version.
    pub version: nat,
    /// Whether a change is waiting to be consumed.
    pub pending: bool,
}

impl DataverState {
    /// The state after one change.
    pub open spec fn changed(self) -> DataverState {
        DataverState { version: self.version + 1, pending: true }
    }

    /// The state after `n` changes in a row.
    pub open spec fn changed_times(self, n: nat) -> DataverState
        decreases n,
    {
        if n == 0 {
            self
        } else {
            self.changed_times((n - 1) as nat).changed()
        }
    }

    /// The state after the signal was asked for.
    pub open spec fn consumed(self) -> DataverState {
        DataverState { version: self.version, pending: false }
    }

    /// The state after the signal was asked for `n` times in a row.
    pub open spec fn consumed_times(self, n: nat) -> DataverState
        decreases n,
    {
        if n == 0 {
            self
        } else {
            self.consumed_times((n - 1) as nat).consumed()
        }
    }
}

/// A data version with its change signal.
pub struct Dataver {
    ver: u32,
    changed: bool,
}

impl View for Dataver {
    type V = DataverState;

    closed spec fn view(&self) -> DataverState {
        DataverState { version: self.ver as nat, pending: self.changed }
    }
}

impl Dataver {
    /// A data version that starts at `ver`, with no change pending.
    pub fn new(ver: u32) -> (dataver: Dataver)
        ensures
            dataver@ == (DataverState { version: ver as nat, pending: false }),
    {
        Dataver { ver, changed: false }
    }

    /// The version is a 32-bit value.
    pub proof fn lemma_version_fits(&self)
        ensures
            self@.version <= u32::MAX,
    {
    }

    /// The current version.
    pub fn get(&self) -> (ver: u32)
        ensures
            ver == self@.version,
    {
        self.ver
    }

    /// Records a change: the version advances by one and the signal is set.
    /// Returns the new version.
    pub fn changed(&mut self) -> (ver: u32)
        requires
            old(self)@.version < u32::MAX,
        ensures
            final(self)@ == old(self)@.changed(),
            ver == final(self)@.version,
    {
        self.ver = self.ver + 1;
        self.changed = true;
        self.ver
    }

    /// Hands out `change` if a change is pending, and clears the signal.
    pub fn consume_change<T>(&mut self, change: T) -> (signal: Option<T>)
        ensures
            final(self)@ == old(self)@.consumed(),
            signal == if old(self)@.pending {
                Some(change)
            } else {
                None
            },
    {
        if self.changed {
            self.changed = false;
            Some(change)
        } else {
            None
        }
    }
}

/// Changes only ever advance the version: after `n` of them it is `n` higher.
pub proof fn lemma_changes_advance(state: DataverState, n: nat)
    ensures
        state.changed_times(n).version == state.version + n,
        n > 0 ==> state.changed_times(n).pending,
    decreases n,
{
    if n > 0 {
        lemma_changes_advance(state, (n - 1) as nat);
    }
}

/// Asking for the signal never moves the version, and once asked, the signal
/// stays cleared however often it is asked for again.
pub proof fn lemma_consumed_stays_clear(state: DataverState, n: nat)
    ensures
        state.consumed_times(n).version == state.version,
        n > 0 ==> !state.consumed_times(n).pending,
        state.consumed().consumed_times(n) == state.consumed(),
    decreases n,
{
    if n > 0 {
        lemma_consumed_stays_clear(state, (n - 1) as nat);
        lemma_consumed_stays_clear(state.consumed(), (n - 1) as nat);
    }
}

/// A burst of one or more changes is signalled exactly once: the first time
/// the signal is asked for after the burst it is pending, and every time
/// after that it is not, until the next change sets it again.
pub proof fn lemma_burst_signalled_once(state: DataverState, changes: nat, asks: nat)
    requires
        changes >= 1,
    ensures
        state.changed_times(changes).pending,
        !state.changed_times(changes).consumed().consumed_times(asks).pending,
        state.changed_times(changes).consumed().consumed_times(asks).changed().pending,
{
    lemma_changes_advance(state, changes);
    lemma_consumed_stays_clear(state.changed_times(changes), asks);
}

} // verus!

//! The flag word that guards lazy initialisation of a store handle.

use std::sync::atomic::AtomicU8;
use std::sync::atomic::Ordering;
use vstd::prelude::*;

verus! {

/// Set once the store has been initialised successfully.
pub const INIT: u8 = 1;

/// Set while some caller is initialising the store.
pub const LOCKED: u8 = 2;

/// What a caller that wants the store has to do next.
#[derive(Clone, Copy, Debug, PartialEq, Eq, Structural)]
pub enum Step {
    /// The store is initialised: use it.
    Ready,
    /// Another caller is initialising the store: wait until it is done, then look again.
    Wait,
    /// Nobody has initialised the store: lock the flag word and connect.
    Connect,
}

/// A snapshot of the flag word of a lazily initialised store.
#[derive(Clone, Copy, Debug, PartialEq, Eq)]
pub struct State(u8);

impl State {
    /// The raw flag word.
    pub closed spec fn bits(self) -> u8 {
        self.0
    }

    /// Whether the snapshot records a finished initialisation: the lowest bit is set.
    pub open spec fn spec_is_init(self) -> bool {
        self.bits() % 2 == 1
    }

    /// Whether the snapshot records an initialisation in progress: the second bit is set.
    pub open spec fn spec_is_locked(self) -> bool {
        (self.bits() / 2) % 2 == 1
    }

    /// Takes a snapshot of the flag word in `cell`.
    ///
    /// Other threads may change the cell at any time, so nothing is promised of the bits read.
    pub fn load(cell: &AtomicU8) -> Self {
        Self(cell.load(Ordering::Relaxed))
    }

    /// Indicates whether the store has been successfully initialized.
    #[inline]
    pub fn is_init(&self) -> (b: bool)
        ensures
            b == self.spec_is_init(),
    {
        let bits: u8 = self.0;
        assert((bits & 1 != 0) == (bits % 2 == 1)) by (bit_vector);
        bits & INIT != 0
    }

    /// Indicates whether the store is currently being initialized.
    #[inline]
    pub fn is_locked(&self) -> (b: bool)
        ensures
            b == self.spec_is_locked(),
    {
        let bits: u8 = self.0;
        assert((bits & 2 != 0) == ((bits / 2) % 2 == 1)) by (bit_vector);
        bits & LOCKED != 0
    }

    /// Decides what a caller that saw this snapshot does next. A finished initialisation is used
    /// whatever else the snapshot shows; else a running one is waited for; else the caller
    /// connects itself.
    pub fn step(&self) -> (step: Step)
        ensures
            step == if self.spec_is_init() {
                Step::Ready
            } else if self.spec_is_locked() {
                Step::Wait
            } else {
                Step::Connect
            },
    {
        if self.is_init() {
            Step::Ready
        } else if self.is_locked() {
            Step::Wait
        } else {
            Step::Connect
        }
    }

    /// Marks the flag word in `cell` as being initialised, whatever this snapshot saw.
    pub fn lock(&self, cell: &AtomicU8) {
        cell.fetch_or(LOCKED, Ordering::SeqCst);
    }
}

} // verus!

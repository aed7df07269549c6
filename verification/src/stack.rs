//! The value stack: one flat array of slots, with a moving `bottom`/`top`
//! pair that marks the register window of the active call frame.
//!
//! Register `r` names the slot at absolute index `bottom + r`.  `push` and
//! `pop` move `top`; only the machine's call and return sequences move
//! `bottom`.

use vstd::prelude::*;

use crate::value::Data;

verus! {

/// The register stack.  Every slot exists from construction on and starts
/// out as `Uninit`; `push` only widens the window, it never clears slots.
#[derive(Debug)]
pub struct Stack {
    pub values: Vec<Data>,
    pub bottom: usize,
    pub top: usize,
}

impl Stack {
    /// The window is well-formed: `bottom <= top`, and `top` stays strictly
    /// below the capacity so every window slot is a real slot.
    pub open spec fn wf(&self) -> bool {
        self.bottom <= self.top && self.top < self.values@.len()
    }

    /// A stack of `cap` slots, all uninitialized, with an empty window at
    /// the base.
    pub fn with_capacity(cap: usize) -> (r: Stack)
        requires
            cap >= 1,
        ensures
            r.wf(),
            r.values@.len() == cap,
            r.bottom == 0,
            r.top == 0,
            forall|i: int| 0 <= i < cap ==> r.values@[i] == Data::Uninit,
    {
        Stack { values: vec![Data::Uninit; cap], bottom: 0, top: 0 }
    }

    /// The value of register `reg`.  Access is bounded by the allocation:
    /// the window marks what the frame has claimed, but a slot past `top`
    /// is readable and simply holds whatever it last held.
    pub fn reg(&self, reg: u8) -> (r: Data)
        requires
            self.bottom + reg < self.values.len(),
        ensures
            r == self.values@[self.bottom + reg],
    {
        self.values[self.bottom + reg as usize]
    }

    /// Overwrite register `reg`; bounded by the allocation, like
    /// [`Stack::reg`].
    pub fn set_reg(&mut self, reg: u8, data: Data)
        requires
            old(self).bottom + reg < old(self).values.len(),
        ensures
            final(self).values@ == old(self).values@.update(
                old(self).bottom + reg,
                data,
            ),
            final(self).bottom == old(self).bottom,
            final(self).top == old(self).top,
    {
        let i = self.bottom + reg as usize;
        self.values[i] = data;
    }

    /// Release `amount` slots: move `top` down, never past `bottom`.
    pub(crate) fn pop(&mut self, amount: usize)
        requires
            old(self).wf(),
            amount <= old(self).top,
            old(self).bottom <= old(self).top - amount,
        ensures
            final(self).values@ == old(self).values@,
            final(self).bottom == old(self).bottom,
            final(self).top == old(self).top - amount,
            final(self).wf(),
    {
        self.top = self.top - amount;
    }

    /// Make `amount` more slots addressable: move `top` up, strictly below
    /// the capacity.  Freshly exposed slots keep whatever they held; a
    /// caller that wants to read one must write it first.
    pub(crate) fn push(&mut self, amount: usize)
        requires
            old(self).wf(),
            old(self).top + amount < old(self).values.len(),
        ensures
            final(self).values@ == old(self).values@,
            final(self).bottom == old(self).bottom,
            final(self).top == old(self).top + amount,
            final(self).wf(),
    {
        self.top = self.top + amount;
    }
}

} // verus!

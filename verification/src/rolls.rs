//! The tape of random draws a rule consumes.
//!
//! The campaign's seeded generator lives with the caller; before running a
//! rule that rolls, the caller appends fresh draws to the tape. A rule takes
//! one draw per roll, in order, so its result is a function of the tape, and
//! every contract below holds for every tape. Once the tape runs dry every
//! further roll reads zero.

use vstd::prelude::*;

use crate::fixed::ONE;

verus! {

/// Draws still to be consumed: `values[next..]`.
#[derive(Clone, Debug)]
pub struct Rolls {
    pub values: Vec<u64>,
    pub next: usize,
}

impl Rolls {
    /// The draw the next roll reads.
    pub open spec fn peek(self) -> u64 {
        if self.next < self.values.len() {
            self.values[self.next as int]
        } else {
            0
        }
    }

    /// The tape after one roll.
    pub open spec fn advanced(self) -> Rolls {
        if self.next < self.values.len() {
            Rolls { values: self.values, next: (self.next + 1) as usize }
        } else {
            self
        }
    }

    /// The tape after `k` rolls.
    pub open spec fn advanced_by(self, k: nat) -> Rolls
        decreases k,
    {
        if k == 0 {
            self
        } else {
            self.advanced().advanced_by((k - 1) as nat)
        }
    }

    /// What `below(n)` reads from this tape.
    pub open spec fn below_value(self, n: nat) -> nat {
        if n == 0 {
            0
        } else {
            (self.peek() as nat) % n
        }
    }

    /// What `chance(p)` reads from this tape: a uniform draw in millionths
    /// under `p`.
    pub open spec fn chance_value(self, p: int) -> bool {
        ((self.peek() as nat) % (ONE as nat)) < p
    }

    /// A tape holding `values`, none consumed.
    pub fn new(values: Vec<u64>) -> (r: Rolls)
        ensures
            r.values@ == values@,
            r.next == 0,
    {
        Rolls { values, next: 0 }
    }

    /// A uniform draw in `0..n` (zero when `n` is zero).
    pub fn below(&mut self, n: usize) -> (r: usize)
        ensures
            r == old(self).below_value(n as nat),
            n > 0 ==> r < n,
            *final(self) == old(self).advanced(),
    {
        let v: u64 = if self.next < self.values.len() {
            let x = self.values[self.next];
            self.next = self.next + 1;
            x
        } else {
            0
        };
        if n == 0 {
            0
        } else {
            (v % (n as u64)) as usize
        }
    }

    /// A uniform draw in `0..n` for a wide range (zero when `n` is zero).
    pub fn below_u64(&mut self, n: u64) -> (r: u64)
        ensures
            r == old(self).below_value(n as nat),
            n > 0 ==> r < n,
            *final(self) == old(self).advanced(),
    {
        let v: u64 = if self.next < self.values.len() {
            let x = self.values[self.next];
            self.next = self.next + 1;
            x
        } else {
            0
        };
        if n == 0 {
            0
        } else {
            v % n
        }
    }

    /// True with probability `p` millionths.
    pub fn chance(&mut self, p: i64) -> (r: bool)
        ensures
            r == old(self).chance_value(p as int),
            p <= 0 ==> !r,
            p >= ONE ==> r,
            *final(self) == old(self).advanced(),
    {
        let v: u64 = if self.next < self.values.len() {
            let x = self.values[self.next];
            self.next = self.next + 1;
            x
        } else {
            0
        };
        let d = v % (ONE as u64);
        (d as i64) < p
    }
}

} // verus!

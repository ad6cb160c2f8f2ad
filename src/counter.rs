//! The shared request counter that the counting handlers increment.
//! The driver keeps it behind a mutual-exclusion lock; each critical
//! section is one `increment`.

use vstd::prelude::*;

verus! {

/// The handler state fault: the counter cannot be incremented further.
#[derive(Debug, Clone, Copy, PartialEq, Eq, Structural)]
pub enum HandlerFault {
    CounterExhausted,
}

/// Count after one increment from `count`; a full counter stays as it is.
pub open spec fn next_count(count: nat) -> nat {
    if count < u64::MAX {
        count + 1
    } else {
        count
    }
}

pub struct HitCounter {
    value: u64,
}

impl View for HitCounter {
    type V = nat;

    closed spec fn view(&self) -> nat {
        self.value as nat
    }
}

impl HitCounter {
    /// A counter at zero.
    pub fn new() -> (r: HitCounter)
        ensures
            r@ == 0,
    {
        HitCounter { value: 0 }
    }

    pub fn value(&self) -> (r: u64)
        ensures
            r as nat == self@,
    {
        self.value
    }

    /// Adds one and returns the new count. A full counter is left as it is
    /// and the call fails.
    pub fn increment(&mut self) -> (r: Result<u64, HandlerFault>)
        ensures
            final(self)@ == next_count(old(self)@),
            final(self)@ <= u64::MAX,
            old(self)@ < u64::MAX ==> r == Ok::<u64, HandlerFault>(final(self)@ as u64),
            old(self)@ >= u64::MAX ==> r == Err::<u64, HandlerFault>(HandlerFault::CounterExhausted),
    {
        if self.value < u64::MAX {
            self.value = self.value + 1;
            Ok(self.value)
        } else {
            Err(HandlerFault::CounterExhausted)
        }
    }
}

/// Two increments, in either order of arrival, add exactly two: none is
/// lost, as long as the counter has room for both.
pub proof fn two_increments_add_two(pre: nat)
    requires
        pre + 2 <= u64::MAX,
    ensures
        next_count(next_count(pre)) == pre + 2,
{
}

} // verus!

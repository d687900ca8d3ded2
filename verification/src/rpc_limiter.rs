use vstd::prelude::*;

verus! {

/// Bounds how many calls are in flight at once. A call that finds the limit
/// reached is turned away at once: nothing waits and nothing queues.
#[derive(Debug)]
pub struct RpcLimiter {
    max_in_flight: usize,
    in_flight: usize,
}

/// The right to one call in flight. It is given back with `release`.
#[derive(Debug)]
pub struct RpcPermit {
    limiter_max: usize,
}

/// How many calls are in flight after one more asks for a permit.
pub open spec fn after_try(in_flight: nat, max: nat) -> nat {
    if in_flight < max {
        in_flight + 1
    } else {
        in_flight
    }
}

/// How many calls are in flight after one permit comes back.
pub open spec fn after_release(in_flight: nat) -> nat {
    if in_flight > 0 {
        (in_flight - 1) as nat
    } else {
        0
    }
}

/// How many calls are in flight after `attempts` have asked for a permit in
/// a row, with `in_flight` before the first.
pub open spec fn after_tries(in_flight: nat, max: nat, attempts: nat) -> nat
    decreases attempts,
{
    if attempts == 0 {
        in_flight
    } else {
        after_try(after_tries(in_flight, max, (attempts - 1) as nat), max)
    }
}

/// Under a limit of `max`, of any number of attempts in a row from an idle
/// limiter exactly the first `max` get a permit: the count in flight rises
/// by one with each of them and then stays.
pub proof fn lemma_limiter_admits_up_to_max(max: nat, attempts: nat)
    ensures
        attempts <= max ==> after_tries(0, max, attempts) == attempts,
        attempts >= max ==> after_tries(0, max, attempts) == max,
    decreases attempts,
{
    if attempts > 0 {
        lemma_limiter_admits_up_to_max(max, (attempts - 1) as nat);
    }
}

/// With `max` permits out, the next attempt gets none. Once one permit has
/// come back, one more attempt gets one, and the attempt after it gets none.
pub proof fn lemma_limiter_readmits_after_release(max: nat)
    requires
        max > 0,
    ensures
        after_tries(0, max, max) == max,
        after_try(after_tries(0, max, max), max) == max,
        after_release(after_tries(0, max, max)) == max - 1,
        after_try(after_release(after_tries(0, max, max)), max) == max,
        after_try(after_try(after_release(after_tries(0, max, max)), max), max) == max,
{
    lemma_limiter_admits_up_to_max(max, max);
}

impl RpcLimiter {
    pub closed spec fn max_in_flight(&self) -> nat {
        self.max_in_flight as nat
    }

    pub closed spec fn in_flight(&self) -> nat {
        self.in_flight as nat
    }

    /// No more calls are in flight than the limit allows.
    pub open spec fn wf(&self) -> bool {
        self.in_flight() <= self.max_in_flight()
    }

    /// An idle limiter that lets `max_in_flight` calls be in flight.
    pub fn new(max_in_flight: usize) -> (r: RpcLimiter)
        ensures
            r.max_in_flight() == max_in_flight,
            r.in_flight() == 0,
            r.wf(),
    {
        RpcLimiter { max_in_flight, in_flight: 0 }
    }

    /// How many calls are in flight.
    pub fn current(&self) -> (r: usize)
        ensures
            r == self.in_flight(),
    {
        self.in_flight
    }

    /// Asks for a permit. There is one exactly while fewer calls than the
    /// limit are in flight.
    pub fn try_acquire(&mut self) -> (r: Option<RpcPermit>)
        ensures
            r is Some <==> old(self).in_flight() < old(self).max_in_flight(),
            final(self).in_flight() == after_try(old(self).in_flight(), old(self).max_in_flight()),
            final(self).max_in_flight() == old(self).max_in_flight(),
            old(self).wf() ==> final(self).wf(),
    {
        if self.in_flight >= self.max_in_flight {
            return None;
        }
        self.in_flight = self.in_flight + 1;
        Some(RpcPermit { limiter_max: self.max_in_flight })
    }

    /// Gives a permit back: one call fewer is in flight.
    pub fn release(&mut self, permit: RpcPermit)
        ensures
            final(self).in_flight() == after_release(old(self).in_flight()),
            final(self).max_in_flight() == old(self).max_in_flight(),
            old(self).wf() ==> final(self).wf(),
    {
        if self.in_flight > 0 {
            self.in_flight = self.in_flight - 1;
        }
    }
}

} // verus!

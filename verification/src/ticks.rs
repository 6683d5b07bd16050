//! Arithmetic on a free-running counter of fixed width.
//!
//! A counter of `bits` bits counts modulo `2^bits`. Instants on such a counter
//! cannot be compared by their raw values: a deadline set shortly before the
//! counter wraps lies numerically above every instant shortly after the wrap.
//! All comparisons here go through the distance from `now` to the deadline,
//! measured around the circle and read as a signed number.
//!
//! Counter values are held as `u32`; those of a narrower counter lie below
//! its modulus.

use vstd::prelude::*;
use vstd::arithmetic::div_mod::{lemma_small_mod, lemma_mod_add_multiples_vanish, lemma_sub_mod_noop};
use vstd::arithmetic::power2::{pow2, lemma_pow2_strictly_increases, lemma_pow2_unfold, lemma2_to64};
use vstd::bits::lemma_u64_shl_is_mul;

verus! {

/// Widest counter the library supports, in bits.
pub const MAX_COUNTER_BITS: u32 = 32;

/// Number of distinct values of a counter that is `bits` wide.
pub open spec fn counter_modulus(bits: nat) -> nat {
    pow2(bits)
}

/// The counter value that stands for the unbounded instant `t`.
pub open spec fn wrap_ticks(t: int, modulus: int) -> int {
    t % modulus
}

/// Signed distance from `now` to `deadline` on a counter with `modulus`
/// values: zero when they coincide, positive (at most half the modulus) when
/// the deadline lies ahead, negative when it has passed.
pub open spec fn ticks_until(deadline: int, now: int, modulus: int) -> int {
    let ahead = (deadline - now) % modulus;
    if ahead <= modulus / 2 {
        ahead
    } else {
        ahead - modulus
    }
}

/// Whether `deadline` has been reached at `now`. A deadline equal to `now`
/// counts as reached.
pub open spec fn has_elapsed(deadline: int, now: int, modulus: int) -> bool {
    ticks_until(deadline, now, modulus) <= 0
}

/// The signed-difference test spelled out: a deadline has been reached when
/// the counter has moved on from it by less than half its range.
pub open spec fn within_half_range_behind(deadline: int, now: int, modulus: int) -> bool {
    (now - deadline) % modulus < modulus / 2
}

/// For counter values in range, the distance to a deadline has a closed form
/// without a remainder, lies in the half-open window around zero, and is
/// non-positive exactly when the signed-difference test succeeds.
pub proof fn lemma_ticks_until(deadline: int, now: int, modulus: int)
    requires
        2 <= modulus,
        modulus % 2 == 0,
        0 <= deadline < modulus,
        0 <= now < modulus,
    ensures
        (deadline - now) % modulus == if deadline >= now {
            deadline - now
        } else {
            deadline - now + modulus
        },
        -(modulus / 2) < ticks_until(deadline, now, modulus) <= modulus / 2,
        ticks_until(deadline, now, modulus) == 0 <==> deadline == now,
        has_elapsed(deadline, now, modulus) <==> within_half_range_behind(deadline, now, modulus),
{
    if deadline >= now {
        lemma_small_mod((deadline - now) as nat, modulus as nat);
    } else {
        lemma_small_mod((deadline - now + modulus) as nat, modulus as nat);
        lemma_mod_add_multiples_vanish(deadline - now, modulus);
    }
    if now >= deadline {
        lemma_small_mod((now - deadline) as nat, modulus as nat);
    } else {
        lemma_small_mod((now - deadline + modulus) as nat, modulus as nat);
        lemma_mod_add_multiples_vanish(now - deadline, modulus);
    }
}

/// Two deadlines at the same distance from `now` are the same deadline.
pub proof fn lemma_ticks_until_injective(first: int, second: int, now: int, modulus: int)
    requires
        2 <= modulus,
        modulus % 2 == 0,
        0 <= first < modulus,
        0 <= second < modulus,
        0 <= now < modulus,
        ticks_until(first, now, modulus) == ticks_until(second, now, modulus),
    ensures
        first == second,
{
    lemma_ticks_until(first, now, modulus);
    lemma_ticks_until(second, now, modulus);
}

/// A deadline set `delta` ticks after `now`, with `delta` no more than half
/// the counter's range, lies exactly `delta` ticks ahead.
pub proof fn lemma_ticks_until_after_add(now: int, delta: int, modulus: int)
    requires
        2 <= modulus,
        modulus % 2 == 0,
        0 <= now < modulus,
        0 <= delta <= modulus / 2,
    ensures
        0 <= wrap_ticks(now + delta, modulus) < modulus,
        ticks_until(wrap_ticks(now + delta, modulus), now, modulus) == delta,
{
    let deadline = wrap_ticks(now + delta, modulus);
    if now + delta < modulus {
        lemma_small_mod((now + delta) as nat, modulus as nat);
    } else {
        lemma_small_mod((now + delta - modulus) as nat, modulus as nat);
        lemma_mod_add_multiples_vanish(now + delta - modulus, modulus);
    }
    lemma_ticks_until(deadline, now, modulus);
}

/// What follows from a width between one bit and [`MAX_COUNTER_BITS`]: the
/// modulus is even and fits the counter type.
pub proof fn lemma_counter_modulus(bits: nat)
    requires
        1 <= bits <= MAX_COUNTER_BITS,
    ensures
        2 <= counter_modulus(bits) <= 0x1_0000_0000,
        counter_modulus(bits) % 2 == 0,
{
    lemma2_to64();
    lemma_pow2_unfold(bits);
    if bits < 32 {
        lemma_pow2_strictly_increases(bits, 32);
    }
    if bits > 1 {
        lemma_pow2_strictly_increases(1, bits);
    }
}

/// The width of a free-running counter: between one bit and
/// [`MAX_COUNTER_BITS`].
#[derive(Clone, Copy, Debug, PartialEq, Eq, Structural)]
pub struct CounterWidth {
    bits: u32,
}

impl CounterWidth {
    /// Width in bits.
    pub closed spec fn spec_bits(&self) -> u32 {
        self.bits
    }

    /// Number of distinct counter values.
    pub open spec fn spec_modulus(&self) -> int {
        counter_modulus(self.spec_bits() as nat) as int
    }

    /// The width is between one bit and [`MAX_COUNTER_BITS`].
    pub open spec fn wf(&self) -> bool {
        1 <= self.spec_bits() <= MAX_COUNTER_BITS
    }

    /// A counter width of `bits` bits, or `None` when `bits` is zero or above
    /// [`MAX_COUNTER_BITS`].
    pub fn new(bits: u32) -> (width: Option<CounterWidth>)
        ensures
            width.is_some() <==> 1 <= bits <= MAX_COUNTER_BITS,
            width matches Some(w) ==> w.wf() && w.spec_bits() == bits,
    {
        if bits == 0 || bits > MAX_COUNTER_BITS {
            None
        } else {
            Some(CounterWidth { bits })
        }
    }

    /// Width in bits.
    pub fn bits(&self) -> (bits: u32)
        ensures
            bits == self.spec_bits(),
    {
        self.bits
    }

    /// Number of distinct counter values.
    pub fn modulus(&self) -> (modulus: u64)
        requires
            self.wf(),
        ensures
            modulus == self.spec_modulus(),
    {
        proof {
            lemma_counter_modulus(self.bits as nat);
            lemma_u64_shl_is_mul(1, self.bits as u64);
        }
        1u64 << (self.bits as u64)
    }

    /// The counter value for `value`, reduced into the counter's range.
    pub fn wrap(&self, value: u64) -> (ticks: u32)
        requires
            self.wf(),
        ensures
            ticks == wrap_ticks(value as int, self.spec_modulus()),
            ticks < self.spec_modulus(),
    {
        let modulus: u64 = self.modulus();
        proof {
            lemma_counter_modulus(self.bits as nat);
        }
        (value % modulus) as u32
    }

    /// The counter value `delta` ticks after `start`.
    pub fn wrapping_add(&self, start: u32, delta: u32) -> (ticks: u32)
        requires
            self.wf(),
        ensures
            ticks == wrap_ticks(start + delta, self.spec_modulus()),
            ticks < self.spec_modulus(),
    {
        self.wrap(start as u64 + delta as u64)
    }

    /// Signed distance from `now` to `deadline`.
    pub fn ticks_until(&self, deadline: u32, now: u32) -> (distance: i64)
        requires
            self.wf(),
        ensures
            distance == ticks_until(deadline as int, now as int, self.spec_modulus()),
            -(self.spec_modulus() / 2) < distance <= self.spec_modulus() / 2,
    {
        let modulus: u64 = self.modulus();
        let reduced_deadline: u32 = self.wrap(deadline as u64);
        let reduced_now: u32 = self.wrap(now as u64);
        proof {
            lemma_counter_modulus(self.bits as nat);
            lemma_ticks_until(reduced_deadline as int, reduced_now as int, modulus as int);
            lemma_sub_mod_noop(deadline as int, now as int, modulus as int);
        }
        let ahead: u64 = if reduced_deadline >= reduced_now {
            (reduced_deadline - reduced_now) as u64
        } else {
            modulus - (reduced_now as u64) + (reduced_deadline as u64)
        };
        if ahead <= modulus / 2 {
            ahead as i64
        } else {
            ahead as i64 - modulus as i64
        }
    }

    /// Whether `deadline` has been reached at `now`.
    pub fn has_elapsed(&self, deadline: u32, now: u32) -> (elapsed: bool)
        requires
            self.wf(),
        ensures
            elapsed == has_elapsed(deadline as int, now as int, self.spec_modulus()),
    {
        self.ticks_until(deadline, now) <= 0
    }
}

} // verus!

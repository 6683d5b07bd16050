//! The hardware alarm: one free-running counter and one compare register.
//!
//! The peripheral itself is outside the kernel. This module keeps what the
//! kernel knows about it: how it was configured, the counter value last
//! observed, and the deadline the compare register holds, if any.

use vstd::prelude::*;
use crate::ticks::{CounterWidth, MAX_COUNTER_BITS, counter_modulus, wrap_ticks};

verus! {

/// Clock source that drives the counter.
#[derive(Clone, Copy, Debug, PartialEq, Eq, Structural)]
pub enum Clock {
    ClockRCSys,
    ClockOsc32,
    ClockAPB,
    ClockGclk2,
    Clock1K,
}

/// What a [`PhysicalAlarm`] holds, field by field.
pub struct AlarmView {
    /// Width of the counter in bits.
    pub bits: u32,
    /// Counter increments per second.
    pub frequency: u32,
    /// Selected clock source.
    pub clock: Clock,
    /// Selected prescaler.
    pub prescaler: u8,
    /// Current counter value.
    pub now: u32,
    /// Deadline held by the compare register, or `None` when the alarm is
    /// disabled.
    pub armed: Option<u32>,
}

impl AlarmView {
    /// Number of distinct counter values.
    pub open spec fn modulus(self) -> int {
        counter_modulus(self.bits as nat) as int
    }

    /// The counter and the compare register hold values of the counter's
    /// width.
    pub open spec fn wf(self) -> bool {
        &&& 1 <= self.bits <= MAX_COUNTER_BITS
        &&& self.now < self.modulus()
        &&& self.armed matches Some(deadline) ==> deadline < self.modulus()
    }
}

/// State of the hardware alarm as the kernel sees it. There is one hardware
/// alarm, and so the value is neither copied nor cloned: whoever holds it is
/// the one that drives the hardware.
#[derive(Debug)]
pub struct PhysicalAlarm {
    width: CounterWidth,
    frequency: u32,
    clock: Clock,
    prescaler: u8,
    counter: u32,
    compare: Option<u32>,
}

impl View for PhysicalAlarm {
    type V = AlarmView;

    closed spec fn view(&self) -> AlarmView {
        AlarmView {
            bits: self.width.spec_bits(),
            frequency: self.frequency,
            clock: self.clock,
            prescaler: self.prescaler,
            now: self.counter,
            armed: self.compare,
        }
    }
}

impl PhysicalAlarm {
    /// An alarm fresh out of reset: counter at zero, compare register
    /// disabled, driven by the system RC oscillator without prescaling.
    pub fn new(width: CounterWidth, frequency: u32) -> (alarm: PhysicalAlarm)
        requires
            width.wf(),
        ensures
            alarm@.wf(),
            alarm@ == (AlarmView {
                bits: width.spec_bits(),
                frequency,
                clock: Clock::ClockRCSys,
                prescaler: 0,
                now: 0,
                armed: None,
            }),
    {
        proof {
            crate::ticks::lemma_counter_modulus(width.spec_bits() as nat);
        }
        PhysicalAlarm {
            width,
            frequency,
            clock: Clock::ClockRCSys,
            prescaler: 0,
            counter: 0,
            compare: None,
        }
    }

    /// Selects the clock source; nothing else changes.
    pub fn select_clock(&mut self, clock: Clock)
        ensures
            final(self)@ == (AlarmView { clock, ..old(self)@ }),
    {
        self.clock = clock;
    }

    /// Selects the prescaler; nothing else changes.
    pub fn set_prescaler(&mut self, prescaler: u8)
        ensures
            final(self)@ == (AlarmView { prescaler, ..old(self)@ }),
    {
        self.prescaler = prescaler;
    }

    /// Width of the counter.
    pub fn width(&self) -> (width: CounterWidth)
        ensures
            width.spec_bits() == self@.bits,
    {
        self.width
    }

    /// Counter increments per second.
    pub fn frequency(&self) -> (frequency: u32)
        ensures
            frequency == self@.frequency,
    {
        self.frequency
    }

    /// Selected clock source.
    pub fn clock(&self) -> (clock: Clock)
        ensures
            clock == self@.clock,
    {
        self.clock
    }

    /// Selected prescaler.
    pub fn prescaler(&self) -> (prescaler: u8)
        ensures
            prescaler == self@.prescaler,
    {
        self.prescaler
    }

    /// Current counter value.
    pub fn now(&self) -> (now: u32)
        ensures
            now == self@.now,
    {
        self.counter
    }

    /// Deadline held by the compare register, if the alarm is enabled.
    pub fn armed(&self) -> (armed: Option<u32>)
        ensures
            armed == self@.armed,
    {
        self.compare
    }

    /// Loads the compare register with `deadline`, reduced to the counter's
    /// width, and enables the alarm.
    pub fn set_alarm(&mut self, deadline: u32)
        requires
            old(self)@.wf(),
        ensures
            final(self)@.wf(),
            final(self)@ == (AlarmView {
                armed: Some(wrap_ticks(deadline as int, old(self)@.modulus()) as u32),
                ..old(self)@
            }),
    {
        let wrapped: u32 = self.width.wrap(deadline as u64);
        self.compare = Some(wrapped);
    }

    /// Disables the alarm.
    pub fn clear_alarm(&mut self)
        requires
            old(self)@.wf(),
        ensures
            final(self)@.wf(),
            final(self)@ == (AlarmView { armed: None, ..old(self)@ }),
    {
        self.compare = None;
    }

    /// Records the counter value read from the hardware, reduced to the
    /// counter's width.
    pub fn set_counter(&mut self, value: u32)
        requires
            old(self)@.wf(),
        ensures
            final(self)@.wf(),
            final(self)@ == (AlarmView {
                now: wrap_ticks(value as int, old(self)@.modulus()) as u32,
                ..old(self)@
            }),
    {
        let wrapped: u32 = self.width.wrap(value as u64);
        self.counter = wrapped;
    }
}

} // verus!

//! The microcontroller as far as board assembly and interrupt service reach.
//!
//! Peripheral registers are driven elsewhere. Kept here is what the board
//! decides about the chip: which pins are handed to which peripheral
//! function, how the console's serial port is set up, and which interrupts
//! wait to be served.

use vstd::prelude::*;

verus! {

/// A source of interrupts.
#[derive(Clone, Copy, Debug, PartialEq, Eq, Structural)]
pub enum Interrupt {
    /// The hardware alarm matched its compare register.
    AstAlarm,
    /// Serial port 3, which carries the console.
    Usart3,
    /// I2C bus 2, which carries the temperature sensor.
    Twim2,
    /// A GPIO pin changed.
    Gpio,
}

/// A GPIO port.
#[derive(Clone, Copy, Debug, PartialEq, Eq, Structural)]
pub enum Port {
    A,
    B,
    C,
}

/// A pin of the chip.
#[derive(Clone, Copy, Debug, PartialEq, Eq, Structural)]
pub struct Pin {
    /// The port of the pin.
    pub port: Port,
    /// The number of the pin within its port.
    pub number: u8,
}

/// A peripheral function that a pin can be handed to.
#[derive(Clone, Copy, Debug, PartialEq, Eq, Structural)]
pub enum PeripheralFunction {
    A,
    B,
    C,
    D,
    E,
    F,
    G,
    H,
}

/// A pin together with the peripheral function that drives it.
#[derive(Clone, Copy, Debug, PartialEq, Eq, Structural)]
pub struct PinFunction {
    /// The pin.
    pub pin: Pin,
    /// The function it is handed to.
    pub function: PeripheralFunction,
}

/// Parity of a serial line.
#[derive(Clone, Copy, Debug, PartialEq, Eq, Structural)]
pub enum Parity {
    NoParity,
    Odd,
    Even,
}

/// Line settings of a serial port.
#[derive(Clone, Copy, Debug, PartialEq, Eq, Structural)]
pub struct UsartParams {
    /// Bits per second.
    pub baud_rate: u32,
    /// Data bits per character.
    pub data_bits: u8,
    /// Parity.
    pub parity: Parity,
}

/// The chip as a mathematical value.
pub struct ChipView {
    /// The interrupts that wait to be served, oldest first.
    pub pending: Seq<Interrupt>,
    /// The pins handed to peripheral functions, in the order in which that
    /// was done.
    pub pin_functions: Seq<PinFunction>,
    /// Line settings of serial port 3, once it has been configured.
    pub usart3: Option<UsartParams>,
}

/// The chip.
pub struct Sam4l {
    pending: Vec<Interrupt>,
    pin_functions: Vec<PinFunction>,
    usart3: Option<UsartParams>,
}

impl View for Sam4l {
    type V = ChipView;

    closed spec fn view(&self) -> ChipView {
        ChipView {
            pending: self.pending@,
            pin_functions: self.pin_functions@,
            usart3: self.usart3,
        }
    }
}

impl Sam4l {
    /// A chip out of reset: no interrupt waits, no pin is handed to a
    /// peripheral, the serial port is not configured.
    pub fn new() -> (chip: Sam4l)
        ensures
            chip@ == (ChipView {
                pending: Seq::empty(),
                pin_functions: Seq::empty(),
                usart3: None,
            }),
    {
        Sam4l { pending: Vec::new(), pin_functions: Vec::new(), usart3: None }
    }

    /// Hands `pin` to the peripheral function `function`.
    pub fn configure_pin(&mut self, pin: Pin, function: PeripheralFunction)
        ensures
            final(self)@ == (ChipView {
                pin_functions: old(self)@.pin_functions.push(PinFunction { pin, function }),
                ..old(self)@
            }),
    {
        self.pin_functions.push(PinFunction { pin, function });
    }

    /// Sets the line of serial port 3.
    pub fn configure_usart3(&mut self, params: UsartParams)
        ensures
            final(self)@ == (ChipView { usart3: Some(params), ..old(self)@ }),
    {
        self.usart3 = Some(params);
    }

    /// Line settings of serial port 3, once it has been configured.
    pub fn usart3(&self) -> (params: Option<UsartParams>)
        ensures
            params == self@.usart3,
    {
        self.usart3
    }

    /// The peripheral function that `pin` was last handed to, if any.
    pub fn pin_function(&self, pin: Pin) -> (function: Option<PeripheralFunction>)
        ensures
            function == last_function(self@.pin_functions, pin),
    {
        let mut found: Option<PeripheralFunction> = None;
        let mut i: usize = 0;
        while i < self.pin_functions.len()
            invariant
                i <= self.pin_functions.len(),
                found == last_function(self.pin_functions@.take(i as int), pin),
            decreases self.pin_functions.len() - i,
        {
            proof {
                let upto = self.pin_functions@.take(i + 1);
                assert(upto.drop_last() =~= self.pin_functions@.take(i as int));
                assert(upto.last() == self.pin_functions@[i as int]);
            }
            let entry: PinFunction = self.pin_functions[i];
            if entry.pin.port == pin.port && entry.pin.number == pin.number {
                found = Some(entry.function);
            }
            i = i + 1;
        }
        assert(self.pin_functions@.take(i as int) =~= self.pin_functions@);
        found
    }

    /// Records that `interrupt` was raised. It is served after those that
    /// already wait.
    pub fn raise(&mut self, interrupt: Interrupt)
        ensures
            final(self)@ == (ChipView {
                pending: old(self)@.pending.push(interrupt),
                ..old(self)@
            }),
    {
        self.pending.push(interrupt);
    }

    /// Whether an interrupt waits to be served.
    pub fn has_pending_interrupts(&self) -> (waiting: bool)
        ensures
            waiting == (self@.pending.len() > 0),
    {
        self.pending.len() > 0
    }

    /// Takes the oldest waiting interrupt, or returns `None` when none waits.
    pub fn next_pending(&mut self) -> (interrupt: Option<Interrupt>)
        ensures
            old(self)@.pending.len() == 0 ==> interrupt.is_none() && final(self)@ == old(self)@,
            old(self)@.pending.len() > 0 ==> interrupt == Some(old(self)@.pending[0])
                && final(self)@ == (ChipView {
                pending: old(self)@.pending.skip(1),
                ..old(self)@
            }),
    {
        if self.pending.len() == 0 {
            None
        } else {
            let interrupt: Interrupt = self.pending.remove(0);
            assert(self.pending@ =~= old(self).pending@.skip(1));
            Some(interrupt)
        }
    }
}

/// The function that the last entry for `pin` in `assignments` names, or
/// `None` when there is no entry for the pin.
pub open spec fn last_function(assignments: Seq<PinFunction>, pin: Pin) -> Option<
    PeripheralFunction,
>
    decreases assignments.len(),
{
    if assignments.len() == 0 {
        None
    } else if assignments.last().pin == pin {
        Some(assignments.last().function)
    } else {
        last_function(assignments.drop_last(), pin)
    }
}

} // verus!

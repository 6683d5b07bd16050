//! The Firestorm board: assembly at boot and service at run time.
//!
//! `init` runs once. It places the chip and the board in their regions of the
//! arena, configures the hardware alarm and builds the multiplexer over it,
//! builds the drivers, hands pins and the serial port to them, fills the
//! dispatch table, and starts the process status capsule. What it returns
//! holds every subsystem by value and is the handle through which system
//! calls reach the drivers and interrupts reach the kernel.

use vstd::prelude::*;
use crate::alarm::{AlarmView, Clock, PhysicalAlarm};
use crate::arena::{Arena, ArenaView, MemoryRegion, ObjectHandle, Slot};
use crate::chip::{
    ChipView,
    Interrupt,
    Parity,
    PeripheralFunction,
    Pin,
    PinFunction,
    Port,
    Sam4l,
    UsartParams,
};
use crate::debug_process_status::{DebugProcessStatus, StatusReport, rearmed};
use crate::dispatch::{DriverDispatchTable, driver_for, lemma_driver_for};
use crate::introspection::{Introspection, ProcessSnapshot, loaded_processes};
use crate::mux::{MuxAlarm, MuxState};
use crate::schedule::VirtualAlarmRequest;
use crate::ticks::{CounterWidth, has_elapsed};

verus! {

/// Address of the first byte of the arena.
pub const ARENA_BASE: usize = 0x2000_0000;

/// Bytes reserved for the chip.
pub const CHIP_REGION_BYTES: usize = 2048;

/// Bytes that the chip takes.
pub const CHIP_BYTES: usize = 924;

/// Bytes reserved for the board.
pub const BOARD_REGION_BYTES: usize = 1024;

/// Bytes that the board takes.
pub const BOARD_BYTES: usize = 172;

/// Width of the hardware alarm's counter in bits.
pub const AST_COUNTER_BITS: u32 = 32;

/// Increments of the hardware alarm's counter per second.
pub const AST_FREQUENCY: u32 = 16000;

/// Number of request nodes that the multiplexer is built with.
pub const ALARM_CLIENTS: usize = 2;

/// Request node of the temperature sensor driver.
pub const TMP006_ALARM: usize = 0;

/// Request node of the process status capsule.
pub const STATUS_ALARM: usize = 1;

/// Milliseconds between two process status reports.
pub const STATUS_INTERVAL_MS: usize = 1000;

/// Driver number of the console.
pub const CONSOLE_DRIVER: usize = 0;

/// Driver number of the GPIO driver.
pub const GPIO_DRIVER: usize = 1;

/// Driver number of the temperature sensor driver.
pub const TMP006_DRIVER: usize = 2;

/// A driver of the board, as the dispatch table refers to it.
#[derive(Clone, Copy, Debug, PartialEq, Eq, Structural)]
pub enum Driver {
    Console,
    Gpio,
    Tmp006,
}

/// The console driver's wiring.
#[derive(Clone, Copy, Debug, PartialEq, Eq, Structural)]
pub struct Console {
    /// Number of the serial port that carries the console.
    pub usart: u8,
    /// Whether the driver has been initialised.
    pub initialized: bool,
}

/// The temperature sensor driver's wiring.
#[derive(Clone, Copy, Debug, PartialEq, Eq, Structural)]
pub struct Tmp006 {
    /// Number of the I2C bus that the sensor sits on.
    pub i2c_bus: u8,
    /// Request node of the multiplexer that the driver arms.
    pub alarm: usize,
}

/// The driver that the board registers under `driver_num`, or `None` when
/// the number is not in use.
pub open spec fn board_driver(driver_num: usize) -> Option<Driver> {
    if driver_num == CONSOLE_DRIVER {
        Some(Driver::Console)
    } else if driver_num == GPIO_DRIVER {
        Some(Driver::Gpio)
    } else if driver_num == TMP006_DRIVER {
        Some(Driver::Tmp006)
    } else {
        None
    }
}

/// The dispatch table of the board.
pub open spec fn board_drivers() -> Seq<(usize, Driver)> {
    seq![
        (CONSOLE_DRIVER, Driver::Console),
        (GPIO_DRIVER, Driver::Gpio),
        (TMP006_DRIVER, Driver::Tmp006),
    ]
}

/// The pins that the GPIO driver offers, in the order of their numbers as
/// processes see them.
pub open spec fn board_gpio_pins() -> Seq<Pin> {
    seq![
        Pin { port: Port::C, number: 10 },
        Pin { port: Port::C, number: 19 },
        Pin { port: Port::C, number: 13 },
        Pin { port: Port::A, number: 9 },
        Pin { port: Port::A, number: 17 },
        Pin { port: Port::C, number: 20 },
        Pin { port: Port::A, number: 19 },
        Pin { port: Port::A, number: 14 },
        Pin { port: Port::A, number: 16 },
        Pin { port: Port::A, number: 13 },
        Pin { port: Port::A, number: 11 },
        Pin { port: Port::A, number: 10 },
        Pin { port: Port::A, number: 12 },
        Pin { port: Port::C, number: 9 },
    ]
}

/// The board's dispatch table leads each number to the driver that
/// [`board_driver`] names.
pub proof fn lemma_board_drivers(driver_num: usize)
    ensures
        crate::dispatch::numbers_unique(board_drivers()),
        driver_for(board_drivers(), driver_num) == board_driver(driver_num),
{
    let table = board_drivers();
    assert(table[0] == (CONSOLE_DRIVER, Driver::Console));
    assert(table[1] == (GPIO_DRIVER, Driver::Gpio));
    assert(table[2] == (TMP006_DRIVER, Driver::Tmp006));
    if driver_num == CONSOLE_DRIVER {
        lemma_driver_for(table, 0);
    } else if driver_num == GPIO_DRIVER {
        lemma_driver_for(table, 1);
    } else if driver_num == TMP006_DRIVER {
        lemma_driver_for(table, 2);
    }
}

/// The board as a mathematical value.
pub struct BoardView {
    /// The arena and what has been placed in it.
    pub arena: ArenaView,
    /// Handle of the chip object.
    pub chip_object: ObjectHandle,
    /// Handle of the board object.
    pub board_object: ObjectHandle,
    /// The chip.
    pub chip: ChipView,
    /// The alarm multiplexer together with the hardware alarm.
    pub mux: MuxState,
    /// The console driver's wiring.
    pub console: Console,
    /// The pins of the GPIO driver.
    pub gpio_pins: Seq<Pin>,
    /// The temperature sensor driver's wiring.
    pub tmp006: Tmp006,
    /// Request node of the process status capsule.
    pub status_client: usize,
    /// Reporting interval of the process status capsule in ticks; `None`
    /// while it is stopped.
    pub status_interval: Option<u32>,
    /// The dispatch table.
    pub drivers: Seq<(usize, Driver)>,
}

impl BoardView {
    /// The parts are valid and wired to one another: the multiplexer has a
    /// request node for each of its two clients, the status capsule's
    /// interval is one that its alarm can keep, and the dispatch table is the
    /// board's.
    pub open spec fn wf(self) -> bool {
        &&& self.arena.wf()
        &&& self.mux.wf()
        &&& self.mux.capacity == ALARM_CLIENTS
        &&& self.tmp006.alarm == TMP006_ALARM
        &&& self.status_client == STATUS_ALARM
        &&& self.status_interval matches Some(ticks) ==> 1 <= ticks <= self.mux.modulus() / 2
        &&& self.drivers == board_drivers()
    }
}

/// The board as `init` leaves it.
pub open spec fn initial_board() -> BoardView {
    BoardView {
        arena: ArenaView {
            base: ARENA_BASE,
            size: (CHIP_REGION_BYTES + BOARD_REGION_BYTES) as usize,
            slots: seq![
                Slot { base: ARENA_BASE, capacity: CHIP_REGION_BYTES, occupant: Some(CHIP_BYTES) },
                Slot {
                    base: (ARENA_BASE + CHIP_REGION_BYTES) as usize,
                    capacity: BOARD_REGION_BYTES,
                    occupant: Some(BOARD_BYTES),
                },
            ],
        },
        chip_object: ObjectHandle { region: 0, address: ARENA_BASE, size: CHIP_BYTES },
        board_object: ObjectHandle {
            region: 1,
            address: (ARENA_BASE + CHIP_REGION_BYTES) as usize,
            size: BOARD_BYTES,
        },
        chip: ChipView {
            pending: Seq::empty(),
            pin_functions: seq![
                PinFunction {
                    pin: Pin { port: Port::B, number: 9 },
                    function: PeripheralFunction::A,
                },
                PinFunction {
                    pin: Pin { port: Port::B, number: 10 },
                    function: PeripheralFunction::A,
                },
                PinFunction {
                    pin: Pin { port: Port::A, number: 21 },
                    function: PeripheralFunction::E,
                },
                PinFunction {
                    pin: Pin { port: Port::A, number: 22 },
                    function: PeripheralFunction::E,
                },
            ],
            usart3: Some(UsartParams { baud_rate: 115200, data_bits: 8, parity: Parity::NoParity }),
        },
        mux: MuxState {
            alarm: AlarmView {
                bits: AST_COUNTER_BITS,
                frequency: AST_FREQUENCY,
                clock: Clock::ClockRCSys,
                prescaler: 0,
                now: 0,
                armed: Some(16000u32),
            },
            capacity: ALARM_CLIENTS,
            pending: seq![VirtualAlarmRequest { client: STATUS_ALARM, deadline: 16000 }],
        },
        console: Console { usart: 3, initialized: true },
        gpio_pins: board_gpio_pins(),
        tmp006: Tmp006 { i2c_bus: 2, alarm: TMP006_ALARM },
        status_client: STATUS_ALARM,
        status_interval: Some(16000u32),
        drivers: board_drivers(),
    }
}

/// The board.
pub struct Firestorm {
    arena: Arena,
    chip_object: ObjectHandle,
    board_object: ObjectHandle,
    chip: Sam4l,
    mux: MuxAlarm,
    console: Console,
    gpio_pins: Vec<Pin>,
    tmp006: Tmp006,
    status: DebugProcessStatus,
    drivers: DriverDispatchTable<Driver>,
}

impl View for Firestorm {
    type V = BoardView;

    closed spec fn view(&self) -> BoardView {
        BoardView {
            arena: self.arena@,
            chip_object: self.chip_object,
            board_object: self.board_object,
            chip: self.chip@,
            mux: self.mux@,
            console: self.console,
            gpio_pins: self.gpio_pins@,
            tmp006: self.tmp006,
            status_client: self.status.spec_client(),
            status_interval: self.status.spec_interval(),
            drivers: self.drivers@,
        }
    }
}

/// Something that interrupt service hands on to a component outside the
/// kernel.
#[derive(Debug)]
pub enum BoardEvent {
    /// An interrupt for a peripheral driver.
    Peripheral(Interrupt),
    /// The alarm of the temperature sensor driver fired.
    Tmp006Alarm,
    /// A process status report for the diagnostic output.
    Status(StatusReport),
}

/// A [`BoardEvent`] as a mathematical value.
pub enum BoardEventView {
    /// An interrupt for a peripheral driver.
    Peripheral(Interrupt),
    /// The alarm of the temperature sensor driver fired.
    Tmp006Alarm,
    /// A process status report for the diagnostic output.
    Status {
        /// Number of loaded processes.
        process_count: usize,
        /// The figures of the loaded processes, in slot order.
        processes: Seq<ProcessSnapshot>,
    },
}

impl View for BoardEvent {
    type V = BoardEventView;

    open spec fn view(&self) -> BoardEventView {
        match *self {
            BoardEvent::Peripheral(interrupt) => BoardEventView::Peripheral(interrupt),
            BoardEvent::Tmp006Alarm => BoardEventView::Tmp006Alarm,
            BoardEvent::Status(report) => BoardEventView::Status {
                process_count: report.process_count,
                processes: report.processes@,
            },
        }
    }
}

/// The events of a sequence as mathematical values.
pub open spec fn event_views(events: Seq<BoardEvent>) -> Seq<BoardEventView> {
    events.map_values(|event: BoardEvent| event@)
}

/// The status report for the process table `slots`.
pub open spec fn status_event(slots: Seq<Option<ProcessSnapshot>>) -> BoardEventView {
    BoardEventView::Status {
        process_count: loaded_processes(slots).len() as usize,
        processes: loaded_processes(slots),
    }
}

/// The multiplexer after the callbacks of the requests in `fired` have run,
/// one after the other. The temperature sensor driver is outside the kernel
/// and arms nothing from within its callback; the process status capsule
/// arms its alarm for the next interval unless it was stopped.
pub open spec fn after_callbacks(
    mux: MuxState,
    status_interval: Option<u32>,
    fired: Seq<VirtualAlarmRequest>,
) -> MuxState
    decreases fired.len(),
{
    if fired.len() == 0 {
        mux
    } else {
        let before = after_callbacks(mux, status_interval, fired.drop_last());
        if fired.last().client == STATUS_ALARM {
            rearmed(before, STATUS_ALARM, status_interval)
        } else {
            before
        }
    }
}

/// The events that the callbacks of the requests in `fired` give rise to.
pub open spec fn callback_events(
    fired: Seq<VirtualAlarmRequest>,
    slots: Seq<Option<ProcessSnapshot>>,
) -> Seq<BoardEventView>
    decreases fired.len(),
{
    if fired.len() == 0 {
        Seq::empty()
    } else {
        let before = callback_events(fired.drop_last(), slots);
        if fired.last().client == TMP006_ALARM {
            before.push(BoardEventView::Tmp006Alarm)
        } else if fired.last().client == STATUS_ALARM {
            before.push(status_event(slots))
        } else {
            before
        }
    }
}

/// The board after `interrupt` has been served. An alarm interrupt runs the
/// multiplexer's handler and then the callbacks of the requests that fired;
/// any other interrupt leaves the board as it is.
pub open spec fn after_interrupt(board: BoardView, interrupt: Interrupt) -> BoardView {
    match interrupt {
        Interrupt::AstAlarm => BoardView {
            mux: after_callbacks(board.mux.after_interrupt(), board.status_interval, board.mux.due()),
            ..board
        },
        _ => board,
    }
}

/// The events that serving `interrupt` gives rise to: those of the alarm
/// callbacks for an alarm interrupt, the interrupt itself for any other.
pub open spec fn interrupt_events(
    board: BoardView,
    interrupt: Interrupt,
    slots: Seq<Option<ProcessSnapshot>>,
) -> Seq<BoardEventView> {
    match interrupt {
        Interrupt::AstAlarm => callback_events(board.mux.due(), slots),
        _ => seq![BoardEventView::Peripheral(interrupt)],
    }
}

/// The board after the interrupts in `queue` have been served, oldest first.
/// The chip's own queue is left aside.
pub open spec fn after_service(board: BoardView, queue: Seq<Interrupt>) -> BoardView
    decreases queue.len(),
{
    if queue.len() == 0 {
        board
    } else {
        after_interrupt(after_service(board, queue.drop_last()), queue.last())
    }
}

/// The events that serving the interrupts in `queue` gives rise to, in
/// order.
pub open spec fn service_events(
    board: BoardView,
    queue: Seq<Interrupt>,
    slots: Seq<Option<ProcessSnapshot>>,
) -> Seq<BoardEventView>
    decreases queue.len(),
{
    if queue.len() == 0 {
        Seq::empty()
    } else {
        service_events(board, queue.drop_last(), slots) + interrupt_events(
            after_service(board, queue.drop_last()),
            queue.last(),
            slots,
        )
    }
}

/// Running alarm callbacks keeps the multiplexer valid and the hardware armed
/// for the earliest deadline.
pub proof fn lemma_after_callbacks(
    mux: MuxState,
    status_interval: Option<u32>,
    fired: Seq<VirtualAlarmRequest>,
)
    requires
        mux.wf(),
        mux.capacity == ALARM_CLIENTS,
    ensures
        after_callbacks(mux, status_interval, fired).wf(),
        after_callbacks(mux, status_interval, fired).capacity == mux.capacity,
        after_callbacks(mux, status_interval, fired).alarm.bits == mux.alarm.bits,
        after_callbacks(mux, status_interval, fired).alarm.now == mux.alarm.now,
        mux.armed_is_earliest() ==> after_callbacks(mux, status_interval, fired).armed_is_earliest(),
    decreases fired.len(),
{
    if fired.len() > 0 {
        lemma_after_callbacks(mux, status_interval, fired.drop_last());
        let before = after_callbacks(mux, status_interval, fired.drop_last());
        if fired.last().client == STATUS_ALARM {
            match status_interval {
                Some(ticks) => {
                    crate::mux::lemma_arm(
                        before,
                        STATUS_ALARM,
                        crate::ticks::wrap_ticks(before.now() + ticks, before.modulus()) as u32,
                    );
                },
                None => {},
            }
        }
    }
}

/// No pending request of `mux` has a deadline that was reached at its
/// counter value.
pub open spec fn nothing_due(mux: MuxState) -> bool {
    forall|i: int|
        0 <= i < mux.pending.len() ==> !has_elapsed(
            (#[trigger] mux.pending[i]).deadline as int,
            mux.now(),
            mux.modulus(),
        )
}

/// Alarm callbacks arm for the future only: where nothing was due before
/// they ran, nothing is due after.
pub proof fn lemma_callbacks_arm_ahead(
    mux: MuxState,
    status_interval: Option<u32>,
    fired: Seq<VirtualAlarmRequest>,
)
    requires
        mux.wf(),
        mux.capacity == ALARM_CLIENTS,
        status_interval matches Some(ticks) ==> 1 <= ticks <= mux.modulus() / 2,
        nothing_due(mux),
    ensures
        nothing_due(after_callbacks(mux, status_interval, fired)),
    decreases fired.len(),
{
    if fired.len() > 0 {
        lemma_callbacks_arm_ahead(mux, status_interval, fired.drop_last());
        lemma_after_callbacks(mux, status_interval, fired.drop_last());
        let before = after_callbacks(mux, status_interval, fired.drop_last());
        if fired.last().client == STATUS_ALARM {
            match status_interval {
                Some(ticks) => {
                    let after = rearmed(before, STATUS_ALARM, status_interval);
                    let kept = crate::schedule::without_client(before.pending, STATUS_ALARM);
                    crate::debug_process_status::lemma_rearmed_one_interval_ahead(
                        before,
                        STATUS_ALARM,
                        ticks,
                    );
                    crate::schedule::lemma_filter_members(
                        before.pending,
                        |r: VirtualAlarmRequest| r.client != STATUS_ALARM,
                    );
                    assert forall|i: int| 0 <= i < after.pending.len() implies !has_elapsed(
                        (#[trigger] after.pending[i]).deadline as int,
                        after.now(),
                        after.modulus(),
                    ) by {
                        if i < kept.len() {
                            assert(after.pending[i] == kept[i]);
                            assert(before.pending.contains(kept[i]));
                            let k = choose|k: int|
                                0 <= k < before.pending.len() && before.pending[k] == kept[i];
                            assert(!has_elapsed(
                                before.pending[k].deadline as int,
                                before.now(),
                                before.modulus(),
                            ));
                        } else {
                            assert(after.pending[i] == after.pending.last());
                        }
                    }
                },
                None => {},
            }
        }
    }
}

/// When an alarm interrupt has been served, callbacks included, no pending
/// request has a deadline that was reached at the counter value the handler
/// read.
pub proof fn lemma_nothing_due_after_alarm(board: BoardView)
    requires
        board.wf(),
    ensures
        nothing_due(after_interrupt(board, Interrupt::AstAlarm).mux),
{
    crate::mux::lemma_after_interrupt(board.mux);
    crate::mux::lemma_nothing_due_after_interrupt(board.mux);
    lemma_callbacks_arm_ahead(board.mux.after_interrupt(), board.status_interval, board.mux.due());
}

/// While the process status capsule is stopped, alarm callbacks arm nothing.
pub proof fn lemma_callbacks_of_stopped_status(mux: MuxState, fired: Seq<VirtualAlarmRequest>)
    ensures
        after_callbacks(mux, None, fired) == mux,
    decreases fired.len(),
{
    if fired.len() > 0 {
        lemma_callbacks_of_stopped_status(mux, fired.drop_last());
    }
}

/// Stopping the process status capsule ends its reports even where a request
/// of it is still pending: the alarm interrupt that finds the request due
/// takes it out, and the callback arms no other in its place. After the
/// interrupt the capsule has nothing pending that was due.
pub proof fn lemma_stopped_status_fires_once(board: BoardView)
    requires
        board.wf(),
        board.status_interval.is_none(),
    ensures
        after_interrupt(board, Interrupt::AstAlarm).mux == board.mux.after_interrupt(),
        forall|i: int|
            0 <= i < after_interrupt(board, Interrupt::AstAlarm).mux.pending.len() ==> !has_elapsed(

                (#[trigger] after_interrupt(
                    board,
                    Interrupt::AstAlarm,
                ).mux.pending[i]).deadline as int,
                board.mux.now(),
                board.mux.modulus(),
            ),
{
    lemma_callbacks_of_stopped_status(board.mux.after_interrupt(), board.mux.due());
    crate::mux::lemma_nothing_due_after_interrupt(board.mux);
}

/// Serving an interrupt keeps the board valid.
pub proof fn lemma_after_interrupt(board: BoardView, interrupt: Interrupt)
    requires
        board.wf(),
    ensures
        after_interrupt(board, interrupt).wf(),
        interrupt == Interrupt::AstAlarm ==> after_interrupt(board, interrupt).mux.armed_is_earliest(),
{
    if interrupt == Interrupt::AstAlarm {
        crate::mux::lemma_after_interrupt(board.mux);
        lemma_after_callbacks(board.mux.after_interrupt(), board.status_interval, board.mux.due());
    }
}

/// Whether an alarm interrupt is among `queue`.
pub open spec fn has_alarm_interrupt(queue: Seq<Interrupt>) -> bool {
    exists|i: int| 0 <= i < queue.len() && #[trigger] queue[i] == Interrupt::AstAlarm
}

/// A round of interrupt service keeps the board valid and touches nothing
/// but the multiplexer. Where an alarm interrupt was among those served, the
/// hardware is afterwards armed for the earliest pending deadline, and no
/// pending request has a deadline that was reached at the counter value of
/// the round.
pub proof fn lemma_after_service(board: BoardView, queue: Seq<Interrupt>)
    requires
        board.wf(),
    ensures
        after_service(board, queue).wf(),
        after_service(board, queue) == (BoardView {
            mux: after_service(board, queue).mux,
            ..board
        }),
        after_service(board, queue).mux.now() == board.mux.now(),
        has_alarm_interrupt(queue) ==> after_service(board, queue).mux.armed_is_earliest()
            && nothing_due(after_service(board, queue).mux),
        !has_alarm_interrupt(queue) ==> after_service(board, queue) == board,
    decreases queue.len(),
{
    if queue.len() > 0 {
        let front = queue.drop_last();
        let reached = after_service(board, front);
        lemma_after_service(board, front);
        lemma_after_interrupt(reached, queue.last());
        if queue.last() == Interrupt::AstAlarm {
            lemma_nothing_due_after_alarm(reached);
            crate::mux::lemma_after_interrupt(reached.mux);
            lemma_after_callbacks(
                reached.mux.after_interrupt(),
                reached.status_interval,
                reached.mux.due(),
            );
            assert(queue[queue.len() - 1] == Interrupt::AstAlarm);
        } else {
            if has_alarm_interrupt(queue) {
                let i = choose|i: int|
                    0 <= i < queue.len() && #[trigger] queue[i] == Interrupt::AstAlarm;
                assert(front[i] == Interrupt::AstAlarm);
            }
            if has_alarm_interrupt(front) {
                let i = choose|i: int|
                    0 <= i < front.len() && #[trigger] front[i] == Interrupt::AstAlarm;
                assert(queue[i] == Interrupt::AstAlarm);
            }
        }
    }
}

impl Firestorm {
    /// The arena and what has been placed in it.
    pub fn arena(&self) -> (arena: &Arena)
        ensures
            arena@ == self@.arena,
    {
        &self.arena
    }

    /// Handle of the chip object in the arena.
    pub fn chip_object(&self) -> (handle: ObjectHandle)
        ensures
            handle == self@.chip_object,
    {
        self.chip_object
    }

    /// Handle of the board object in the arena.
    pub fn board_object(&self) -> (handle: ObjectHandle)
        ensures
            handle == self@.board_object,
    {
        self.board_object
    }

    /// The chip.
    pub fn chip(&self) -> (chip: &Sam4l)
        ensures
            chip@ == self@.chip,
    {
        &self.chip
    }

    /// The alarm multiplexer.
    pub fn mux(&self) -> (mux: &MuxAlarm)
        ensures
            mux@ == self@.mux,
    {
        &self.mux
    }

    /// The console driver's wiring.
    pub fn console(&self) -> (console: Console)
        ensures
            console == self@.console,
    {
        self.console
    }

    /// The pins of the GPIO driver.
    pub fn gpio_pins(&self) -> (pins: &Vec<Pin>)
        ensures
            pins@ == self@.gpio_pins,
    {
        &self.gpio_pins
    }

    /// The temperature sensor driver's wiring.
    pub fn tmp006(&self) -> (tmp006: Tmp006)
        ensures
            tmp006 == self@.tmp006,
    {
        self.tmp006
    }

    /// The process status capsule.
    pub fn status(&self) -> (status: &DebugProcessStatus)
        ensures
            status.spec_client() == self@.status_client,
            status.spec_interval() == self@.status_interval,
    {
        &self.status
    }

    /// Records that `interrupt` was raised, to be served after those that
    /// already wait.
    pub fn raise_interrupt(&mut self, interrupt: Interrupt)
        ensures
            final(self)@ == (BoardView {
                chip: ChipView {
                    pending: old(self)@.chip.pending.push(interrupt),
                    ..old(self)@.chip
                },
                ..old(self)@
            }),
    {
        self.chip.raise(interrupt);
    }

    /// Records the counter value read from the hardware alarm.
    pub fn set_counter(&mut self, counter: u32)
        requires
            old(self)@.wf(),
        ensures
            final(self)@ == (BoardView { mux: old(self)@.mux.at(counter), ..old(self)@ }),
            final(self)@.wf(),
    {
        self.mux.set_counter(counter);
    }

    /// Arms the alarm of `client` for `deadline` on behalf of a driver, and
    /// returns the handle of the request.
    pub fn arm_alarm(&mut self, client: usize, deadline: u32) -> (handle: VirtualAlarmRequest)
        requires
            old(self)@.wf(),
            client < ALARM_CLIENTS,
        ensures
            handle == old(self)@.mux.request_for(client, deadline),
            final(self)@ == (BoardView { mux: old(self)@.mux.arm(client, deadline), ..old(self)@ }),
            final(self)@.wf(),
            final(self)@.mux.armed_is_earliest(),
    {
        self.mux.arm(client, deadline)
    }

    /// Disarms the request that `handle` stands for.
    pub fn disarm_alarm(&mut self, handle: VirtualAlarmRequest)
        requires
            old(self)@.wf(),
        ensures
            final(self)@ == (BoardView { mux: old(self)@.mux.disarm(handle), ..old(self)@ }),
            final(self)@.wf(),
            final(self)@.mux.armed_is_earliest(),
    {
        self.mux.disarm(handle);
    }

    /// Starts the process status capsule with a report every `interval_ms`
    /// milliseconds.
    pub fn start_status(&mut self, interval_ms: usize)
        requires
            old(self)@.wf(),
        ensures
            final(self)@ == (BoardView {
                status_interval: crate::debug_process_status::accepted_interval(
                    interval_ms as int,
                    old(self)@.mux.alarm.frequency as int,
                    old(self)@.mux.modulus(),
                ),
                mux: rearmed(old(self)@.mux, STATUS_ALARM, final(self)@.status_interval),
                ..old(self)@
            }),
            final(self)@.wf(),
    {
        self.status.start(interval_ms, &mut self.mux);
    }

    /// Stops the process status capsule.
    pub fn stop_status(&mut self)
        requires
            old(self)@.wf(),
        ensures
            final(self)@ == (BoardView { status_interval: None, ..old(self)@ }),
            final(self)@.wf(),
    {
        self.status.stop();
    }

    /// Whether an interrupt waits to be served.
    pub fn has_pending_interrupts(&self) -> (waiting: bool)
        ensures
            waiting == (self@.chip.pending.len() > 0),
    {
        self.chip.has_pending_interrupts()
    }

    /// Calls `f` with the driver that the board registers under
    /// `driver_num`, or with `None` when the number is not in use, and
    /// returns what `f` returns.
    pub fn with_driver<F, R>(&self, driver_num: usize, f: F) -> (result: R) where
        F: FnOnce(Option<&Driver>) -> R,

        requires
            self@.wf(),
            f.requires(
                (match board_driver(driver_num) {
                    Some(d) => Some(&d),
                    None => None,
                },),
            ),
        ensures
            f.ensures(
                (match board_driver(driver_num) {
                    Some(d) => Some(&d),
                    None => None,
                },),
                result,
            ),
    {
        proof {
            lemma_board_drivers(driver_num);
        }
        self.drivers.dispatch(driver_num, f)
    }

    /// Serves one alarm interrupt: runs the multiplexer's handler, then the
    /// callbacks of the requests that fired, in firing order.
    fn serve_alarm(&mut self, inspector: &Introspection, events: &mut Vec<BoardEvent>)
        requires
            old(self)@.wf(),
        ensures
            final(self)@ == after_interrupt(old(self)@, Interrupt::AstAlarm),
            final(self)@.wf(),
            event_views(final(events)@) == event_views(old(events)@) + callback_events(
                old(self)@.mux.due(),
                inspector@,
            ),
    {
        let ghost start = self@;
        let ghost handled = self@.mux.after_interrupt();
        let ghost earlier = event_views(events@);
        let fired: Vec<VirtualAlarmRequest> = self.mux.handle_interrupt();
        let mut j: usize = 0;
        assert(event_views(events@) =~= earlier + callback_events(fired@.take(0), inspector@));
        while j < fired.len()
            invariant
                j <= fired.len(),
                start.wf(),
                handled.wf(),
                handled.capacity == ALARM_CLIENTS,
                self@ == (BoardView { mux: self@.mux, ..start }),
                self@.mux == after_callbacks(handled, start.status_interval, fired@.take(j as int)),
                event_views(events@) == earlier + callback_events(
                    fired@.take(j as int),
                    inspector@,
                ),
            decreases fired.len() - j,
        {
            let request: VirtualAlarmRequest = fired[j];
            proof {
                let upto = fired@.take(j + 1);
                assert(upto.drop_last() =~= fired@.take(j as int));
                assert(upto.last() == request);
                lemma_after_callbacks(handled, start.status_interval, fired@.take(j as int));
            }
            let ghost before = event_views(events@);
            if request.client == TMP006_ALARM {
                events.push(BoardEvent::Tmp006Alarm);
                assert(event_views(events@) =~= before.push(BoardEventView::Tmp006Alarm));
            } else if request.client == STATUS_ALARM {
                let report: StatusReport = self.status.fired(&mut self.mux, inspector);
                events.push(BoardEvent::Status(report));
                assert(event_views(events@) =~= before.push(status_event(inspector@)));
            }
            assert(event_views(events@) =~= earlier + callback_events(
                fired@.take(j + 1),
                inspector@,
            ));
            j = j + 1;
        }
        proof {
            assert(fired@.take(j as int) =~= fired@);
            lemma_after_interrupt(start, Interrupt::AstAlarm);
        }
    }

    /// Serves one interrupt.
    fn serve(
        &mut self,
        interrupt: Interrupt,
        inspector: &Introspection,
        events: &mut Vec<BoardEvent>,
    )
        requires
            old(self)@.wf(),
        ensures
            final(self)@ == after_interrupt(old(self)@, interrupt),
            final(self)@.wf(),
            event_views(final(events)@) == event_views(old(events)@) + interrupt_events(
                old(self)@,
                interrupt,
                inspector@,
            ),
    {
        match interrupt {
            Interrupt::AstAlarm => {
                self.serve_alarm(inspector, events);
            },
            _ => {
                let ghost before = event_views(events@);
                events.push(BoardEvent::Peripheral(interrupt));
                assert(event_views(events@) =~= before + seq![
                    BoardEventView::Peripheral(interrupt),
                ]);
            },
        }
    }

    /// Serves every interrupt that waits, oldest first, and returns what is
    /// to be handed on to components outside the kernel, in order.
    ///
    /// An alarm interrupt runs the multiplexer's handler and then the
    /// callbacks of the requests that fired: the temperature sensor driver's
    /// is handed on as an event, the process status capsule's yields a report
    /// of the processes in `inspector` and arms the capsule's alarm again.
    /// Any other interrupt is handed on as it is.
    pub fn service_pending_interrupts(&mut self, inspector: &Introspection) -> (events: Vec<
        BoardEvent,
    >)
        requires
            old(self)@.wf(),
        ensures
            final(self)@ == (BoardView {
                chip: ChipView { pending: Seq::empty(), ..old(self)@.chip },
                ..after_service(old(self)@, old(self)@.chip.pending)
            }),
            final(self)@.wf(),
            event_views(events@) == service_events(
                old(self)@,
                old(self)@.chip.pending,
                inspector@,
            ),
    {
        let ghost start = self@;
        let ghost queue = self@.chip.pending;
        let ghost mut served: int = 0;
        let mut events: Vec<BoardEvent> = Vec::new();
        assert(event_views(events@) =~= service_events(start, queue.take(0), inspector@));
        assert(queue.skip(0) =~= queue);
        while self.chip.has_pending_interrupts()
            invariant
                0 <= served <= queue.len(),
                start.wf(),
                queue == start.chip.pending,
                self@.wf(),
                self@.chip == (ChipView { pending: queue.skip(served), ..start.chip }),
                self@ == (BoardView {
                    chip: self@.chip,
                    ..after_service(start, queue.take(served))
                }),
                event_views(events@) == service_events(start, queue.take(served), inspector@),
            decreases queue.len() - served,
        {
            let ghost board = self@;
            let ghost reached = after_service(start, queue.take(served));
            let next: Option<Interrupt> = self.chip.next_pending();
            proof {
                let upto = queue.take(served + 1);
                assert(upto.drop_last() =~= queue.take(served));
                assert(upto.last() == queue[served]);
                assert(queue.skip(served).skip(1) =~= queue.skip(served + 1));
                assert(queue.skip(served)[0] == queue[served]);
            }
            match next {
                Some(interrupt) => {
                    self.serve(interrupt, inspector, &mut events);
                },
                None => {},
            }
            proof {
                served = served + 1;
            }
        }
        proof {
            assert(queue.take(served) =~= queue);
            assert(queue.skip(served) =~= Seq::empty());
        }
        events
    }
}

/// Assembles the board. Called once, at boot.
///
/// Every claim on the arena is shown to succeed here, so that an object that
/// does not fit its region, or a region claimed twice, stops the build and
/// not the boot.
pub fn init() -> (board: Firestorm)
    ensures
        board@ == initial_board(),
        board@.wf(),
        board@.mux.armed_is_earliest(),
{
    let mut arena: Arena = Arena::new(ARENA_BASE, CHIP_REGION_BYTES + BOARD_REGION_BYTES).unwrap();
    let chip_region: MemoryRegion = arena.reserve(CHIP_REGION_BYTES).unwrap();
    let board_region: MemoryRegion = arena.reserve(BOARD_REGION_BYTES).unwrap();

    let chip_object: ObjectHandle = arena.claim_and_init(chip_region, CHIP_BYTES).unwrap();
    let mut chip: Sam4l = Sam4l::new();

    let width: CounterWidth = CounterWidth::new(AST_COUNTER_BITS).unwrap();
    let mut ast: PhysicalAlarm = PhysicalAlarm::new(width, AST_FREQUENCY);
    ast.select_clock(Clock::ClockRCSys);
    ast.set_prescaler(0);
    ast.clear_alarm();
    let mut mux: MuxAlarm = MuxAlarm::new(ast, ALARM_CLIENTS);

    let board_object: ObjectHandle = arena.claim_and_init(board_region, BOARD_BYTES).unwrap();
    let mut console: Console = Console { usart: 3, initialized: false };
    let gpio_pins: Vec<Pin> = vec![
        Pin { port: Port::C, number: 10 },
        Pin { port: Port::C, number: 19 },
        Pin { port: Port::C, number: 13 },
        Pin { port: Port::A, number: 9 },
        Pin { port: Port::A, number: 17 },
        Pin { port: Port::C, number: 20 },
        Pin { port: Port::A, number: 19 },
        Pin { port: Port::A, number: 14 },
        Pin { port: Port::A, number: 16 },
        Pin { port: Port::A, number: 13 },
        Pin { port: Port::A, number: 11 },
        Pin { port: Port::A, number: 10 },
        Pin { port: Port::A, number: 12 },
        Pin { port: Port::C, number: 9 },
    ];
    let tmp006: Tmp006 = Tmp006 { i2c_bus: 2, alarm: TMP006_ALARM };

    chip.configure_usart3(UsartParams { baud_rate: 115200, data_bits: 8, parity: Parity::NoParity });
    chip.configure_pin(Pin { port: Port::B, number: 9 }, PeripheralFunction::A);
    chip.configure_pin(Pin { port: Port::B, number: 10 }, PeripheralFunction::A);
    chip.configure_pin(Pin { port: Port::A, number: 21 }, PeripheralFunction::E);
    chip.configure_pin(Pin { port: Port::A, number: 22 }, PeripheralFunction::E);
    console.initialized = true;

    proof {
        lemma_board_drivers(0);
    }
    let drivers: DriverDispatchTable<Driver> = DriverDispatchTable::new(
        vec![
            (CONSOLE_DRIVER, Driver::Console),
            (GPIO_DRIVER, Driver::Gpio),
            (TMP006_DRIVER, Driver::Tmp006),
        ],
    ).unwrap();

    let mut status: DebugProcessStatus = DebugProcessStatus::new(STATUS_ALARM);
    let ghost before = mux@;
    status.start(STATUS_INTERVAL_MS, &mut mux);
    proof {
        vstd::arithmetic::power2::lemma2_to64();
        reveal(Seq::filter);
        reveal_with_fuel(crate::schedule::earliest_deadline, 2);
        let armed = before.arm(STATUS_ALARM, 16000);
        assert(status.spec_interval() == Some(16000u32));
        assert(crate::schedule::without_client(before.pending, STATUS_ALARM) =~= Seq::empty());
        assert(armed.pending =~= seq![VirtualAlarmRequest { client: STATUS_ALARM, deadline: 16000 }]);
        crate::mux::lemma_arm(before, STATUS_ALARM, 16000);
    }
    let board = Firestorm {
        arena,
        chip_object,
        board_object,
        chip,
        mux,
        console,
        gpio_pins,
        tmp006,
        status,
        drivers,
    };
    proof {
        assert(board@.arena.slots =~= initial_board().arena.slots);
        assert(board@.chip.pin_functions =~= initial_board().chip.pin_functions);
        assert(board@.gpio_pins =~= board_gpio_pins());
        assert(board@.drivers =~= board_drivers());
    }
    board
}

} // verus!

use firestorm::alarm::Clock;
use firestorm::arena::{ArenaError, MemoryRegion, ObjectHandle};
use firestorm::chip::{Interrupt, Parity, PeripheralFunction, Pin, Port, UsartParams};
use firestorm::introspection::{Introspection, ProcessSnapshot};
use firestorm::platform::{
    init, BoardEvent, Console, Driver, Firestorm, Tmp006, ALARM_CLIENTS, STATUS_ALARM,
    TMP006_ALARM,
};
use firestorm::schedule::VirtualAlarmRequest;
use firestorm::ticks::CounterWidth;

fn processes() -> Introspection {
    Introspection::new(vec![
        Some(ProcessSnapshot {
            name: String::from("blink"),
            syscall_count: 12,
            dropped_callback_count: 0,
            restart_count: 1,
            timeslice_expiration_count: 3,
        }),
        None,
    ])
}

fn kinds(events: &[BoardEvent]) -> Vec<String> {
    events
        .iter()
        .map(|event| match event {
            BoardEvent::Peripheral(interrupt) => format!("peripheral {:?}", interrupt),
            BoardEvent::Tmp006Alarm => String::from("tmp006"),
            BoardEvent::Status(report) => format!("status {}", report.process_count),
        })
        .collect()
}

fn driver_name(board: &Firestorm, driver_num: usize) -> Option<Driver> {
    board.with_driver(driver_num, |driver| driver.copied())
}

#[test]
fn init_places_chip_and_board_in_their_regions() {
    let board = init();
    let arena = board.arena();
    assert_eq!(arena.region_count(), 2);
    let chip_region = MemoryRegion { index: 0, base: 0x2000_0000, capacity: 2048 };
    let board_region = MemoryRegion { index: 1, base: 0x2000_0800, capacity: 1024 };
    assert!(arena.is_claimed(chip_region));
    assert!(arena.is_claimed(board_region));
    assert_eq!(
        board.chip_object(),
        ObjectHandle { region: 0, address: 0x2000_0000, size: 924 }
    );
    assert_eq!(
        board.board_object(),
        ObjectHandle { region: 1, address: 0x2000_0800, size: 172 }
    );
}

#[test]
fn regions_of_the_board_cannot_be_claimed_again() {
    let board = init();
    let mut arena = firestorm::arena::Arena::new(0x2000_0000, 3072).unwrap();
    let chip_region = arena.reserve(2048).unwrap();
    assert_eq!(
        arena.claim_and_init(chip_region, 924),
        Ok(ObjectHandle { region: 0, address: 0x2000_0000, size: 924 })
    );
    assert_eq!(arena.claim_and_init(chip_region, 172), Err(ArenaError::AlreadyClaimed));
    assert!(board.arena().is_claimed(chip_region));
}

#[test]
fn init_configures_the_hardware_alarm() {
    let board = init();
    let mux = board.mux();
    assert_eq!(mux.width().bits(), 32);
    assert_eq!(mux.frequency(), 16000);
    assert_eq!(mux.capacity(), ALARM_CLIENTS);
    assert_eq!(mux.now(), 0);
}

#[test]
fn init_starts_the_status_capsule() {
    let board = init();
    assert_eq!(board.status().client(), STATUS_ALARM);
    assert_eq!(board.status().interval(), Some(16000));
    assert_eq!(board.mux().active_count(), 1);
    assert_eq!(board.mux().deadline_of(STATUS_ALARM), Some(16000));
    assert_eq!(board.mux().deadline_of(TMP006_ALARM), None);
    assert_eq!(board.mux().armed_deadline(), Some(16000));
}

#[test]
fn init_wires_the_drivers() {
    let board = init();
    assert_eq!(board.console(), Console { usart: 3, initialized: true });
    assert_eq!(board.tmp006(), Tmp006 { i2c_bus: 2, alarm: TMP006_ALARM });
    let pins = board.gpio_pins();
    assert_eq!(pins.len(), 14);
    assert_eq!(pins[0], Pin { port: Port::C, number: 10 });
    assert_eq!(pins[3], Pin { port: Port::A, number: 9 });
    assert_eq!(pins[13], Pin { port: Port::C, number: 9 });
}

#[test]
fn init_hands_pins_and_serial_port_to_the_peripherals() {
    let board = init();
    let chip = board.chip();
    assert_eq!(
        chip.usart3(),
        Some(UsartParams { baud_rate: 115200, data_bits: 8, parity: Parity::NoParity })
    );
    assert_eq!(
        chip.pin_function(Pin { port: Port::B, number: 9 }),
        Some(PeripheralFunction::A)
    );
    assert_eq!(
        chip.pin_function(Pin { port: Port::B, number: 10 }),
        Some(PeripheralFunction::A)
    );
    assert_eq!(
        chip.pin_function(Pin { port: Port::A, number: 21 }),
        Some(PeripheralFunction::E)
    );
    assert_eq!(
        chip.pin_function(Pin { port: Port::A, number: 22 }),
        Some(PeripheralFunction::E)
    );
    assert_eq!(chip.pin_function(Pin { port: Port::C, number: 10 }), None);
    assert!(!chip.has_pending_interrupts());
}

#[test]
fn with_driver_reaches_the_three_drivers() {
    let board = init();
    assert_eq!(driver_name(&board, 0), Some(Driver::Console));
    assert_eq!(driver_name(&board, 1), Some(Driver::Gpio));
    assert_eq!(driver_name(&board, 2), Some(Driver::Tmp006));
}

#[test]
fn with_driver_gives_no_match_for_an_unregistered_number() {
    let board = init();
    let mut invoked = 0;
    let result: Result<u8, i32> = board.with_driver(99, |driver| match driver {
        Some(_) => {
            invoked += 1;
            Ok(0)
        }
        None => Err(-1),
    });
    assert_eq!(result, Err(-1));
    assert_eq!(invoked, 0);
    assert_eq!(driver_name(&board, 3), None);
    assert_eq!(driver_name(&board, usize::MAX), None);
}

#[test]
fn interrupts_wait_until_they_are_served() {
    let mut board = init();
    assert!(!board.has_pending_interrupts());
    board.raise_interrupt(Interrupt::Usart3);
    assert!(board.has_pending_interrupts());
    let events = board.service_pending_interrupts(&processes());
    assert_eq!(kinds(&events), vec!["peripheral Usart3"]);
    assert!(!board.has_pending_interrupts());
    assert!(board.service_pending_interrupts(&processes()).is_empty());
}

#[test]
fn alarm_interrupt_reports_and_arms_the_next_report() {
    let mut board = init();
    board.set_counter(16003);
    board.raise_interrupt(Interrupt::AstAlarm);
    let events = board.service_pending_interrupts(&processes());
    assert_eq!(events.len(), 1);
    match &events[0] {
        BoardEvent::Status(report) => {
            assert_eq!(report.process_count, 1);
            assert_eq!(report.processes.len(), 1);
            assert_eq!(report.processes[0].name, "blink");
            assert_eq!(report.processes[0].syscall_count, 12);
            assert_eq!(report.processes[0].dropped_callback_count, 0);
            assert_eq!(report.processes[0].restart_count, 1);
            assert_eq!(report.processes[0].timeslice_expiration_count, 3);
        }
        other => panic!("expected a status report, got {:?}", other),
    }
    assert_eq!(board.mux().deadline_of(STATUS_ALARM), Some(32003));
    assert_eq!(board.mux().armed_deadline(), Some(32003));
    assert_eq!(board.mux().active_count(), 1);
}

#[test]
fn alarm_interrupt_before_the_deadline_does_nothing() {
    let mut board = init();
    board.set_counter(15999);
    board.raise_interrupt(Interrupt::AstAlarm);
    assert!(board.service_pending_interrupts(&processes()).is_empty());
    assert_eq!(board.mux().armed_deadline(), Some(16000));
}

#[test]
fn drivers_alarm_is_handed_on() {
    let mut board = init();
    let handle = board.arm_alarm(TMP006_ALARM, 800);
    assert_eq!(handle, VirtualAlarmRequest { client: TMP006_ALARM, deadline: 800 });
    assert_eq!(board.mux().armed_deadline(), Some(800));
    board.set_counter(800);
    board.raise_interrupt(Interrupt::AstAlarm);
    let events = board.service_pending_interrupts(&processes());
    assert_eq!(kinds(&events), vec!["tmp006"]);
    assert_eq!(board.mux().armed_deadline(), Some(16000));
    assert_eq!(board.mux().deadline_of(TMP006_ALARM), None);
}

#[test]
fn disarmed_alarm_does_not_fire() {
    let mut board = init();
    let handle = board.arm_alarm(TMP006_ALARM, 800);
    board.disarm_alarm(handle);
    assert_eq!(board.mux().armed_deadline(), Some(16000));
    board.set_counter(900);
    board.raise_interrupt(Interrupt::AstAlarm);
    assert!(board.service_pending_interrupts(&processes()).is_empty());
}

#[test]
fn callbacks_run_in_firing_order() {
    let mut board = init();
    board.arm_alarm(TMP006_ALARM, 16000);
    board.set_counter(16000);
    board.raise_interrupt(Interrupt::AstAlarm);
    let events = board.service_pending_interrupts(&processes());
    assert_eq!(kinds(&events), vec!["status 1", "tmp006"]);

    let mut board = init();
    board.arm_alarm(TMP006_ALARM, 15000);
    board.set_counter(16000);
    board.raise_interrupt(Interrupt::AstAlarm);
    let events = board.service_pending_interrupts(&processes());
    assert_eq!(kinds(&events), vec!["tmp006", "status 1"]);
}

#[test]
fn interrupts_are_served_oldest_first() {
    let mut board = init();
    board.set_counter(16000);
    board.raise_interrupt(Interrupt::Twim2);
    board.raise_interrupt(Interrupt::AstAlarm);
    board.raise_interrupt(Interrupt::Gpio);
    board.raise_interrupt(Interrupt::AstAlarm);
    board.raise_interrupt(Interrupt::Usart3);
    let events = board.service_pending_interrupts(&processes());
    assert_eq!(
        kinds(&events),
        vec!["peripheral Twim2", "status 1", "peripheral Gpio", "peripheral Usart3"]
    );
    assert_eq!(board.mux().deadline_of(STATUS_ALARM), Some(32000));
}

#[test]
fn stopped_capsule_reports_once_more_and_then_rests() {
    let mut board = init();
    board.stop_status();
    assert_eq!(board.status().interval(), None);
    assert_eq!(board.mux().deadline_of(STATUS_ALARM), Some(16000));
    board.set_counter(16000);
    board.raise_interrupt(Interrupt::AstAlarm);
    let events = board.service_pending_interrupts(&processes());
    assert_eq!(kinds(&events), vec!["status 1"]);
    assert_eq!(board.mux().active_count(), 0);
    assert_eq!(board.mux().armed_deadline(), None);
    board.set_counter(32000);
    board.raise_interrupt(Interrupt::AstAlarm);
    assert!(board.service_pending_interrupts(&processes()).is_empty());
}

#[test]
fn status_capsule_can_be_started_with_another_interval() {
    let mut board = init();
    board.set_counter(100);
    board.start_status(500);
    assert_eq!(board.status().interval(), Some(8000));
    assert_eq!(board.mux().deadline_of(STATUS_ALARM), Some(8100));
    assert_eq!(board.mux().active_count(), 1);
    board.start_status(0);
    assert_eq!(board.status().interval(), None);
    assert_eq!(board.mux().deadline_of(STATUS_ALARM), Some(8100));
}

#[test]
fn hardware_alarm_keeps_its_clock_settings() {
    let width = CounterWidth::new(32).unwrap();
    let mut alarm = firestorm::alarm::PhysicalAlarm::new(width, 16000);
    assert_eq!(alarm.clock(), Clock::ClockRCSys);
    assert_eq!(alarm.prescaler(), 0);
    alarm.select_clock(Clock::ClockOsc32);
    alarm.set_prescaler(4);
    alarm.set_alarm(9);
    alarm.set_counter(5);
    assert_eq!(alarm.clock(), Clock::ClockOsc32);
    assert_eq!(alarm.prescaler(), 4);
    assert_eq!(alarm.armed(), Some(9));
    assert_eq!(alarm.now(), 5);
    assert_eq!(alarm.frequency(), 16000);
    assert_eq!(alarm.width(), width);
    alarm.clear_alarm();
    assert_eq!(alarm.armed(), None);
    assert_eq!(alarm.now(), 5);
}

#[test]
fn status_reports_survive_the_counter_wrap() {
    let mut board = init();
    board.set_counter(u32::MAX - 5000);
    board.start_status(1000);
    assert_eq!(board.mux().deadline_of(STATUS_ALARM), Some(10999));
    board.set_counter(u32::MAX);
    board.raise_interrupt(Interrupt::AstAlarm);
    assert!(board.service_pending_interrupts(&processes()).is_empty());
    board.set_counter(11000);
    board.raise_interrupt(Interrupt::AstAlarm);
    let events = board.service_pending_interrupts(&processes());
    assert_eq!(kinds(&events), vec!["status 1"]);
    assert_eq!(board.mux().deadline_of(STATUS_ALARM), Some(27000));
}

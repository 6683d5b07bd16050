use firestorm::alarm::PhysicalAlarm;
use firestorm::debug_process_status::DebugProcessStatus;
use firestorm::introspection::{Introspection, ProcessSnapshot};
use firestorm::mux::MuxAlarm;
use firestorm::schedule::VirtualAlarmRequest;
use firestorm::ticks::CounterWidth;

fn mux_of(bits: u32, frequency: u32) -> MuxAlarm {
    let width = CounterWidth::new(bits).unwrap();
    MuxAlarm::new(PhysicalAlarm::new(width, frequency), 2)
}

fn process(name: &str, base: usize) -> ProcessSnapshot {
    ProcessSnapshot {
        name: String::from(name),
        syscall_count: base,
        dropped_callback_count: base + 1,
        restart_count: base + 2,
        timeslice_expiration_count: base + 3,
    }
}

fn nobody() -> Introspection {
    Introspection::new(Vec::new())
}

#[test]
fn new_capsule_is_stopped() {
    let capsule = DebugProcessStatus::new(1);
    assert_eq!(capsule.client(), 1);
    assert_eq!(capsule.interval(), None);
}

#[test]
fn start_converts_milliseconds_to_ticks() {
    let mut mux = mux_of(32, 16000);
    let mut capsule = DebugProcessStatus::new(1);
    capsule.start(1000, &mut mux);
    assert_eq!(capsule.interval(), Some(16000));
    capsule.start(250, &mut mux);
    assert_eq!(capsule.interval(), Some(4000));
    capsule.start(1, &mut mux);
    assert_eq!(capsule.interval(), Some(16));
}

#[test]
fn start_rounds_the_interval_down() {
    let mut mux = mux_of(32, 1500);
    let mut capsule = DebugProcessStatus::new(0);
    capsule.start(1, &mut mux);
    assert_eq!(capsule.interval(), Some(1));
    capsule.start(3, &mut mux);
    assert_eq!(capsule.interval(), Some(4));
    capsule.start(7, &mut mux);
    assert_eq!(capsule.interval(), Some(10));
}

#[test]
fn start_arms_one_interval_from_now() {
    let mut mux = mux_of(32, 16000);
    mux.set_counter(500);
    let mut capsule = DebugProcessStatus::new(1);
    capsule.start(1000, &mut mux);
    assert_eq!(mux.deadline_of(1), Some(16500));
    assert_eq!(mux.armed_deadline(), Some(16500));
    assert_eq!(mux.active_count(), 1);
}

#[test]
fn start_replaces_a_pending_request() {
    let mut mux = mux_of(32, 1000);
    let mut capsule = DebugProcessStatus::new(1);
    capsule.start(500, &mut mux);
    mux.set_counter(100);
    capsule.start(50, &mut mux);
    assert_eq!(mux.active_count(), 1);
    assert_eq!(mux.deadline_of(1), Some(150));
    assert_eq!(capsule.interval(), Some(50));
}

#[test]
fn fired_arms_for_now_plus_interval() {
    let mut mux = mux_of(32, 16000);
    let mut capsule = DebugProcessStatus::new(1);
    capsule.start(1000, &mut mux);
    assert_eq!(mux.deadline_of(1), Some(16000));
    mux.set_counter(16007);
    assert_eq!(
        mux.handle_interrupt(),
        vec![VirtualAlarmRequest { client: 1, deadline: 16000 }]
    );
    capsule.fired(&mut mux, &nobody());
    assert_eq!(mux.deadline_of(1), Some(32007));
    assert_eq!(mux.armed_deadline(), Some(32007));
    assert_eq!(capsule.interval(), Some(16000));
}

#[test]
fn fired_arms_across_the_wrap() {
    let mut mux = mux_of(8, 1000);
    let mut capsule = DebugProcessStatus::new(0);
    capsule.start(100, &mut mux);
    assert_eq!(capsule.interval(), Some(100));
    mux.set_counter(200);
    mux.handle_interrupt();
    capsule.fired(&mut mux, &nobody());
    assert_eq!(mux.deadline_of(0), Some(44));
    mux.set_counter(43);
    assert!(mux.handle_interrupt().is_empty());
    mux.set_counter(44);
    assert_eq!(
        mux.handle_interrupt(),
        vec![VirtualAlarmRequest { client: 0, deadline: 44 }]
    );
}

#[test]
fn stop_then_pending_fire_schedules_nothing() {
    let mut mux = mux_of(32, 16000);
    let mut capsule = DebugProcessStatus::new(1);
    capsule.start(1000, &mut mux);
    capsule.stop();
    assert_eq!(capsule.interval(), None);
    assert_eq!(mux.deadline_of(1), Some(16000));
    mux.set_counter(16000);
    assert_eq!(mux.handle_interrupt().len(), 1);
    let report = capsule.fired(&mut mux, &Introspection::new(vec![Some(process("blink", 1))]));
    assert_eq!(report.process_count, 1);
    assert_eq!(mux.active_count(), 0);
    assert_eq!(mux.armed_deadline(), None);
    assert_eq!(mux.deadline_of(1), None);
}

#[test]
fn stopped_capsule_leaves_other_requests_alone() {
    let mut mux = mux_of(32, 16000);
    let capsule = DebugProcessStatus::new(1);
    mux.arm(0, 900);
    capsule.fired(&mut mux, &nobody());
    assert_eq!(mux.active_count(), 1);
    assert_eq!(mux.armed_deadline(), Some(900));
}

#[test]
fn interval_of_zero_ticks_leaves_the_capsule_stopped() {
    let mut mux = mux_of(32, 999);
    let mut capsule = DebugProcessStatus::new(1);
    capsule.start(1, &mut mux);
    assert_eq!(capsule.interval(), None);
    assert_eq!(mux.active_count(), 0);
    assert_eq!(mux.armed_deadline(), None);
    capsule.start(0, &mut mux);
    assert_eq!(capsule.interval(), None);
    assert_eq!(mux.active_count(), 0);
    let mut still = mux_of(32, 0);
    capsule.start(1000, &mut still);
    assert_eq!(capsule.interval(), None);
    assert_eq!(still.active_count(), 0);
}

#[test]
fn start_with_an_unusable_interval_stops_a_running_capsule() {
    let mut mux = mux_of(32, 1000);
    let mut capsule = DebugProcessStatus::new(1);
    capsule.start(10, &mut mux);
    assert_eq!(capsule.interval(), Some(10));
    capsule.start(0, &mut mux);
    assert_eq!(capsule.interval(), None);
    assert_eq!(mux.deadline_of(1), Some(10));
    mux.set_counter(10);
    mux.handle_interrupt();
    capsule.fired(&mut mux, &nobody());
    assert_eq!(mux.active_count(), 0);
}

#[test]
fn interval_beyond_half_the_range_leaves_the_capsule_stopped() {
    let mut mux = mux_of(8, 1000);
    let mut capsule = DebugProcessStatus::new(1);
    capsule.start(129, &mut mux);
    assert_eq!(capsule.interval(), None);
    assert_eq!(mux.active_count(), 0);
    capsule.start(128, &mut mux);
    assert_eq!(capsule.interval(), Some(128));
    assert_eq!(mux.deadline_of(1), Some(128));
    let mut wide = mux_of(32, u32::MAX);
    capsule.start(usize::MAX, &mut wide);
    assert_eq!(capsule.interval(), None);
    assert_eq!(wide.active_count(), 0);
}

#[test]
fn longest_interval_of_a_full_width_counter() {
    let mut mux = mux_of(32, 1000);
    let mut capsule = DebugProcessStatus::new(1);
    capsule.start(0x8000_0000, &mut mux);
    assert_eq!(capsule.interval(), Some(0x8000_0000));
    assert_eq!(mux.deadline_of(1), Some(0x8000_0000));
    capsule.start(0x8000_0001, &mut mux);
    assert_eq!(capsule.interval(), None);
}

#[test]
fn report_lists_the_loaded_processes_in_slot_order() {
    let mut mux = mux_of(32, 16000);
    let capsule = DebugProcessStatus::new(1);
    let inspector = Introspection::new(vec![
        None,
        Some(process("blink", 10)),
        None,
        Some(process("sensors", 20)),
        Some(process("c_hello", 30)),
        None,
    ]);
    assert_eq!(inspector.slot_count(), 6);
    assert_eq!(inspector.number_loaded_processes(), 3);
    let report = capsule.fired(&mut mux, &inspector);
    assert_eq!(report.process_count, 3);
    let names: Vec<&str> = report.processes.iter().map(|p| p.name.as_str()).collect();
    assert_eq!(names, vec!["blink", "sensors", "c_hello"]);
    let sensors = &report.processes[1];
    assert_eq!(sensors.syscall_count, 20);
    assert_eq!(sensors.dropped_callback_count, 21);
    assert_eq!(sensors.restart_count, 22);
    assert_eq!(sensors.timeslice_expiration_count, 23);
}

#[test]
fn report_of_an_empty_board() {
    let mut mux = mux_of(32, 16000);
    let capsule = DebugProcessStatus::new(1);
    let report = capsule.fired(&mut mux, &Introspection::new(vec![None, None]));
    assert_eq!(report.process_count, 0);
    assert!(report.processes.is_empty());
    let report = capsule.fired(&mut mux, &nobody());
    assert_eq!(report.process_count, 0);
    assert!(report.processes.is_empty());
}

#[test]
fn duplicate_copies_every_figure() {
    let original = process("blink", 5);
    let copy = original.duplicate();
    assert_eq!(copy.name, "blink");
    assert_eq!(copy.syscall_count, 5);
    assert_eq!(copy.dropped_callback_count, 6);
    assert_eq!(copy.restart_count, 7);
    assert_eq!(copy.timeslice_expiration_count, 8);
}

#[test]
fn each_app_skips_empty_slots() {
    let inspector = Introspection::new(vec![Some(process("a", 0)), None, Some(process("b", 1))]);
    let apps = inspector.each_app();
    assert_eq!(apps.len(), 2);
    assert_eq!(apps[0].name, "a");
    assert_eq!(apps[1].name, "b");
}

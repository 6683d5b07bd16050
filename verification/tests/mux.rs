use firestorm::alarm::PhysicalAlarm;
use firestorm::mux::MuxAlarm;
use firestorm::schedule::VirtualAlarmRequest;
use firestorm::ticks::CounterWidth;

fn mux_of(bits: u32, clients: usize) -> MuxAlarm {
    let width = CounterWidth::new(bits).unwrap();
    MuxAlarm::new(PhysicalAlarm::new(width, 16000), clients)
}

fn request(client: usize, deadline: u32) -> VirtualAlarmRequest {
    VirtualAlarmRequest { client, deadline }
}

fn earliest(mux: &MuxAlarm, deadlines: &[u32]) -> Option<u32> {
    let width = mux.width();
    let mut best: Option<u32> = None;
    for &d in deadlines {
        best = match best {
            Some(b) if width.ticks_until(b, mux.now()) <= width.ticks_until(d, mux.now()) => Some(b),
            _ => Some(d),
        };
    }
    best
}

#[test]
fn fresh_multiplexer_is_disarmed() {
    let mux = mux_of(32, 4);
    assert_eq!(mux.armed_deadline(), None);
    assert_eq!(mux.active_count(), 0);
    assert_eq!(mux.now(), 0);
    assert_eq!(mux.capacity(), 4);
    assert_eq!(mux.frequency(), 16000);
    assert_eq!(mux.width().bits(), 32);
}

#[test]
fn new_disables_an_alarm_that_was_armed() {
    let width = CounterWidth::new(16).unwrap();
    let mut alarm = PhysicalAlarm::new(width, 1000);
    alarm.set_alarm(77);
    assert_eq!(alarm.armed(), Some(77));
    let mux = MuxAlarm::new(alarm, 1);
    assert_eq!(mux.armed_deadline(), None);
}

#[test]
fn arm_sets_hardware_to_minimum() {
    let mut mux = mux_of(32, 4);
    let first = mux.arm(0, 500);
    assert_eq!(first, request(0, 500));
    assert_eq!(mux.armed_deadline(), Some(500));
    mux.arm(1, 300);
    assert_eq!(mux.armed_deadline(), Some(300));
    mux.arm(2, 400);
    assert_eq!(mux.armed_deadline(), Some(300));
    assert_eq!(mux.active_count(), 3);
}

#[test]
fn disarm_of_the_minimum_arms_the_next() {
    let mut mux = mux_of(32, 4);
    mux.arm(0, 500);
    let soonest = mux.arm(1, 300);
    mux.arm(2, 400);
    mux.disarm(soonest);
    assert_eq!(mux.armed_deadline(), Some(400));
    assert_eq!(mux.active_count(), 2);
    assert_eq!(mux.deadline_of(1), None);
}

#[test]
fn disarm_of_another_keeps_the_minimum() {
    let mut mux = mux_of(32, 4);
    let late = mux.arm(0, 500);
    mux.arm(1, 300);
    mux.disarm(late);
    assert_eq!(mux.armed_deadline(), Some(300));
    assert_eq!(mux.active_count(), 1);
}

#[test]
fn disarm_of_the_last_request_disables_the_hardware() {
    let mut mux = mux_of(32, 4);
    let only = mux.arm(3, 9);
    mux.disarm(only);
    assert_eq!(mux.armed_deadline(), None);
    assert_eq!(mux.active_count(), 0);
}

#[test]
fn disarm_of_a_handle_that_is_not_pending_changes_nothing() {
    let mut mux = mux_of(32, 4);
    mux.arm(0, 500);
    mux.disarm(request(0, 499));
    mux.disarm(request(1, 500));
    assert_eq!(mux.active_count(), 1);
    assert_eq!(mux.armed_deadline(), Some(500));
    assert_eq!(mux.deadline_of(0), Some(500));
}

#[test]
fn arming_again_replaces_the_clients_request() {
    let mut mux = mux_of(32, 4);
    mux.arm(0, 100);
    mux.arm(1, 200);
    mux.arm(0, 300);
    assert_eq!(mux.active_count(), 2);
    assert_eq!(mux.deadline_of(0), Some(300));
    assert_eq!(mux.armed_deadline(), Some(200));
}

#[test]
fn armed_deadline_is_the_minimum_through_a_sequence_of_operations() {
    let mut mux = mux_of(8, 5);
    mux.set_counter(100);
    let mut model: Vec<VirtualAlarmRequest> = Vec::new();
    let steps: [(bool, usize, u32); 12] = [
        (true, 0, 150),
        (true, 1, 120),
        (true, 2, 90),
        (false, 1, 120),
        (true, 3, 227),
        (true, 4, 228),
        (false, 2, 90),
        (true, 1, 101),
        (false, 1, 101),
        (false, 4, 228),
        (false, 0, 150),
        (false, 3, 227),
    ];
    for (arm, client, deadline) in steps {
        if arm {
            model.retain(|r| r.client != client);
            model.push(request(client, deadline));
            mux.arm(client, deadline);
        } else {
            model.retain(|r| *r != request(client, deadline));
            mux.disarm(request(client, deadline));
        }
        let deadlines: Vec<u32> = model.iter().map(|r| r.deadline).collect();
        assert_eq!(mux.armed_deadline(), earliest(&mux, &deadlines));
        assert_eq!(mux.active_count(), model.len());
    }
    assert_eq!(mux.armed_deadline(), None);
}

#[test]
fn passing_time_keeps_the_armed_deadline_the_earliest() {
    let mut mux = mux_of(8, 3);
    mux.set_counter(200);
    mux.arm(0, 30);
    mux.arm(1, 250);
    mux.arm(2, 10);
    assert_eq!(mux.armed_deadline(), Some(250));
    for counter in [201u32, 230, 249, 250, 255, 0, 9, 100] {
        mux.set_counter(counter);
        assert_eq!(mux.armed_deadline(), earliest(&mux, &[30, 250, 10]));
    }
}

#[test]
fn an_overdue_request_is_the_earliest() {
    let mut mux = mux_of(8, 3);
    mux.set_counter(100);
    mux.arm(0, 110);
    mux.arm(1, 90);
    assert_eq!(mux.armed_deadline(), Some(90));
}

#[test]
fn arm_reduces_the_deadline_to_the_counter_width() {
    let mut mux = mux_of(8, 2);
    let handle = mux.arm(0, 300);
    assert_eq!(handle, request(0, 44));
    assert_eq!(mux.deadline_of(0), Some(44));
    assert_eq!(mux.armed_deadline(), Some(44));
}

#[test]
fn set_counter_reduces_to_the_counter_width() {
    let mut mux = mux_of(8, 2);
    mux.set_counter(259);
    assert_eq!(mux.now(), 3);
}

#[test]
fn interrupt_fires_what_is_due_and_leaves_the_rest() {
    let mut mux = mux_of(32, 4);
    mux.arm(0, 500);
    mux.arm(1, 300);
    mux.arm(2, 400);
    mux.arm(3, 401);
    mux.set_counter(400);
    let fired = mux.handle_interrupt();
    assert_eq!(fired, vec![request(1, 300), request(2, 400)]);
    assert_eq!(mux.active_count(), 2);
    assert_eq!(mux.deadline_of(0), Some(500));
    assert_eq!(mux.deadline_of(3), Some(401));
    assert_eq!(mux.armed_deadline(), Some(401));
}

#[test]
fn after_the_interrupt_nothing_pending_is_due() {
    let mut mux = mux_of(8, 6);
    mux.set_counter(10);
    for (client, deadline) in [(0, 5u32), (1, 11), (2, 10), (3, 250), (4, 138), (5, 139)] {
        mux.arm(client, deadline);
    }
    let fired = mux.handle_interrupt();
    assert_eq!(fired, vec![request(5, 139), request(3, 250), request(0, 5), request(2, 10)]);
    let width = mux.width();
    for client in 0..6 {
        if let Some(deadline) = mux.deadline_of(client) {
            assert!(!width.has_elapsed(deadline, mux.now()));
        }
    }
    assert_eq!(mux.deadline_of(1), Some(11));
    assert_eq!(mux.deadline_of(4), Some(138));
    assert_eq!(mux.armed_deadline(), Some(11));
}

#[test]
fn interrupt_that_fires_everything_disables_the_hardware() {
    let mut mux = mux_of(32, 2);
    mux.arm(0, 10);
    mux.arm(1, 20);
    mux.set_counter(1000);
    let fired = mux.handle_interrupt();
    assert_eq!(fired, vec![request(0, 10), request(1, 20)]);
    assert_eq!(mux.active_count(), 0);
    assert_eq!(mux.armed_deadline(), None);
}

#[test]
fn interrupt_with_nothing_due_fires_nothing() {
    let mut mux = mux_of(32, 2);
    mux.arm(0, 10);
    mux.set_counter(9);
    let fired = mux.handle_interrupt();
    assert!(fired.is_empty());
    assert_eq!(mux.active_count(), 1);
    assert_eq!(mux.armed_deadline(), Some(10));
}

#[test]
fn interrupt_without_requests_fires_nothing() {
    let mut mux = mux_of(32, 2);
    let fired = mux.handle_interrupt();
    assert!(fired.is_empty());
    assert_eq!(mux.armed_deadline(), None);
}

#[test]
fn deadline_equal_to_now_fires() {
    let mut mux = mux_of(32, 1);
    mux.arm(0, 77);
    mux.set_counter(77);
    assert_eq!(mux.handle_interrupt(), vec![request(0, 77)]);
}

#[test]
fn request_armed_near_the_top_fires_after_the_counter_wrapped() {
    let mut mux = mux_of(8, 2);
    mux.set_counter(240);
    mux.arm(0, 250);
    assert_eq!(mux.armed_deadline(), Some(250));
    mux.set_counter(249);
    assert!(mux.handle_interrupt().is_empty());
    mux.set_counter(3);
    assert_eq!(mux.handle_interrupt(), vec![request(0, 250)]);
    assert_eq!(mux.active_count(), 0);
    assert_eq!(mux.armed_deadline(), None);
}

#[test]
fn request_armed_across_the_wrap_waits_for_its_deadline() {
    let mut mux = mux_of(8, 2);
    mux.set_counter(250);
    mux.arm(0, 4);
    mux.arm(1, 252);
    assert_eq!(mux.armed_deadline(), Some(252));
    mux.set_counter(253);
    assert_eq!(mux.handle_interrupt(), vec![request(1, 252)]);
    assert_eq!(mux.armed_deadline(), Some(4));
    mux.set_counter(3);
    assert!(mux.handle_interrupt().is_empty());
    mux.set_counter(4);
    assert_eq!(mux.handle_interrupt(), vec![request(0, 4)]);
}

#[test]
fn wrapped_requests_fire_in_deadline_order() {
    let mut mux = mux_of(8, 3);
    mux.set_counter(245);
    mux.arm(0, 2);
    mux.arm(1, 250);
    mux.arm(2, 255);
    mux.set_counter(5);
    assert_eq!(
        mux.handle_interrupt(),
        vec![request(1, 250), request(2, 255), request(0, 2)]
    );
}

#[test]
fn equal_deadlines_fire_in_arming_order() {
    let mut mux = mux_of(32, 4);
    mux.arm(2, 100);
    mux.arm(0, 100);
    mux.arm(3, 50);
    mux.arm(1, 100);
    mux.set_counter(100);
    assert_eq!(
        mux.handle_interrupt(),
        vec![request(3, 50), request(2, 100), request(0, 100), request(1, 100)]
    );
}

#[test]
fn arming_again_moves_a_client_behind_its_equals() {
    let mut mux = mux_of(32, 2);
    mux.arm(0, 100);
    mux.arm(1, 100);
    mux.arm(0, 100);
    mux.set_counter(100);
    assert_eq!(mux.handle_interrupt(), vec![request(1, 100), request(0, 100)]);
}

#[test]
fn a_client_may_arm_again_from_its_callback() {
    let mut mux = mux_of(32, 2);
    mux.arm(0, 100);
    mux.arm(1, 150);
    mux.set_counter(100);
    let fired = mux.handle_interrupt();
    assert_eq!(fired, vec![request(0, 100)]);
    for r in fired {
        mux.arm(r.client, r.deadline + 30);
    }
    assert_eq!(mux.active_count(), 2);
    assert_eq!(mux.deadline_of(0), Some(130));
    assert_eq!(mux.armed_deadline(), Some(130));
}

#[test]
fn deadline_of_tells_active_from_idle() {
    let mut mux = mux_of(32, 3);
    assert_eq!(mux.deadline_of(0), None);
    mux.arm(2, 8);
    assert_eq!(mux.deadline_of(2), Some(8));
    assert_eq!(mux.deadline_of(1), None);
    assert_eq!(mux.deadline_of(7), None);
}

use firestorm::ticks::CounterWidth;

fn width(bits: u32) -> CounterWidth {
    CounterWidth::new(bits).unwrap()
}

#[test]
fn counter_width_is_between_one_and_thirty_two_bits() {
    assert_eq!(CounterWidth::new(0), None);
    assert_eq!(CounterWidth::new(33), None);
    assert_eq!(CounterWidth::new(u32::MAX), None);
    assert_eq!(CounterWidth::new(1).map(|w| w.bits()), Some(1));
    assert_eq!(CounterWidth::new(8).map(|w| w.bits()), Some(8));
    assert_eq!(CounterWidth::new(32).map(|w| w.bits()), Some(32));
}

#[test]
fn modulus_is_two_to_the_width() {
    assert_eq!(width(1).modulus(), 2);
    assert_eq!(width(8).modulus(), 256);
    assert_eq!(width(16).modulus(), 65536);
    assert_eq!(width(32).modulus(), 4294967296);
}

#[test]
fn wrap_reduces_into_the_counter_range() {
    let w = width(8);
    assert_eq!(w.wrap(0), 0);
    assert_eq!(w.wrap(255), 255);
    assert_eq!(w.wrap(256), 0);
    assert_eq!(w.wrap(300), 44);
    assert_eq!(width(32).wrap(4294967296 + 7), 7);
    assert_eq!(width(32).wrap(u64::MAX), u32::MAX);
}

#[test]
fn wrapping_add_goes_around() {
    let w = width(8);
    assert_eq!(w.wrapping_add(250, 10), 4);
    assert_eq!(w.wrapping_add(0, 255), 255);
    assert_eq!(w.wrapping_add(255, 1), 0);
    assert_eq!(width(32).wrapping_add(u32::MAX, 2), 1);
    assert_eq!(width(32).wrapping_add(u32::MAX, u32::MAX), u32::MAX - 1);
}

#[test]
fn ticks_until_is_the_signed_distance() {
    let w = width(8);
    assert_eq!(w.ticks_until(10, 5), 5);
    assert_eq!(w.ticks_until(5, 10), -5);
    assert_eq!(w.ticks_until(7, 7), 0);
    assert_eq!(w.ticks_until(3, 250), 9);
    assert_eq!(w.ticks_until(250, 3), -9);
}

#[test]
fn ticks_until_at_half_the_range() {
    let w = width(8);
    assert_eq!(w.ticks_until(128, 0), 128);
    assert_eq!(w.ticks_until(127, 0), 127);
    assert_eq!(w.ticks_until(129, 0), -127);
    assert_eq!(w.ticks_until(0, 128), 128);
    assert_eq!(w.ticks_until(0, 129), 127);
    assert_eq!(w.ticks_until(0, 127), -127);
    let wide = width(32);
    assert_eq!(wide.ticks_until(0x8000_0000, 0), 0x8000_0000);
    assert_eq!(wide.ticks_until(0x8000_0001, 0), -0x7fff_ffff);
}

#[test]
fn deadline_equal_to_now_has_elapsed() {
    let w = width(8);
    assert!(w.has_elapsed(0, 0));
    assert!(w.has_elapsed(200, 200));
    assert!(width(32).has_elapsed(u32::MAX, u32::MAX));
}

#[test]
fn deadline_one_tick_ahead_has_not_elapsed() {
    let w = width(8);
    assert!(!w.has_elapsed(1, 0));
    assert!(!w.has_elapsed(0, 255));
    assert!(w.has_elapsed(255, 0));
    assert!(w.has_elapsed(0, 1));
}

#[test]
fn elapsed_across_the_wrap() {
    let w = width(8);
    assert!(w.has_elapsed(250, 3));
    assert!(!w.has_elapsed(3, 250));
    assert!(!w.has_elapsed(128, 0));
    assert!(w.has_elapsed(129, 0));
}

#[test]
fn values_beyond_a_narrow_counter_are_reduced_before_they_are_compared() {
    let w = width(8);
    assert_eq!(w.ticks_until(256 + 10, 5), 5);
    assert_eq!(w.ticks_until(10, 512 + 5), 5);
    assert_eq!(w.ticks_until(u32::MAX, 0), -1);
    assert!(w.has_elapsed(300, 44));
    assert!(!w.has_elapsed(301, 44));
}

#[test]
fn one_bit_counter() {
    let w = width(1);
    assert_eq!(w.wrap(3), 1);
    assert_eq!(w.ticks_until(1, 0), 1);
    assert_eq!(w.ticks_until(0, 1), 1);
    assert!(w.has_elapsed(1, 1));
    assert!(!w.has_elapsed(0, 1));
}

#[test]
fn elapsed_agrees_with_signed_difference_on_every_pair_of_eight_bit_values() {
    let w = width(8);
    for deadline in 0u32..256 {
        for now in 0u32..256 {
            let behind = (now as u8).wrapping_sub(deadline as u8);
            assert_eq!(w.has_elapsed(deadline, now), behind < 128);
        }
    }
}

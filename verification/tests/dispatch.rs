use firestorm::dispatch::DriverDispatchTable;

fn table() -> DriverDispatchTable<&'static str> {
    DriverDispatchTable::new(vec![(0, "console"), (1, "gpio"), (2, "tmp006")]).unwrap()
}

#[test]
fn dispatch_hands_the_registered_driver_to_the_closure() {
    let t = table();
    assert_eq!(t.dispatch(0, |d| d.copied()), Some("console"));
    assert_eq!(t.dispatch(1, |d| d.copied()), Some("gpio"));
    assert_eq!(t.dispatch(2, |d| d.copied()), Some("tmp006"));
}

#[test]
fn dispatch_of_an_unregistered_number_gives_no_match() {
    let t = table();
    let mut invoked: Vec<&'static str> = Vec::new();
    let result: Result<u32, &str> = t.dispatch(99, |d| match d {
        Some(name) => {
            invoked.push(*name);
            Ok(1)
        }
        None => Err("no such driver"),
    });
    assert_eq!(result, Err("no such driver"));
    assert!(invoked.is_empty());
    assert_eq!(t.dispatch(3, |d| d.is_none()), true);
    assert_eq!(t.dispatch(usize::MAX, |d| d.is_none()), true);
}

#[test]
fn dispatch_returns_what_the_closure_returns() {
    let t = table();
    assert_eq!(t.dispatch(1, |d| d.map(|name| name.len())), Some(4));
    assert_eq!(t.dispatch(7, |d| d.map(|name| name.len())), None);
}

#[test]
fn lookup_finds_drivers_by_number() {
    let t = DriverDispatchTable::new(vec![(10, 'a'), (3, 'b')]).unwrap();
    assert_eq!(t.len(), 2);
    assert_eq!(t.lookup(10), Some(&'a'));
    assert_eq!(t.lookup(3), Some(&'b'));
    assert_eq!(t.lookup(0), None);
}

#[test]
fn table_with_a_repeated_number_is_rejected() {
    assert!(DriverDispatchTable::new(vec![(0, 'a'), (1, 'b'), (0, 'c')]).is_none());
    assert!(DriverDispatchTable::new(vec![(5, 'a'), (5, 'a')]).is_none());
    assert!(DriverDispatchTable::new(vec![(0, 'a'), (1, 'a')]).is_some());
}

#[test]
fn empty_table_matches_nothing() {
    let t: DriverDispatchTable<u8> = DriverDispatchTable::new(Vec::new()).unwrap();
    assert_eq!(t.len(), 0);
    assert_eq!(t.lookup(0), None);
    assert!(t.dispatch(0, |d| d.is_none()));
}

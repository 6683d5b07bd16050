use firestorm::debug_process_status::StatusReport;
use firestorm::introspection::ProcessSnapshot;
use firestorm::text::{append_decimal, labelled};

fn decimal(n: usize) -> String {
    let mut text = String::new();
    append_decimal(&mut text, n);
    text
}

fn process(name: &str, figures: [usize; 4]) -> ProcessSnapshot {
    ProcessSnapshot {
        name: String::from(name),
        syscall_count: figures[0],
        dropped_callback_count: figures[1],
        restart_count: figures[2],
        timeslice_expiration_count: figures[3],
    }
}

#[test]
fn decimal_of_single_digits() {
    for (n, text) in ["0", "1", "2", "3", "4", "5", "6", "7", "8", "9"].iter().enumerate() {
        assert_eq!(decimal(n), *text);
    }
}

#[test]
fn decimal_has_no_leading_zeros() {
    assert_eq!(decimal(10), "10");
    assert_eq!(decimal(100), "100");
    assert_eq!(decimal(1005), "1005");
    assert_eq!(decimal(9090), "9090");
}

#[test]
fn decimal_of_large_numbers() {
    assert_eq!(decimal(1234567890), "1234567890");
    assert_eq!(decimal(4294967295), "4294967295");
    assert_eq!(decimal(usize::MAX), usize::MAX.to_string());
}

#[test]
fn append_decimal_keeps_what_was_there() {
    let mut text = String::from("n = ");
    append_decimal(&mut text, 42);
    append_decimal(&mut text, 7);
    assert_eq!(text, "n = 427");
}

#[test]
fn labelled_puts_the_label_first() {
    assert_eq!(labelled("count: ", 0), "count: 0");
    assert_eq!(labelled("", 315), "315");
    assert_eq!(labelled("    # syscalls:              ", 12), "    # syscalls:              12");
}

#[test]
fn report_without_processes_has_the_heading_only() {
    let report = StatusReport { process_count: 0, processes: Vec::new() };
    assert_eq!(
        report.lines(),
        vec!["##### APP INFORMATION #####", "  Number of processes: 0", ""]
    );
}

#[test]
fn report_has_six_lines_for_each_process() {
    let report = StatusReport {
        process_count: 2,
        processes: vec![process("blink", [12, 0, 1, 3]), process("c_hello", [1500, 27, 0, 100000])],
    };
    assert_eq!(
        report.lines(),
        vec![
            "##### APP INFORMATION #####",
            "  Number of processes: 2",
            "",
            "  app: blink",
            "    # syscalls:              12",
            "    # dropped callbacks:     0",
            "    # restarts:              1",
            "    # timeslice expirations: 3",
            "",
            "  app: c_hello",
            "    # syscalls:              1500",
            "    # dropped callbacks:     27",
            "    # restarts:              0",
            "    # timeslice expirations: 100000",
            "",
        ]
    );
}

#[test]
fn report_keeps_names_as_they_are() {
    let report = StatusReport {
        process_count: 1,
        processes: vec![process("", [0, 0, 0, 0]), process("two words: ok", [1, 2, 3, 4])],
    };
    let lines = report.lines();
    assert_eq!(lines.len(), 15);
    assert_eq!(lines[1], "  Number of processes: 1");
    assert_eq!(lines[3], "  app: ");
    assert_eq!(lines[9], "  app: two words: ok");
}

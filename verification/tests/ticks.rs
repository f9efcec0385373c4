use process_monitor::ticks::{get_total_cpu_ticks, read_total_cpu_ticks};

fn reference(line: &str) -> u64 {
    let parts: Vec<&str> = line.split_whitespace().collect();
    if parts.is_empty() || parts[0] != "cpu" {
        return 0;
    }
    let mut sum: u64 = 0;
    for value in parts.iter().skip(1).filter_map(|v| v.parse::<u64>().ok()) {
        match sum.checked_add(value) {
            Some(next) => sum = next,
            None => return 0,
        }
    }
    sum
}

#[test]
fn counters_behind_the_label_are_added() {
    assert_eq!(read_total_cpu_ticks("cpu  10 20 30 40"), 100);
    assert_eq!(
        read_total_cpu_ticks("cpu  4705 356 584 3699176 23060 0 195 0 0 0"),
        4705 + 356 + 584 + 3699176 + 23060 + 195
    );
}

#[test]
fn line_without_the_label_gives_zero() {
    assert_eq!(read_total_cpu_ticks("cpu0 10 20"), 0);
    assert_eq!(read_total_cpu_ticks("CPU 10 20"), 0);
    assert_eq!(read_total_cpu_ticks("intr 10 20"), 0);
    assert_eq!(read_total_cpu_ticks("10 cpu 20"), 0);
}

#[test]
fn empty_line_gives_zero() {
    assert_eq!(read_total_cpu_ticks(""), 0);
    assert_eq!(read_total_cpu_ticks("   \t "), 0);
}

#[test]
fn label_alone_gives_zero() {
    assert_eq!(read_total_cpu_ticks("cpu"), 0);
    assert_eq!(read_total_cpu_ticks("  cpu  "), 0);
}

#[test]
fn words_that_are_no_counter_are_passed_over() {
    assert_eq!(read_total_cpu_ticks("cpu 1 x 2 -3 4.5 +6 cpu 7"), 1 + 2 + 6 + 7);
    assert_eq!(read_total_cpu_ticks("cpu 18446744073709551616 5"), 5);
}

#[test]
fn any_white_space_separates() {
    assert_eq!(read_total_cpu_ticks("\tcpu\u{3000}1\n2\r\n3"), 6);
}

#[test]
fn largest_counter_is_read() {
    assert_eq!(read_total_cpu_ticks("cpu 18446744073709551615"), u64::MAX);
    assert_eq!(read_total_cpu_ticks("cpu 18446744073709551614 1"), u64::MAX);
}

#[test]
fn sum_beyond_a_counter_gives_zero() {
    assert_eq!(read_total_cpu_ticks("cpu 18446744073709551615 1"), 0);
    assert_eq!(read_total_cpu_ticks("cpu 18446744073709551615 18446744073709551615 18446744073709551615"), 0);
}

#[test]
fn agrees_with_splitting_and_parsing() {
    for line in [
        "cpu  1 2 3",
        "cpu",
        "",
        " cpu 00012 +4 ++4 4+ 0",
        "cpu\t9\t9",
        "cpux 1",
        "c pu 1",
        "cpu 1e3 ١٢ 12",
        "cpu 18446744073709551615 0 0",
    ] {
        assert_eq!(read_total_cpu_ticks(line), reference(line));
    }
}

#[test]
fn missing_line_gives_zero() {
    assert_eq!(get_total_cpu_ticks(None), 0);
    assert_eq!(get_total_cpu_ticks(Some("cpu 3 4")), 7);
    assert_eq!(get_total_cpu_ticks(Some("")), 0);
}

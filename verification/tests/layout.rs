use process_monitor::event::KeyEvent;
use process_monitor::layout::{
    create_layout, layout_percentages, screen_layout, screen_percentages, Area,
};
use process_monitor::record::{ProcessRecord, ProcessState};
use process_monitor::snapshot::Snapshot;
use process_monitor::state::UIState;

fn area(x: u16, y: u16, width: u16, height: u16) -> Area {
    Area { x, y, width, height }
}

fn record(pid: i32) -> ProcessRecord {
    ProcessRecord {
        pid,
        ppid: 1,
        name: format!("proc{}", pid),
        state_code: ProcessState::Running,
        state_letter: 'R',
        cpu_ticks: 1,
        virtual_memory_bytes: 1,
        resident_memory_bytes: 1,
        priority: 20,
        start_ticks: 1,
    }
}

fn state_with(n: i32) -> UIState {
    let mut state = UIState::new();
    state.refresh(Snapshot::new((0..n).map(record).collect(), 100));
    state
}

fn check_stack(whole: Area, panes: &[Area]) {
    assert_eq!(panes[0].y, whole.y);
    let last = panes[panes.len() - 1];
    assert_eq!(last.y + last.height, whole.y + whole.height);
    for pair in panes.windows(2) {
        assert!(pair[0].y <= pair[1].y);
    }
    for pane in panes {
        assert_eq!(pane.x, whole.x);
        assert_eq!(pane.width, whole.width);
        assert!(pane.y >= whole.y);
        assert!(pane.y + pane.height <= whole.y + whole.height);
    }
}

#[test]
fn area_that_can_be_split() {
    assert!(area(0, 0, 80, 24).can_split(50));
    assert!(area(0, 0, 80, 24).can_split(80));
    assert!(area(0, 0, 0, 0).can_split(100));
    assert!(area(0, 0, 100, 819).can_split(80));
    assert!(area(65535, 65535, 0, 0).can_split(80));
}

#[test]
fn area_that_cannot_be_split() {
    assert!(!area(0, 0, 100, 820).can_split(80));
    assert!(!area(0, 0, 100, 1311).can_split(50));
    assert!(!area(65535, 0, 1, 10).can_split(50));
    assert!(!area(0, 65530, 10, 6).can_split(50));
    assert!(!area(0, 0, u16::MAX, u16::MAX).can_split(2));
}

#[test]
fn layout_has_two_panes() {
    let whole = area(0, 0, 80, 24);
    let panes = create_layout(whole);
    assert_eq!(panes.len(), 2);
    check_stack(whole, &panes);
    assert!(panes[0].height > panes[1].height);
}

#[test]
fn layout_of_an_offset_area() {
    let whole = area(3, 7, 40, 50);
    let panes = create_layout(whole);
    assert_eq!(panes.len(), 2);
    check_stack(whole, &panes);
    assert_eq!(panes[0].height, 40);
    assert_eq!(panes[1], area(3, 47, 40, 10));
}

#[test]
fn layout_of_an_empty_area() {
    let whole = area(0, 0, 0, 0);
    let panes = create_layout(whole);
    assert_eq!(panes, vec![whole, whole]);
}

#[test]
fn screen_has_four_panes() {
    let whole = area(0, 0, 120, 40);
    let panes = screen_layout(whole);
    assert_eq!(panes.len(), 4);
    check_stack(whole, &panes);
    assert_eq!(panes[0], area(0, 0, 120, 4));
    assert_eq!(panes[1], area(0, 4, 120, 20));
    assert_eq!(panes[2], area(0, 24, 120, 4));
    assert_eq!(panes[3], area(0, 28, 120, 12));
}

#[test]
fn screen_of_the_largest_height() {
    let whole = area(0, 0, 10, 1310);
    let panes = screen_layout(whole);
    assert_eq!(panes.len(), 4);
    check_stack(whole, &panes);
}

#[test]
fn compose_fits_the_rows_into_the_table_pane() {
    let mut state = state_with(100);
    state.scroll_offset = 95;
    let whole = area(0, 0, 120, 40);
    let screen = state.compose(whole);
    assert_eq!(screen.table, area(0, 4, 120, 20));
    assert_eq!(screen.frame.total_rows, 100);
    assert_eq!(screen.frame.rows.len(), 18);
    assert_eq!(state.scroll_offset, 82);
    assert_eq!(screen.frame.scroll_offset, 82);
    assert_eq!(screen.frame.rows[0].record.pid, 82);
    assert_eq!(screen.frame.rows[17].record.pid, 99);
}

#[test]
fn compose_places_the_panes() {
    let mut state = state_with(3);
    assert!(state.step(Some(KeyEvent::Char('c'))));
    let whole = area(0, 0, 120, 40);
    let screen = state.compose(whole);
    assert_eq!(screen.info, area(0, 0, 120, 4));
    assert_eq!(screen.input, area(0, 24, 120, 4));
    let help = screen.help.expect("room for the help line");
    check_stack(area(0, 28, 120, 12), &[screen.output, help]);
    assert_eq!(screen.frame.input_buffer, "c");
    assert_eq!(screen.frame.rows.len(), 3);
}

#[test]
fn compose_on_a_tiny_screen_shows_no_rows() {
    let mut state = state_with(5);
    state.scroll_offset = 2;
    let screen = state.compose(area(0, 0, 10, 2));
    assert!(screen.frame.rows.is_empty());
    assert_eq!(screen.frame.total_rows, 5);
    assert!(state.scroll_offset <= 5);
}

#[test]
fn shares_of_the_layouts() {
    assert_eq!(layout_percentages(), vec![80, 20]);
    assert_eq!(screen_percentages(), vec![10, 50, 10, 30]);
}

#[test]
fn arrange_puts_each_pane_in_its_place() {
    let mut state = state_with(30);
    state.scroll_offset = 29;
    let panes = vec![area(0, 0, 9, 1), area(0, 1, 9, 7), area(0, 8, 9, 2), area(0, 10, 9, 6)];
    let parts = vec![area(0, 10, 9, 4), area(0, 14, 9, 2)];
    let screen = state.arrange(&panes, Some(&parts));
    assert_eq!(screen.info, panes[0]);
    assert_eq!(screen.table, panes[1]);
    assert_eq!(screen.input, panes[2]);
    assert_eq!(screen.output, parts[0]);
    assert_eq!(screen.help, Some(parts[1]));
    assert_eq!(screen.frame.rows.len(), 5);
    assert_eq!(state.scroll_offset, 25);
    assert_eq!(screen.frame.rows[0].record.pid, 25);
}

#[test]
fn arrange_without_a_cut_has_no_help_line() {
    let mut state = state_with(3);
    let panes = vec![area(0, 0, 9, 1), area(0, 1, 9, 7), area(0, 8, 9, 2), area(0, 10, 9, 6)];
    let screen = state.arrange(&panes, None);
    assert_eq!(screen.output, panes[3]);
    assert_eq!(screen.help, None);
    assert_eq!(screen.table, panes[1]);
    assert_eq!(screen.frame.rows.len(), 3);
}

use kanban_sim::screen::{
    card_border, imaginary_time, narrow32, progress_bar, CARD_HEIGHT, CARD_WIDTH,
};

fn lit(cells: &[bool]) -> usize {
    cells.iter().filter(|cell| **cell).count()
}

#[test]
fn bar_has_one_cell_more_than_its_width() {
    assert_eq!(progress_bar(0, 15).len(), 16);
    assert_eq!(progress_bar(0, 0).len(), 1);
    assert_eq!(progress_bar(1_000_000, u16::MAX).len(), 65_536);
}

#[test]
fn bar_fills_to_the_nearest_cell() {
    assert_eq!(lit(&progress_bar(0, 15)), 0);
    assert_eq!(lit(&progress_bar(33_333, 15)), 0);
    assert_eq!(lit(&progress_bar(33_334, 15)), 1);
    assert_eq!(lit(&progress_bar(500_000, 15)), 8);
    assert_eq!(lit(&progress_bar(250_000, 10)), 3);
    assert_eq!(lit(&progress_bar(966_667, 15)), 15);
    let cells = progress_bar(500_000, 15);
    assert!(cells[..8].iter().all(|cell| *cell));
    assert!(cells[8..].iter().all(|cell| !*cell));
}

#[test]
fn bar_of_a_finished_task_is_lit_to_the_end() {
    assert_eq!(lit(&progress_bar(1_000_000, 15)), 16);
    assert_eq!(lit(&progress_bar(999_999, 15)), 15);
    assert_eq!(lit(&progress_bar(1_000_000, 0)), 1);
}

#[test]
fn bar_outside_the_usual_range() {
    assert_eq!(lit(&progress_bar(-1, 15)), 0);
    assert_eq!(lit(&progress_bar(i64::MIN, 15)), 0);
    assert_eq!(lit(&progress_bar(2_000_000, 15)), 16);
    assert_eq!(lit(&progress_bar(i64::MAX, 3)), 4);
}

#[test]
fn border_of_the_card() {
    assert_eq!(CARD_HEIGHT, 20);
    assert_eq!(CARD_WIDTH, 90);
    assert!(card_border(0, 0));
    assert!(card_border(89, 19));
    assert!(card_border(45, 0));
    assert!(card_border(45, 19));
    assert!(card_border(0, 7));
    assert!(card_border(89, 7));
    assert!(!card_border(1, 1));
    assert!(!card_border(88, 18));
    assert!(!card_border(45, 10));
}

#[test]
fn a_second_of_ours_is_a_hundred_of_theirs() {
    assert_eq!(imaginary_time(0), (0, 0));
    assert_eq!(imaginary_time(1), (0, 2));
    assert_eq!(imaginary_time(14), (0, 23));
    assert_eq!(imaginary_time(15), (1, 1));
    assert_eq!(imaginary_time(36), (2, 12));
    assert_eq!(imaginary_time(43), (2, 24));
    assert_eq!(imaginary_time(100), (6, 23));
    assert_eq!(imaginary_time(864), (60, 0));
}

#[test]
fn time_before_the_start_counts_backwards() {
    assert_eq!(imaginary_time(-1), (0, -2));
    assert_eq!(imaginary_time(-100), (-6, -23));
}

#[test]
fn time_stops_at_the_end_of_the_range() {
    assert_eq!(imaginary_time(i64::MAX), (i32::MAX, i32::MAX));
    assert_eq!(imaginary_time(i64::MIN), (i32::MIN, i32::MIN));
    assert_eq!(narrow32(7), 7);
    assert_eq!(narrow32(i32::MAX as i128 + 1), i32::MAX);
    assert_eq!(narrow32(i32::MIN as i128 - 1), i32::MIN);
}

use wardogs_arty_buddy::board::{read_point, update_from_clip, Board, ClipUpdate};
use wardogs_arty_buddy::range::{
    board_status, field_text, format_bearing, format_delta, format_hundredths, label_points, range_label,
    BoardStatus, CoordField, FieldText,
};

fn entry(text: &str) -> FieldText {
    let reads = text.trim().parse::<f64>().map_or(false, |value| value.is_finite());
    field_text(text, reads)
}

fn status(you_x: &str, you_y: &str, enemy_x: &str, enemy_y: &str) -> BoardStatus {
    board_status(entry(you_x), entry(you_y), entry(enemy_x), entry(enemy_y))
}

#[test]
fn board_waits_for_the_first_empty_field() {
    assert_eq!(status("", "", "", ""), BoardStatus::Need(CoordField::YouX));
    assert_eq!(status("1", "2", "", "4"), BoardStatus::Need(CoordField::EnemyX));
}

#[test]
fn board_reports_the_first_bad_field() {
    assert_eq!(status("1", "nope", "3", "4"), BoardStatus::Fault(CoordField::YouY));
}

#[test]
fn a_bad_field_wins_over_an_earlier_empty_one() {
    assert_eq!(status("", "2", "x", ""), BoardStatus::Fault(CoordField::EnemyX));
    assert_eq!(status(" \t", "inf", "", ""), BoardStatus::Fault(CoordField::YouY));
}

#[test]
fn board_with_four_numbers_is_ready() {
    assert_eq!(status("0", "0", "3", "4"), BoardStatus::Ready);
    assert_eq!(status(" 1.5 ", "-2", "8", "4.25"), BoardStatus::Ready);
}

#[test]
fn field_labels() {
    assert_eq!(CoordField::YouX.label(), "Your X");
    assert_eq!(CoordField::YouY.label(), "Your Y");
    assert_eq!(CoordField::EnemyX.label(), "Target X");
    assert_eq!(CoordField::EnemyY.label(), "Target Y");
}

#[test]
fn format_drops_a_trailing_decimal_on_whole_numbers() {
    assert_eq!(format_hundredths((500.0f64 * 100.0).round() as i64), "500");
    assert_eq!(format_hundredths((141.421356f64 * 100.0).round() as i64), "141.42");
}

#[test]
fn hundredths_print_without_trailing_zeros() {
    assert_eq!(format_hundredths(0), "0");
    assert_eq!(format_hundredths(14140), "141.4");
    assert_eq!(format_hundredths(7), "0.07");
    assert_eq!(format_hundredths(-50), "-0.5");
    assert_eq!(format_hundredths(-500), "-5");
    assert_eq!(format_hundredths(i64::MIN), "-92233720368547758.08");
}

#[test]
fn deltas_always_show_their_sign() {
    assert_eq!(format_delta(false, 1250), "+12.5");
    assert_eq!(format_delta(true, 300), "-3");
    assert_eq!(format_delta(false, 0), "+0");
}

#[test]
fn range_headlines_and_their_sizes() {
    let ready = range_label(BoardStatus::Ready, 50000);
    assert_eq!(ready, "500m");
    assert_eq!(label_points(&ready), 72);
    assert_eq!(label_points("1414.21m"), 56);
    assert_eq!(label_points("12345.67m"), 56);
    assert_eq!(label_points("123456.78m"), 40);
    let waiting = range_label(BoardStatus::Need(CoordField::YouX), 0);
    assert_eq!(waiting, "STANDBY");
    assert_eq!(label_points(&waiting), 34);
    let fault = range_label(BoardStatus::Fault(CoordField::EnemyY), 0);
    assert_eq!(fault, "FAULT");
    assert_eq!(label_points(&fault), 34);
    assert_eq!(label_points(""), 34);
    assert_eq!(label_points("12mm"), 72);
}

#[test]
fn copied_points_read_as_two_numbers() {
    assert_eq!(
        read_point(" x12.34, y56.78\n"),
        Some(("12.34".to_owned(), "56.78".to_owned()))
    );
    assert_eq!(read_point("x1,y2"), Some(("1".to_owned(), "2".to_owned())));
    assert_eq!(read_point("12.34, 56.78"), None);
    assert_eq!(read_point("x1, y2, z3"), None);
    assert_eq!(read_point("x, y2"), None);
}

#[test]
fn first_copy_sets_own_then_targets() {
    match update_from_clip(false, "x1, y2") {
        Some(ClipUpdate::Own { x, y }) => assert_eq!((x.as_str(), y.as_str()), ("1", "2")),
        _ => panic!("expected own"),
    }
    match update_from_clip(true, "x1, y2") {
        Some(ClipUpdate::Target { x, y }) => assert_eq!((x.as_str(), y.as_str()), ("1", "2")),
        _ => panic!("expected target"),
    }
}

#[test]
fn board_takes_own_once_then_targets_until_cleared() {
    let mut board = Board::new();
    assert!(board.observe_clip("x12.34, y56.78"));
    assert_eq!((board.you_x(), board.you_y()), ("12.34", "56.78"));
    assert!(board.own_locked());
    assert!(!board.observe_clip("  x12.34, y56.78 "));
    board.clip_cleared();
    assert!(board.observe_clip("x15, y60"));
    assert_eq!((board.you_x(), board.you_y()), ("12.34", "56.78"));
    assert_eq!((board.enemy_x(), board.enemy_y()), ("15", "60"));
    assert!(!board.observe_clip("hello"));
    assert_eq!(board.enemy_x(), "15");
    board.clear();
    assert!(!board.own_locked());
    assert!(board.observe_clip("x1, y2"));
    assert_eq!(board.you_x(), "1");
    assert_eq!(board.enemy_x(), "");
}

#[test]
fn bearings_print_three_digits_and_a_degree_sign() {
    assert_eq!(format_bearing(90), "090\u{B0}");
    assert_eq!(format_bearing(0), "000\u{B0}");
    assert_eq!(format_bearing(7), "007\u{B0}");
    assert_eq!(format_bearing(359), "359\u{B0}");
}

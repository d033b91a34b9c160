use grid_arcade::tetris::field::{
    clear_lines, collides, full_lines, holds, points_for, row_is_full,
};
use grid_arcade::tetris::shapes::template;
use grid_arcade::tetris::Point;

fn row(y: i64, columns: std::ops::Range<i64>) -> Vec<Point> {
    columns.map(|x| Point(x, y)).collect()
}

#[test]
fn points_follow_the_table() {
    assert_eq!(points_for(0), 0);
    assert_eq!(points_for(1), 100);
    assert_eq!(points_for(2), 300);
    assert_eq!(points_for(3), 500);
    assert_eq!(points_for(4), 800);
    assert_eq!(points_for(5), 0);
}

#[test]
fn holds_finds_exactly_the_settled_cells() {
    let settled = vec![Point(3, 4), Point(0, 19), Point(-1, 2)];
    assert!(holds(&settled, Point(3, 4)));
    assert!(holds(&settled, Point(-1, 2)));
    assert!(!holds(&settled, Point(4, 3)));
    assert!(!holds(&Vec::new(), Point(0, 0)));
}

#[test]
fn collision_rule_checks_walls_floor_and_blocks() {
    let settled = vec![Point(5, 19)];
    assert!(!collides(&vec![Point(0, 0), Point(9, 19)], &settled, 10, 20));
    assert!(collides(&vec![Point(0, 0), Point(-1, 5)], &settled, 10, 20));
    assert!(collides(&vec![Point(10, 5)], &settled, 10, 20));
    assert!(collides(&vec![Point(4, 20)], &settled, 10, 20));
    assert!(collides(&vec![Point(4, 3), Point(5, 19)], &settled, 10, 20));
    assert!(!collides(&Vec::new(), &settled, 10, 20));
}

#[test]
fn rows_above_the_field_are_free() {
    let settled = vec![Point(5, 19)];
    assert!(!collides(&vec![Point(3, -1), Point(3, -7)], &settled, 10, 20));
    assert!(collides(&vec![Point(-1, -1)], &settled, 10, 20));
}

#[test]
fn full_rows_are_listed_from_the_top_down() {
    let mut settled = row(19, 0..10);
    settled.extend(row(17, 0..10));
    settled.extend(row(18, 0..9));
    settled.extend(row(20, 0..10));
    settled.extend(row(-1, 0..10));
    assert!(row_is_full(&settled, 10, 19));
    assert!(!row_is_full(&settled, 10, 18));
    assert!(row_is_full(&settled, 10, -1));
    assert_eq!(full_lines(&settled, 10, 20), vec![17, 19]);
    assert_eq!(full_lines(&Vec::new(), 10, 20), Vec::<i64>::new());
}

#[test]
fn clearing_the_bottom_row_lowers_every_row_above_it() {
    let mut settled = vec![Point(0, 0), Point(3, 7), Point(9, 18), Point(4, 18)];
    settled.extend(row(19, 0..10));
    settled.push(Point(2, 12));
    let (field, lines) = clear_lines(&settled, 10, 20);
    assert_eq!(lines, 1);
    assert_eq!(points_for(lines), 100);
    assert_eq!(
        field,
        vec![
            Point(0, 1),
            Point(3, 8),
            Point(9, 19),
            Point(4, 19),
            Point(2, 13)
        ]
    );
    assert!(field.iter().all(|p| p.1 != 0));
}

#[test]
fn clearing_nothing_leaves_the_field_as_it_is() {
    let settled = vec![Point(0, 19), Point(3, 7), Point(9, 18)];
    let (field, lines) = clear_lines(&settled, 10, 20);
    assert_eq!(lines, 0);
    assert_eq!(points_for(lines), 0);
    assert_eq!(field, settled);
}

#[test]
fn blocks_sink_by_the_number_of_full_rows_below_them() {
    // Rows 19 and 17 are full; rows 18, 16 and 10 hold one block each.
    let mut settled = vec![Point(1, 10), Point(2, 16)];
    settled.extend(row(17, 0..10));
    settled.push(Point(3, 18));
    settled.extend(row(19, 0..10));
    let (field, lines) = clear_lines(&settled, 10, 20);
    assert_eq!(lines, 2);
    assert_eq!(points_for(lines), 300);
    assert_eq!(field, vec![Point(1, 12), Point(2, 18), Point(3, 19)]);
}

#[test]
fn four_rows_at_once_score_800() {
    let mut settled = Vec::new();
    for y in 16..20 {
        settled.extend(row(y, 0..10));
    }
    settled.push(Point(5, 15));
    settled.push(Point(5, 3));
    let (field, lines) = clear_lines(&settled, 10, 20);
    assert_eq!(lines, 4);
    assert_eq!(points_for(lines), 800);
    assert_eq!(field, vec![Point(5, 19), Point(5, 7)]);
}

#[test]
fn three_rows_at_once_score_500() {
    let mut settled = Vec::new();
    for y in [5, 6, 8] {
        settled.extend(row(y, 0..10));
    }
    settled.push(Point(0, 7));
    settled.push(Point(0, 4));
    settled.push(Point(0, 9));
    let (field, lines) = clear_lines(&settled, 10, 20);
    assert_eq!(lines, 3);
    assert_eq!(points_for(lines), 500);
    assert_eq!(field, vec![Point(0, 8), Point(0, 7), Point(0, 9)]);
}

#[test]
fn blocks_beside_a_full_row_go_with_it() {
    let mut settled = row(19, 0..10);
    settled.push(Point(-1, 19));
    settled.push(Point(10, 19));
    settled.push(Point(10, 18));
    let (field, lines) = clear_lines(&settled, 10, 20);
    assert_eq!(lines, 1);
    assert_eq!(field, vec![Point(10, 19)]);
}

#[test]
fn full_rows_outside_the_field_stay() {
    let mut settled = row(20, 0..10);
    settled.extend(row(-1, 0..10));
    let (field, lines) = clear_lines(&settled, 10, 20);
    assert_eq!(lines, 0);
    assert_eq!(field, settled);
}

#[test]
fn templates_hold_four_cells_about_the_pivot() {
    assert_eq!(
        template(0),
        [Point(-1, 0), Point(0, 0), Point(0, 1), Point(1, 0)]
    );
    assert_eq!(
        template(1),
        [Point(-1, 1), Point(0, 1), Point(0, 0), Point(1, 0)]
    );
    assert_eq!(
        template(2),
        [Point(-1, 0), Point(0, 1), Point(0, 0), Point(1, 1)]
    );
    assert_eq!(
        template(3),
        [Point(-1, 0), Point(0, 0), Point(1, 0), Point(2, 0)]
    );
    assert_eq!(
        template(4),
        [Point(-1, 1), Point(-1, 0), Point(0, 0), Point(1, 0)]
    );
    assert_eq!(
        template(5),
        [Point(-1, 0), Point(0, 0), Point(1, 0), Point(1, 1)]
    );
    assert_eq!(
        template(6),
        [Point(0, 1), Point(0, 0), Point(1, 1), Point(1, 0)]
    );
    for index in 0..7 {
        assert!(template(index).contains(&Point(0, 0)));
    }
}

#[test]
fn points_add_component_wise() {
    assert_eq!(Point(3, -4) + Point(-1, 9), Point(2, 5));
    let mut p = Point(7, 7);
    p.add_assign(Point(0, 1));
    assert_eq!(p, Point(7, 8));
}

use outline_orientation::geometry::{Contour, Outline, Point};
use outline_orientation::orientation::Orientation;

fn contour(points: &[(i32, i32)]) -> Contour {
    Contour { points: points.iter().map(|&(x, y)| Point { x, y }).collect() }
}

fn outline(contours: &[&[(i32, i32)]]) -> Outline {
    Outline { contours: contours.iter().map(|points| contour(points)).collect() }
}

fn reversed(outline: &Outline) -> Outline {
    let mut result = outline.clone();
    for contour in &mut result.contours {
        contour.points.reverse();
    }
    result
}

fn scaled(outline: &Outline, sx: i32, sy: i32) -> Outline {
    let mut result = outline.clone();
    for contour in &mut result.contours {
        for point in &mut contour.points {
            point.x *= sx;
            point.y *= sy;
        }
    }
    result
}

fn translated(outline: &Outline, dx: i32, dy: i32) -> Outline {
    let mut result = outline.clone();
    for contour in &mut result.contours {
        for point in &mut contour.points {
            point.x += dx;
            point.y += dy;
        }
    }
    result
}

const UNIT_SQUARE: &[(i32, i32)] = &[(0, 0), (1, 0), (1, 1), (0, 1)];
const TRIANGLE: &[(i32, i32)] = &[(0, 0), (4, 0), (0, 3)];
const HALF_UNIT_TRIANGLE: &[(i32, i32)] = &[(0, 0), (1, 0), (0, 1)];
const HALF_UNIT_TRIANGLE_BACKWARDS: &[(i32, i32)] = &[(0, 1), (1, 0), (0, 0)];
const BIG_SQUARE: &[(i32, i32)] = &[(0, 0), (10, 0), (10, 10), (0, 10)];
const SMALL_SQUARE_BACKWARDS: &[(i32, i32)] = &[(4, 6), (6, 6), (6, 4), (4, 4)];
const BIG_SQUARE_BACKWARDS: &[(i32, i32)] = &[(0, 10), (10, 10), (10, 0), (0, 0)];
const SMALL_SQUARE: &[(i32, i32)] = &[(4, 4), (6, 4), (6, 6), (4, 6)];

#[test]
fn outline_without_contours_is_counterclockwise() {
    assert_eq!(Orientation::from_outline(&outline(&[])), Orientation::Ccw);
}

#[test]
fn contour_without_points_is_skipped() {
    assert_eq!(Orientation::from_outline(&outline(&[&[]])), Orientation::Ccw);
    assert_eq!(Orientation::from_outline(&outline(&[&[], UNIT_SQUARE, &[]])), Orientation::Cw);
}

#[test]
fn contours_of_at_most_one_point_are_counterclockwise() {
    let single_points = outline(&[&[], &[(5, 7)], &[], &[(-3, 9)], &[(i32::MAX, i32::MIN)]]);
    assert_eq!(Orientation::from_outline(&single_points), Orientation::Ccw);
}

#[test]
fn contour_of_two_points_encloses_nothing() {
    assert_eq!(Orientation::from_outline(&outline(&[&[(0, 0), (5, 5)]])), Orientation::Ccw);
    assert_eq!(Orientation::from_outline(&outline(&[&[(1, 2), (3, 4)]])), Orientation::Ccw);
    assert_eq!(Orientation::from_outline(&outline(&[&[(3, 4), (1, 2)]])), Orientation::Ccw);
}

#[test]
fn unit_square_is_clockwise() {
    // The edges add 0 + 0 + 1 + 1 = 2.
    assert_eq!(Orientation::from_outline(&outline(&[UNIT_SQUARE])), Orientation::Cw);
}

#[test]
fn unit_square_backwards_is_counterclockwise() {
    let backwards = outline(&[&[(0, 1), (1, 1), (1, 0), (0, 0)]]);
    assert_eq!(Orientation::from_outline(&backwards), Orientation::Ccw);
}

#[test]
fn starting_point_does_not_matter() {
    assert_eq!(
        Orientation::from_outline(&outline(&[&[(1, 1), (0, 1), (0, 0), (1, 0)]])),
        Orientation::Cw
    );
    assert_eq!(
        Orientation::from_outline(&outline(&[&[(1, 0), (0, 0), (0, 1), (1, 1)]])),
        Orientation::Ccw
    );
}

#[test]
fn triangle_is_clockwise() {
    // The edges add 0 + 0 + 12.
    assert_eq!(Orientation::from_outline(&outline(&[TRIANGLE])), Orientation::Cw);
}

#[test]
fn collinear_points_enclose_nothing() {
    let line = outline(&[&[(0, 0), (1, 1), (2, 2), (3, 3)]]);
    assert_eq!(Orientation::from_outline(&line), Orientation::Ccw);
    assert_eq!(Orientation::from_outline(&reversed(&line)), Orientation::Ccw);
}

#[test]
fn reversing_every_contour_turns_the_winding_around() {
    for shape in [UNIT_SQUARE, TRIANGLE, BIG_SQUARE, SMALL_SQUARE_BACKWARDS] {
        let forwards = outline(&[shape]);
        let backwards = reversed(&forwards);
        assert_ne!(Orientation::from_outline(&forwards), Orientation::from_outline(&backwards));
        assert_eq!(Orientation::from_outline(&reversed(&backwards)), Orientation::from_outline(&forwards));
    }
    let ring = outline(&[BIG_SQUARE, SMALL_SQUARE_BACKWARDS]);
    assert_eq!(Orientation::from_outline(&ring), Orientation::Cw);
    assert_eq!(Orientation::from_outline(&reversed(&ring)), Orientation::Ccw);
}

#[test]
fn scaling_by_a_positive_factor_keeps_the_winding() {
    let triangle = outline(&[TRIANGLE]);
    for factor in [1, 2, 3, 1000] {
        assert_eq!(Orientation::from_outline(&scaled(&triangle, factor, factor)), Orientation::Cw);
        assert_eq!(
            Orientation::from_outline(&scaled(&reversed(&triangle), factor, factor)),
            Orientation::Ccw
        );
    }
}

#[test]
fn scaling_by_a_negative_factor_is_a_half_turn() {
    let square = outline(&[UNIT_SQUARE]);
    assert_eq!(scaled(&square, -1, -1), outline(&[&[(0, 0), (-1, 0), (-1, -1), (0, -1)]]));
    assert_eq!(Orientation::from_outline(&scaled(&square, -1, -1)), Orientation::Cw);
    assert_eq!(Orientation::from_outline(&scaled(&reversed(&square), -7, -7)), Orientation::Ccw);
}

#[test]
fn flipping_one_axis_turns_the_winding_around() {
    let square = outline(&[UNIT_SQUARE]);
    assert_eq!(Orientation::from_outline(&scaled(&square, -1, 1)), Orientation::Ccw);
    assert_eq!(Orientation::from_outline(&scaled(&square, 1, -1)), Orientation::Ccw);
    assert_eq!(Orientation::from_outline(&scaled(&reversed(&square), -2, 3)), Orientation::Cw);
}

#[test]
fn scaling_by_zero_encloses_nothing() {
    assert_eq!(Orientation::from_outline(&scaled(&outline(&[TRIANGLE]), 0, 0)), Orientation::Ccw);
}

#[test]
fn moving_an_outline_keeps_the_winding() {
    let square = outline(&[UNIT_SQUARE]);
    for (dx, dy) in [(100, -50), (-1, -1), (0, 7), (1_000_000, 1_000_000), (-2_000_000_000, 2_000_000_000)] {
        assert_eq!(Orientation::from_outline(&translated(&square, dx, dy)), Orientation::Cw);
        assert_eq!(
            Orientation::from_outline(&translated(&reversed(&square), dx, dy)),
            Orientation::Ccw
        );
    }
}

#[test]
fn contours_are_classified_by_their_sum() {
    // 200 - 8: the hole is counterclockwise, the whole is not.
    let ring = outline(&[BIG_SQUARE, SMALL_SQUARE_BACKWARDS]);
    assert_eq!(Orientation::from_outline(&outline(&[BIG_SQUARE])), Orientation::Cw);
    assert_eq!(Orientation::from_outline(&outline(&[SMALL_SQUARE_BACKWARDS])), Orientation::Ccw);
    assert_eq!(Orientation::from_outline(&ring), Orientation::Cw);
    assert_eq!(
        Orientation::from_outline(&outline(&[SMALL_SQUARE_BACKWARDS, BIG_SQUARE])),
        Orientation::Cw
    );
    // 8 - 200: the hole is clockwise, the whole is not.
    assert_eq!(Orientation::from_outline(&outline(&[SMALL_SQUARE])), Orientation::Cw);
    assert_eq!(
        Orientation::from_outline(&outline(&[BIG_SQUARE_BACKWARDS, SMALL_SQUARE])),
        Orientation::Ccw
    );
    assert_eq!(
        Orientation::from_outline(&outline(&[SMALL_SQUARE, BIG_SQUARE_BACKWARDS])),
        Orientation::Ccw
    );
}

#[test]
fn contours_that_cancel_are_counterclockwise() {
    // 1 - 1 = 0, 2 - 1 = 1, 1 - 2 = -1.
    assert_eq!(Orientation::from_outline(&outline(&[HALF_UNIT_TRIANGLE])), Orientation::Cw);
    assert_eq!(
        Orientation::from_outline(&outline(&[HALF_UNIT_TRIANGLE, HALF_UNIT_TRIANGLE_BACKWARDS])),
        Orientation::Ccw
    );
    assert_eq!(
        Orientation::from_outline(&outline(&[UNIT_SQUARE, HALF_UNIT_TRIANGLE_BACKWARDS])),
        Orientation::Cw
    );
    assert_eq!(
        Orientation::from_outline(&outline(&[
            HALF_UNIT_TRIANGLE,
            &[(0, 1), (1, 1), (1, 0), (0, 0)]
        ])),
        Orientation::Ccw
    );
}

#[test]
fn joined_outlines_add_up() {
    let mut joined = outline(&[BIG_SQUARE_BACKWARDS]);
    for _ in 0..24 {
        joined.contours.push(contour(SMALL_SQUARE));
    }
    // 24 * 8 - 200 < 0.
    assert_eq!(Orientation::from_outline(&joined), Orientation::Ccw);
    joined.contours.push(contour(SMALL_SQUARE));
    // 25 * 8 - 200 = 0.
    assert_eq!(Orientation::from_outline(&joined), Orientation::Ccw);
    joined.contours.push(contour(SMALL_SQUARE));
    // 26 * 8 - 200 > 0.
    assert_eq!(Orientation::from_outline(&joined), Orientation::Cw);
}

#[test]
fn classifying_twice_gives_the_same_answer() {
    for shape in [UNIT_SQUARE, SMALL_SQUARE_BACKWARDS, &[(0, 0), (5, 5)]] {
        let subject = outline(&[shape]);
        let before = subject.clone();
        let first = Orientation::from_outline(&subject);
        let second = Orientation::from_outline(&subject);
        assert_eq!(first, second);
        assert_eq!(subject, before);
    }
}

#[test]
fn largest_square_does_not_overflow() {
    // Twice the area is 2 * (2^32 - 1)^2, more than 64 bits hold.
    let square = outline(&[&[
        (i32::MIN, i32::MIN),
        (i32::MAX, i32::MIN),
        (i32::MAX, i32::MAX),
        (i32::MIN, i32::MAX),
    ]]);
    assert_eq!(Orientation::from_outline(&square), Orientation::Cw);
    assert_eq!(Orientation::from_outline(&reversed(&square)), Orientation::Ccw);
}

#[test]
fn many_large_contours_do_not_overflow() {
    let square: &[(i32, i32)] = &[
        (i32::MIN, i32::MIN),
        (i32::MAX, i32::MIN),
        (i32::MAX, i32::MAX),
        (i32::MIN, i32::MAX),
    ];
    let mut subject = outline(&[]);
    for _ in 0..1000 {
        subject.contours.push(contour(square));
    }
    assert_eq!(Orientation::from_outline(&subject), Orientation::Cw);
    let mut backwards = reversed(&subject);
    assert_eq!(Orientation::from_outline(&backwards), Orientation::Ccw);
    // 1000 squares one way and 1000 the other enclose nothing; one unit square more tips it.
    backwards.contours.extend(subject.contours.iter().cloned());
    assert_eq!(Orientation::from_outline(&backwards), Orientation::Ccw);
    backwards.contours.push(contour(UNIT_SQUARE));
    assert_eq!(Orientation::from_outline(&backwards), Orientation::Cw);
}

#[test]
fn sign_is_minus_one_for_counterclockwise_and_one_for_clockwise() {
    assert_eq!(Orientation::Ccw.sign(), -1);
    assert_eq!(Orientation::Cw.sign(), 1);
    assert_eq!(Orientation::from_outline(&outline(&[UNIT_SQUARE])).sign(), 1);
    assert_eq!(Orientation::from_outline(&outline(&[])).sign(), -1);
}

use runty8::draw;
use runty8::draw::{line_len, line_point_at, LineIter};

fn sorted(mut points: Vec<(i32, i32)>) -> Vec<(i32, i32)> {
    points.sort();
    points
}

#[test]
fn line_of_no_length_is_one_point() {
    assert_eq!(draw::line(5, 7, 5, 7), vec![(5, 7)]);
    assert_eq!(draw::line(-3, 0, -3, 0), vec![(-3, 0)]);
    assert_eq!(line_len(5, 7, 5, 7), 1);
}

#[test]
fn horizontal_and_vertical_lines() {
    assert_eq!(draw::line(0, 0, 3, 0), vec![(0, 0), (1, 0), (2, 0), (3, 0)]);
    assert_eq!(draw::line(2, 5, 2, 2), vec![(2, 5), (2, 4), (2, 3), (2, 2)]);
}

#[test]
fn diagonal_lines() {
    assert_eq!(draw::line(0, 0, 3, 3), vec![(0, 0), (1, 1), (2, 2), (3, 3)]);
    assert_eq!(draw::line(3, 0, 0, 3), vec![(3, 0), (2, 1), (1, 2), (0, 3)]);
    assert_eq!(draw::line(-1, -1, -3, -3), vec![(-1, -1), (-2, -2), (-3, -3)]);
}

#[test]
fn shallow_and_steep_lines() {
    assert_eq!(draw::line(0, 0, 3, 1), vec![(0, 0), (1, 0), (2, 1), (3, 1)]);
    assert_eq!(draw::line(0, 0, 1, 3), vec![(0, 0), (0, 1), (1, 2), (1, 3)]);
    assert_eq!(draw::line(0, 0, 2, 1), vec![(0, 0), (1, 1), (2, 1)]);
    assert_eq!(draw::line(0, 0, 4, -2), vec![(0, 0), (1, 0), (2, -1), (3, -1), (4, -2)]);
}

#[test]
fn reversed_line_has_the_same_points() {
    let cases = [
        (0, 0, 3, 1),
        (0, 0, 2, 1),
        (0, 0, 7, 3),
        (5, 9, -4, 2),
        (-3, 8, 6, -11),
        (0, 0, 10, 5),
        (1, 1, 2, 100),
        (0, 0, 0, 0),
    ];
    for (x0, y0, x1, y1) in cases {
        let forward = draw::line(x0, y0, x1, y1);
        let mut backward = draw::line(x1, y1, x0, y0);
        assert_eq!(sorted(forward.clone()), sorted(backward.clone()));
        backward.reverse();
        assert_eq!(forward, backward);
    }
}

#[test]
fn line_has_both_ends_once_and_no_point_twice() {
    let cases = [(0, 0, 9, 0), (0, 0, 0, 9), (0, 0, 9, 9), (9, 0, 0, 9), (2, 3, 11, 7)];
    for (x0, y0, x1, y1) in cases {
        let points = draw::line(x0, y0, x1, y1);
        assert_eq!(points[0], (x0, y0));
        assert_eq!(points[points.len() - 1], (x1, y1));
        assert_eq!(points.iter().filter(|p| **p == (x0, y0)).count(), 1);
        assert_eq!(points.iter().filter(|p| **p == (x1, y1)).count(), 1);
        let mut unique = sorted(points.clone());
        unique.dedup();
        assert_eq!(unique.len(), points.len());
    }
}

#[test]
fn points_can_be_had_one_by_one() {
    let points = draw::line(2, 3, 11, 7);
    assert_eq!(line_len(2, 3, 11, 7), 10);
    for (i, point) in points.iter().enumerate() {
        assert_eq!(line_point_at(2, 3, 11, 7, i as u64), *point);
    }
}

#[test]
fn line_across_the_whole_range_of_coordinates() {
    assert_eq!(line_len(i32::MIN, 0, i32::MAX, 0), 1u64 << 32);
    assert_eq!(line_point_at(i32::MIN, 0, i32::MAX, 1, 0), (i32::MIN, 0));
    assert_eq!(line_point_at(i32::MIN, 0, i32::MAX, 1, u32::MAX as u64), (i32::MAX, 1));
    assert_eq!(line_point_at(i32::MIN, i32::MAX, i32::MAX, i32::MIN, 1), (i32::MIN + 1, i32::MAX - 1));
}

fn walked(mut walk: LineIter) -> Vec<(i32, i32)> {
    let mut points = vec![];
    loop {
        match walk.next() {
            Some(point) => points.push(point),
            None => return points,
        }
    }
}

#[test]
fn walk_gives_the_points_one_by_one() {
    let mut walk = LineIter::new(0, 0, 3, 1);
    assert_eq!(walk.next(), Some((0, 0)));
    assert_eq!(walk.next(), Some((1, 0)));
    assert_eq!(walk.next(), Some((2, 1)));
    assert_eq!(walk.next(), Some((3, 1)));
    assert_eq!(walk.next(), None);
    assert_eq!(walk.next(), None);
}

#[test]
fn walk_of_no_length_gives_one_point() {
    let mut walk = LineIter::new(4, -4, 4, -4);
    assert_eq!(walk.next(), Some((4, -4)));
    assert_eq!(walk.next(), None);
}

#[test]
fn walk_can_be_started_again() {
    let start = LineIter::new(7, 2, -5, 9);
    let mut first = start;
    assert_eq!(first.next(), Some((7, 2)));
    assert_eq!(first.next(), Some((6, 3)));
    let rest = walked(first);
    let all = walked(start);
    assert_eq!(all.len(), 13);
    assert_eq!(all[..2], [(7, 2), (6, 3)]);
    assert_eq!(all[2..], rest[..]);
    assert_eq!(walked(start), all);
}

#[test]
fn walk_and_list_and_single_points_agree() {
    let cases = [
        (0, 0, 0, 0),
        (0, 0, 17, 5),
        (0, 0, 5, 17),
        (3, -8, -20, 40),
        (-9, 9, 9, -9),
        (100, 1, 0, 0),
        (0, 0, 2, 1),
        (2, 1, 0, 0),
        (0, 0, 1, 2),
        (10, 10, 4, 7),
    ];
    for (x0, y0, x1, y1) in cases {
        let points = walked(LineIter::new(x0, y0, x1, y1));
        assert_eq!(points, draw::line(x0, y0, x1, y1));
        for (i, point) in points.iter().enumerate() {
            assert_eq!(line_point_at(x0, y0, x1, y1, i as u64), *point);
        }
    }
}

#[test]
fn walk_near_the_ends_of_the_coordinates() {
    let mut walk = LineIter::new(i32::MAX - 2, i32::MIN, i32::MAX, i32::MIN + 1);
    assert_eq!(walk.next(), Some((i32::MAX - 2, i32::MIN)));
    assert_eq!(walk.next(), Some((i32::MAX - 1, i32::MIN + 1)));
    assert_eq!(walk.next(), Some((i32::MAX, i32::MIN + 1)));
    assert_eq!(walk.next(), None);
    let mut long = LineIter::new(i32::MIN, i32::MAX, i32::MAX, i32::MIN);
    assert_eq!(long.next(), Some((i32::MIN, i32::MAX)));
    assert_eq!(long.next(), Some((i32::MIN + 1, i32::MAX - 1)));
}

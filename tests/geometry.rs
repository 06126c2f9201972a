use culiacan_sim::geometry::{dist_sq, distance, isqrt, step_toward, Point};

#[test]
fn isqrt_exact_values() {
    assert_eq!(isqrt(0), 0);
    assert_eq!(isqrt(1), 1);
    assert_eq!(isqrt(15), 3);
    assert_eq!(isqrt(16), 4);
    assert_eq!(isqrt(17), 4);
    assert_eq!(isqrt(u64::MAX), 4_294_967_295);
}

#[test]
fn distance_of_three_four_five() {
    let a = Point { x: 0, y: 0 };
    let b = Point { x: 3000, y: 4000 };
    assert_eq!(dist_sq(a, b), 25_000_000);
    assert_eq!(distance(a, b), 5000);
}

#[test]
fn step_toward_moves_along_the_line() {
    let from = Point { x: 0, y: 0 };
    let to = Point { x: 30_000, y: 40_000 };
    assert_eq!(step_toward(from, to, 5_000), Point { x: 3_000, y: 4_000 });
    assert_eq!(step_toward(from, to, 50_000), to);
    assert_eq!(step_toward(from, to, 80_000), to);
    let back = step_toward(to, from, 5_000);
    assert_eq!(back, Point { x: 27_000, y: 36_000 });
}

#[test]
fn step_toward_same_point_stays() {
    let p = Point { x: 123, y: -456 };
    assert_eq!(step_toward(p, p, 1_000), p);
}

#[test]
fn point_from_units_scales() {
    assert_eq!(Point::from_units(-300, 200), Point { x: -300_000, y: 200_000 });
}

use mandelbrot::escape::EscapeTracker;
use num_complex::Complex;

fn in_set(c: Complex<f64>, depth: usize) -> (bool, usize) {
    let mut tracker = EscapeTracker::new(depth);
    let mut z = Complex::new(0.0, 0.0);
    let mut steps = 0;
    while tracker.needs_more() {
        z = z.powu(2) + c;
        tracker.observe(z.norm() > 2.0);
        steps += 1;
    }
    (tracker.in_set(), steps)
}

#[test]
fn depth_zero_keeps_every_point() {
    for c in [Complex::new(0.0, 0.0), Complex::new(3.0, 0.0), Complex::new(-100.0, 55.5)] {
        assert_eq!(in_set(c, 0), (true, 0));
    }
}

#[test]
fn origin_is_in_the_set_at_any_depth() {
    for depth in [0usize, 1, 2, 10, 64, 1000] {
        assert_eq!(in_set(Complex::new(0.0, 0.0), depth), (true, depth));
    }
}

#[test]
fn three_escapes_at_depth_one() {
    assert_eq!(in_set(Complex::new(3.0, 0.0), 1), (false, 1));
}

#[test]
fn escape_stops_the_orbit_early() {
    assert_eq!(in_set(Complex::new(3.0, 0.0), 64), (false, 1));
    // c = 1: 1, 2, 5: escapes at the third term
    assert_eq!(in_set(Complex::new(1.0, 0.0), 2), (true, 2));
    assert_eq!(in_set(Complex::new(1.0, 0.0), 3), (false, 3));
}

#[test]
fn escaping_is_for_good() {
    let c = Complex::new(0.5, 0.5);
    let mut escaped_at = None;
    for depth in 0..200usize {
        let (inside, _) = in_set(c, depth);
        if let Some(d) = escaped_at {
            assert!(!inside, "escaped at {} but in the set at {}", d, depth);
        } else if !inside {
            escaped_at = Some(depth);
        }
    }
    assert!(escaped_at.is_some());
}

#[test]
fn boundary_magnitude_two_does_not_escape() {
    // c = -2: 0, -2, 2, 2, ...: magnitude exactly 2, never above
    assert_eq!(in_set(Complex::new(-2.0, 0.0), 50), (true, 50));
}

#[test]
fn observed_answers_decide_the_decision() {
    let mut t = EscapeTracker::new(3);
    assert!(t.needs_more());
    t.observe(false);
    assert!(t.needs_more());
    assert!(t.in_set());
    t.observe(true);
    assert!(!t.needs_more());
    assert!(!t.in_set());
}

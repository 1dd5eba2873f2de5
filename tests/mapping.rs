use mandelbrot::plane::{c_from_coords, PlanePoint};

fn as_f64(p: PlanePoint) -> (f64, f64) {
    (p.re_num as f64 / p.den as f64, p.im_num as f64 / p.den as f64)
}

#[test]
fn tall_picture_uses_width_as_scale() {
    // h >= w: re = 4 (x / w - 1/2), im = (2 / w) (h - 2 y)
    let p = c_from_coords(1, 3, 4, 8);
    assert_eq!(p, PlanePoint { re_num: -4, im_num: 4, den: 4 });
    assert_eq!(as_f64(p), (-1.0, 1.0));
}

#[test]
fn wide_picture_uses_height_as_scale() {
    // h < w: re = (2 / h) (2 x - w), im = 4 (y / h - 1/2)
    let p = c_from_coords(7, 1, 8, 4);
    assert_eq!(p, PlanePoint { re_num: 12, im_num: -4, den: 4 });
    assert_eq!(as_f64(p), (3.0, -1.0));
}

#[test]
fn corners_of_a_square_picture() {
    assert_eq!(as_f64(c_from_coords(0, 0, 100, 100)), (-2.0, 2.0));
    assert_eq!(as_f64(c_from_coords(50, 50, 100, 100)), (0.0, 0.0));
    assert_eq!(as_f64(c_from_coords(99, 99, 100, 100)), (1.96, -1.96));
}

#[test]
fn same_arguments_same_point() {
    for &(x, y, w, h) in &[(0u32, 0u32, 1u32, 1u32), (17, 3, 640, 480), (5, 900, 1080, 1920)] {
        let a = as_f64(c_from_coords(x, y, w, h));
        let b = as_f64(c_from_coords(x, y, w, h));
        assert_eq!(a.0.to_bits(), b.0.to_bits());
        assert_eq!(a.1.to_bits(), b.1.to_bits());
    }
}

#[test]
fn square_picture_is_mirrored_about_its_centre() {
    let n = 10u32;
    for y in 0..n {
        for x in 0..n {
            let p = c_from_coords(x, y, n, n);
            let q = c_from_coords(n - 1 - x, y, n, n);
            assert_eq!(p.re_num + q.re_num, -4);
            assert_eq!(p.im_num, q.im_num);
            assert_eq!(p.den, q.den);
        }
    }
    // from the left pixel edges, x and n - x are exact opposites
    assert_eq!(c_from_coords(3, 0, n, n).re_num, -c_from_coords(7, 0, n, n).re_num);
}

#[test]
fn one_pixel_picture() {
    assert_eq!(c_from_coords(0, 0, 1, 1), PlanePoint { re_num: -2, im_num: 2, den: 1 });
}

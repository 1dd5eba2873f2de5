//! The picture: one pixel per point, white for the points in the set and
//! black for those that escape, held in an RGB image of the `image` crate.
use vstd::prelude::*;
use image::RgbImage;
use crate::plane::{c_from_coords, point_of, PlanePoint};

verus! {

/// An RGB image of the `image` crate. Verus sees it only through
/// `picture_pixels` and the functions below.
#[verifier::external_body]
pub struct Picture {
    pub image: RgbImage,
}

/// What a picture holds: its rows from the top, each row its pixels from the
/// left, each pixel its red, green and blue channels.
pub uninterp spec fn picture_pixels(p: Picture) -> Seq<Seq<Seq<u8>>>;

/// A `w` by `h` grid whose every pixel is `rgb`.
pub open spec fn uniform_grid(w: nat, h: nat, rgb: Seq<u8>) -> Seq<Seq<Seq<u8>>> {
    Seq::new(h, |y: int| Seq::new(w, |x: int| rgb))
}

/// The colour of a point: white when it is in the set, black otherwise.
pub open spec fn color_of(in_set: bool) -> Seq<u8> {
    if in_set {
        seq![255u8, 255u8, 255u8]
    } else {
        seq![0u8, 0u8, 0u8]
    }
}

/// Relies on image::ImageBuffer::new: a `w` by `h` image whose channels are
/// all zero. It allocates `3 * w * h` bytes, and panics where that count
/// overflows.
#[verifier::external_body]
fn blank_picture(w: u32, h: u32) -> (img: Picture)
    requires
        3 * (w as int) * (h as int) <= isize::MAX,
    ensures
        picture_pixels(img) == uniform_grid(w as nat, h as nat, seq![0u8, 0u8, 0u8]),
{
    Picture { image: RgbImage::new(w, h) }
}

/// Relies on image::ImageBuffer::put_pixel: pixel `(x, y)` becomes `rgb` and
/// every other pixel stays. It panics outside the image.
#[verifier::external_body]
fn put_rgb(img: &mut Picture, x: u32, y: u32, rgb: [u8; 3])
    requires
        y < picture_pixels(*old(img)).len(),
        x < picture_pixels(*old(img))[y as int].len(),
    ensures
        picture_pixels(*final(img)) == picture_pixels(*old(img)).update(
            y as int,
            picture_pixels(*old(img))[y as int].update(x as int, rgb@),
        ),
{
    img.image.put_pixel(x, y, image::Rgb(rgb))
}

/// The colour of a pixel whose point is in the set (`in_set`) or not.
pub fn pixel_color(in_set: bool) -> (rgb: [u8; 3])
    ensures
        rgb@ == color_of(in_set),
{
    let rgb: [u8; 3] = if in_set { [255, 255, 255] } else { [0, 0, 0] };
    assert(rgb@ =~= color_of(in_set));
    rgb
}

/// True when `pixels` is a `w` by `h` grid whose pixel `(x, y)` has the
/// colour of `members[y * w + x]`.
pub open spec fn shows(pixels: Seq<Seq<Seq<u8>>>, w: int, h: int, members: Seq<bool>) -> bool {
    &&& pixels.len() == h
    &&& forall|y: int| 0 <= y < h ==> (#[trigger] pixels[y]).len() == w
    &&& forall|x: int, y: int|
        0 <= x < w && 0 <= y < h ==> #[trigger] pixels[y][x] == color_of(members[y * w + x])
}

/// The picture of a `w` by `h` window, from whether each pixel's point is in
/// the set, given row by row from the top, each row from the left.
pub fn render(w: u32, h: u32, members: &Vec<bool>) -> (img: Picture)
    requires
        members.len() == (w as int) * (h as int),
        3 * (w as int) * (h as int) <= isize::MAX,
    ensures
        shows(picture_pixels(img), w as int, h as int, members@),
{
    let mut img = blank_picture(w, h);
    let ghost blank = seq![0u8, 0u8, 0u8];
    let mut y: u32 = 0;
    let mut i: usize = 0;
    while y < h
        invariant
            y <= h,
            i == (y as int) * (w as int),
            members.len() == (w as int) * (h as int),
            picture_pixels(img).len() == h,
            forall|r: int| 0 <= r < h ==> (#[trigger] picture_pixels(img)[r]).len() == w,
            forall|c: int, r: int|
                0 <= c < w && 0 <= r < y ==> #[trigger] picture_pixels(img)[r][c] == color_of(
                    members@[r * w + c],
                ),
            forall|c: int, r: int|
                0 <= c < w && y <= r < h ==> #[trigger] picture_pixels(img)[r][c] == blank,
        decreases h - y,
    {
        let mut x: u32 = 0;
        while x < w
            invariant
                y < h,
                x <= w,
                i == (y as int) * (w as int) + x,
                members.len() == (w as int) * (h as int),
                picture_pixels(img).len() == h,
                forall|r: int| 0 <= r < h ==> (#[trigger] picture_pixels(img)[r]).len() == w,
                forall|c: int, r: int|
                    0 <= c < w && 0 <= r < y ==> #[trigger] picture_pixels(img)[r][c] == color_of(
                        members@[r * w + c],
                    ),
                forall|c: int| 0 <= c < x ==> #[trigger] picture_pixels(img)[y as int][c] == color_of(
                    members@[y * w + c],
                ),
                forall|c: int, r: int|
                    0 <= c < w && y < r < h ==> #[trigger] picture_pixels(img)[r][c] == blank,
                forall|c: int| x <= c < w ==> #[trigger] picture_pixels(img)[y as int][c] == blank,
            decreases w - x,
        {
            proof {
                assert((y as int) * (w as int) + x < (h as int) * (w as int)) by (nonlinear_arith)
                    requires y < h, x < w;
            }
            let rgb = pixel_color(members[i]);
            put_rgb(&mut img, x, y, rgb);
            x = x + 1;
            i = i + 1;
        }
        proof {
            assert((y as int + 1) * (w as int) == (y as int) * (w as int) + w) by (nonlinear_arith);
        }
        y = y + 1;
    }
    img
}

/// The picture of a `w` by `h` window: every pixel `(x, y)`, row by row from
/// the top and each row from the left, is white or black as `in_set` decides
/// for the point that the pixel stands for.
pub fn picture_of<F: Fn(PlanePoint) -> bool>(w: u32, h: u32, in_set: F) -> (img: Picture)
    requires
        3 * (w as int) * (h as int) <= isize::MAX,
        forall|p: PlanePoint| #[trigger] in_set.requires((p,)),
    ensures
        exists|members: Seq<bool>|
            {
                &&& shows(picture_pixels(img), w as int, h as int, members)
                &&& members.len() == (w as int) * (h as int)
                &&& forall|x: int, y: int|
                    0 <= x < w && 0 <= y < h ==> in_set.ensures(
                        (point_of(x, y, w as int, h as int),),
                        #[trigger] members[y * w + x],
                    )
            },
{
    let mut members: Vec<bool> = Vec::new();
    let mut y: u32 = 0;
    while y < h
        invariant
            y <= h,
            members.len() == (y as int) * (w as int),
            forall|p: PlanePoint| #[trigger] in_set.requires((p,)),
            forall|x: int, r: int|
                0 <= x < w && 0 <= r < y ==> in_set.ensures(
                    (point_of(x, r, w as int, h as int),),
                    #[trigger] members@[r * w + x],
                ),
        decreases h - y,
    {
        let mut x: u32 = 0;
        while x < w
            invariant
                y < h,
                x <= w,
                members.len() == (y as int) * (w as int) + x,
                forall|p: PlanePoint| #[trigger] in_set.requires((p,)),
                forall|c: int, r: int|
                    0 <= c < w && 0 <= r < y ==> in_set.ensures(
                        (point_of(c, r, w as int, h as int),),
                        #[trigger] members@[r * w + c],
                    ),
                forall|c: int|
                    0 <= c < x ==> in_set.ensures(
                        (point_of(c, y as int, w as int, h as int),),
                        #[trigger] members@[y * w + c],
                    ),
            decreases w - x,
        {
            let inside = in_set(c_from_coords(x, y, w, h));
            let ghost before = members@;
            members.push(inside);
            proof {
                assert forall|c: int, r: int|
                    0 <= c < w && 0 <= r < y implies in_set.ensures(
                        (point_of(c, r, w as int, h as int),),
                        #[trigger] members@[r * w + c],
                    ) by {
                    assert(r * w + c < y * w) by (nonlinear_arith)
                        requires 0 <= c < w, 0 <= r < y;
                    assert(members@[r * w + c] == before[r * w + c]);
                }
                assert forall|c: int|
                    0 <= c < x + 1 implies in_set.ensures(
                        (point_of(c, y as int, w as int, h as int),),
                        #[trigger] members@[y * w + c],
                    ) by {
                    if c < x {
                        assert(members@[y * w + c] == before[y * w + c]);
                    }
                }
            }
            x = x + 1;
        }
        proof {
            assert((y as int + 1) * (w as int) == (y as int) * (w as int) + w) by (nonlinear_arith);
        }
        y = y + 1;
    }
    proof {
        assert((h as int) * (w as int) == (w as int) * (h as int)) by (nonlinear_arith);
    }
    render(w, h, &members)
}

} // verus!

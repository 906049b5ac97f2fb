//! Rasterizing: one color per pixel of a square image, laid out in an
//! `image::RgbImage`.
//!
//! Pixel `(x, y)` of an image of resolution `n` stands for the point of the
//! plane at fraction `(x / n, y / n)` of the viewport. Its orbit's escape flags
//! are computed by the caller and passed in row by row: pixel `(x, y)` is
//! entry `y * n + x`.
use vstd::prelude::*;
use image::{ImageBuffer, Rgb, RgbImage};
use crate::color::{color_map, color_of, palette_complete, pixel_color, shade_of, Color};
use crate::escape::{mandelbrot_escape_time, escape_time_of, lemma_escape_time_exact};

verus! {

/// An RGB image of 8-bit samples, held in an `image::RgbImage`.
#[verifier::external_body]
pub struct Raster {
    image: RgbImage,
}

/// The width of an image, in pixels.
pub uninterp spec fn image_width(img: Raster) -> nat;

/// The height of an image, in pixels.
pub uninterp spec fn image_height(img: Raster) -> nat;

/// The samples of an image: three per pixel (red, green, blue), pixels row
/// by row, pixel `(x, y)` at `3 * (y * width + x)`.
pub uninterp spec fn image_samples(img: Raster) -> Seq<u8>;

/// Relies on `image::ImageBuffer::new`: a `width` by `height` image whose
/// `3 * width * height` samples are all zero. It computes that count as
/// `3 * width`, then times `height`, and panics when either product
/// overflows `usize`.
#[verifier::external_body]
fn new_image(width: u32, height: u32) -> (img: Raster)
    requires
        3 * (width as nat) <= usize::MAX,
        3 * ((width as nat) * (height as nat)) <= usize::MAX,
    ensures
        image_width(img) == width as nat,
        image_height(img) == height as nat,
        image_samples(img) == Seq::new(3 * ((width as nat) * (height as nat)), |i: int| 0u8),
{
    Raster { image: ImageBuffer::new(width, height) }
}

/// Relies on `image::ImageBuffer::put_pixel`: the three samples of pixel
/// `(x, y)`, from `3 * (y * width + x)` on, become the color's channels. It
/// panics when `(x, y)` lies outside the image.
#[verifier::external_body]
fn put_pixel(img: &mut Raster, x: u32, y: u32, color: Color)
    requires
        x < image_width(*old(img)),
        y < image_height(*old(img)),
        image_samples(*old(img)).len() >= 3 * (image_width(*old(img)) * image_height(*old(img))),
    ensures
        image_width(*final(img)) == image_width(*old(img)),
        image_height(*final(img)) == image_height(*old(img)),
        image_samples(*final(img)) == image_samples(*old(img)).update(
            3 * (y * image_width(*old(img)) + x),
            color.r,
        ).update(3 * (y * image_width(*old(img)) + x) + 1, color.g).update(
            3 * (y * image_width(*old(img)) + x) + 2,
            color.b,
        ),
{
    img.image.put_pixel(x, y, Rgb([color.r, color.g, color.b]))
}

/// Relies on `image::ImageBuffer::into_raw`: the image's samples.
#[verifier::external_body]
fn into_samples(img: Raster) -> (r: Vec<u8>)
    ensures
        r@ == image_samples(img),
{
    img.image.into_raw()
}

/// Channel `i` (red, green, blue) of a color.
pub open spec fn channel(c: Color, i: int) -> u8 {
    if i == 0 {
        c.r
    } else if i == 1 {
        c.g
    } else {
        c.b
    }
}

/// The samples of an image whose pixels, row by row, have the given colors.
pub open spec fn samples_of(colors: Seq<Color>) -> Seq<u8> {
    Seq::new(3 * colors.len(), |i: int| channel(colors[i / 3], i % 3))
}

/// The color of the pixel whose orbit has the given escape flags.
pub open spec fn rendered_color(escaped: Seq<bool>, palette: Seq<Color>) -> Color {
    color_of(shade_of(escape_time_of(escaped)), palette)
}

/// The colors of the pixels whose orbits have the given escape flags.
pub open spec fn rendered_colors(orbits: Seq<Vec<bool>>, palette: Seq<Color>) -> Seq<Color> {
    orbits.map_values(|o: Vec<bool>| rendered_color(o@, palette))
}

/// The first `n` pixels colored, the others still zero.
spec fn filled(colors: Seq<Color>, n: int) -> Seq<u8> {
    Seq::new(3 * colors.len(), |i: int| if i < 3 * n { channel(colors[i / 3], i % 3) } else { 0u8 })
}

/// Renders a `resolution` by `resolution` image: pixel `(x, y)` gets the color
/// of the escape time of `orbits[y * resolution + x]`, black when that orbit
/// stays bounded and `palette[t]` when it escapes at `t`. The result is the
/// image's samples, three per pixel, row by row.
pub fn mandelbrot(resolution: u32, orbits: &Vec<Vec<bool>>, palette: &Vec<Color>) -> (r: Vec<u8>)
    requires
        orbits@.len() == resolution as nat * resolution as nat,
        palette_complete(palette@),
        3 * (resolution as nat * resolution as nat) <= usize::MAX,
    ensures
        r@ == samples_of(rendered_colors(orbits@, palette@)),
{
    let ghost colors = rendered_colors(orbits@, palette@);
    let ghost n = resolution as nat;
    proof {
        if n > 0 {
            assert(3 * n <= 3 * (n * n)) by (nonlinear_arith)
                requires
                    n > 0,
            ;
        }
    }
    let mut img = new_image(resolution, resolution);
    assert(image_samples(img) =~= filled(colors, 0));
    let mut y: u32 = 0;
    while y < resolution
        invariant
            y <= resolution,
            n == resolution as nat,
            colors == rendered_colors(orbits@, palette@),
            orbits@.len() == n * n,
            palette_complete(palette@),
            3 * (n * n) <= usize::MAX,
            image_width(img) == n,
            image_height(img) == n,
            image_samples(img) == filled(colors, (y * n) as int),
        decreases resolution - y,
    {
        let mut x: u32 = 0;
        while x < resolution
            invariant
                x <= resolution,
                y < resolution,
                n == resolution as nat,
                colors == rendered_colors(orbits@, palette@),
                orbits@.len() == n * n,
                palette_complete(palette@),
                3 * (n * n) <= usize::MAX,
                image_width(img) == n,
                image_height(img) == n,
                image_samples(img) == filled(colors, (y * n + x) as int),
            decreases resolution - x,
        {
            proof {
                assert(y * n + x < n * n) by (nonlinear_arith)
                    requires
                        y < n,
                        x < n,
                ;
            }
            let k: usize = y as usize * resolution as usize + x as usize;
            let t = mandelbrot_escape_time(orbits[k].as_slice());
            proof {
                lemma_escape_time_exact(orbits@[k as int]@);
            }
            let c = pixel_color(color_map(t), palette.as_slice());
            assert(c == colors[k as int]);
            put_pixel(&mut img, x, y, c);
            assert(image_samples(img) =~= filled(colors, (y * n + x + 1) as int));
            x = x + 1;
        }
        proof {
            assert(y * n + n == (y + 1) * n) by (nonlinear_arith);
        }
        y = y + 1;
    }
    assert(filled(colors, (n * n) as int) =~= samples_of(colors));
    into_samples(img)
}

} // verus!

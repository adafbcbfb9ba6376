//! Color mask generation for image vectorization.
//!
//! A mask holds one byte for each pixel of an image, row by row: 1 where the
//! pixel belongs to the layer, 0 where it does not.

use vstd::prelude::*;

verus! {

/// A binary mask representing pixels that match a color criteria.
pub type ColorMask = Vec<u8>;

/// Whether a pixel counts as black: red, green and blue all below 20.
pub open spec fn is_black(r: u8, g: u8, b: u8) -> bool {
    r < 20 && g < 20 && b < 20
}

/// Whether a pixel counts as blue: a bright blue with little red and green
/// in it, or a very dark pixel.
pub open spec fn is_blue(r: u8, g: u8, b: u8) -> bool {
    (b > 150 && r < 140 && g < 140) || (r < 80 && g < 80 && b < 80)
}

/// Whether the pixel at position `i` of a mask is set.
pub open spec fn excluded(exclude: Option<Seq<u8>>, i: int) -> bool {
    match exclude {
        Some(mask) => mask[i] == 1,
        None => false,
    }
}

/// The value of an optional mask.
pub open spec fn mask_view(mask: Option<&ColorMask>) -> Option<Seq<u8>> {
    match mask {
        Some(m) => Some(m@),
        None => None,
    }
}

/// The byte of the black mask for pixel `i` of an RGBA image.
pub open spec fn black_at(pixels: Seq<u8>, i: int) -> u8 {
    if is_black(pixels[4 * i], pixels[4 * i + 1], pixels[4 * i + 2]) {
        1
    } else {
        0
    }
}

/// The byte of the blue mask for pixel `i` of an RGBA image. A pixel that
/// is excluded is never set.
pub open spec fn blue_at(pixels: Seq<u8>, exclude: Option<Seq<u8>>, i: int) -> u8 {
    if !excluded(exclude, i) && is_blue(pixels[4 * i], pixels[4 * i + 1], pixels[4 * i + 2]) {
        1
    } else {
        0
    }
}

/// The black mask of an RGBA image: one byte for each whole pixel.
pub open spec fn black_mask(pixels: Seq<u8>) -> Seq<u8> {
    Seq::new((pixels.len() / 4) as nat, |i: int| black_at(pixels, i))
}

/// The blue mask of an RGBA image.
pub open spec fn blue_mask(pixels: Seq<u8>, exclude: Option<Seq<u8>>) -> Seq<u8> {
    Seq::new((pixels.len() / 4) as nat, |i: int| blue_at(pixels, exclude, i))
}

/// Create a black mask from the pixels of an RGBA image, four bytes to a
/// pixel, row by row.
/// Pixels with R < 20, G < 20, B < 20 are considered black.
pub fn create_black_mask(pixels: &[u8]) -> (mask: ColorMask)
    ensures
        mask@ == black_mask(pixels@),
{
    let count = pixels.len() / 4;
    let mut mask: Vec<u8> = Vec::new();
    let mut i: usize = 0;
    while i < count
        invariant
            i <= count,
            count == pixels.len() / 4,
            mask.len() == i,
            forall|k: int| 0 <= k < i ==> mask[k] == black_at(pixels@, k),
        decreases count - i,
    {
        let r = pixels[4 * i];
        let g = pixels[4 * i + 1];
        let b = pixels[4 * i + 2];
        mask.push(
            if r < 20 && g < 20 && b < 20 {
                1
            } else {
                0
            },
        );
        i += 1;
    }
    assert(mask@ =~= black_mask(pixels@));
    mask
}

/// Create a blue mask from the pixels of an RGBA image.
/// Blue pixels: B > 150 && R < 140 && G < 140.
/// Also includes very dark pixels: R < 80 && G < 80 && B < 80.
/// Optionally excludes pixels already in an exclusion mask, which holds a
/// byte for each pixel of the image.
pub fn create_blue_mask(pixels: &[u8], exclude: Option<&ColorMask>) -> (mask: ColorMask)
    requires
        exclude matches Some(ex) ==> ex.len() >= pixels.len() / 4,
    ensures
        mask@ == blue_mask(pixels@, mask_view(exclude)),
{
    let count = pixels.len() / 4;
    let mut mask: Vec<u8> = Vec::new();
    let mut i: usize = 0;
    while i < count
        invariant
            i <= count,
            count == pixels.len() / 4,
            exclude matches Some(ex) ==> ex.len() >= count,
            mask.len() == i,
            forall|k: int| 0 <= k < i ==> mask[k] == blue_at(pixels@, mask_view(exclude), k),
        decreases count - i,
    {
        let skip = match exclude {
            Some(ex) => ex[i] == 1,
            None => false,
        };
        let r = pixels[4 * i];
        let g = pixels[4 * i + 1];
        let b = pixels[4 * i + 2];
        let blue = (b > 150 && r < 140 && g < 140) || (r < 80 && g < 80 && b < 80);
        mask.push(
            if !skip && blue {
                1
            } else {
                0
            },
        );
        i += 1;
    }
    assert(mask@ =~= blue_mask(pixels@, mask_view(exclude)));
    mask
}

/// Create a custom color mask with a predicate function: a pixel is set
/// where it is not excluded and the predicate holds of its red, green and
/// blue.
pub fn create_custom_mask<F: Fn(u8, u8, u8) -> bool>(
    pixels: &[u8],
    predicate: F,
    exclude: Option<&ColorMask>,
) -> (mask: ColorMask)
    requires
        exclude matches Some(ex) ==> ex.len() >= pixels.len() / 4,
        forall|r: u8, g: u8, b: u8| predicate.requires((r, g, b)),
    ensures
        mask.len() == pixels.len() / 4,
        forall|i: int|
            0 <= i < mask.len() ==> (mask[i] == 0 || mask[i] == 1) && (excluded(
                mask_view(exclude),
                i,
            ) ==> mask[i] == 0) && (!excluded(mask_view(exclude), i) ==> predicate.ensures(
                (pixels[4 * i], pixels[4 * i + 1], pixels[4 * i + 2]),
                #[trigger] mask[i] == 1,
            )),
{
    let count = pixels.len() / 4;
    let mut mask: Vec<u8> = Vec::new();
    let mut i: usize = 0;
    while i < count
        invariant
            i <= count,
            count == pixels.len() / 4,
            exclude matches Some(ex) ==> ex.len() >= count,
            forall|r: u8, g: u8, b: u8| predicate.requires((r, g, b)),
            mask.len() == i,
            forall|k: int|
                0 <= k < i ==> (mask[k] == 0 || mask[k] == 1) && (excluded(mask_view(exclude), k)
                    ==> mask[k] == 0) && (!excluded(mask_view(exclude), k) ==> predicate.ensures(
                    (pixels[4 * k], pixels[4 * k + 1], pixels[4 * k + 2]),
                    #[trigger] mask[k] == 1,
                )),
        decreases count - i,
    {
        let skip = match exclude {
            Some(ex) => ex[i] == 1,
            None => false,
        };
        let mut value: u8 = 0;
        if !skip {
            if predicate(pixels[4 * i], pixels[4 * i + 1], pixels[4 * i + 2]) {
                value = 1;
            }
        }
        mask.push(value);
        i += 1;
    }
    mask
}

/// Whether the pixel in column `x` of row `y` lies in the image and is set
/// in the mask.
pub open spec fn marked(mask: Seq<u8>, w: int, h: int, x: int, y: int) -> bool {
    0 <= x < w && 0 <= y < h && mask[y * w + x] == 1
}

/// Whether the pixel or one of its eight neighbours is set in the mask.
pub open spec fn near_marked(mask: Seq<u8>, w: int, h: int, x: int, y: int) -> bool {
    ||| marked(mask, w, h, x - 1, y - 1)
    ||| marked(mask, w, h, x, y - 1)
    ||| marked(mask, w, h, x + 1, y - 1)
    ||| marked(mask, w, h, x - 1, y)
    ||| marked(mask, w, h, x, y)
    ||| marked(mask, w, h, x + 1, y)
    ||| marked(mask, w, h, x - 1, y + 1)
    ||| marked(mask, w, h, x, y + 1)
    ||| marked(mask, w, h, x + 1, y + 1)
}

/// The byte that the dilated mask holds at position `i`: 1 where `i` is a
/// pixel of the image that is set or has a neighbour that is, else 0.
pub open spec fn dilated_at(mask: Seq<u8>, w: int, h: int, i: int) -> u8 {
    if w > 0 && 0 <= i < w * h && near_marked(mask, w, h, i % w, i / w) {
        1
    } else {
        0
    }
}

/// The mask dilated by one pixel with a 3x3 kernel.
pub open spec fn dilated(mask: Seq<u8>, w: int, h: int) -> Seq<u8> {
    Seq::new(mask.len(), |i: int| dilated_at(mask, w, h, i))
}

/// The pixel in column `x` of row `y` has the position `y * w + x`, from
/// which its column and row are found again.
proof fn lemma_pixel_index(w: int, h: int, x: int, y: int)
    requires
        0 <= x < w,
        0 <= y < h,
    ensures
        0 <= y * w + x < w * h,
        (y * w + x) % w == x,
        (y * w + x) / w == y,
{
    assert(y * w >= 0) by (nonlinear_arith)
        requires
            y >= 0,
            w > 0,
    ;
    assert(y * w + w <= h * w) by (nonlinear_arith)
        requires
            y + 1 <= h,
            w > 0,
    ;
    assert(h * w == w * h) by (nonlinear_arith);
    vstd::arithmetic::div_mod::lemma_fundamental_div_mod_converse(y * w + x, w, y, x);
}

/// A position within the image is that of the pixel in its column and row.
proof fn lemma_pixel_of_index(w: int, h: int, i: int)
    requires
        w > 0,
        0 <= i < w * h,
    ensures
        0 <= i % w < w,
        0 <= i / w < h,
        (i / w) * w + i % w == i,
{
    vstd::arithmetic::div_mod::lemma_fundamental_div_mod(i, w);
    assert(w * (i / w) == (i / w) * w) by (nonlinear_arith);
    assert(i / w >= 0) by (nonlinear_arith)
        requires
            i >= 0,
            w > 0,
    ;
    if i / w >= h {
        assert((i / w) * w >= h * w) by (nonlinear_arith)
            requires
                i / w >= h,
                w > 0,
        ;
        assert(h * w == w * h) by (nonlinear_arith);
    }
}

/// Whether the pixel in column `x` of row `y` is set.
fn is_marked(mask: &[u8], w: usize, h: usize, x: usize, y: usize) -> (b: bool)
    requires
        x < w,
        y < h,
        w * h <= mask.len(),
    ensures
        b == marked(mask@, w as int, h as int, x as int, y as int),
{
    proof {
        lemma_pixel_index(w as int, h as int, x as int, y as int);
    }
    mask[y * w + x] == 1
}

/// Whether the pixel or one of its two neighbours in its row is set.
fn row_marked(mask: &[u8], w: usize, h: usize, x: usize, y: usize) -> (b: bool)
    requires
        x < w,
        y < h,
        w * h <= mask.len(),
    ensures
        b == (marked(mask@, w as int, h as int, x - 1, y as int) || marked(
            mask@,
            w as int,
            h as int,
            x as int,
            y as int,
        ) || marked(mask@, w as int, h as int, x + 1, y as int)),
{
    (x > 0 && is_marked(mask, w, h, x - 1, y)) || is_marked(mask, w, h, x, y) || (x + 1 < w
        && is_marked(mask, w, h, x + 1, y))
}

/// Dilate a binary mask by 1 pixel using a 3x3 kernel.
/// This expands all marked regions by 1 pixel in each direction.
///
/// The mask holds `width * height` bytes or more; what lies behind the
/// image comes out as 0.
pub fn dilate_mask(mask: &Vec<u8>, width: u32, height: u32) -> (result: Vec<u8>)
    requires
        width * height <= mask.len(),
    ensures
        result@ == dilated(mask@, width as int, height as int),
{
    let w = width as usize;
    let h = height as usize;
    let n = mask.len();
    let mut result: Vec<u8> = Vec::new();
    let mut i: usize = 0;
    while i < n
        invariant
            i <= n,
            n == mask.len(),
            w == width,
            h == height,
            w * h <= n,
            result.len() == i,
            forall|k: int| 0 <= k < i ==> result[k] == dilated_at(mask@, w as int, h as int, k),
        decreases n - i,
    {
        let mut value: u8 = 0;
        if w > 0 && i < w * h {
            let x = i % w;
            let y = i / w;
            proof {
                lemma_pixel_of_index(w as int, h as int, i as int);
            }
            let found = (y > 0 && row_marked(mask.as_slice(), w, h, x, y - 1)) || row_marked(
                mask.as_slice(),
                w,
                h,
                x,
                y,
            ) || (y + 1 < h && row_marked(mask.as_slice(), w, h, x, y + 1));
            if found {
                value = 1;
            }
        }
        result.push(value);
        i += 1;
    }
    assert(result@ =~= dilated(mask@, width as int, height as int));
    result
}

/// Dilation only adds to a mask: a pixel that is set stays set.
pub proof fn dilation_keeps_marks(mask: Seq<u8>, w: int, h: int, x: int, y: int)
    requires
        w * h <= mask.len(),
        marked(mask, w, h, x, y),
    ensures
        marked(dilated(mask, w, h), w, h, x, y),
{
    lemma_pixel_index(w, h, x, y);
}

/// Dilation reaches one pixel and no further: a pixel of the image is set
/// in the dilated mask exactly where it or one of its eight neighbours was
/// set before.
pub proof fn dilation_reach(mask: Seq<u8>, w: int, h: int, x: int, y: int)
    requires
        w * h <= mask.len(),
        0 <= x < w,
        0 <= y < h,
    ensures
        marked(dilated(mask, w, h), w, h, x, y) == near_marked(mask, w, h, x, y),
{
    lemma_pixel_index(w, h, x, y);
}

} // verus!

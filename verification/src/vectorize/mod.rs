//! Image vectorization: what is decided before and after a raster image is
//! traced into paths.
//!
//! The conversion process:
//! 1. Create color masks (black for cutting, blue for engraving)
//! 2. Apply morphological dilation to prevent artifacts
//! 3. Scale the masks up and hand them to a tracer
//! 4. Take the paths out of what the tracer returns
//! 5. Assemble the final SVG with separate layers

pub mod mask;
pub mod trace;

use crate::number::{append_decimal, decimal};
use crate::vectorize::mask::{
    black_mask, blue_mask, create_black_mask, create_blue_mask, dilate_mask, dilated,
};
use image::ImageReader;
use std::io::Cursor;
use vstd::prelude::*;

verus! {

/// Options for image vectorization.
#[derive(Debug)]
pub struct VectorizeOptions {
    /// Scale factor for upsampling before tracing (default: 2)
    pub scale_factor: u32,
    /// Filter speckle size (removes noise smaller than this)
    pub filter_speckle: usize,
    /// Corner threshold for path simplification
    pub corner_threshold: i32,
    /// Path precision (decimal places)
    pub path_precision: u32,
}

impl Clone for VectorizeOptions {
    fn clone(&self) -> (options: Self)
        ensures
            options == *self,
    {
        VectorizeOptions {
            scale_factor: self.scale_factor,
            filter_speckle: self.filter_speckle,
            corner_threshold: self.corner_threshold,
            path_precision: self.path_precision,
        }
    }
}

impl Default for VectorizeOptions {
    fn default() -> (options: Self)
        ensures
            options.scale_factor == 2,
            options.filter_speckle == 4,
            options.corner_threshold == 60,
            options.path_precision == 3,
    {
        VectorizeOptions { scale_factor: 2, filter_speckle: 4, corner_threshold: 60, path_precision: 3 }
    }
}

/// Result of vectorization containing SVG string.
pub struct VectorizeResult {
    pub svg: String,
    pub width: u32,
    pub height: u32,
}

/// The pixels of an image as RGBA, four bytes to a pixel, row by row.
#[derive(Debug)]
pub struct RawImage {
    pub width: u32,
    pub height: u32,
    pub pixels: Vec<u8>,
}

/// Why an image could not be read from its bytes.
#[derive(Debug)]
pub enum DecodeError {
    /// The format of the image could not be looked for.
    Format(String),
    /// The image could not be decoded.
    Decode(String),
}

/// The mathematical value of a [`RawImage`].
pub struct RawImageView {
    pub width: u32,
    pub height: u32,
    pub pixels: Seq<u8>,
}

/// The mathematical value of a [`DecodeError`].
pub enum DecodeErrorView {
    Format(Seq<char>),
    Decode(Seq<char>),
}

impl DeepView for RawImage {
    type V = RawImageView;

    open spec fn deep_view(&self) -> RawImageView {
        RawImageView { width: self.width, height: self.height, pixels: self.pixels@ }
    }
}

impl DeepView for DecodeError {
    type V = DecodeErrorView;

    open spec fn deep_view(&self) -> DecodeErrorView {
        match self {
            DecodeError::Format(e) => DecodeErrorView::Format(e@),
            DecodeError::Decode(e) => DecodeErrorView::Decode(e@),
        }
    }
}

/// The value of what decoding gives.
pub open spec fn decoding_view(r: Result<RawImage, DecodeError>) -> Result<
    RawImageView,
    DecodeErrorView,
> {
    match r {
        Ok(image) => Ok(image.deep_view()),
        Err(e) => Err(e.deep_view()),
    }
}

/// `ImageReader::with_guessed_format` and `ImageReader::decode` read an
/// image from the bytes of a file in a format that is told from the bytes;
/// `DynamicImage::to_rgba8` gives its pixels. An error comes as its text.
/// Nothing is said of what comes back: the formats that are known and the
/// way they are decoded can differ from one process and machine to the
/// next.
#[verifier::external_body]
fn decode_rgba(image_bytes: &[u8]) -> (r: Result<RawImage, DecodeError>) {
    let reader = ImageReader::new(Cursor::new(image_bytes)).with_guessed_format().map_err(
        |e| DecodeError::Format(e.to_string()),
    )?;
    let img = reader.decode().map_err(|e| DecodeError::Decode(e.to_string()))?;
    Ok(RawImage { width: img.width(), height: img.height(), pixels: img.to_rgba8().into_raw() })
}

/// The two masks of an image.
#[derive(Debug)]
pub struct Layers {
    pub width: u32,
    pub height: u32,
    /// The pixels to cut: the black ones.
    pub black_mask: Vec<u8>,
    /// The pixels to engrave: the blue ones that are not within a pixel of
    /// a black one.
    pub blue_mask: Vec<u8>,
}

/// The mathematical value of [`Layers`].
pub struct LayersView {
    pub width: u32,
    pub height: u32,
    pub black_mask: Seq<u8>,
    pub blue_mask: Seq<u8>,
}

impl DeepView for Layers {
    type V = LayersView;

    open spec fn deep_view(&self) -> LayersView {
        LayersView {
            width: self.width,
            height: self.height,
            black_mask: self.black_mask@,
            blue_mask: self.blue_mask@,
        }
    }
}

/// The masks of an image of the given size whose pixels are `pixels`.
pub open spec fn layers_of(pixels: Seq<u8>, width: u32, height: u32) -> LayersView {
    let black = black_mask(pixels);
    LayersView {
        width,
        height,
        black_mask: black,
        blue_mask: blue_mask(pixels, Some(dilated(black, width as int, height as int))),
    }
}

/// Creates the black mask of an image and, from what its dilation leaves
/// free, the blue mask.
pub fn create_layers(pixels: &[u8], width: u32, height: u32) -> (layers: Layers)
    requires
        pixels.len() == width * height * 4,
    ensures
        layers.deep_view() == layers_of(pixels@, width, height),
{
    let black = create_black_mask(pixels);
    let dilated_black = dilate_mask(&black, width, height);
    let blue = create_blue_mask(pixels, Some(&dilated_black));
    Layers { width, height, black_mask: black, blue_mask: blue }
}

/// The message for an image whose format could not be looked for.
pub open spec fn format_failed(e: Seq<char>) -> Seq<char> {
    "Failed to guess image format: "@ + e
}

/// The message for an image that could not be decoded.
pub open spec fn decode_failed(e: Seq<char>) -> Seq<char> {
    "Failed to decode image: "@ + e
}

/// The message for an image that holds fewer pixels than its size asks for.
pub open spec fn pixels_missing() -> Seq<char> {
    "Failed to decode image: pixel data is incomplete"@
}

/// The masks of an image that has been decoded, or the message that says
/// why there are none. Pixels beyond the size of the image are left out.
pub open spec fn layers_of_decoded(decoded: Result<RawImageView, DecodeErrorView>) -> Result<
    LayersView,
    Seq<char>,
> {
    match decoded {
        Ok(image) => {
            let n = image.width * image.height * 4;
            if n <= image.pixels.len() {
                Ok(layers_of(image.pixels.take(n), image.width, image.height))
            } else {
                Err(pixels_missing())
            }
        },
        Err(DecodeErrorView::Format(e)) => Err(format_failed(e)),
        Err(DecodeErrorView::Decode(e)) => Err(decode_failed(e)),
    }
}

/// Makes the masks of an image that has been decoded.
pub fn layers_from(decoded: Result<RawImage, DecodeError>) -> (r: Result<Layers, String>)
    ensures
        match layers_of_decoded(decoding_view(decoded)) {
            Ok(layers) => (r matches Ok(found) && found.deep_view() == layers),
            Err(e) => (r matches Err(message) && message@ == e),
        },
{
    match decoded {
        Ok(image) => {
            assert(image.width * image.height <= 0xffff_ffff * 0xffff_ffff) by (nonlinear_arith)
                requires
                    image.width <= 0xffff_ffff,
                    image.height <= 0xffff_ffff,
            ;
            let n: u64 = image.width as u64 * image.height as u64;
            let total: u128 = n as u128 * 4;
            if total <= image.pixels.len() as u128 {
                let mut pixels = image.pixels;
                pixels.truncate(total as usize);
                assert(pixels@ =~= image.pixels@.take(total as int));
                Ok(create_layers(pixels.as_slice(), image.width, image.height))
            } else {
                Err(String::from_str("Failed to decode image: pixel data is incomplete"))
            }
        },
        Err(DecodeError::Format(e)) => {
            let mut message = String::from_str("Failed to guess image format: ");
            message.append(e.as_str());
            Err(message)
        },
        Err(DecodeError::Decode(e)) => {
            let mut message = String::from_str("Failed to decode image: ");
            message.append(e.as_str());
            Err(message)
        },
    }
}

/// Reads an image from the bytes of a file and makes its masks.
///
/// What comes back is what [`layers_from`] makes of what the decoder gave:
/// the masks of the image it read, or the message for its failure.
pub fn image_layers(image_bytes: &[u8]) -> (r: Result<Layers, String>)
    ensures
        exists|decoded: Result<RawImageView, DecodeErrorView>|
            match #[trigger] layers_of_decoded(decoded) {
                Ok(layers) => (r matches Ok(found) && found.deep_view() == layers),
                Err(e) => (r matches Err(message) && message@ == e),
            },
{
    let decoded = decode_rgba(image_bytes);
    let ghost seen = decoding_view(decoded);
    let r = layers_from(decoded);
    // What the decoder gave is the result that the contract speaks of.
    assert(layers_of_decoded(seen) == layers_of_decoded(seen));
    r
}

/// The values of a list of texts.
pub open spec fn texts(parts: Seq<String>) -> Seq<Seq<char>> {
    parts.map_values(|p: String| p@)
}

/// The texts from position `i` on, each behind a line break and eight
/// spaces, appended to `acc`.
pub open spec fn lines_from(parts: Seq<Seq<char>>, i: int, acc: Seq<char>) -> Seq<char>
    decreases parts.len() - i,
{
    if i < 0 || i >= parts.len() {
        acc
    } else {
        lines_from(parts, i + 1, acc + "\n        "@ + parts[i])
    }
}

/// The texts on lines of their own, eight spaces in.
pub open spec fn layer_content(parts: Seq<Seq<char>>) -> Seq<char> {
    if parts.len() == 0 {
        Seq::empty()
    } else {
        lines_from(parts, 1, parts[0])
    }
}

/// The document of an image of the given size with the paths of its two
/// layers.
pub open spec fn assembled(width: u32, height: u32, black: Seq<Seq<char>>, blue: Seq<Seq<char>>)
    -> Seq<char> {
    "<?xml version=\"1.0\" encoding=\"UTF-8\" standalone=\"no\"?>\n<svg xmlns=\"http://www.w3.org/2000/svg\" width=\""@
        + decimal(width as nat) + "\" height=\""@ + decimal(height as nat) + "\" viewBox=\"0 0 "@
        + decimal(width as nat) + " "@ + decimal(height as nat)
        + "\">\n    <g id=\"cut-layer\" fill=\"#000000\" stroke=\"none\">\n        "@
        + layer_content(black)
        + "\n    </g>\n    <g id=\"engrave-layer\" fill=\"#0000FF\" stroke=\"none\">\n        "@
        + layer_content(blue) + "\n    </g>\n</svg>"@
}

/// Puts the texts on lines of their own, eight spaces in.
fn join_layer(parts: &[String]) -> (content: String)
    ensures
        content@ == layer_content(texts(parts@)),
{
    if parts.len() == 0 {
        return String::new();
    }
    let mut content = parts[0].clone();
    let mut i: usize = 1;
    while i < parts.len()
        invariant
            1 <= i <= parts.len(),
            layer_content(texts(parts@)) == lines_from(texts(parts@), i as int, content@),
        decreases parts.len() - i,
    {
        content.append("\n        ");
        content.append(parts[i].as_str());
        i += 1;
    }
    content
}

/// Assemble final SVG with cut and engrave layers.
pub fn assemble_svg(width: u32, height: u32, black_paths: &[String], blue_paths: &[String]) -> (svg:
    String)
    ensures
        svg@ == assembled(width, height, texts(black_paths@), texts(blue_paths@)),
{
    let black_content = join_layer(black_paths);
    let blue_content = join_layer(blue_paths);
    let mut svg = String::from_str(
        "<?xml version=\"1.0\" encoding=\"UTF-8\" standalone=\"no\"?>\n<svg xmlns=\"http://www.w3.org/2000/svg\" width=\"",
    );
    append_decimal(&mut svg, width as u64);
    svg.append("\" height=\"");
    append_decimal(&mut svg, height as u64);
    svg.append("\" viewBox=\"0 0 ");
    append_decimal(&mut svg, width as u64);
    svg.append(" ");
    append_decimal(&mut svg, height as u64);
    svg.append("\">\n    <g id=\"cut-layer\" fill=\"#000000\" stroke=\"none\">\n        ");
    svg.append(black_content.as_str());
    svg.append("\n    </g>\n    <g id=\"engrave-layer\" fill=\"#0000FF\" stroke=\"none\">\n        ");
    svg.append(blue_content.as_str());
    svg.append("\n    </g>\n</svg>");
    svg
}

} // verus!

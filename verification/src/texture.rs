//! Textures: a grid of packed colours with nearest and bilinear lookup, and
//! the decoding of encoded images into such a grid.
use vstd::prelude::*;
use crate::color::blue_of;
use crate::color::green_of;
use crate::color::pack_rgb;
use crate::color::red_of;
use crate::fixed::UNIT;
use crate::fixed::clamp_i32;
use crate::fixed::clamp_spec;
use crate::fixed::min_spec;

verus! {

/// A decoded image: `height` rows of `width` packed `0xRRGGBB` colours, row
/// after row from the top.
#[derive(Debug)]
pub struct Texture {
    pub width: usize,
    pub height: usize,
    pub data: Vec<u32>,
}

/// Why a texture could not be made.
#[derive(Debug)]
pub enum TextureError {
    /// The bytes are not an image that the decoder reads; the text is the
    /// decoder's own message.
    Decode(String),
    /// The image is empty, or its pixel count is not width times height.
    Dimensions,
}

/// The error of the `image` crate, as a value that is carried and never
/// looked into.
#[verifier::external_type_specification]
#[verifier::external_body]
pub struct ExImageError(image::ImageError);

/// A decoded image of the `image` crate, as a value that is carried and never
/// looked into.
#[verifier::external_type_specification]
#[verifier::external_body]
pub struct ExDynamicImage(image::DynamicImage);

/// Decodes an encoded image with `image::load_from_memory`, which guesses
/// the format from the bytes.  Nothing is claimed of the outcome: which bytes
/// decode, and to what, is the decoder's matter, and for some formats its
/// rounding follows the instruction set of the machine.
#[verifier::external_body]
fn decode(bytes: &[u8]) -> (r: Result<image::DynamicImage, image::ImageError>) {
    image::load_from_memory(bytes)
}

/// Reads a decoded image as 8-bit RGB with `DynamicImage::to_rgb8` and hands
/// out the size (`ImageBuffer::dimensions`) and the pixels in the order in
/// which `ImageBuffer::pixels` walks them, row after row.  Nothing is
/// claimed of what is read.
#[verifier::external_body]
fn read_rgb8(image: &image::DynamicImage) -> (r: (u32, u32, Vec<(u8, u8, u8)>)) {
    let rgb = image.to_rgb8();
    let (width, height) = rgb.dimensions();
    (width, height, rgb.pixels().map(|p| (p[0], p[1], p[2])).collect())
}

/// The message of a decoder error (`Display` of `image::ImageError`).
/// Nothing is claimed of the text.
#[verifier::external_body]
fn error_message(e: &image::ImageError) -> (s: String) {
    format!("{}", e)
}

/// The texel index of a fixed-point texture coordinate along an axis of
/// `size` texels: the coordinate is limited to `[0, 1]` and the last texel
/// takes the upper end.
pub open spec fn texel_index(t: int, size: int) -> int {
    min_spec(clamp_spec(t, 0, UNIT as int) * size / (UNIT as int), size - 1)
}

/// How far, in fixed-point texels, a texture coordinate lies past the texel
/// of its index.
pub open spec fn texel_fraction(t: int, size: int) -> int {
    clamp_spec(t, 0, UNIT as int) * size - texel_index(t, size) * UNIT
}

/// The bilinear blend of one channel of four neighbouring texels, rounded
/// down: `c00` and `c10` are the upper pair, `c01` and `c11` the lower.
pub open spec fn blend(c00: int, c10: int, c01: int, c11: int, fx: int, fy: int) -> int {
    ((c00 * (UNIT - fx) + c10 * fx) * (UNIT - fy) + (c01 * (UNIT - fx) + c11 * fx) * fy) / (UNIT
        * UNIT)
}

/// The bilinear blend of four packed colours, channel by channel.
pub open spec fn blend_packed(c00: int, c10: int, c01: int, c11: int, fx: int, fy: int) -> int {
    pack_rgb(
        blend(red_of(c00), red_of(c10), red_of(c01), red_of(c11), fx, fy),
        blend(green_of(c00), green_of(c10), green_of(c01), green_of(c11), fx, fy),
        blend(blue_of(c00), blue_of(c10), blue_of(c01), blue_of(c11), fx, fy),
    )
}

/// For a blend the fraction must lie in `[0, 1]`.
pub open spec fn is_fraction(f: int) -> bool {
    0 <= f <= UNIT
}

/// A blend of channel values lies between the smallest and the largest of
/// them; in particular it is a byte again.
pub proof fn lemma_blend_between(c00: int, c10: int, c01: int, c11: int, fx: int, fy: int, lo: int, hi: int)
    requires
        is_fraction(fx),
        is_fraction(fy),
        lo <= c00 <= hi,
        lo <= c10 <= hi,
        lo <= c01 <= hi,
        lo <= c11 <= hi,
    ensures
        lo <= blend(c00, c10, c01, c11, fx, fy) <= hi,
{
    let u: int = UNIT as int;
    let top = c00 * (u - fx) + c10 * fx;
    let bottom = c01 * (u - fx) + c11 * fx;
    assert(lo * u <= top <= hi * u) by (nonlinear_arith)
        requires
            top == c00 * (u - fx) + c10 * fx,
            0 <= fx <= u,
            lo <= c00 <= hi,
            lo <= c10 <= hi,
    ;
    assert(lo * u <= bottom <= hi * u) by (nonlinear_arith)
        requires
            bottom == c01 * (u - fx) + c11 * fx,
            0 <= fx <= u,
            lo <= c01 <= hi,
            lo <= c11 <= hi,
    ;
    let sum = top * (u - fy) + bottom * fy;
    assert(lo * 100_000_000 <= sum <= hi * 100_000_000) by (nonlinear_arith)
        requires
            sum == top * (u - fy) + bottom * fy,
            0 <= fy <= u,
            lo * u <= top <= hi * u,
            lo * u <= bottom <= hi * u,
            u == 10_000,
    ;
    assert(u * u == 100_000_000);
}

/// Where all four texels agree in a channel, the blend is that value.
pub proof fn lemma_blend_uniform(c: int, fx: int, fy: int)
    requires
        is_fraction(fx),
        is_fraction(fy),
    ensures
        blend(c, c, c, c, fx, fy) == c,
{
    lemma_blend_between(c, c, c, c, fx, fy, c, c);
}

/// At a texel's own position the blend is the texel's value.
pub proof fn lemma_blend_at_texel(c00: int, c10: int, c01: int, c11: int)
    ensures
        blend(c00, c10, c01, c11, 0, 0) == c00,
{
    let u: int = UNIT as int;
    let sum = (c00 * (u - 0) + c10 * 0) * (u - 0) + (c01 * (u - 0) + c11 * 0) * 0;
    assert(sum == c00 * 100_000_000) by (nonlinear_arith)
        requires
            sum == (c00 * (u - 0) + c10 * 0) * (u - 0) + (c01 * (u - 0) + c11 * 0) * 0,
            u == 10_000,
    ;
    assert(u * u == 100_000_000);
}

impl Texture {
    /// The grid holds exactly `width * height` texels and is not empty.
    pub open spec fn wf(&self) -> bool {
        &&& self.width > 0
        &&& self.height > 0
        &&& self.data@.len() == self.width * self.height
    }

    /// The texel in column `x` of row `y`.
    pub open spec fn texel(&self, x: int, y: int) -> u32 {
        self.data@[y * self.width + x]
    }

    /// The texture that holds the given pixels, if there are `width * height`
    /// of them and at least one.
    pub open spec fn holds(&self, width: u32, height: u32, pixels: Seq<(u8, u8, u8)>) -> bool {
        &&& self.wf()
        &&& self.width == width
        &&& self.height == height
        &&& self.data@.len() == pixels.len()
        &&& forall|i: int|
            0 <= i < pixels.len() ==> #[trigger] self.data@[i] == pack_rgb(
                pixels[i].0 as int,
                pixels[i].1 as int,
                pixels[i].2 as int,
            )
    }

    /// Makes a texture of `width * height` pixels given as red, green and
    /// blue bytes, row after row.
    pub fn from_pixels(width: u32, height: u32, pixels: &Vec<(u8, u8, u8)>) -> (r: Result<
        Texture,
        TextureError,
    >)
        ensures
            r is Ok <==> width > 0 && height > 0 && pixels@.len() == width * height,
            r matches Ok(t) ==> t.holds(width, height, pixels@),
            r matches Err(e) ==> e is Dimensions,
    {
        assert(width * height <= 0xffff_ffff * 0xffff_ffff) by (nonlinear_arith)
            requires
                0 <= width <= 0xffff_ffff,
                0 <= height <= 0xffff_ffff,
        ;
        if width == 0 || height == 0 || pixels.len() as u64 != width as u64 * height as u64 {
            return Err(TextureError::Dimensions);
        }
        let mut data: Vec<u32> = Vec::new();
        let mut i: usize = 0;
        while i < pixels.len()
            invariant
                i <= pixels@.len(),
                data@.len() == i,
                forall|k: int|
                    0 <= k < i ==> #[trigger] data@[k] == pack_rgb(
                        pixels@[k].0 as int,
                        pixels@[k].1 as int,
                        pixels@[k].2 as int,
                    ),
            decreases pixels@.len() - i,
        {
            let p: (u8, u8, u8) = pixels[i];
            let r: u32 = p.0 as u32;
            let g: u32 = p.1 as u32;
            let b: u32 = p.2 as u32;
            assert(((r << 16) | (g << 8) | b) == r * 65536 + g * 256 + b) by (bit_vector)
                requires
                    r < 256,
                    g < 256,
                    b < 256,
            ;
            data.push((r << 16) | (g << 8) | b);
            i = i + 1;
        }
        Ok(Texture { width: width as usize, height: height as usize, data })
    }

    /// What a decoder's outcome becomes: the texture of the pixels it read,
    /// `Dimensions` where they do not make a grid, and `Decode` with the
    /// decoder's own message where it read nothing.
    pub fn from_decoded(decoded: Result<(u32, u32, Vec<(u8, u8, u8)>), String>) -> (r: Result<
        Texture,
        TextureError,
    >)
        ensures
            match decoded {
                Ok(image) => {
                    &&& r is Ok <==> image.0 > 0 && image.1 > 0 && image.2@.len() == image.0
                        * image.1
                    &&& r matches Ok(t) ==> t.holds(image.0, image.1, image.2@)
                    &&& r matches Err(e) ==> e is Dimensions
                },
                Err(message) => r matches Err(TextureError::Decode(text)) && text == message,
            },
    {
        match decoded {
            Ok(image) => Texture::from_pixels(image.0, image.1, &image.2),
            Err(message) => Err(TextureError::Decode(message)),
        }
    }

    /// Decodes an encoded image (PNG, JPEG, ...) into a texture.  Bytes that
    /// the decoder does not read give `Decode`, an image without pixels gives
    /// `Dimensions`; every texture that comes back is well-formed and holds
    /// the pixels that the decoder read.
    pub fn load(bytes: &[u8]) -> (r: Result<Texture, TextureError>)
        ensures
            r matches Ok(t) ==> t.wf() && exists|pixels: Seq<(u8, u8, u8)>|
                #[trigger] t.holds(t.width as u32, t.height as u32, pixels),
    {
        let decoded: Result<(u32, u32, Vec<(u8, u8, u8)>), String> = match decode(bytes) {
            Ok(image) => Ok(read_rgb8(&image)),
            Err(e) => Err(error_message(&e)),
        };
        let ghost read = decoded;
        let r = Texture::from_decoded(decoded);
        assert(r matches Ok(t) ==> read matches Ok(image) && t.holds(
            t.width as u32,
            t.height as u32,
            image.2@,
        ));
        r
    }

    /// The index of the texel in column `x` of row `y`.
    fn index_of(&self, x: usize, y: usize) -> (i: usize)
        requires
            self.wf(),
            x < self.width,
            y < self.height,
        ensures
            i == y * self.width + x,
            i < self.data@.len(),
    {
        // Reading the length tells that `width * height` fits in a `usize`.
        let _len: usize = self.data.len();
        assert(0 <= y * self.width && y * self.width + x < self.width * self.height)
            by (nonlinear_arith)
            requires
                0 <= x < self.width,
                0 <= y < self.height,
        ;
        y * self.width + x
    }

    /// The texel index of a texture coordinate already limited to `[0, 1]`,
    /// and how far the coordinate lies past that texel.
    fn axis_index(t: i32, size: usize) -> (r: (usize, u64))
        requires
            0 <= t <= UNIT,
            size > 0,
        ensures
            r.0 == texel_index(t as int, size as int),
            r.0 < size,
            r.1 == texel_fraction(t as int, size as int),
            is_fraction(r.1 as int),
    {
        assert(0 <= t * size <= 10_000 * size) by (nonlinear_arith)
            requires
                0 <= t <= 10_000,
                size >= 0,
        ;
        let unit: u128 = UNIT as u128;
        let scaled: u128 = t as u128 * size as u128;
        let whole: u128 = scaled / unit;
        let index: usize = if whole >= size as u128 {
            size - 1
        } else {
            whole as usize
        };
        let fraction: u128 = scaled - index as u128 * unit;
        (index, fraction as u64)
    }

    /// The nearest texel: `u` picks the column and `v` the row, both limited
    /// to `[0, 1]`.
    pub fn sample(&self, u: i32, v: i32) -> (c: u32)
        requires
            self.wf(),
        ensures
            c == self.texel(
                texel_index(u as int, self.width as int),
                texel_index(v as int, self.height as int),
            ),
    {
        let u: i32 = clamp_i32(u, 0, UNIT);
        let v: i32 = clamp_i32(v, 0, UNIT);
        let x: (usize, u64) = Texture::axis_index(u, self.width);
        let y: (usize, u64) = Texture::axis_index(v, self.height);
        let index: usize = self.index_of(x.0, y.0);
        self.data[index]
    }

    /// The bilinear blend at `(u, v)`: the four texels around the coordinate,
    /// neighbours past the last column or row being the last again.
    pub open spec fn bilinear(&self, u: int, v: int) -> int {
        let x0 = texel_index(u, self.width as int);
        let y0 = texel_index(v, self.height as int);
        let x1 = min_spec(x0 + 1, self.width - 1);
        let y1 = min_spec(y0 + 1, self.height - 1);
        blend_packed(
            self.texel(x0, y0) as int,
            self.texel(x1, y0) as int,
            self.texel(x0, y1) as int,
            self.texel(x1, y1) as int,
            texel_fraction(u, self.width as int),
            texel_fraction(v, self.height as int),
        )
    }

    /// Bilinear lookup: `u` and `v` are limited to `[0, 1]`, never wrapped.
    pub fn sample_bilinear(&self, u: i32, v: i32) -> (c: u32)
        requires
            self.wf(),
        ensures
            c == self.bilinear(u as int, v as int),
            c < 0x100_0000,
    {
        let u: i32 = clamp_i32(u, 0, UNIT);
        let v: i32 = clamp_i32(v, 0, UNIT);
        let (x0, fx) = Texture::axis_index(u, self.width);
        let (y0, fy) = Texture::axis_index(v, self.height);
        let x1: usize = if x0 + 1 < self.width {
            x0 + 1
        } else {
            self.width - 1
        };
        let y1: usize = if y0 + 1 < self.height {
            y0 + 1
        } else {
            self.height - 1
        };
        let c00: (u32, u32, u32) = channels(self.data[self.index_of(x0, y0)]);
        let c10: (u32, u32, u32) = channels(self.data[self.index_of(x1, y0)]);
        let c01: (u32, u32, u32) = channels(self.data[self.index_of(x0, y1)]);
        let c11: (u32, u32, u32) = channels(self.data[self.index_of(x1, y1)]);
        let r: u32 = blend_channel(c00.0, c10.0, c01.0, c11.0, fx, fy);
        let g: u32 = blend_channel(c00.1, c10.1, c01.1, c11.1, fx, fy);
        let b: u32 = blend_channel(c00.2, c10.2, c01.2, c11.2, fx, fy);
        assert(((r << 16) | (g << 8) | b) == r * 65536 + g * 256 + b) by (bit_vector)
            requires
                r < 256,
                g < 256,
                b < 256,
        ;
        (r << 16) | (g << 8) | b
    }
}

/// The red, green and blue channels of a packed colour.
fn channels(c: u32) -> (r: (u32, u32, u32))
    ensures
        r.0 == red_of(c as int),
        r.1 == green_of(c as int),
        r.2 == blue_of(c as int),
        r.0 < 256,
        r.1 < 256,
        r.2 < 256,
{
    assert(((c >> 16) & 0xFF) == (c / 65536) % 256) by (bit_vector);
    assert(((c >> 8) & 0xFF) == (c / 256) % 256) by (bit_vector);
    assert((c & 0xFF) == c % 256) by (bit_vector);
    ((c >> 16) & 0xFF, (c >> 8) & 0xFF, c & 0xFF)
}

/// The bilinear blend of one channel.
fn blend_channel(c00: u32, c10: u32, c01: u32, c11: u32, fx: u64, fy: u64) -> (r: u32)
    requires
        c00 < 256,
        c10 < 256,
        c01 < 256,
        c11 < 256,
        is_fraction(fx as int),
        is_fraction(fy as int),
    ensures
        r == blend(c00 as int, c10 as int, c01 as int, c11 as int, fx as int, fy as int),
        r < 256,
{
    let unit: u64 = UNIT as u64;
    proof {
        lemma_blend_between(
            c00 as int,
            c10 as int,
            c01 as int,
            c11 as int,
            fx as int,
            fy as int,
            0,
            255,
        );
    }
    assert(c00 * (unit - fx) + c10 * fx <= 255 * 10_000 && c01 * (unit - fx) + c11 * fx <= 255
        * 10_000 && c00 * (unit - fx) <= 255 * 10_000 && c01 * (unit - fx) <= 255 * 10_000 && c10
        * fx <= 255 * 10_000 && c11 * fx <= 255 * 10_000) by (nonlinear_arith)
        requires
            0 <= c00 <= 255,
            0 <= c10 <= 255,
            0 <= c01 <= 255,
            0 <= c11 <= 255,
            0 <= fx <= unit,
            unit == 10_000,
    ;
    let top: u64 = c00 as u64 * (unit - fx) + c10 as u64 * fx;
    let bottom: u64 = c01 as u64 * (unit - fx) + c11 as u64 * fx;
    assert(top * (unit - fy) + bottom * fy <= 255 * 100_000_000 && top * (unit - fy) <= 255
        * 100_000_000 && bottom * fy <= 255 * 100_000_000) by (nonlinear_arith)
        requires
            0 <= top <= 255 * 10_000,
            0 <= bottom <= 255 * 10_000,
            0 <= fy <= unit,
            unit == 10_000,
    ;
    let sum: u64 = top * (unit - fy) + bottom * fy;
    (sum / (unit * unit)) as u32
}

impl Texture {
    /// A texture of one colour.
    pub open spec fn uniform(&self, colour: u32) -> bool {
        forall|i: int| 0 <= i < self.data@.len() ==> self.data@[i] == colour
    }
}

/// Bilinear lookup in a texture of one colour gives that colour, whatever the
/// coordinates.
pub proof fn lemma_bilinear_uniform(t: Texture, colour: u32, u: int, v: int)
    requires
        t.wf(),
        t.uniform(colour),
        colour < 0x100_0000,
    ensures
        t.bilinear(u, v) == colour,
{
    let w = t.width as int;
    let h = t.height as int;
    let x0 = texel_index(u, w);
    let y0 = texel_index(v, h);
    let x1 = min_spec(x0 + 1, w - 1);
    let y1 = min_spec(y0 + 1, h - 1);
    lemma_axis(u, w);
    lemma_axis(v, h);
    lemma_texel_in_grid(t, x0, y0);
    lemma_texel_in_grid(t, x1, y0);
    lemma_texel_in_grid(t, x0, y1);
    lemma_texel_in_grid(t, x1, y1);
    let fx = texel_fraction(u, w);
    let fy = texel_fraction(v, h);
    let c = colour as int;
    lemma_blend_uniform(red_of(c), fx, fy);
    lemma_blend_uniform(green_of(c), fx, fy);
    lemma_blend_uniform(blue_of(c), fx, fy);
    crate::color::lemma_channels_repack(colour);
}

/// The texel index of any coordinate lies on the axis, and the fraction past
/// it lies in `[0, 1]`.
pub proof fn lemma_axis(t: int, size: int)
    requires
        size > 0,
    ensures
        0 <= texel_index(t, size) < size,
        is_fraction(texel_fraction(t, size)),
{
    let c = clamp_spec(t, 0, UNIT as int);
    assert(0 <= c * size <= 10_000 * size) by (nonlinear_arith)
        requires
            0 <= c <= 10_000,
            size > 0,
    ;
}

/// A texel inside the grid has an index inside the data.
proof fn lemma_texel_in_grid(t: Texture, x: int, y: int)
    requires
        t.wf(),
        0 <= x < t.width,
        0 <= y < t.height,
    ensures
        0 <= y * t.width + x < t.data@.len(),
{
    assert(0 <= y * t.width && y * t.width + x < t.width * t.height) by (nonlinear_arith)
        requires
            0 <= x < t.width,
            0 <= y < t.height,
    ;
}

} // verus!

//! Pictures held in memory: a rectangle of pixels, of four samples each. A
//! sample is a byte, or in a deep picture sixteen bits, which are narrowed to
//! a byte where a pixel is shown.

use vstd::prelude::*;

verus! {

/// One pixel: red, green, blue and opacity.
#[derive(Clone, Copy, Debug, PartialEq, Eq, Structural)]
pub struct Rgba {
    pub r: u8,
    pub g: u8,
    pub b: u8,
    pub a: u8,
}

/// A picture as a value: `height` rows of `width` pixels, one row after the
/// other, the top row first.
pub struct PixelGrid {
    pub width: nat,
    pub height: nat,
    pub pixels: Seq<Rgba>,
}

impl PixelGrid {
    /// There is one pixel for each place in the rectangle.
    pub open spec fn wf(self) -> bool {
        self.pixels.len() == self.width * self.height
    }

    /// Every pixel of this picture is a pixel of `other`.
    pub open spec fn has_only_pixels_of(self, other: PixelGrid) -> bool {
        forall|j: int|
            0 <= j < self.pixels.len() ==> exists|i: int|
                0 <= i < other.pixels.len() && #[trigger] self.pixels[j] == #[trigger] other.pixels[i]
    }

    /// The pixel in column `x` of row `y`.
    pub open spec fn pixel(self, x: int, y: int) -> Rgba
        recommends
            0 <= x < self.width,
            0 <= y < self.height,
    {
        self.pixels[y * self.width + x]
    }
}

/// The picture that `bytes` hold: four bytes for each pixel, in the order
/// red, green, blue, opacity.
pub open spec fn grid_of(width: nat, height: nat, bytes: Seq<u8>) -> PixelGrid
    recommends
        bytes.len() == 4 * (width * height),
{
    PixelGrid {
        width,
        height,
        pixels: Seq::new(
            width * height,
            |i: int| Rgba { r: bytes[4 * i], g: bytes[4 * i + 1], b: bytes[4 * i + 2], a: bytes[4 * i + 3] },
        ),
    }
}

/// A picture of `width` by `height` pixels.
#[derive(Debug, PartialEq, Eq)]
pub struct Image {
    width: u32,
    height: u32,
    data: Vec<u8>,
}

impl View for Image {
    type V = PixelGrid;

    closed spec fn view(&self) -> PixelGrid {
        grid_of(self.width as nat, self.height as nat, self.data@)
    }
}

impl Clone for Image {
    /// A second picture of the same pixels.
    fn clone(&self) -> (out: Image)
        ensures
            out@ == self@,
            out.bytes() == self.bytes(),
    {
        proof {
            use_type_invariant(self);
        }
        let data: Vec<u8> = self.data.clone();
        Image { width: self.width, height: self.height, data }
    }
}

/// The place of a pixel among the pixels of its picture is within them.
pub proof fn lemma_pixel_index(width: int, height: int, x: int, y: int)
    requires
        0 <= x < width,
        0 <= y < height,
    ensures
        0 <= y * width,
        0 <= y * width + x < width * height,
{
    assert(0 <= y * width && y * width + x < width * height) by (nonlinear_arith)
        requires
            0 <= x < width,
            0 <= y < height,
    ;
}

impl Image {
    #[verifier::type_invariant]
    closed spec fn holds_all_pixels(self) -> bool {
        self.data@.len() == 4 * (self.width * self.height)
    }

    /// The bytes that hold the picture.
    pub closed spec fn bytes(self) -> Seq<u8> {
        self.data@
    }

    /// A picture is a full rectangle, made of its bytes, and its sides are
    /// lengths that a `u32` can carry.
    pub proof fn lemma_view(self)
        ensures
            self@.wf(),
            self@.width <= u32::MAX,
            self@.height <= u32::MAX,
            self@ == grid_of(self@.width, self@.height, self.bytes()),
    {
    }

    /// Takes `data` as the pixels of a picture of `width` by `height`, if it
    /// holds exactly four bytes for each of them.
    pub fn from_raw(width: u32, height: u32, data: Vec<u8>) -> (out: Option<Image>)
        ensures
            out is Some <==> data@.len() == 4 * (width * height),
            out matches Some(image) ==> {
                &&& image@ == grid_of(width as nat, height as nat, data@)
                &&& image.bytes() == data@
            },
    {
        let len: u64 = data.len() as u64;
        assert(width * height <= u64::MAX) by (nonlinear_arith)
            requires
                width <= u32::MAX,
                height <= u32::MAX,
        ;
        let count: u64 = width as u64 * height as u64;
        if len % 4 == 0 && len / 4 == count {
            Some(Image { width, height, data })
        } else {
            None
        }
    }

    /// The number of pixels in a row.
    pub fn width(&self) -> (w: u32)
        ensures
            w == self@.width,
    {
        self.width
    }

    /// The number of rows.
    pub fn height(&self) -> (h: u32)
        ensures
            h == self@.height,
    {
        self.height
    }

    /// The pixel in column `x` of row `y`.
    pub fn get_pixel(&self, x: u32, y: u32) -> (px: Rgba)
        requires
            x < self@.width,
            y < self@.height,
        ensures
            px == self@.pixel(x as int, y as int),
    {
        proof {
            use_type_invariant(self);
            lemma_pixel_index(self.width as int, self.height as int, x as int, y as int);
            assert(4 * (y * self.width + x) + 3 < self.data.len());
        }
        let at: usize = (y as usize * self.width as usize + x as usize) * 4;
        Rgba { r: self.data[at], g: self.data[at + 1], b: self.data[at + 2], a: self.data[at + 3] }
    }

    /// Gives up the picture for its bytes.
    pub fn into_raw(self) -> (data: Vec<u8>)
        ensures
            data@ == self.bytes(),
            data@.len() == 4 * (self@.width * self@.height),
    {
        proof {
            use_type_invariant(&self);
        }
        self.data
    }
}

/// The byte that stands for a sixteen-bit sample: the nearest on the scale
/// from nothing to full.
pub open spec fn narrowed(sample: u16) -> u8 {
    ((sample as int + 128) / 257) as u8
}

/// The bytes that stand for `words`, one for one.
pub open spec fn narrow_all(words: Seq<u16>) -> Seq<u8> {
    Seq::new(words.len(), |i: int| narrowed(words[i]))
}

/// The byte that stands for a sixteen-bit sample.
pub fn narrow(sample: u16) -> (out: u8)
    ensures
        out == narrowed(sample),
{
    ((sample as u32 + 128) / 257) as u8
}

/// A picture of `width` by `height` pixels, with sixteen bits a sample. Its
/// pixels are those of its samples, narrowed.
#[derive(Debug, PartialEq, Eq)]
pub struct DeepImage {
    width: u32,
    height: u32,
    data: Vec<u16>,
}

impl View for DeepImage {
    type V = PixelGrid;

    closed spec fn view(&self) -> PixelGrid {
        grid_of(self.width as nat, self.height as nat, narrow_all(self.data@))
    }
}

impl DeepImage {
    #[verifier::type_invariant]
    closed spec fn holds_all_samples(self) -> bool {
        self.data@.len() == 4 * (self.width * self.height)
    }

    /// The samples that hold the picture.
    pub closed spec fn words(self) -> Seq<u16> {
        self.data@
    }

    /// A deep picture is a full rectangle, made of its samples narrowed, and
    /// its sides are lengths that a `u32` can carry.
    pub proof fn lemma_view(self)
        ensures
            self@.wf(),
            self@.width <= u32::MAX,
            self@.height <= u32::MAX,
            self@ == grid_of(self@.width, self@.height, narrow_all(self.words())),
    {
    }

    /// Takes `data` as the samples of a picture of `width` by `height`, if
    /// it holds exactly four samples for each pixel.
    pub fn from_raw(width: u32, height: u32, data: Vec<u16>) -> (out: Option<DeepImage>)
        ensures
            out is Some <==> data@.len() == 4 * (width * height),
            out matches Some(image) ==> {
                &&& image@ == grid_of(width as nat, height as nat, narrow_all(data@))
                &&& image.words() == data@
            },
    {
        let len: u64 = data.len() as u64;
        assert(width * height <= u64::MAX) by (nonlinear_arith)
            requires
                width <= u32::MAX,
                height <= u32::MAX,
        ;
        let count: u64 = width as u64 * height as u64;
        if len % 4 == 0 && len / 4 == count {
            Some(DeepImage { width, height, data })
        } else {
            None
        }
    }

    /// The number of pixels in a row.
    pub fn width(&self) -> (w: u32)
        ensures
            w == self@.width,
    {
        self.width
    }

    /// The number of rows.
    pub fn height(&self) -> (h: u32)
        ensures
            h == self@.height,
    {
        self.height
    }

    /// Gives up the picture for its samples.
    pub fn into_raw(self) -> (data: Vec<u16>)
        ensures
            data@ == self.words(),
            data@.len() == 4 * (self@.width * self@.height),
    {
        proof {
            use_type_invariant(&self);
        }
        self.data
    }

    /// The same picture with a byte a sample.
    pub fn to_image(self) -> (out: Image)
        ensures
            out@ == self@,
            out.bytes() == narrow_all(self.words()),
    {
        proof {
            use_type_invariant(&self);
        }
        let mut bytes: Vec<u8> = Vec::new();
        let mut at: usize = 0;
        while at < self.data.len()
            invariant
                at <= self.data.len(),
                bytes.len() == at,
                forall|i: int| 0 <= i < at ==> bytes[i] == narrowed(self.data[i]),
            decreases self.data.len() - at,
        {
            bytes.push(narrow(self.data[at]));
            at = at + 1;
        }
        assert(bytes@ =~= narrow_all(self.data@));
        Image::from_raw(self.width, self.height, bytes).unwrap()
    }
}

} // verus!

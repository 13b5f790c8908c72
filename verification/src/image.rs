//! Pixel formats and color spaces, and whether one can hold the other.
use vstd::prelude::*;

verus! {

/// A color space: what the channels of a color mean to the eye.
#[derive(Clone, Copy, Debug, PartialEq, Eq)]
pub enum Space {
    Unknown,
    /// The sRGB color space. It is not linear.
    Srgb,
    /// The linear sRGB color space.
    LinearSrgb,
    /// The color space of HDR displays, also known as BT.2020.
    Rec2020,
}

impl Space {
    /// Whether the color space is linear.
    pub fn is_linear(&self) -> (r: bool)
        ensures
            r == (*self == Space::LinearSrgb),
    {
        match self {
            Space::LinearSrgb => true,
            _ => false,
        }
    }

    /// The bits that a channel needs to hold a color of this space.
    pub open spec fn bits_per_channel_spec(self) -> usize {
        match self {
            Space::Unknown => 0,
            Space::Srgb => 8,
            Space::LinearSrgb => 10,
            Space::Rec2020 => 10,
        }
    }

    /// The bits that a channel needs to hold a color of this space. The
    /// alpha channel does not count.
    pub fn bits_per_channel(&self) -> (r: usize)
        ensures
            r == self.bits_per_channel_spec(),
    {
        match self {
            Space::Unknown => 0,
            Space::Srgb => 8,
            Space::LinearSrgb => 10,
            Space::Rec2020 => 10,
        }
    }
}

/// How a pixel is stored.
#[derive(Clone, Copy, Debug, PartialEq, Eq)]
pub enum PixelFormat {
    /// Red, green, blue and alpha with 8 bits each.
    Rgba8,
    /// Red, green and blue with 10 bits each, and 2 bits of alpha.
    Rgb10a2,
}

impl PixelFormat {
    /// The bytes that a pixel of this format takes.
    pub fn bytes_per_pixel(&self) -> (r: usize)
        ensures
            r == 4,
    {
        match self {
            PixelFormat::Rgba8 => 4,
            PixelFormat::Rgb10a2 => 4,
        }
    }

    /// The bits of each color channel.
    pub open spec fn bits_per_channel_spec(self) -> usize {
        match self {
            PixelFormat::Rgba8 => 8,
            PixelFormat::Rgb10a2 => 10,
        }
    }

    /// The bits of each color channel.
    pub fn bits_per_channel(&self) -> (r: usize)
        ensures
            r == self.bits_per_channel_spec(),
    {
        match self {
            PixelFormat::Rgba8 => 8,
            PixelFormat::Rgb10a2 => 10,
        }
    }
}

/// Why a pixel buffer was refused.
#[derive(Clone, Copy, Debug, PartialEq, Eq)]
pub enum Error {
    /// The format and the color space that were asked for do not go
    /// together.
    InsufficientBitDepth { requested_format: PixelFormat, requested_color_space: Space },
}

/// Whether a buffer of the given format may hold colors of the given space:
/// it may not where the format has more bits to a channel than the space
/// asks for.
pub fn check_bit_depth(format: PixelFormat, color_space: Space) -> (r: Result<(), Error>)
    ensures
        format.bits_per_channel_spec() > color_space.bits_per_channel_spec() ==> r == Err::<(), Error>(
            Error::InsufficientBitDepth { requested_format: format, requested_color_space: color_space },
        ),
        format.bits_per_channel_spec() <= color_space.bits_per_channel_spec() ==> r is Ok,
{
    if format.bits_per_channel() > color_space.bits_per_channel() {
        Err(Error::InsufficientBitDepth { requested_format: format, requested_color_space: color_space })
    } else {
        Ok(())
    }
}

/// How a color of one space is brought into another.
#[derive(Clone, Copy, Debug, PartialEq, Eq)]
pub enum Conversion {
    /// The color keeps its channels and takes the space it is asked for: it
    /// came without a space.
    Adopt,
    /// The color keeps its channels and loses its space.
    Forget,
    /// The color stays as it is.
    Keep,
    /// The channels are taken from the sRGB curve to linear light.
    SrgbToLinear,
    /// The channels are taken from linear light to the sRGB curve.
    LinearToSrgb,
}

impl Space {
    /// How a color of this space is brought into the space `target`, or
    /// `None` where no conversion between the two is known: that is so
    /// between Rec. 2020 and the two sRGB spaces.
    pub open spec fn conversion_spec(self, target: Space) -> Option<Conversion> {
        match (self, target) {
            (Space::Unknown, _) => Some(Conversion::Adopt),
            (_, Space::Unknown) => Some(Conversion::Forget),
            (Space::Srgb, Space::Srgb) => Some(Conversion::Keep),
            (Space::LinearSrgb, Space::LinearSrgb) => Some(Conversion::Keep),
            (Space::Rec2020, Space::Rec2020) => Some(Conversion::Keep),
            (Space::Srgb, Space::LinearSrgb) => Some(Conversion::SrgbToLinear),
            (Space::LinearSrgb, Space::Srgb) => Some(Conversion::LinearToSrgb),
            _ => None,
        }
    }

    /// How a color of this space is brought into the space `target`, or
    /// `None` where no conversion between the two is known: that is so
    /// between Rec. 2020 and the two sRGB spaces.
    pub fn conversion(self, target: Space) -> (r: Option<Conversion>)
        ensures
            r == self.conversion_spec(target),
    {
        match (self, target) {
            (Space::Unknown, _) => Some(Conversion::Adopt),
            (_, Space::Unknown) => Some(Conversion::Forget),
            (Space::Srgb, Space::Srgb) => Some(Conversion::Keep),
            (Space::LinearSrgb, Space::LinearSrgb) => Some(Conversion::Keep),
            (Space::Rec2020, Space::Rec2020) => Some(Conversion::Keep),
            (Space::Srgb, Space::LinearSrgb) => Some(Conversion::SrgbToLinear),
            (Space::LinearSrgb, Space::Srgb) => Some(Conversion::LinearToSrgb),
            _ => None,
        }
    }
}

/// The four channels of a pixel as the integers that are stored.
#[derive(Clone, Copy, Debug, PartialEq, Eq)]
pub struct Channels {
    pub r: u32,
    pub g: u32,
    pub b: u32,
    pub a: u32,
}

/// The 32-bit word whose bytes, lowest first, are `b0` to `b3`.
pub open spec fn word_spec(b0: u8, b1: u8, b2: u8, b3: u8) -> u32 {
    (b0 as u32) | ((b1 as u32) << 8) | ((b2 as u32) << 16) | ((b3 as u32) << 24)
}

/// The byte `i` of the word `v`, counted from the lowest.
pub open spec fn byte_spec(v: u32, i: u32) -> u8 {
    ((v >> (8 * i)) & 0xff) as u8
}

/// The word that holds ten bits each of red, green and blue and two bits of
/// alpha, red highest.
pub open spec fn packed_spec(c: Channels) -> u32 {
    (c.r << 22) | (c.g << 12) | (c.b << 2) | c.a
}

/// The channels that a packed word holds.
pub open spec fn unpacked_spec(v: u32) -> Channels {
    Channels { r: (v >> 22) & 0x3ff, g: (v >> 12) & 0x3ff, b: (v >> 2) & 0x3ff, a: v & 0x3 }
}

impl PixelFormat {
    /// The largest value of a color channel.
    pub open spec fn color_max_spec(self) -> u32 {
        match self {
            PixelFormat::Rgba8 => 255,
            PixelFormat::Rgb10a2 => 1023,
        }
    }

    /// The largest value of the alpha channel.
    pub open spec fn alpha_max_spec(self) -> u32 {
        match self {
            PixelFormat::Rgba8 => 255,
            PixelFormat::Rgb10a2 => 3,
        }
    }

    /// The largest value of a color channel.
    pub fn color_max(self) -> (r: u32)
        ensures
            r == self.color_max_spec(),
    {
        match self {
            PixelFormat::Rgba8 => 255,
            PixelFormat::Rgb10a2 => 1023,
        }
    }

    /// The largest value of the alpha channel.
    pub fn alpha_max(self) -> (r: u32)
        ensures
            r == self.alpha_max_spec(),
    {
        match self {
            PixelFormat::Rgba8 => 255,
            PixelFormat::Rgb10a2 => 3,
        }
    }

    /// Whether every channel is within what the format can store.
    pub open spec fn fits_spec(self, c: Channels) -> bool {
        c.r <= self.color_max_spec() && c.g <= self.color_max_spec() && c.b
            <= self.color_max_spec() && c.a <= self.alpha_max_spec()
    }

    /// The four bytes that store the channels `c`.
    pub open spec fn encoded_spec(self, c: Channels) -> Seq<u8> {
        match self {
            PixelFormat::Rgba8 => seq![c.r as u8, c.g as u8, c.b as u8, c.a as u8],
            PixelFormat::Rgb10a2 => seq![
                byte_spec(packed_spec(c), 0),
                byte_spec(packed_spec(c), 1),
                byte_spec(packed_spec(c), 2),
                byte_spec(packed_spec(c), 3),
            ],
        }
    }

    /// The channels that the four bytes from `at` on store.
    pub open spec fn decoded_spec(self, bytes: Seq<u8>, at: int) -> Channels {
        match self {
            PixelFormat::Rgba8 => Channels {
                r: bytes[at] as u32,
                g: bytes[at + 1] as u32,
                b: bytes[at + 2] as u32,
                a: bytes[at + 3] as u32,
            },
            PixelFormat::Rgb10a2 => unpacked_spec(
                word_spec(bytes[at], bytes[at + 1], bytes[at + 2], bytes[at + 3]),
            ),
        }
    }

    /// Reads the channels of the pixel that is stored from `at` on.
    pub fn read_channels(self, bytes: &Vec<u8>, at: usize) -> (r: Channels)
        requires
            at + 4 <= bytes@.len(),
        ensures
            r == self.decoded_spec(bytes@, at as int),
            self.fits_spec(r),
    {
        assert(at + 4 <= bytes.len());
        let b0 = bytes[at];
        let b1 = bytes[at + 1];
        let b2 = bytes[at + 2];
        let b3 = bytes[at + 3];
        match self {
            PixelFormat::Rgba8 => Channels { r: b0 as u32, g: b1 as u32, b: b2 as u32, a: b3 as u32 },
            PixelFormat::Rgb10a2 => {
                let v: u32 = (b0 as u32) | ((b1 as u32) << 8) | ((b2 as u32) << 16) | ((b3 as u32)
                    << 24);
                assert((v >> 22) & 0x3ff <= 1023 && (v >> 12) & 0x3ff <= 1023 && (v >> 2) & 0x3ff
                    <= 1023 && v & 0x3 <= 3) by (bit_vector);
                Channels { r: (v >> 22) & 0x3ff, g: (v >> 12) & 0x3ff, b: (v >> 2) & 0x3ff, a: v & 0x3 }
            },
        }
    }

    /// Stores the channels `c` in the four bytes from `at` on.
    pub fn write_channels(self, c: Channels, dest: &mut Vec<u8>, at: usize)
        requires
            at + 4 <= old(dest)@.len(),
            self.fits_spec(c),
        ensures
            final(dest)@.len() == old(dest)@.len(),
            final(dest)@.subrange(at as int, at + 4) == self.encoded_spec(c),
            forall|i: int|
                0 <= i < old(dest)@.len() && !(at <= i < at + 4) ==> final(dest)@[i] == old(dest)@[i],
            self.decoded_spec(final(dest)@, at as int) == c,
    {
        assert(at + 4 <= dest.len());
        match self {
            PixelFormat::Rgba8 => {
                dest.set(at, c.r as u8);
                dest.set(at + 1, c.g as u8);
                dest.set(at + 2, c.b as u8);
                dest.set(at + 3, c.a as u8);
            },
            PixelFormat::Rgb10a2 => {
                let v: u32 = (c.r << 22) | (c.g << 12) | (c.b << 2) | c.a;
                assert(v & 0xff <= 255 && (v >> 8) & 0xff <= 255 && (v >> 16) & 0xff <= 255 && (v
                    >> 24) & 0xff <= 255) by (bit_vector);
                let b0 = (v & 0xff) as u8;
                let b1 = ((v >> 8) & 0xff) as u8;
                let b2 = ((v >> 16) & 0xff) as u8;
                let b3 = ((v >> 24) & 0xff) as u8;
                proof {
                    lemma_word_of_bytes(v);
                    lemma_unpack_packed(c);
                    assert(v >> 0 == v) by (bit_vector);
                    assert(8 * 0u32 == 0 && 8 * 1u32 == 8 && 8 * 2u32 == 16 && 8 * 3u32 == 24);
                }
                dest.set(at, b0);
                dest.set(at + 1, b1);
                dest.set(at + 2, b2);
                dest.set(at + 3, b3);
            },
        }
        assert(dest@.subrange(at as int, at + 4) =~= self.encoded_spec(c));
    }
}

/// A word is the word of its four bytes.
pub proof fn lemma_word_of_bytes(v: u32)
    ensures
        word_spec(
            (v & 0xff) as u8,
            ((v >> 8) & 0xff) as u8,
            ((v >> 16) & 0xff) as u8,
            ((v >> 24) & 0xff) as u8,
        ) == v,
{
    let b0 = (v & 0xff) as u8;
    let b1 = ((v >> 8) & 0xff) as u8;
    let b2 = ((v >> 16) & 0xff) as u8;
    let b3 = ((v >> 24) & 0xff) as u8;
    assert((b0 as u32) | ((b1 as u32) << 8) | ((b2 as u32) << 16) | ((b3 as u32) << 24) == v)
        by (bit_vector)
        requires
            b0 == (v & 0xff) as u8,
            b1 == ((v >> 8) & 0xff) as u8,
            b2 == ((v >> 16) & 0xff) as u8,
            b3 == ((v >> 24) & 0xff) as u8,
    ;
}

/// Channels that fit in ten, ten, ten and two bits come out of the packed
/// word as they went in.
pub proof fn lemma_unpack_packed(c: Channels)
    requires
        PixelFormat::Rgb10a2.fits_spec(c),
    ensures
        unpacked_spec(packed_spec(c)) == c,
{
    let r = c.r;
    let g = c.g;
    let b = c.b;
    let a = c.a;
    let v = (r << 22) | (g << 12) | (b << 2) | a;
    assert((v >> 22) & 0x3ff == r && (v >> 12) & 0x3ff == g && (v >> 2) & 0x3ff == b && v & 0x3
        == a) by (bit_vector)
        requires
            r <= 1023,
            g <= 1023,
            b <= 1023,
            a <= 3,
            v == (r << 22) | (g << 12) | (b << 2) | a,
    ;
}

/// A fixed-size buffer of pixels: rows of `width` pixels of four bytes each.
#[derive(Clone, Debug, PartialEq, Eq)]
pub struct RawPixelBuffer {
    width: u32,
    height: u32,
    format: PixelFormat,
    color_space: Space,
    bytes: Vec<u8>,
}

/// What a buffer holds, as plain values.
pub struct RawPixelBufferModel {
    pub width: u32,
    pub height: u32,
    pub format: PixelFormat,
    pub color_space: Space,
    pub bytes: Seq<u8>,
}

impl View for RawPixelBuffer {
    type V = RawPixelBufferModel;

    closed spec fn view(&self) -> RawPixelBufferModel {
        RawPixelBufferModel {
            width: self.width,
            height: self.height,
            format: self.format,
            color_space: self.color_space,
            bytes: self.bytes@,
        }
    }
}

impl RawPixelBufferModel {
    /// There are four bytes for every pixel.
    pub open spec fn wf(self) -> bool {
        self.bytes.len() == 4 * self.width * self.height
    }

    /// Where the pixel in column `x` of row `y` starts.
    pub open spec fn offset_of(self, x: int, y: int) -> int {
        4 * self.width * y + 4 * x
    }

    /// The channels of the pixel in column `x` of row `y`.
    pub open spec fn pixel(self, x: int, y: int) -> Channels {
        self.format.decoded_spec(self.bytes, self.offset_of(x, y))
    }
}

/// The pixel `(x, y)` of a buffer lies within its bytes, and apart from
/// every other pixel.
pub proof fn lemma_offset_in_range(b: RawPixelBufferModel, x: int, y: int)
    requires
        b.wf(),
        0 <= x < b.width,
        0 <= y < b.height,
    ensures
        0 <= b.offset_of(x, y),
        b.offset_of(x, y) + 4 <= b.bytes.len(),
        b.offset_of(x, y) == 4 * (b.width * y + x),
{
    assert(b.width * y + x + 1 <= b.width * b.height) by (nonlinear_arith)
        requires
            0 <= x < b.width,
            0 <= y < b.height,
    ;
    assert(4 * b.width * y == 4 * (b.width * y)) by (nonlinear_arith);
    assert(4 * b.width * b.height == 4 * (b.width * b.height)) by (nonlinear_arith);
    assert(0 <= b.width * y) by (nonlinear_arith)
        requires
            0 <= y,
            0 <= b.width,
    ;
}

impl RawPixelBuffer {
    /// A buffer of the given size whose bytes are all zero, or `None` where
    /// the number of its bytes does not fit in 32 bits.
    pub fn new(width: u32, height: u32, format: PixelFormat, color_space: Space) -> (r: Option<Self>)
        ensures
            4 * width * height > u32::MAX ==> r is None,
            4 * width * height <= u32::MAX ==> (r matches Some(b) && b@.wf() && b@.width == width
                && b@.height == height && b@.format == format && b@.color_space == color_space
                && forall|i: int| 0 <= i < b@.bytes.len() ==> b@.bytes[i] == 0),
    {
        assert(width * height <= 0xffff_ffff * 0xffff_ffff) by (nonlinear_arith)
            requires
                0 <= width <= 0xffff_ffff,
                0 <= height <= 0xffff_ffff,
        ;
        let pixels: u64 = (width as u64) * (height as u64);
        assert(4 * width * height == 4 * (width * height)) by (nonlinear_arith);
        if pixels > (u32::MAX / 4) as u64 {
            return None;
        }
        let count: usize = (pixels * 4) as usize;
        let mut bytes: Vec<u8> = Vec::new();
        let mut i: usize = 0;
        while i < count
            invariant
                0 <= i <= count,
                bytes@.len() == i,
                forall|j: int| 0 <= j < i ==> bytes@[j] == 0,
            decreases count - i,
        {
            bytes.push(0);
            i = i + 1;
        }
        Some(RawPixelBuffer { width, height, format, color_space, bytes })
    }

    /// The number of pixels in a row.
    pub fn width(&self) -> (r: u32)
        ensures
            r == self@.width,
    {
        self.width
    }

    /// The number of rows.
    pub fn height(&self) -> (r: u32)
        ensures
            r == self@.height,
    {
        self.height
    }

    /// How the pixels are stored.
    pub fn format(&self) -> (r: PixelFormat)
        ensures
            r == self@.format,
    {
        self.format
    }

    /// The color space that the pixels refer to.
    pub fn color_space(&self) -> (r: Space)
        ensures
            r == self@.color_space,
    {
        self.color_space
    }

    /// The bytes of the buffer, row by row.
    pub fn bytes(&self) -> (r: &Vec<u8>)
        ensures
            r@ == self@.bytes,
    {
        &self.bytes
    }

    /// Where the pixel in column `x` of row `y` starts.
    fn offset_of(&self, x: u32, y: u32) -> (r: usize)
        requires
            self@.wf(),
            x < self@.width,
            y < self@.height,
        ensures
            r == self@.offset_of(x as int, y as int),
            r + 4 <= self@.bytes.len(),
    {
        proof {
            lemma_offset_in_range(self@, x as int, y as int);
            assert(self.width * y <= self.width * self.height) by (nonlinear_arith)
                requires
                    0 <= y < self.height,
                    0 <= self.width,
            ;
            assert(4 * self.width * self.height == 4 * (self.width * self.height))
                by (nonlinear_arith);
            assert(0 <= self.width * y) by (nonlinear_arith)
                requires
                    0 <= y,
                    0 <= self.width,
            ;
        }
        let total = self.bytes.len();
        assert(4 * (self.width * y + x) + 4 <= total);
        let row: usize = (self.width as usize) * (y as usize);
        4 * (row + x as usize)
    }

    /// The channels of the pixel in column `x` of row `y`.
    pub fn get(&self, x: u32, y: u32) -> (r: Channels)
        requires
            self@.wf(),
            x < self@.width,
            y < self@.height,
        ensures
            r == self@.pixel(x as int, y as int),
            self@.format.fits_spec(r),
    {
        let at = self.offset_of(x, y);
        self.format.read_channels(&self.bytes, at)
    }

    /// Stores `c` as the pixel in column `x` of row `y`.
    pub fn set(&mut self, x: u32, y: u32, c: Channels)
        requires
            old(self)@.wf(),
            x < old(self)@.width,
            y < old(self)@.height,
            old(self)@.format.fits_spec(c),
        ensures
            final(self)@.wf(),
            final(self)@.width == old(self)@.width,
            final(self)@.height == old(self)@.height,
            final(self)@.format == old(self)@.format,
            final(self)@.color_space == old(self)@.color_space,
            final(self)@.pixel(x as int, y as int) == c,
            forall|i: int|
                0 <= i < old(self)@.bytes.len() && !(old(self)@.offset_of(x as int, y as int) <= i
                    < old(self)@.offset_of(x as int, y as int) + 4) ==> final(self)@.bytes[i] == old(self)@.bytes[i],
    {
        let at = self.offset_of(x, y);
        self.format.write_channels(c, &mut self.bytes, at);
    }

    /// Stores `c` as every pixel.
    pub fn clear(&mut self, c: Channels)
        requires
            old(self)@.wf(),
            old(self)@.format.fits_spec(c),
        ensures
            final(self)@.wf(),
            final(self)@.width == old(self)@.width,
            final(self)@.height == old(self)@.height,
            final(self)@.format == old(self)@.format,
            final(self)@.color_space == old(self)@.color_space,
            forall|k: int|
                0 <= k < old(self)@.width * old(self)@.height ==> #[trigger] final(self)@.format.decoded_spec(final(self)@.bytes, 4 * k) == c,
    {
        let count: usize = self.bytes.len() / 4;
        let mut k: usize = 0;
        assert(4 * self.width * self.height == 4 * (self.width * self.height)) by (nonlinear_arith);
        while k < count
            invariant
                0 <= k <= count,
                count == self.width * self.height,
                self.bytes@.len() == 4 * count,
                self.width == old(self).width,
                self.height == old(self).height,
                self.format == old(self).format,
                self.color_space == old(self).color_space,
                self.format.fits_spec(c),
                forall|j: int| 0 <= j < k ==> #[trigger] self.format.decoded_spec(self.bytes@, 4 * j) == c,
            decreases count - k,
        {
            let ghost before = self.bytes@;
            assert(4 * k + 4 <= self.bytes.len());
            self.format.write_channels(c, &mut self.bytes, 4 * k);
            assert forall|j: int| 0 <= j < k + 1 implies #[trigger] self.format.decoded_spec(
                self.bytes@,
                4 * j,
            ) == c by {
                if j < k {
                    assert(self.format.decoded_spec(before, 4 * j) == c);
                    assert(self.bytes@[4 * j] == before[4 * j]);
                    assert(self.bytes@[4 * j + 1] == before[4 * j + 1]);
                    assert(self.bytes@[4 * j + 2] == before[4 * j + 2]);
                    assert(self.bytes@[4 * j + 3] == before[4 * j + 3]);
                }
            }
            k = k + 1;
        }
    }
}

} // verus!

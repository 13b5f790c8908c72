//! Paints: what a shape is filled and stroked with, and the handles by
//! which a canvas knows them.
use crate::image::Space;
use metrohash::MetroHash64;
use std::collections::HashMap;
use std::hash::Hasher;
use vstd::prelude::*;

verus! {

/// A color as it is stored and hashed: the bit patterns of its red, green,
/// blue and alpha channel, which are 32-bit floating-point numbers, and the
/// color space that they refer to.
#[derive(Clone, Copy, Debug, PartialEq, Eq)]
pub struct ColorBits {
    pub r: u32,
    pub g: u32,
    pub b: u32,
    pub a: u32,
    pub space: Space,
}

/// The color of a paint that nobody has chosen: a bright pink without a
/// color space, `(1, 0, 127 / 255, 1)`.
pub open spec fn default_color_spec() -> ColorBits {
    ColorBits { r: 0x3f80_0000, g: 0, b: 0x3efe_feff, a: 0x3f80_0000, space: Space::Unknown }
}

/// The color of a paint that nobody has chosen.
pub fn default_color() -> (r: ColorBits)
    ensures
        r == default_color_spec(),
{
    ColorBits { r: 0x3f80_0000, g: 0, b: 0x3efe_feff, a: 0x3f80_0000, space: Space::Unknown }
}

/// What a paint is made of.
#[derive(Clone, Copy, Debug, PartialEq, Eq)]
pub struct PaintConfig {
    pub fill_color: ColorBits,
    pub stroke_color: ColorBits,
}

/// A handle to a paint that a store keeps.
#[derive(Clone, Copy, Debug, PartialEq, Eq)]
pub struct Paint {
    pub handle: u64,
}

/// The four bytes of a word, lowest first.
pub open spec fn word_bytes_spec(v: u32) -> Seq<u8> {
    seq![
        (v & 0xff) as u8,
        ((v >> 8) & 0xff) as u8,
        ((v >> 16) & 0xff) as u8,
        ((v >> 24) & 0xff) as u8,
    ]
}

/// The bytes that stand for a color where paints are told apart: its four
/// channels in the order red, green, blue, alpha. The color space is left
/// out.
pub open spec fn color_bytes_spec(c: ColorBits) -> Seq<u8> {
    word_bytes_spec(c.r) + word_bytes_spec(c.g) + word_bytes_spec(c.b) + word_bytes_spec(c.a)
}

/// The bytes that stand for a paint where paints are told apart: those of
/// its fill color, then those of its stroke color.
pub open spec fn key_bytes_spec(config: PaintConfig) -> Seq<u8> {
    color_bytes_spec(config.fill_color) + color_bytes_spec(config.stroke_color)
}

/// Appends the four bytes of a word, lowest first.
fn push_word(out: &mut Vec<u8>, v: u32)
    ensures
        final(out)@ == old(out)@ + word_bytes_spec(v),
{
    assert(v & 0xff <= 255 && (v >> 8) & 0xff <= 255 && (v >> 16) & 0xff <= 255 && (v >> 24) & 0xff
        <= 255) by (bit_vector);
    out.push((v & 0xff) as u8);
    out.push(((v >> 8) & 0xff) as u8);
    out.push(((v >> 16) & 0xff) as u8);
    out.push(((v >> 24) & 0xff) as u8);
    assert(out@ =~= old(out)@ + word_bytes_spec(v));
}

/// Appends the bytes that stand for a color.
fn push_color(out: &mut Vec<u8>, c: &ColorBits)
    ensures
        final(out)@ == old(out)@ + color_bytes_spec(*c),
{
    push_word(out, c.r);
    push_word(out, c.g);
    push_word(out, c.b);
    push_word(out, c.a);
    assert(out@ =~= old(out)@ + color_bytes_spec(*c));
}

/// The bytes that stand for a paint where paints are told apart.
pub fn key_bytes(config: &PaintConfig) -> (r: Vec<u8>)
    ensures
        r@ == key_bytes_spec(*config),
{
    let mut out: Vec<u8> = Vec::new();
    push_color(&mut out, &config.fill_color);
    push_color(&mut out, &config.stroke_color);
    assert(out@ =~= key_bytes_spec(*config));
    out
}

/// The streaming hasher `metrohash::MetroHash64`. Nothing of its state is
/// known here.
#[verifier::external_type_specification]
#[verifier::external_body]
pub struct ExMetroHash64(MetroHash64);

/// `MetroHash64::default`: a hasher that starts from the seed zero.
#[verifier::external_body]
fn metro_new() -> (r: MetroHash64) {
    MetroHash64::default()
}

/// `MetroHash64::write`: feeds `bytes` to the hasher.
#[verifier::external_body]
fn metro_write(hasher: &mut MetroHash64, bytes: &Vec<u8>) {
    hasher.write(bytes.as_slice());
}

/// `MetroHash64::finish`: the hash of what the hasher was fed. Nothing is
/// claimed of the value: the hasher reads its input in the byte order of the
/// machine.
#[verifier::external_body]
fn metro_finish(hasher: &MetroHash64) -> (r: u64) {
    hasher.finish()
}

/// The hash by which a paint is known: the MetroHash, from the seed zero, of
/// its key bytes.
pub fn hash_of(config: &PaintConfig) -> (r: u64) {
    let bytes = key_bytes(config);
    let mut hasher = metro_new();
    metro_write(&mut hasher, &bytes);
    metro_finish(&hasher)
}

/// The paints of a canvas, each under the handle it was given.
pub struct PaintStore {
    paints: HashMap<u64, PaintConfig>,
}

impl View for PaintStore {
    type V = Map<u64, PaintConfig>;

    closed spec fn view(&self) -> Map<u64, PaintConfig> {
        self.paints@
    }
}

impl PaintStore {
    /// A store without paints.
    pub fn new() -> (r: Self)
        ensures
            r@ == Map::<u64, PaintConfig>::empty(),
    {
        PaintStore { paints: HashMap::new() }
    }

    /// Keeps `config` under `handle`. A paint that was kept under the same
    /// handle gives way.
    pub fn register(&mut self, handle: u64, config: PaintConfig) -> (r: Paint)
        ensures
            r.handle == handle,
            final(self)@ == old(self)@.insert(handle, config),
    {
        broadcast use vstd::std_specs::hash::group_hash_axioms;

        self.paints.insert(handle, config);
        Paint { handle }
    }

    /// Keeps `config` under its hash and returns the handle. Whatever the
    /// hash is, the store then holds the paint under the handle that is
    /// returned, and every other paint as before.
    pub fn create_paint(&mut self, config: PaintConfig) -> (r: Paint)
        ensures
            final(self)@ == old(self)@.insert(r.handle, config),
    {
        let handle = hash_of(&config);
        self.register(handle, config)
    }

    /// Forgets the paint.
    pub fn destroy_paint(&mut self, paint: Paint)
        ensures
            final(self)@ == old(self)@.remove(paint.handle),
    {
        broadcast use vstd::std_specs::hash::group_hash_axioms;

        self.paints.remove(&paint.handle);
    }

    /// What the paint was created from, if the store holds it.
    pub fn paint_config(&self, paint: Paint) -> (r: Option<PaintConfig>)
        ensures
            r == (if self@.contains_key(paint.handle) {
                Some(self@[paint.handle])
            } else {
                None
            }),
    {
        broadcast use vstd::std_specs::hash::group_hash_axioms;

        match self.paints.get(&paint.handle) {
            Some(config) => Some(*config),
            None => None,
        }
    }

    /// The fill color of the paint, or the default color where the store
    /// does not hold it.
    pub fn fill_color(&self, paint: Paint) -> (r: ColorBits)
        ensures
            r == (if self@.contains_key(paint.handle) {
                self@[paint.handle].fill_color
            } else {
                default_color_spec()
            }),
    {
        match self.paint_config(paint) {
            Some(config) => config.fill_color,
            None => default_color(),
        }
    }
}

} // verus!

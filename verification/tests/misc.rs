use shiny::bezier::Cubic;
use shiny::change_list::ChangeList;
use shiny::curve_bvh::CurveBvh;
use shiny::fixed::{root, Fixed};
use shiny::flatten::flatten;
use shiny::float4::Float4;
use shiny::image::{
    check_bit_depth, Channels, Conversion, Error, PixelFormat, RawPixelBuffer, Space,
};
use shiny::intersection::find;
use shiny::paint::{default_color, hash_of, key_bytes, ColorBits, Paint, PaintConfig, PaintStore};
use shiny::path::{Builder, Error as PathError, Path, Segment};
use std::hash::{Hash, Hasher};
use shiny::point::{Point, Vec2};
use shiny::rect::Rect;
use shiny::scalar::{approx_eq, epsilon, lerp, max, min, one, ratio, zero, Scalar};
use shiny::vec3::Vec3;

/// A 32-bit hardware float as the scalar of the geometry.
#[derive(Clone, Copy, PartialEq)]
struct F(f32);

impl std::fmt::Debug for F {
    fn fmt(&self, f: &mut std::fmt::Formatter<'_>) -> std::fmt::Result {
        std::fmt::Debug::fmt(&self.0, f)
    }
}

impl Scalar for F {
    fn from_int(n: i32) -> Self {
        F(n as f32)
    }

    fn max_value() -> Self {
        F(f32::MAX)
    }

    fn epsilon() -> Self {
        F(1e-5)
    }

    fn add(self, rhs: Self) -> Self {
        F(self.0 + rhs.0)
    }

    fn sub(self, rhs: Self) -> Self {
        F(self.0 - rhs.0)
    }

    fn mul(self, rhs: Self) -> Self {
        F(self.0 * rhs.0)
    }

    fn div(self, rhs: Self) -> Self {
        F(self.0 / rhs.0)
    }

    fn neg(self) -> Self {
        F(-self.0)
    }

    fn abs(self) -> Self {
        F(self.0.abs())
    }

    fn sqrt(self) -> Self {
        F(self.0.sqrt())
    }

    fn lt(self, rhs: Self) -> bool {
        self.0 < rhs.0
    }

    fn le(self, rhs: Self) -> bool {
        self.0 <= rhs.0
    }

    fn eq(self, rhs: Self) -> bool {
        self.0 == rhs.0
    }
}

fn v3(x: f32, y: f32, z: f32) -> Vec3<F> {
    Vec3::new(F(x), F(y), F(z))
}

fn fx(v: f64) -> Fixed {
    Fixed::from_raw((v * 65536.0) as i64)
}

fn fixed_point(x: f64, y: f64) -> Point<Fixed> {
    Point::new(fx(x), fx(y))
}

fn pt(x: f32, y: f32) -> Point<F> {
    Point::new(F(x), F(y))
}

fn rectangle(builder: &mut Builder<F>, left: f32, right: f32, top: f32, bottom: f32) {
    builder.move_to(pt(left, top)).unwrap();
    builder.line_to(pt(right, top)).unwrap();
    builder.line_to(pt(right, bottom)).unwrap();
    builder.line_to(pt(left, bottom)).unwrap();
    builder.close().unwrap();
}

fn curves_of(path: &Path<F>) -> Vec<Cubic<F>> {
    let mut curves = vec![];
    let mut start = 0;
    for segment in &path.segments {
        for i in 0..(segment.length as usize - 1) / 3 {
            curves.push(path.curve_at(start + 3 * i));
        }
        start += segment.length as usize;
    }
    curves
}

#[test]
fn vec3() {
    let a = v3(1.0, 2.0, 3.0);
    let b = v3(4.0, 5.0, 6.0);

    // unop
    assert!(a.neg().approx_eq(&v3(-1.0, -2.0, -3.0)));
    assert_eq!(format!("{:?}", a), "Vec3 { x: 1.0, y: 2.0, z: 3.0 }");

    // binop: vector vector
    assert!(a.approx_eq(&a));
    assert!(!a.approx_eq(&b));
    assert!(a.add(b).approx_eq(&v3(5.0, 7.0, 9.0)));
    assert!(a.sub(b).approx_eq(&v3(-3.0, -3.0, -3.0)));
    assert!(approx_eq(a.dot(b), F(32.0)));

    // binop: vector scalar
    assert!(a.add_scalar(F(3.0)).approx_eq(&v3(4.0, 5.0, 6.0)));
    assert!(a.sub_scalar(F(3.0)).approx_eq(&v3(-2.0, -1.0, 0.0)));
    assert!(a.mul_scalar(F(3.0)).approx_eq(&v3(3.0, 6.0, 9.0)));
    assert!(a.div_scalar(F(3.0)).approx_eq(&v3(0.333333, 0.666666, 1.0)));

    // binop: scalar vector
    assert!(a.add_to_scalar(F(3.0)).approx_eq(&v3(4.0, 5.0, 6.0)));
    assert!(a.sub_from_scalar(F(3.0)).approx_eq(&v3(2.0, 1.0, 0.0)));
    assert!(a.mul_by_scalar(F(3.0)).approx_eq(&v3(3.0, 6.0, 9.0)));
    assert!(a.div_into_scalar(F(3.0)).approx_eq(&v3(3.0, 1.5, 1.0)));
}

#[test]
fn vec3_products_and_lengths() {
    let a = v3(1.0, 2.0, 2.0);
    assert_eq!(a.xyz(), (F(1.0), F(2.0), F(2.0)));
    assert_eq!((a.x(), a.y(), a.z()), (F(1.0), F(2.0), F(2.0)));
    assert_eq!(a.length2(), F(9.0));
    assert_eq!(a.length(), F(3.0));
    assert_eq!(v3(0.0, 3.0, 4.0).normalize(), v3(0.0, 0.6, 0.8));
    assert_eq!(v3(1.0, 0.0, 0.0).cross(v3(0.0, 1.0, 0.0)), v3(0.0, 0.0, 1.0));
    assert_eq!(v3(1.0, 2.0, 3.0).cross(v3(1.0, 3.0, 3.0)), v3(-3.0, 0.0, 1.0));
    assert_eq!(a.packed(), Float4::new(F(1.0), F(2.0), F(2.0), F(0.0)));
    let b = v3(4.0, 5.0, 6.0);
    assert_eq!(
        Vec3::dot4((a, a), (a, b), (b, a), (b, b)),
        Float4::new(F(9.0), F(26.0), F(26.0), F(77.0))
    );
}

#[test]
fn scalar_helpers() {
    assert_eq!(zero::<F>(), F(0.0));
    assert_eq!(one::<F>(), F(1.0));
    assert_eq!(ratio::<F>(2, 3), F(2.0 / 3.0));
    assert_eq!(ratio::<F>(4, 5), F(0.8));
    assert_eq!(epsilon::<F>(), F(1e-5));
    assert_eq!(min(F(1.0), F(2.0)), F(1.0));
    assert_eq!(max(F(1.0), F(2.0)), F(2.0));
    assert_eq!(lerp(F(2.0), F(0.25), F(10.0)), F(4.0));
    assert!(approx_eq(F(1.0), F(1.000009)));
    assert!(!approx_eq(F(1.0), F(1.00002)));
}

#[test]
fn color_spaces_and_pixel_formats() {
    assert!(Space::LinearSrgb.is_linear());
    assert!(!Space::Srgb.is_linear());
    assert!(!Space::Rec2020.is_linear());
    assert!(!Space::Unknown.is_linear());
    assert_eq!(Space::Unknown.bits_per_channel(), 0);
    assert_eq!(Space::Srgb.bits_per_channel(), 8);
    assert_eq!(Space::LinearSrgb.bits_per_channel(), 10);
    assert_eq!(Space::Rec2020.bits_per_channel(), 10);
    assert_eq!(PixelFormat::Rgba8.bytes_per_pixel(), 4);
    assert_eq!(PixelFormat::Rgb10a2.bytes_per_pixel(), 4);
    assert_eq!(PixelFormat::Rgba8.bits_per_channel(), 8);
    assert_eq!(PixelFormat::Rgb10a2.bits_per_channel(), 10);
    assert_eq!(check_bit_depth(PixelFormat::Rgba8, Space::Srgb), Ok(()));
    assert_eq!(check_bit_depth(PixelFormat::Rgba8, Space::LinearSrgb), Ok(()));
    assert_eq!(check_bit_depth(PixelFormat::Rgb10a2, Space::Rec2020), Ok(()));
    assert_eq!(
        check_bit_depth(PixelFormat::Rgb10a2, Space::Srgb),
        Err(Error::InsufficientBitDepth {
            requested_format: PixelFormat::Rgb10a2,
            requested_color_space: Space::Srgb
        })
    );
    assert_eq!(
        check_bit_depth(PixelFormat::Rgba8, Space::Unknown),
        Err(Error::InsufficientBitDepth {
            requested_format: PixelFormat::Rgba8,
            requested_color_space: Space::Unknown
        })
    );
}

#[test]
fn fixed_arithmetic() {
    assert_eq!(Fixed::from_int(3).raw(), 3 * 65536);
    assert_eq!(Fixed::from_int(-1).raw(), -65536);
    assert_eq!(Fixed::max_value().raw(), i64::MAX);
    assert_eq!(Fixed::epsilon().raw(), 1);
    assert!(approx_eq(fx(1.5), Fixed::from_raw(fx(1.5).raw() + 1)));
    assert!(approx_eq(Fixed::from_raw(1), fx(0.0)));
    assert!(!approx_eq(fx(1.5), Fixed::from_raw(fx(1.5).raw() + 2)));
    assert_eq!(fx(1.5).add(fx(2.25)), fx(3.75));
    assert_eq!(fx(1.5).sub(fx(2.25)), fx(-0.75));
    assert_eq!(fx(1.5).mul(fx(2.5)), fx(3.75));
    assert_eq!(fx(-1.5).mul(fx(2.5)), fx(-3.75));
    assert_eq!(fx(7.5).div(fx(2.5)), fx(3.0));
    assert_eq!(fx(-7.5).div(fx(2.5)), fx(-3.0));
    assert_eq!(fx(1.0).div(fx(3.0)).raw(), 21845);
    assert_eq!(fx(-1.0).div(fx(3.0)).raw(), -21845);
    assert_eq!(fx(2.0).neg(), fx(-2.0));
    assert_eq!(fx(-2.0).abs(), fx(2.0));
    assert_eq!(fx(2.0).abs(), fx(2.0));
    assert_eq!(fx(6.25).sqrt(), fx(2.5));
    assert_eq!(fx(2.0).sqrt().raw(), 92681);
    assert_eq!(fx(0.0).sqrt(), fx(0.0));
    assert_eq!(fx(-4.0).sqrt(), fx(0.0));
    assert!(fx(1.0).lt(fx(1.5)));
    assert!(!fx(1.5).lt(fx(1.5)));
    assert!(fx(1.5).le(fx(1.5)));
    assert!(fx(1.5).eq(fx(1.5)));
    assert!(!fx(1.5).eq(fx(1.0)));
}

#[test]
fn fixed_stops_at_the_ends_of_its_range() {
    let top = Fixed::max_value();
    let bottom = Fixed::from_raw(i64::MIN);
    assert_eq!(top.add(fx(1.0)), top);
    assert_eq!(bottom.sub(fx(1.0)), bottom);
    assert_eq!(top.mul(fx(2.0)), top);
    assert_eq!(top.mul(fx(-2.0)), bottom);
    assert_eq!(bottom.neg(), top);
    assert_eq!(bottom.abs(), top);
    assert_eq!(fx(1.0).div(fx(0.0)), top);
    assert_eq!(fx(-1.0).div(fx(0.0)), bottom);
    assert_eq!(fx(0.0).div(fx(0.0)), fx(0.0));
    assert_eq!(top.div(Fixed::from_raw(1)), top);
    assert_eq!(top.sqrt().raw(), 777472127993);
}

#[test]
fn integer_square_roots() {
    for n in 0u128..2000 {
        let r = root(n) as u128;
        assert!(r * r <= n && n < (r + 1) * (r + 1));
    }
    assert_eq!(root((1u128 << 80) - 1), (1u64 << 40) - 1);
    assert_eq!(root(1u128 << 78), 1u64 << 39);
}

#[test]
fn geometry_on_fixed_point_numbers() {
    let c = Cubic::new(
        fixed_point(0.0, 0.0),
        fixed_point(16.0, 64.0),
        fixed_point(32.0, 64.0),
        fixed_point(48.0, 0.0),
    );
    assert_eq!(c.at(fx(0.0)), fixed_point(0.0, 0.0));
    assert_eq!(c.at(fx(1.0)), fixed_point(48.0, 0.0));
    assert_eq!(c.at(fx(0.5)), fixed_point(24.0, 48.0));
    assert_eq!(c.coarse_bounds(), Rect::new(fx(0.0), fx(48.0), fx(0.0), fx(64.0)));
    let (left, right) = c.split(fx(0.25));
    assert_eq!(left.p3(), fixed_point(12.0, 36.0));
    assert_eq!(right.p0(), fixed_point(12.0, 36.0));

    let d1 = Cubic::new(
        fixed_point(0.0, 0.0),
        fixed_point(2.5, 2.5),
        fixed_point(7.5, 7.5),
        fixed_point(10.0, 10.0),
    );
    let d2 = Cubic::new(
        fixed_point(0.0, 10.0),
        fixed_point(2.5, 7.5),
        fixed_point(7.5, 2.5),
        fixed_point(10.0, 0.0),
    );
    let found = find(&d1, &d2).unwrap();
    assert_eq!(found.len(), 1);
    let (ta, tb) = *found.get(0);
    assert!((ta.raw() - 32768).abs() < 64);
    assert!((tb.raw() - 32768).abs() < 64);
}

#[test]
fn builder_cuts_a_curve_that_crosses_itself() {
    let mut builder = Builder::new();
    builder.move_to(pt(0.0, 0.0)).unwrap();
    builder.add_cubic(pt(20.0, 10.0), pt(-10.0, 10.0), pt(10.0, 0.0)).unwrap();
    let path = builder.build();
    assert!(path.is_valid());
    assert_eq!(path.segments, vec![Segment { length: 10 }]);
    let whole = Cubic::new(pt(0.0, 0.0), pt(20.0, 10.0), pt(-10.0, 10.0), pt(10.0, 0.0));
    assert_eq!((path.x[0], path.y[0]), (F(0.0), F(0.0)));
    assert_eq!((path.x[9], path.y[9]), (F(10.0), F(0.0)));
    // The first and the second cut are the same point: the crossing.
    let first = Point::new(path.x[3], path.y[3]);
    let second = Point::new(path.x[6], path.y[6]);
    assert!(first.approx_eq_within(&second, F(0.001)));
    assert!(first.approx_eq_within(&whole.at(F(0.11270169)), F(0.001)));
}

#[test]
fn flatten_cuts_two_rectangles_that_overlap() {
    let mut builder = Builder::new();
    rectangle(&mut builder, 0.0, 10.0, 0.0, 10.0);
    rectangle(&mut builder, 5.0, 15.0, 4.0, 14.0);
    let mut path = builder.build();
    assert_eq!(path.segments, vec![Segment { length: 13 }, Segment { length: 13 }]);

    let mut change_list = ChangeList::new();
    let tree = flatten(&mut path, &mut change_list, CurveBvh::storage()).unwrap();
    assert!(path.is_valid());
    // The right and the bottom side of the first rectangle and the top and
    // the left side of the second are cut once each.
    assert_eq!(path.segments, vec![Segment { length: 19 }, Segment { length: 19 }]);
    assert_eq!(tree.curves.len(), 12);

    // Two pieces start at each of the two places where the outlines cross.
    let curves = curves_of(&path);
    let starting_at = |x: f32, y: f32| {
        curves.iter().filter(|c| c.p0().approx_eq_within(&pt(x, y), F(0.001))).count()
    };
    assert_eq!(starting_at(10.0, 4.0), 2);
    assert_eq!(starting_at(5.0, 10.0), 2);
    assert_eq!(starting_at(0.0, 0.0), 1);

    // No two curves of the flattened path cross within their ranges.
    for (i, a) in curves.iter().enumerate() {
        for (j, b) in curves.iter().enumerate() {
            if i / 6 != j / 6 && a.coarse_bounds().intersects_with(&b.coarse_bounds()) {
                for (ta, tb) in find(a, b).unwrap().as_slice() {
                    let at_end = |t: F| approx_eq(t, F(0.0)) || approx_eq(t, F(1.0));
                    assert!(at_end(*ta) && at_end(*tb));
                }
            }
        }
    }

    let flat = path.clone();
    flatten(&mut path, &mut change_list, tree.into_storage()).unwrap();
    assert_eq!(path, flat);
}

#[test]
fn conversions_between_color_spaces() {
    let spaces = [Space::Unknown, Space::Srgb, Space::LinearSrgb, Space::Rec2020];
    for from in spaces.iter() {
        for to in spaces.iter() {
            let expected = match (from, to) {
                (Space::Unknown, _) => Some(Conversion::Adopt),
                (_, Space::Unknown) => Some(Conversion::Forget),
                (a, b) if a == b => Some(Conversion::Keep),
                (Space::Srgb, Space::LinearSrgb) => Some(Conversion::SrgbToLinear),
                (Space::LinearSrgb, Space::Srgb) => Some(Conversion::LinearToSrgb),
                _ => None,
            };
            assert_eq!(from.conversion(*to), expected);
        }
    }
    assert_eq!(Space::Rec2020.conversion(Space::Srgb), None);
    assert_eq!(Space::Srgb.conversion(Space::Rec2020), None);
}

#[test]
fn channels_are_stored_as_the_format_says() {
    let mut bytes = vec![0xaa; 12];
    let c = Channels { r: 1, g: 2, b: 3, a: 4 };
    PixelFormat::Rgba8.write_channels(c, &mut bytes, 4);
    assert_eq!(bytes, vec![0xaa, 0xaa, 0xaa, 0xaa, 1, 2, 3, 4, 0xaa, 0xaa, 0xaa, 0xaa]);
    assert_eq!(PixelFormat::Rgba8.read_channels(&bytes, 4), c);

    let c = Channels { r: 0x3ff, g: 0x155, b: 0x2aa, a: 0x2 };
    PixelFormat::Rgb10a2.write_channels(c, &mut bytes, 8);
    let word = (0x3ffu32 << 22) | (0x155 << 12) | (0x2aa << 2) | 0x2;
    assert_eq!(&bytes[8..], &word.to_le_bytes());
    assert_eq!(&bytes[..8], &[0xaa, 0xaa, 0xaa, 0xaa, 1, 2, 3, 4]);
    assert_eq!(PixelFormat::Rgb10a2.read_channels(&bytes, 8), c);
    assert_eq!(
        PixelFormat::Rgb10a2.read_channels(&vec![0xff, 0xff, 0xff, 0xff], 0),
        Channels { r: 1023, g: 1023, b: 1023, a: 3 }
    );
    assert_eq!((PixelFormat::Rgba8.color_max(), PixelFormat::Rgba8.alpha_max()), (255, 255));
    assert_eq!((PixelFormat::Rgb10a2.color_max(), PixelFormat::Rgb10a2.alpha_max()), (1023, 3));
}

#[test]
fn raw_pixel_buffers() {
    let mut buffer = RawPixelBuffer::new(3, 2, PixelFormat::Rgba8, Space::Srgb).unwrap();
    assert_eq!((buffer.width(), buffer.height()), (3, 2));
    assert_eq!(buffer.format(), PixelFormat::Rgba8);
    assert_eq!(buffer.color_space(), Space::Srgb);
    assert_eq!(buffer.bytes(), &vec![0u8; 24]);
    let c = Channels { r: 9, g: 8, b: 7, a: 6 };
    buffer.set(2, 1, c);
    assert_eq!(buffer.get(2, 1), c);
    assert_eq!(buffer.get(1, 1), Channels { r: 0, g: 0, b: 0, a: 0 });
    assert_eq!(&buffer.bytes()[20..], &[9, 8, 7, 6]);
    assert_eq!(&buffer.bytes()[..20], &[0u8; 20]);
    buffer.clear(Channels { r: 1, g: 2, b: 3, a: 4 });
    for y in 0..2 {
        for x in 0..3 {
            assert_eq!(buffer.get(x, y), Channels { r: 1, g: 2, b: 3, a: 4 });
        }
    }

    let mut packed = RawPixelBuffer::new(2, 2, PixelFormat::Rgb10a2, Space::LinearSrgb).unwrap();
    packed.set(0, 1, Channels { r: 1000, g: 500, b: 250, a: 1 });
    assert_eq!(packed.get(0, 1), Channels { r: 1000, g: 500, b: 250, a: 1 });
    assert_eq!(packed.get(1, 1), Channels { r: 0, g: 0, b: 0, a: 0 });

    assert!(RawPixelBuffer::new(0, 5, PixelFormat::Rgba8, Space::Srgb).unwrap().bytes().is_empty());
    assert!(RawPixelBuffer::new(65536, 16384, PixelFormat::Rgba8, Space::Srgb).is_none());
    assert!(RawPixelBuffer::new(u32::MAX, u32::MAX, PixelFormat::Rgba8, Space::Srgb).is_none());
}

#[test]
fn rect_helpers() {
    let r = Rect::new(F(1.0), F(5.0), F(2.0), F(10.0));
    assert_eq!(r.translated(Vec2::new(F(10.0), F(-2.0))), Rect::new(F(11.0), F(15.0), F(0.0), F(8.0)));
    assert_eq!(r.extent(), Vec2::new(F(4.0), F(8.0)));
    assert_eq!(Rect::<F>::enclosing(&[]), Rect::empty());
    assert_eq!(
        Rect::enclosing(&[pt(3.0, -1.0), pt(-2.0, 4.0), pt(1.0, 1.0)]),
        Rect::new(F(-2.0), F(3.0), F(-1.0), F(4.0))
    );
    // The origin is always held.
    assert_eq!(Rect::enclosing(&[pt(3.0, 2.0)]), Rect::new(F(0.0), F(3.0), F(0.0), F(2.0)));
}

#[test]
fn a_quadratic_curve_is_raised_to_a_cubic_one() {
    let (q0, q1, q2) = (pt(0.0, 0.0), pt(3.0, 6.0), pt(6.0, 0.0));
    let c = Cubic::elevate(q0, q1, q2);
    assert_eq!(c.p0(), q0);
    assert_eq!(c.p3(), q2);
    assert!(c.p1().approx_eq(&pt(2.0, 4.0)));
    assert!(c.p2().approx_eq(&pt(4.0, 4.0)));
    for i in 0..=10 {
        let t = i as f32 / 10.0;
        let s = 1.0 - t;
        let on_quadratic = pt(2.0 * s * t * 3.0 + t * t * 6.0, 2.0 * s * t * 6.0);
        assert!(c.at(F(t)).approx_eq_within(&on_quadratic, F(1.0e-4)));
    }
}

#[test]
fn builder_refuses_a_curve_that_cannot_be_searched() {
    let mut builder = Builder::new();
    builder.move_to(pt(1.0, 1.0)).unwrap();
    assert_eq!(
        builder.add_cubic(pt(1.0, 1.0), pt(1.0, 1.0), pt(1.0, 1.0)),
        Err(PathError::Degenerate)
    );
    let path = builder.build();
    assert_eq!(path.segments, vec![Segment { length: 1 }]);
    assert_eq!(path.x.len(), 1);
}

fn bits(r: f32, g: f32, b: f32, a: f32) -> ColorBits {
    ColorBits { r: r.to_bits(), g: g.to_bits(), b: b.to_bits(), a: a.to_bits(), space: Space::Srgb }
}

fn paint_of(fill: ColorBits, stroke: ColorBits) -> PaintConfig {
    PaintConfig { fill_color: fill, stroke_color: stroke }
}

#[test]
fn a_paint_is_hashed_channel_by_channel() {
    let config = paint_of(bits(1.0, 0.5, 0.25, 1.0), bits(0.0, 0.125, 0.75, 0.5));
    let channels = [1.0f32, 0.5, 0.25, 1.0, 0.0, 0.125, 0.75, 0.5];

    let mut expected_bytes = vec![];
    for c in channels.iter() {
        expected_bytes.extend_from_slice(&c.to_bits().to_le_bytes());
    }
    assert_eq!(key_bytes(&config), expected_bytes);

    // What a hasher makes of the bit patterns of the channels, one after
    // the other.
    let mut hasher = metrohash::MetroHash64::default();
    let little_endian = u32::from_ne_bytes([1, 0, 0, 0]) == 1;
    for c in channels.iter() {
        if little_endian {
            c.to_bits().hash(&mut hasher);
        } else {
            hasher.write(&c.to_bits().to_le_bytes());
        }
    }
    assert_eq!(hash_of(&config), hasher.finish());
    assert_eq!(hash_of(&config), hash_of(&config));

    let other = paint_of(bits(1.0, 0.5, 0.25, 1.0), bits(0.0, 0.125, 0.75, 0.25));
    assert_ne!(hash_of(&config), hash_of(&other));
    // The color space does not count.
    let mut respaced = config;
    respaced.fill_color.space = Space::LinearSrgb;
    assert_eq!(hash_of(&config), hash_of(&respaced));
}

#[test]
fn a_store_keeps_paints_under_their_handles() {
    let red = paint_of(bits(1.0, 0.0, 0.0, 1.0), bits(0.0, 0.0, 0.0, 1.0));
    let blue = paint_of(bits(0.0, 0.0, 1.0, 1.0), bits(1.0, 1.0, 1.0, 1.0));
    let mut store = PaintStore::new();
    assert_eq!(store.paint_config(Paint { handle: 1 }), None);
    assert_eq!(store.fill_color(Paint { handle: 1 }), default_color());

    let a = store.create_paint(red);
    let b = store.create_paint(blue);
    assert_eq!(a.handle, hash_of(&red));
    assert_eq!(b.handle, hash_of(&blue));
    assert_eq!(store.paint_config(a), Some(red));
    assert_eq!(store.paint_config(b), Some(blue));
    assert_eq!(store.fill_color(b), blue.fill_color);
    assert_eq!(store.create_paint(red), a);

    store.destroy_paint(a);
    assert_eq!(store.paint_config(a), None);
    assert_eq!(store.paint_config(b), Some(blue));

    assert_eq!(store.register(7, red), Paint { handle: 7 });
    assert_eq!(store.paint_config(Paint { handle: 7 }), Some(red));
    assert_eq!(store.register(7, blue), Paint { handle: 7 });
    assert_eq!(store.paint_config(Paint { handle: 7 }), Some(blue));

    let pink = default_color();
    assert_eq!(
        (f32::from_bits(pink.r), f32::from_bits(pink.g), f32::from_bits(pink.b), f32::from_bits(pink.a)),
        (1.0, 0.0, 127.0 / 255.0, 1.0)
    );
    assert_eq!(pink.space, Space::Unknown);
}

use shiny::float4::{Float4, Vec4};
use shiny::matrix::{Float4x4, Mat1x4, Mat4x2, Mat4x4};
use shiny::point::{Float2, Vec2};
use shiny::scalar::Scalar;

/// A 32-bit hardware float as the scalar of the geometry.
#[derive(Clone, Copy, PartialEq)]
struct F(f32);

impl std::fmt::Debug for F {
    fn fmt(&self, f: &mut std::fmt::Formatter<'_>) -> std::fmt::Result {
        std::fmt::Debug::fmt(&self.0, f)
    }
}

impl Scalar for F {
    fn from_int(n: i32) -> Self {
        F(n as f32)
    }

    fn max_value() -> Self {
        F(f32::MAX)
    }

    fn epsilon() -> Self {
        F(1e-5)
    }

    fn add(self, rhs: Self) -> Self {
        F(self.0 + rhs.0)
    }

    fn sub(self, rhs: Self) -> Self {
        F(self.0 - rhs.0)
    }

    fn mul(self, rhs: Self) -> Self {
        F(self.0 * rhs.0)
    }

    fn div(self, rhs: Self) -> Self {
        F(self.0 / rhs.0)
    }

    fn neg(self) -> Self {
        F(-self.0)
    }

    fn abs(self) -> Self {
        F(self.0.abs())
    }

    fn sqrt(self) -> Self {
        F(self.0.sqrt())
    }

    fn lt(self, rhs: Self) -> bool {
        self.0 < rhs.0
    }

    fn le(self, rhs: Self) -> bool {
        self.0 <= rhs.0
    }

    fn eq(self, rhs: Self) -> bool {
        self.0 == rhs.0
    }
}

fn f4(a: f32, b: f32, c: f32, d: f32) -> Float4<F> {
    Float4::new(F(a), F(b), F(c), F(d))
}

fn mat(v: [f32; 16]) -> Mat4x4<F> {
    Mat4x4::new(
        F(v[0]),
        F(v[1]),
        F(v[2]),
        F(v[3]),
        F(v[4]),
        F(v[5]),
        F(v[6]),
        F(v[7]),
        F(v[8]),
        F(v[9]),
        F(v[10]),
        F(v[11]),
        F(v[12]),
        F(v[13]),
        F(v[14]),
        F(v[15]),
    )
}

#[test]
fn float4_extract() {
    let v = Float4::new(F(1.0), F(2.0), F(3.0), F(4.0));
    assert_eq!(v.unpack(), (F(1.0), F(2.0), F(3.0), F(4.0)));
}

#[test]
fn float4_swizzle() {
    let v = Float4::new(F(1.0), F(2.0), F(3.0), F(4.0));
    assert_eq!(v.zwxy(), Float4::new(F(3.0), F(4.0), F(1.0), F(2.0)));
}

#[test]
fn float4_float4_x_float4x4() {
    let v = f4(1.0, 2.0, 3.0, 4.0);
    let m = Float4x4::new(
        f4(5.0, 6.0, 7.0, 8.0),
        f4(9.0, 10.0, 11.0, 12.0),
        f4(13.0, 14.0, 15.0, 16.0),
        f4(17.0, 18.0, 19.0, 20.0),
    );
    assert_eq!(v.mul_matrix(m), f4(130.0, 140.0, 150.0, 160.0));
}

#[test]
fn float4x4_mul_vec4() {
    let m = Float4x4::new(
        f4(1.0, 2.0, 3.0, 4.0),
        f4(5.0, 6.0, 7.0, 8.0),
        f4(9.0, 10.0, 11.0, 12.0),
        f4(13.0, 14.0, 15.0, 16.0),
    )
    .mul_vec4(f4(17.0, 18.0, 19.0, 20.0));
    assert_eq!(m.unpack(), (F(190.0), F(486.0), F(782.0), F(1078.0)));
}

#[test]
fn vec4_extract() {
    let v = Vec4::new(F(1.0), F(2.0), F(3.0), F(4.0));
    assert_eq!(v.unpack(), (F(1.0), F(2.0), F(3.0), F(4.0)));
}

#[test]
fn vec4_swizzle() {
    let v = Vec4::new(F(1.0), F(2.0), F(3.0), F(4.0));
    assert_eq!(v.zwxy(), Vec4::new(F(3.0), F(4.0), F(1.0), F(2.0)));
}

#[test]
fn vec4_float4_x_float4x4() {
    let v = Vec4::new(F(1.0), F(2.0), F(3.0), F(4.0));
    let m = Float4x4::new(
        Vec4::new(F(5.0), F(6.0), F(7.0), F(8.0)),
        Vec4::new(F(9.0), F(10.0), F(11.0), F(12.0)),
        Vec4::new(F(13.0), F(14.0), F(15.0), F(16.0)),
        Vec4::new(F(17.0), F(18.0), F(19.0), F(20.0)),
    );
    assert_eq!(v.mul_matrix(m), Vec4::new(F(130.0), F(140.0), F(150.0), F(160.0)));
}

#[test]
fn mat4x4_mul_vec4() {
    let m = mat([
        1.0, 2.0, 3.0, 4.0, 5.0, 6.0, 7.0, 8.0, 9.0, 10.0, 11.0, 12.0, 13.0, 14.0, 15.0, 16.0,
    ])
    .mul_vec4(f4(17.0, 18.0, 19.0, 20.0));
    assert_eq!(m.unpack(), (F(190.0), F(486.0), F(782.0), F(1078.0)));
}

#[test]
fn mul_1x4_2x4() {
    let a = Mat1x4::new(F(1.0), F(2.0), F(3.0), F(4.0));
    let b = Mat4x2::new(F(1.0), F(2.0), F(3.0), F(4.0), F(5.0), F(6.0), F(7.0), F(8.0));
    let c = a.mul_4x2(b);
    assert_eq!(c, Vec2::new(F(50.0), F(60.0)));
}

#[test]
fn mul_1x4_4x4() {
    let a = Mat1x4::new(F(1.0), F(2.0), F(3.0), F(4.0));
    let b = mat([
        1.0, 2.0, 3.0, 4.0, 5.0, 6.0, 7.0, 8.0, 9.0, 10.0, 11.0, 12.0, 13.0, 14.0, 15.0, 16.0,
    ]);
    let c = a.mul_4x4(b);
    assert_eq!(c, Mat1x4::new(F(90.0), F(100.0), F(110.0), F(120.0)));
}

#[test]
fn transpose_4x4() {
    let m = mat([
        1.0, 2.0, 3.0, 4.0, 5.0, 6.0, 7.0, 8.0, 9.0, 10.0, 11.0, 12.0, 13.0, 14.0, 15.0, 16.0,
    ]);
    let t = m.transpose();
    assert_eq!(t.r0(), (F(1.0), F(5.0), F(9.0), F(13.0)));
    assert_eq!(t.r1(), (F(2.0), F(6.0), F(10.0), F(14.0)));
    assert_eq!(t.r2(), (F(3.0), F(7.0), F(11.0), F(15.0)));
    assert_eq!(t.r3(), (F(4.0), F(8.0), F(12.0), F(16.0)));
}

#[test]
fn float4() {
    let a = f4(1.0, 2.0, 3.0, 4.0);
    let b = f4(5.0, 6.0, 7.0, 8.0);

    // Unary ops
    assert_eq!(a.a(), F(1.0));
    assert_eq!(a.b(), F(2.0));
    assert_eq!(a.c(), F(3.0));
    assert_eq!(a.d(), F(4.0));
    assert_eq!(a.unpack(), (F(1.0), F(2.0), F(3.0), F(4.0)));
    assert_eq!(a.reverse().unpack(), (F(4.0), F(3.0), F(2.0), F(1.0)));
    assert_eq!(a.reverse().reverse(), a);
    assert!(a.neg().approx_eq(&f4(-1.0, -2.0, -3.0, -4.0)));
    assert!(a.neg().abs().approx_eq(&a));
    assert!(a.sqrt().approx_eq(&f4(
        1.0f32.sqrt(),
        2.0f32.sqrt(),
        3.0f32.sqrt(),
        4.0f32.sqrt()
    )));
    assert_eq!(a.swap_high_low(), f4(3.0, 4.0, 1.0, 2.0));
    assert_eq!(a.swap_high_low().swap_high_low(), a);

    {
        let (x, y, z, w) = Float4::transpose4x4(a, a, a, a);
        assert_eq!(x, Float4::splat(F(1.0)));
        assert_eq!(y, Float4::splat(F(2.0)));
        assert_eq!(z, Float4::splat(F(3.0)));
        assert_eq!(w, Float4::splat(F(4.0)));
    }

    assert_eq!(a.rotate_right(0), a);
    assert_eq!(a.rotate_right(1), f4(4.0, 1.0, 2.0, 3.0));
    assert_eq!(a.rotate_right(2), f4(3.0, 4.0, 1.0, 2.0));
    assert_eq!(a.rotate_right(3), f4(2.0, 3.0, 4.0, 1.0));

    // Binary Ops: Float4 Float4
    assert!(a.approx_eq(&a));
    assert!(!a.approx_eq(&b));
    assert_eq!(a.dot(b), F(1.0 * 5.0 + 2.0 * 6.0 + 3.0 * 7.0 + 4.0 * 8.0));
    {
        let x = f4(1.0, 2.0, 3.0, 7.0);
        let y = f4(1.0, 3.0, 2.0, 10.0);
        // Note how the fourth element is always 0.
        assert!(x.cross(y).approx_eq(&f4(-5.0, 1.0, 1.0, 0.0)));
    }
    assert_eq!(a.min(b), a);
    assert_eq!(b.min(a), a);
    assert_eq!(a.max(b), b);
    assert_eq!(b.max(a), b);
    assert_eq!(a.less_than(a), (false, false, false, false));
    assert_eq!(a.less_than(b), (true, true, true, true));
    assert_eq!(a.less_or_equal(b), (true, true, true, true));
    assert_eq!(a.less_or_equal(a), (true, true, true, true));

    {
        // Determinant of 3x3 matrix using the scalar triple product.
        let x = f4(3.0, 2.0, 1.0, 0.0);
        let y = f4(1.0, 1.0, 5.0, 0.0);
        let z = f4(9.0, 10.0, 11.0, 0.0);
        assert_eq!(x.dot(y.cross(z)), F(-48.0));
    }

    // Wide Ops
    assert_eq!(Float4::horizontal_sum2(a, b), (F(10.0), F(26.0)));
    assert!(Float4::horizontal_sum4(a, b, a, b).approx_eq(&f4(10.0, 26.0, 10.0, 26.0)));
    assert!(Float4::dot4(a, a, a, a, a, a, a, a).approx_eq(&f4(
        a.dot(a).0,
        a.dot(a).0,
        a.dot(a).0,
        a.dot(a).0
    )));
}

#[test]
fn hsum2() {
    let a = f4(1.0, 2.0, 3.0, 4.0);
    let b = f4(5.0, 6.0, 7.0, 8.0);
    assert_eq!(Float4::hsum2(a, b), (F(10.0), F(26.0)));
}

#[test]
fn float4_lane_permutations_and_reductions() {
    let a = f4(1.0, 2.0, 3.0, 4.0);
    let b = f4(5.0, 6.0, 7.0, 8.0);
    assert_eq!(a.yxwz(), f4(2.0, 1.0, 4.0, 3.0));
    assert_eq!(a.combine_high_low(b), f4(3.0, 4.0, 5.0, 6.0));
    assert_eq!(a.rotate_right(5), a.rotate_right(1));
    let (lo, hi) = Float4::horizontal_min_max4(f4(4.0, -1.0, 9.0, 2.0), b, a, f4(0.0, 0.0, 0.0, 0.0));
    assert_eq!(lo, f4(-1.0, 5.0, 1.0, 0.0));
    assert_eq!(hi, f4(9.0, 8.0, 4.0, 0.0));
    assert_eq!(a.mul_elements(&b), f4(5.0, 12.0, 21.0, 32.0));
    assert_eq!(b.div_elements(&a), f4(5.0, 3.0, 7.0 / 3.0, 2.0));
    assert_eq!(f4(4.0, 9.0, 16.0, 25.0).sqrt_elements(), f4(2.0, 3.0, 4.0, 5.0));
    assert_eq!(a.eq_elements(&f4(1.0, 0.0, 3.0, 0.0)), (true, false, true, false));
    assert_eq!(a.lt_elements(&f4(2.0, 2.0, 2.0, 2.0)), (true, false, false, false));
    assert_eq!(a.scale(F(2.0)), f4(2.0, 4.0, 6.0, 8.0));
    assert_eq!(a.lerp(F(0.5), &b), f4(3.0, 4.0, 5.0, 6.0));
    assert_eq!(a.cross(f4(1.0, 3.0, 3.0, 150.0)).unpack(), (F(-3.0), F(0.0), F(1.0), F(0.0)));
}

#[test]
fn subtraction() {
    let a = Vec2::new(F(1.0), F(2.0));
    let b = Vec2::new(F(3.0), F(4.0));

    assert!(a.sub(b).approx_eq(&Vec2::new(F(-2.0), F(-2.0))));
}

#[test]
fn multiplication() {
    let a = Vec2::new(F(1.0), F(2.0));
    assert!(a.mul_scalar(F(2.0)).approx_eq(&Vec2::new(F(2.0), F(4.0))));
}

#[test]
fn vec2() {
    let a = Vec2::new(F(1.0), F(2.0));
    let b = Vec2::new(F(3.0), F(4.0));

    // unop
    assert!(a.neg().approx_eq(&Vec2::new(F(-1.0), F(-2.0))));
    assert_eq!(format!("{:?}", a), "Vec2 { x: 1.0, y: 2.0 }");

    // binop: vector vector
    assert!(a.approx_eq(&a));
    assert!(!a.approx_eq(&b));
    assert!(a.add(b).approx_eq(&Vec2::new(F(4.0), F(6.0))));
    assert!(a.sub(b).approx_eq(&Vec2::new(F(-2.0), F(-2.0))));

    // binop: vector scalar
    assert!(a.add_scalar(F(1.0)).approx_eq(&Vec2::new(F(2.0), F(3.0))));
    assert!(a.sub_scalar(F(1.0)).approx_eq(&Vec2::new(F(0.0), F(1.0))));
    assert!(a.mul_scalar(F(2.0)).approx_eq(&Vec2::new(F(2.0), F(4.0))));
    assert!(a.div_scalar(F(2.0)).approx_eq(&Vec2::new(F(0.5), F(1.0))));

    // binop: scalar vector
    assert!(a.add_scalar(F(1.0)).approx_eq(&Vec2::new(F(2.0), F(3.0))));
    assert!(a.sub_from_scalar(F(1.0)).approx_eq(&Vec2::new(F(0.0), F(-1.0))));
    assert!(a.mul_scalar(F(2.0)).approx_eq(&Vec2::new(F(2.0), F(4.0))));
    assert!(a.div_into_scalar(F(2.0)).approx_eq(&Vec2::new(F(2.0), F(1.0))));
}

#[test]
fn vec2_length_and_dot() {
    let a = Vec2::new(F(3.0), F(4.0));
    assert_eq!(a.length2(), F(25.0));
    assert_eq!(a.length(), F(5.0));
    assert_eq!(a.normalize(), Vec2::new(F(0.6), F(0.8)));
    assert_eq!(a.dot(Vec2::new(F(2.0), F(-1.0))), F(2.0));
}

#[test]
fn float2_is_vec2() {
    let a = Float2::new(F(1.0), F(2.0));
    assert_eq!(a.mul_scalar(F(2.0)), Vec2::new(F(2.0), F(4.0)));
    assert_eq!((a.x(), a.y()), (F(1.0), F(2.0)));
}

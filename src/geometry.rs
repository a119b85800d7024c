use vstd::arithmetic::div_mod::lemma_div_multiples_vanish;
use vstd::arithmetic::div_mod::lemma_fundamental_div_mod;
use vstd::arithmetic::div_mod::lemma_fundamental_div_mod_converse;
use vstd::arithmetic::div_mod::lemma_mod_pos_bound;
use vstd::prelude::*;

use crate::math::Vec2i;
use crate::math::Vec3Wide;
use crate::math::Vec3i;
use crate::math::lemma_mul_within;
use crate::render_utils::Color;

verus! {

/// Largest screen coordinate that the barycentric solver accepts.
pub const SCREEN_LIMIT: i32 = 0x8000;

/// Bound on the magnitude of barycentric numerators and denominators.
pub const WEIGHT_LIMIT: i64 = 0x2_0000_0000;

/// Screen depths are in thousandths of a view-space unit; a vertex nearer
/// than this lies in front of the near plane.
pub const NEAR_DEPTH: i32 = 100;

/// A vertex: position, texture coordinate and color.
#[derive(Debug, Clone, Copy, PartialEq, Eq, Structural)]
pub struct Vert {
    pub pos: Vec3i,
    pub texpos: Vec2i,
    pub color: Color,
}

impl Vert {
    pub fn cons(pos: Vec3i, color: Color, texpos: Vec2i) -> (r: Vert)
        ensures
            r.pos == pos,
            r.color == color,
            r.texpos == texpos,
    {
        Vert { pos, color, texpos }
    }
}

/// A triangle with vertices A, B, C in that order.
#[derive(Debug, Clone, Copy, PartialEq, Eq, Structural)]
pub struct Tri {
    pub a: Vert,
    pub b: Vert,
    pub c: Vert,
}

/// Twice the signed area of the triangle (p, q, (x, y)): positive when
/// (x, y) lies to the left of the directed edge from p to q.
pub open spec fn edge_at(p: Vec3i, q: Vec3i, x: int, y: int) -> int {
    (q.x - p.x) * (y - p.y) - (q.y - p.y) * (x - p.x)
}

/// The unnormalized normal: the cross product of (A - B) and (A - C).
pub open spec fn normal_of(a: Vec3i, b: Vec3i, c: Vec3i) -> (int, int, int) {
    let (ux, uy, uz) = (a.x - b.x, a.y - b.y, a.z - b.z);
    let (vx, vy, vz) = (a.x - c.x, a.y - c.y, a.z - c.z);
    (uy * vz - uz * vy, uz * vx - ux * vz, ux * vy - uy * vx)
}

/// The opposite vector.
pub open spec fn neg3(v: (int, int, int)) -> (int, int, int) {
    (-v.0, -v.1, -v.2)
}

/// Reversing any two vertices of a triangle reverses the sign of its normal.
pub proof fn lemma_normal_antisymmetric(a: Vec3i, b: Vec3i, c: Vec3i)
    ensures
        normal_of(b, a, c) == neg3(normal_of(a, b, c)),
        normal_of(a, c, b) == neg3(normal_of(a, b, c)),
        normal_of(c, b, a) == neg3(normal_of(a, b, c)),
{
    let (ax, ay, az) = (a.x as int, a.y as int, a.z as int);
    let (bx, by, bz) = (b.x as int, b.y as int, b.z as int);
    let (cx, cy, cz) = (c.x as int, c.y as int, c.z as int);
    assert((by - ay) * (bz - cz) - (bz - az) * (by - cy) == -((ay - by) * (az - cz) - (az - bz) * (
    ay - cy))) by (nonlinear_arith);
    assert((bx - ax) * (bz - cz) - (bz - az) * (bx - cx) == -((ax - bx) * (az - cz) - (az - bz) * (
    ax - cx))) by (nonlinear_arith);
    assert((bx - ax) * (by - cy) - (by - ay) * (bx - cx) == -((ax - bx) * (ay - cy) - (ay - by) * (
    ax - cx))) by (nonlinear_arith);
    assert((cy - by) * (cz - az) - (cz - bz) * (cy - ay) == -((ay - by) * (az - cz) - (az - bz) * (
    ay - cy))) by (nonlinear_arith);
    assert((cx - bx) * (cz - az) - (cz - bz) * (cx - ax) == -((ax - bx) * (az - cz) - (az - bz) * (
    ax - cx))) by (nonlinear_arith);
    assert((cx - bx) * (cy - ay) - (cy - by) * (cx - ax) == -((ax - bx) * (ay - cy) - (ay - by) * (
    ax - cx))) by (nonlinear_arith);
}

/// Swaps B and C when C lies higher.
pub open spec fn order_bc(t: Tri) -> Tri {
    if t.c.pos.y > t.b.pos.y {
        Tri { b: t.c, c: t.b, ..t }
    } else {
        t
    }
}

/// Swaps A and B when B lies higher.
pub open spec fn order_ab(t: Tri) -> Tri {
    if t.b.pos.y > t.a.pos.y {
        Tri { a: t.b, b: t.a, ..t }
    } else {
        t
    }
}

/// The three conditional swaps of the vertical sort.
pub open spec fn sorted_tri(t: Tri) -> Tri {
    order_bc(order_ab(order_bc(t)))
}

/// `s` holds the vertices of `t` in some order.
pub open spec fn same_vertices(s: Tri, t: Tri) -> bool {
    ||| (s.a, s.b, s.c) == (t.a, t.b, t.c)
    ||| (s.a, s.b, s.c) == (t.a, t.c, t.b)
    ||| (s.a, s.b, s.c) == (t.b, t.a, t.c)
    ||| (s.a, s.b, s.c) == (t.b, t.c, t.a)
    ||| (s.a, s.b, s.c) == (t.c, t.a, t.b)
    ||| (s.a, s.b, s.c) == (t.c, t.b, t.a)
}

/// Every vertex lies on the screen area that the barycentric solver accepts.
pub open spec fn on_screen(t: Tri) -> bool {
    &&& 0 <= t.a.pos.x <= SCREEN_LIMIT && 0 <= t.a.pos.y <= SCREEN_LIMIT
    &&& 0 <= t.b.pos.x <= SCREEN_LIMIT && 0 <= t.b.pos.y <= SCREEN_LIMIT
    &&& 0 <= t.c.pos.x <= SCREEN_LIMIT && 0 <= t.c.pos.y <= SCREEN_LIMIT
}

/// Some vertex lies in front of the near plane.
pub open spec fn is_behind_view(t: Tri) -> bool {
    t.a.pos.z < NEAR_DEPTH || t.b.pos.z < NEAR_DEPTH || t.c.pos.z < NEAR_DEPTH
}

/// Barycentric weights `n1 / den`, `n2 / den`, `n3 / den`.
#[derive(Debug, Clone, Copy, PartialEq, Eq, Structural)]
pub struct Weights {
    pub n1: i64,
    pub n2: i64,
    pub n3: i64,
    pub den: i64,
}

impl Weights {
    /// A positive denominator, and every term within the weight bound.
    pub open spec fn wf(self) -> bool {
        &&& 0 < self.den <= WEIGHT_LIMIT
        &&& -WEIGHT_LIMIT <= self.n1 <= WEIGHT_LIMIT
        &&& -WEIGHT_LIMIT <= self.n2 <= WEIGHT_LIMIT
        &&& -WEIGHT_LIMIT <= self.n3 <= WEIGHT_LIMIT
    }

    pub fn cons(n1: i64, n2: i64, n3: i64, den: i64) -> (r: Weights)
        ensures
            r == (Weights { n1, n2, n3, den }),
    {
        Weights { n1, n2, n3, den }
    }

    /// The inner product of the weights with `v`, rounded down.
    pub fn inner_prod(&self, v: &Vec3i) -> (r: i128)
        requires
            self.wf(),
        ensures
            r == interp(*self, v.x as int, v.y as int, v.z as int),
    {
        let w = self;
        let (a, b, c) = (v.x, v.y, v.z);
        assert(-0x2_0000_0000 * 0x8000_0000 <= w.n1 * a <= 0x2_0000_0000 * 0x8000_0000)
            by (nonlinear_arith)
            requires
                -0x2_0000_0000 <= w.n1 <= 0x2_0000_0000,
                -0x8000_0000 <= a <= 0x8000_0000,
        ;
        assert(-0x2_0000_0000 * 0x8000_0000 <= w.n2 * b <= 0x2_0000_0000 * 0x8000_0000)
            by (nonlinear_arith)
            requires
                -0x2_0000_0000 <= w.n2 <= 0x2_0000_0000,
                -0x8000_0000 <= b <= 0x8000_0000,
        ;
        assert(-0x2_0000_0000 * 0x8000_0000 <= w.n3 * c <= 0x2_0000_0000 * 0x8000_0000)
            by (nonlinear_arith)
            requires
                -0x2_0000_0000 <= w.n3 <= 0x2_0000_0000,
                -0x8000_0000 <= c <= 0x8000_0000,
        ;
        let num: i128 = w.n1 as i128 * a as i128 + w.n2 as i128 * b as i128 + w.n3 as i128 * c as i128;
        floor_div(num, w.den as i128)
    }
}

/// The weighted value `(n1 a + n2 b + n3 c) / den`, rounded down.
pub open spec fn interp(w: Weights, a: int, b: int, c: int) -> int {
    (w.n1 * a + w.n2 * b + w.n3 * c) / (w.den as int)
}

/// Magnitude bound on texture coordinates that perspective-correct
/// interpolation accepts: 256 in texture units.
pub const TEX_LIMIT: i32 = 0x100_0000;

/// The weighted sum of reciprocal depths `w1 / za + w2 / zb + w3 / zc`,
/// scaled by `den * za * zb * zc`.
pub open spec fn recip_sum(w: Weights, za: int, zb: int, zc: int) -> int {
    w.n1 * zb * zc + w.n2 * za * zc + w.n3 * za * zb
}

/// The perspective-correct value of a vertex attribute, rounded down: the
/// weighted attribute-over-depth sum `w1 a / za + w2 b / zb + w3 c / zc`
/// divided by the weighted sum of reciprocal depths.
pub open spec fn persp_interp(w: Weights, a: int, b: int, c: int, za: int, zb: int, zc: int) -> int {
    (w.n1 * a * zb * zc + w.n2 * b * za * zc + w.n3 * c * za * zb) / recip_sum(w, za, zb, zc)
}

/// Every texture coordinate of `t` lies within the perspective bound.
pub open spec fn tex_in_limit(t: Tri) -> bool {
    &&& -TEX_LIMIT <= t.a.texpos.x <= TEX_LIMIT && -TEX_LIMIT <= t.a.texpos.y <= TEX_LIMIT
    &&& -TEX_LIMIT <= t.b.texpos.x <= TEX_LIMIT && -TEX_LIMIT <= t.b.texpos.y <= TEX_LIMIT
    &&& -TEX_LIMIT <= t.c.texpos.x <= TEX_LIMIT && -TEX_LIMIT <= t.c.texpos.y <= TEX_LIMIT
}

/// The perspective-correct attribute of the weighted point; `None` where the
/// weighted sum of reciprocal depths is not positive.
fn perspective(w: &Weights, a: i32, b: i32, c: i32, za: i32, zb: i32, zc: i32) -> (r: Option<i128>)
    requires
        w.wf(),
        za > 0 && zb > 0 && zc > 0,
        -TEX_LIMIT <= a <= TEX_LIMIT && -TEX_LIMIT <= b <= TEX_LIMIT && -TEX_LIMIT <= c <= TEX_LIMIT,
    ensures
        r is None <==> recip_sum(*w, za as int, zb as int, zc as int) <= 0,
        r matches Some(v) ==> v == persp_interp(*w, a as int, b as int, c as int, za as int, zb as int, zc as int),
{
    let (za, zb, zc) = (za as i128, zb as i128, zc as i128);
    let (n1, n2, n3) = (w.n1 as i128, w.n2 as i128, w.n3 as i128);
    let (a, b, c) = (a as i128, b as i128, c as i128);
    assert(0 < zb * zc <= 0x4000_0000_0000_0000 && 0 < za * zc <= 0x4000_0000_0000_0000 && 0 < za
        * zb <= 0x4000_0000_0000_0000) by (nonlinear_arith)
        requires
            0 < za <= 0x8000_0000,
            0 < zb <= 0x8000_0000,
            0 < zc <= 0x8000_0000,
    ;
    proof {
        let (kw, kt, kz): (int, int, int) = (0x2_0000_0000, 0x100_0000, 0x4000_0000_0000_0000);
        lemma_mul_within(n1 as int, (zb * zc) as int, kw, kz);
        lemma_mul_within(n2 as int, (za * zc) as int, kw, kz);
        lemma_mul_within(n3 as int, (za * zb) as int, kw, kz);
        lemma_mul_within(n1 as int, a as int, kw, kt);
        lemma_mul_within(n2 as int, b as int, kw, kt);
        lemma_mul_within(n3 as int, c as int, kw, kt);
        lemma_mul_within((n1 * a) as int, (zb * zc) as int, kw * kt, kz);
        lemma_mul_within((n2 * b) as int, (za * zc) as int, kw * kt, kz);
        lemma_mul_within((n3 * c) as int, (za * zb) as int, kw * kt, kz);
    }
    let s: i128 = n1 * (zb * zc) + n2 * (za * zc) + n3 * (za * zb);
    assert(s == n1 * zb * zc + n2 * za * zc + n3 * za * zb) by (nonlinear_arith)
        requires
            s == n1 * (zb * zc) + n2 * (za * zc) + n3 * (za * zb),
    ;
    if s <= 0 {
        return None;
    }
    let num: i128 = (n1 * a) * (zb * zc) + (n2 * b) * (za * zc) + (n3 * c) * (za * zb);
    assert(num == n1 * a * zb * zc + n2 * b * za * zc + n3 * c * za * zb) by (nonlinear_arith)
        requires
            num == (n1 * a) * (zb * zc) + (n2 * b) * (za * zc) + (n3 * c) * (za * zb),
    ;
    Some(floor_div(num, s))
}

/// The perspective-correct depth `1 / (w1 / za + w2 / zb + w3 / zc)`, rounded
/// down; `None` where the weighted sum of reciprocals is not positive or the
/// depth does not fit in `i64`.
pub open spec fn depth_nonlinear(w: Weights, za: int, zb: int, zc: int) -> Option<int> {
    let s = recip_sum(w, za, zb, zc);
    if s <= 0 {
        None
    } else if w.den * za * zb * zc / s > i64::MAX {
        None
    } else {
        Some(w.den * za * zb * zc / s)
    }
}

/// Weights (d, 0, 0), (0, d, 0) and (0, 0, d) over d give back the depth of
/// A, B and C exactly.
pub proof fn lemma_nonlinear_depth_at_vertices(d: i64, za: int, zb: int, zc: int)
    requires
        0 < d,
        0 < za <= i32::MAX,
        0 < zb <= i32::MAX,
        0 < zc <= i32::MAX,
    ensures
        depth_nonlinear(Weights { n1: d, n2: 0, n3: 0, den: d }, za, zb, zc) == Some(za),
        depth_nonlinear(Weights { n1: 0, n2: d, n3: 0, den: d }, za, zb, zc) == Some(zb),
        depth_nonlinear(Weights { n1: 0, n2: 0, n3: d, den: d }, za, zb, zc) == Some(zc),
{
    let d = d as int;
    assert(d * zb * zc > 0 && d * za * zc > 0 && d * za * zb > 0) by (nonlinear_arith)
        requires
            d > 0,
            za > 0,
            zb > 0,
            zc > 0,
    ;
    assert(d * za * zb * zc == za * (d * zb * zc)) by (nonlinear_arith);
    assert(d * za * zb * zc == zb * (d * za * zc)) by (nonlinear_arith);
    assert(d * za * zb * zc == zc * (d * za * zb)) by (nonlinear_arith);
    lemma_div_multiples_vanish(za, d * zb * zc);
    lemma_div_multiples_vanish(zb, d * za * zc);
    lemma_div_multiples_vanish(zc, d * za * zb);
    assert(0 * zb * zc == 0 && 0 * za * zc == 0 && 0 * za * zb == 0) by (nonlinear_arith);
    assert((d * zb * zc) * za == za * (d * zb * zc)) by (nonlinear_arith);
    assert((d * za * zc) * zb == zb * (d * za * zc)) by (nonlinear_arith);
    assert((d * za * zb) * zc == zc * (d * za * zb)) by (nonlinear_arith);
}

/// `num / den` rounded down.
fn floor_div(num: i128, den: i128) -> (r: i128)
    requires
        den > 0,
        num > i128::MIN,
    ensures
        r == num as int / den as int,
{
    if num >= 0 {
        num / den
    } else {
        let m: i128 = -num - 1;
        let q: i128 = m / den;
        proof {
            let rem: int = m as int % den as int;
            lemma_fundamental_div_mod(m as int, den as int);
            lemma_mod_pos_bound(m as int, den as int);
            assert(num as int == (-q - 1) * den + (den - 1 - rem)) by (nonlinear_arith)
                requires
                    m == den * q + rem,
                    m == -num - 1,
            ;
            lemma_fundamental_div_mod_converse(
                num as int,
                den as int,
                -q - 1,
                den - 1 - rem,
            );
        }
        -q - 1
    }
}

impl Tri {
    /// A triangle of bare positions with red, green and blue vertices.
    pub fn cons_pos(a: Vec3i, b: Vec3i, c: Vec3i) -> (r: Tri)
        ensures
            r.a == (Vert { pos: a, color: Color { red: 255, green: 0, blue: 0 }, texpos: Vec2i { x: 0, y: 0 } }),
            r.b == (Vert { pos: b, color: Color { red: 0, green: 255, blue: 0 }, texpos: Vec2i { x: 0, y: 0 } }),
            r.c == (Vert { pos: c, color: Color { red: 0, green: 0, blue: 255 }, texpos: Vec2i { x: 0, y: 0 } }),
    {
        Tri {
            a: Vert::cons(a, Color::cons(255, 0, 0), Vec2i::cons(0, 0)),
            b: Vert::cons(b, Color::cons(0, 255, 0), Vec2i::cons(0, 0)),
            c: Vert::cons(c, Color::cons(0, 0, 255), Vec2i::cons(0, 0)),
        }
    }

    pub fn cons_vert(a: Vert, b: Vert, c: Vert) -> (r: Tri)
        ensures
            r == (Tri { a, b, c }),
    {
        Tri { a, b, c }
    }

    /// Orders the vertices by descending y with three conditional swaps.
    pub fn sort_verts_vertical(&mut self)
        ensures
            *final(self) == sorted_tri(*old(self)),
            final(self).a.pos.y >= final(self).b.pos.y >= final(self).c.pos.y,
            same_vertices(*final(self), *old(self)),
    {
        if self.c.pos.y > self.b.pos.y {
            let t = self.c;
            self.c = self.b;
            self.b = t;
        }
        if self.b.pos.y > self.a.pos.y {
            let t = self.b;
            self.b = self.a;
            self.a = t;
        }
        if self.c.pos.y > self.b.pos.y {
            let t = self.c;
            self.c = self.b;
            self.b = t;
        }
    }

    /// Red channels of A, B, C.
    pub fn get_red_ordered_vec(&self) -> (r: Vec3i)
        ensures
            r.x == self.a.color.red && r.y == self.b.color.red && r.z == self.c.color.red,
    {
        Vec3i::cons(self.a.color.red as i32, self.b.color.red as i32, self.c.color.red as i32)
    }

    /// Green channels of A, B, C.
    pub fn get_green_ordered_vec(&self) -> (r: Vec3i)
        ensures
            r.x == self.a.color.green && r.y == self.b.color.green && r.z == self.c.color.green,
    {
        Vec3i::cons(self.a.color.green as i32, self.b.color.green as i32, self.c.color.green as i32)
    }

    /// Blue channels of A, B, C.
    pub fn get_blue_ordered_vec(&self) -> (r: Vec3i)
        ensures
            r.x == self.a.color.blue && r.y == self.b.color.blue && r.z == self.c.color.blue,
    {
        Vec3i::cons(self.a.color.blue as i32, self.b.color.blue as i32, self.c.color.blue as i32)
    }

    /// The unnormalized normal (A - B) x (A - C).
    pub fn get_normal(&self) -> (r: Vec3Wide)
        ensures
            (r.x as int, r.y as int, r.z as int) == normal_of(self.a.pos, self.b.pos, self.c.pos),
    {
        let ux: i128 = self.a.pos.x as i128 - self.b.pos.x as i128;
        let uy: i128 = self.a.pos.y as i128 - self.b.pos.y as i128;
        let uz: i128 = self.a.pos.z as i128 - self.b.pos.z as i128;
        let vx: i128 = self.a.pos.x as i128 - self.c.pos.x as i128;
        let vy: i128 = self.a.pos.y as i128 - self.c.pos.y as i128;
        let vz: i128 = self.a.pos.z as i128 - self.c.pos.z as i128;
        proof {
            let k: int = 0x1_0000_0000;
            lemma_mul_within(uy as int, vz as int, k, k);
            lemma_mul_within(uz as int, vy as int, k, k);
            lemma_mul_within(ux as int, vz as int, k, k);
            lemma_mul_within(uz as int, vx as int, k, k);
            lemma_mul_within(ux as int, vy as int, k, k);
            lemma_mul_within(uy as int, vx as int, k, k);
        }
        Vec3Wide { x: uy * vz - uz * vy, y: uz * vx - ux * vz, z: ux * vy - uy * vx }
    }

    /// Depth of the weighted point, interpolated linearly.
    pub fn interpolate_depth_linear(&self, weights: Weights) -> (r: i128)
        requires
            weights.wf(),
        ensures
            r == interp(weights, self.a.pos.z as int, self.b.pos.z as int, self.c.pos.z as int),
    {
        weights.inner_prod(&Vec3i::cons(self.a.pos.z, self.b.pos.z, self.c.pos.z))
    }

    /// Depth of the weighted point, interpolated through reciprocals, which is
    /// correct under perspective.
    pub fn interpolate_depth_nonlinear(&self, weights: Weights) -> (r: Option<i64>)
        requires
            weights.wf(),
            self.a.pos.z > 0,
            self.b.pos.z > 0,
            self.c.pos.z > 0,
        ensures
            r matches Some(d) ==> depth_nonlinear(
                weights,
                self.a.pos.z as int,
                self.b.pos.z as int,
                self.c.pos.z as int,
            ) == Some(d as int),
            r is None ==> depth_nonlinear(
                weights,
                self.a.pos.z as int,
                self.b.pos.z as int,
                self.c.pos.z as int,
            ) is None,
    {
        let za: i128 = self.a.pos.z as i128;
        let zb: i128 = self.b.pos.z as i128;
        let zc: i128 = self.c.pos.z as i128;
        let (n1, n2, n3, den) = (
            weights.n1 as i128,
            weights.n2 as i128,
            weights.n3 as i128,
            weights.den as i128,
        );
        assert(0 < zb * zc <= 0x4000_0000_0000_0000 && 0 < za * zc <= 0x4000_0000_0000_0000 && 0 < za
            * zb <= 0x4000_0000_0000_0000) by (nonlinear_arith)
            requires
                0 < za <= 0x8000_0000,
                0 < zb <= 0x8000_0000,
                0 < zc <= 0x8000_0000,
        ;
        proof {
            let (kw, kz): (int, int) = (0x2_0000_0000, 0x4000_0000_0000_0000);
            lemma_mul_within(n1 as int, (zb * zc) as int, kw, kz);
            lemma_mul_within(n2 as int, (za * zc) as int, kw, kz);
            lemma_mul_within(n3 as int, (za * zb) as int, kw, kz);
        }
        proof {
            lemma_mul_within(den as int, (za * zb) as int, 0x2_0000_0000, 0x4000_0000_0000_0000);
            lemma_mul_within(
                den as int * (za * zb) as int,
                zc as int,
                0x8000_0000_0000_0000_0000_0000int,
                0x8000_0000,
            );
        }
        let s: i128 = n1 * (zb * zc) + n2 * (za * zc) + n3 * (za * zb);
        assert(s == n1 * zb * zc + n2 * za * zc + n3 * za * zb) by (nonlinear_arith)
            requires
                s == n1 * (zb * zc) + n2 * (za * zc) + n3 * (za * zb),
        ;
        if s <= 0 {
            return None;
        }
        let num: i128 = den * (za * zb) * zc;
        assert(num == den * za * zb * zc) by (nonlinear_arith)
            requires
                num == den * (za * zb) * zc,
        ;
        let q: i128 = num / s;
        if q > i64::MAX as i128 {
            return None;
        }
        Some(q as i64)
    }

    /// Horizontal texture coordinate of the weighted point, interpolated
    /// through reciprocal depths; `None` where their weighted sum is not
    /// positive.
    pub fn interpolate_tex_u(&self, coords: &Weights) -> (r: Option<i128>)
        requires
            coords.wf(),
            self.a.pos.z > 0 && self.b.pos.z > 0 && self.c.pos.z > 0,
            tex_in_limit(*self),
        ensures
            r is None <==> recip_sum(*coords, self.a.pos.z as int, self.b.pos.z as int, self.c.pos.z as int) <= 0,
            r matches Some(u) ==> u == persp_interp(
                *coords,
                self.a.texpos.x as int,
                self.b.texpos.x as int,
                self.c.texpos.x as int,
                self.a.pos.z as int,
                self.b.pos.z as int,
                self.c.pos.z as int,
            ),
    {
        perspective(
            coords,
            self.a.texpos.x,
            self.b.texpos.x,
            self.c.texpos.x,
            self.a.pos.z,
            self.b.pos.z,
            self.c.pos.z,
        )
    }

    /// Vertical texture coordinate of the weighted point, interpolated
    /// through reciprocal depths; `None` where their weighted sum is not
    /// positive.
    pub fn interpolate_tex_v(&self, coords: &Weights) -> (r: Option<i128>)
        requires
            coords.wf(),
            self.a.pos.z > 0 && self.b.pos.z > 0 && self.c.pos.z > 0,
            tex_in_limit(*self),
        ensures
            r is None <==> recip_sum(*coords, self.a.pos.z as int, self.b.pos.z as int, self.c.pos.z as int) <= 0,
            r matches Some(v) ==> v == persp_interp(
                *coords,
                self.a.texpos.y as int,
                self.b.texpos.y as int,
                self.c.texpos.y as int,
                self.a.pos.z as int,
                self.b.pos.z as int,
                self.c.pos.z as int,
            ),
    {
        perspective(
            coords,
            self.a.texpos.y,
            self.b.texpos.y,
            self.c.texpos.y,
            self.a.pos.z,
            self.b.pos.z,
            self.c.pos.z,
        )
    }

    /// The vertices wind so that the normal does not point toward the viewer.
    pub fn lumped_left(&self) -> (r: bool)
        ensures
            r == (normal_of(self.a.pos, self.b.pos, self.c.pos).2 <= 0),
    {
        self.get_normal().z <= 0
    }

    /// The vertices wind so that the normal does not point away from the viewer.
    pub fn lumped_right(&self) -> (r: bool)
        ensures
            r == (normal_of(self.a.pos, self.b.pos, self.c.pos).2 >= 0),
    {
        self.get_normal().z >= 0
    }

    /// Some vertex lies in front of the near plane.
    pub fn behind_view(&self) -> (r: bool)
        ensures
            r == is_behind_view(*self),
    {
        self.a.pos.z < NEAR_DEPTH || self.b.pos.z < NEAR_DEPTH || self.c.pos.z < NEAR_DEPTH
    }
}

/// Orientation of the triangle (a, b, c): 1 when counterclockwise or
/// degenerate, -1 when clockwise.
pub open spec fn orientation(a: Vec3i, b: Vec3i, c: Vec3i) -> int {
    if edge_at(a, b, c.x as int, c.y as int) < 0 {
        -1
    } else {
        1
    }
}

/// The barycentric weights of the pixel (x, y) in the triangle (a, b, c), as
/// numerators over a positive denominator: twice the areas of the triangles
/// that (x, y) forms with the edges opposite A, B and C, over twice the area
/// of (a, b, c).
pub open spec fn weights_of(a: Vec3i, b: Vec3i, c: Vec3i, x: int, y: int) -> (int, int, int, int) {
    let o = orientation(a, b, c);
    (
        o * edge_at(b, c, x, y),
        o * edge_at(c, a, x, y),
        o * edge_at(a, b, x, y),
        o * edge_at(a, b, c.x as int, c.y as int),
    )
}

/// (x, y) lies strictly on the same side of all three edges of (a, b, c).
pub open spec fn strictly_inside(a: Vec3i, b: Vec3i, c: Vec3i, x: int, y: int) -> bool {
    ||| (edge_at(a, b, x, y) > 0 && edge_at(b, c, x, y) > 0 && edge_at(c, a, x, y) > 0)
    ||| (edge_at(a, b, x, y) < 0 && edge_at(b, c, x, y) < 0 && edge_at(c, a, x, y) < 0)
}

/// The three partial areas of a point sum to the area of the triangle.
pub proof fn lemma_areas_sum(a: Vec3i, b: Vec3i, c: Vec3i, x: int, y: int)
    ensures
        edge_at(b, c, x, y) + edge_at(c, a, x, y) + edge_at(a, b, x, y) == edge_at(
            a,
            b,
            c.x as int,
            c.y as int,
        ),
{
    let (ax, ay, bx, by, cx, cy) = (a.x as int, a.y as int, b.x as int, b.y as int, c.x as int, c.y as int);
    lemma_expand(cx, bx, y, by);
    lemma_expand(cy, by, x, bx);
    lemma_expand(ax, cx, y, cy);
    lemma_expand(ay, cy, x, cx);
    lemma_expand(bx, ax, y, ay);
    lemma_expand(by, ay, x, ax);
    lemma_expand(bx, ax, cy, ay);
    lemma_expand(by, ay, cx, ax);
}

proof fn lemma_expand(p: int, q: int, r: int, s: int)
    ensures
        (p - q) * (r - s) == p * r - p * s - q * r + q * s,
{
    assert((p - q) * (r - s) == p * r - p * s - q * r + q * s) by (nonlinear_arith);
}

/// The barycentric weights of a point strictly inside a triangle each lie
/// strictly between 0 and 1, and they sum to 1.
pub proof fn lemma_inside_weights(a: Vec3i, b: Vec3i, c: Vec3i, x: int, y: int)
    requires
        strictly_inside(a, b, c, x, y),
    ensures
        ({
            let (n1, n2, n3, den) = weights_of(a, b, c, x, y);
            &&& 0 < n1 < den
            &&& 0 < n2 < den
            &&& 0 < n3 < den
            &&& n1 + n2 + n3 == den
        }),
{
    lemma_areas_sum(a, b, c, x, y);
}

/// Precomputed terms of the barycentric weights of one triangle.
pub struct BarycentricSystem {
    a: Vec3i,
    b: Vec3i,
    c: Vec3i,
    den: i64,
    bc_y: i64,
    cb_x: i64,
    ca_y: i64,
    ac_x: i64,
}

impl View for BarycentricSystem {
    type V = (Vec3i, Vec3i, Vec3i);

    /// The positions of the triangle's vertices.
    closed spec fn view(&self) -> (Vec3i, Vec3i, Vec3i) {
        (self.a, self.b, self.c)
    }
}

impl BarycentricSystem {
    /// The vertices lie on the accepted screen area, and the precomputed terms
    /// agree with them, signed so that the denominator is positive.
    pub closed spec fn wf(&self) -> bool {
        let o = orientation(self.a, self.b, self.c);
        &&& 0 <= self.a.x <= SCREEN_LIMIT && 0 <= self.a.y <= SCREEN_LIMIT
        &&& 0 <= self.b.x <= SCREEN_LIMIT && 0 <= self.b.y <= SCREEN_LIMIT
        &&& 0 <= self.c.x <= SCREEN_LIMIT && 0 <= self.c.y <= SCREEN_LIMIT
        &&& self.den == o * edge_at(self.a, self.b, self.c.x as int, self.c.y as int)
        &&& 0 < self.den <= 0x8000_0000
        &&& self.bc_y == o * (self.b.y - self.c.y)
        &&& self.cb_x == o * (self.c.x - self.b.x)
        &&& self.ca_y == o * (self.c.y - self.a.y)
        &&& self.ac_x == o * (self.a.x - self.c.x)
    }

    /// The solver for `triangle`; `None` when its vertices are collinear.
    pub fn cons(triangle: &Tri) -> (r: Option<BarycentricSystem>)
        requires
            on_screen(*triangle),
        ensures
            r is None <==> edge_at(
                triangle.a.pos,
                triangle.b.pos,
                triangle.c.pos.x as int,
                triangle.c.pos.y as int,
            ) == 0,
            r matches Some(sys) ==> sys.wf() && sys@ == (triangle.a.pos, triangle.b.pos, triangle.c.pos),
    {
        let a = triangle.a.pos;
        let b = triangle.b.pos;
        let c = triangle.c.pos;
        let (ax, ay, bx, by, cx, cy) = (a.x as i64, a.y as i64, b.x as i64, b.y as i64, c.x as i64, c.y as i64);
        proof {
            let k: int = 0x8000;
            lemma_mul_within(by - cy, ax - cx, k, k);
            lemma_mul_within(cx - bx, ay - cy, k, k);
        }
        let den: i64 = (by - cy) * (ax - cx) + (cx - bx) * (ay - cy);
        assert(den == edge_at(a, b, c.x as int, c.y as int)) by (nonlinear_arith)
            requires
                den == (by - cy) * (ax - cx) + (cx - bx) * (ay - cy),
                ax == a.x && ay == a.y && bx == b.x && by == b.y && cx == c.x && cy == c.y,
        ;
        if den == 0 {
            return None;
        }
        if den < 0 {
            Some(
                BarycentricSystem {
                    a,
                    b,
                    c,
                    den: -den,
                    bc_y: cy - by,
                    cb_x: bx - cx,
                    ca_y: ay - cy,
                    ac_x: cx - ax,
                },
            )
        } else {
            Some(BarycentricSystem { a, b, c, den, bc_y: by - cy, cb_x: cx - bx, ca_y: cy - ay, ac_x: ax - cx })
        }
    }

    /// The weights of the pixel (x, y).
    pub fn get_coords(&self, x: i32, y: i32) -> (r: Weights)
        requires
            self.wf(),
            0 <= x <= SCREEN_LIMIT,
            0 <= y <= SCREEN_LIMIT,
        ensures
            r.wf(),
            (r.n1 as int, r.n2 as int, r.n3 as int, r.den as int) == weights_of(
                self@.0,
                self@.1,
                self@.2,
                x as int,
                y as int,
            ),
    {
        let dx: i64 = x as i64 - self.c.x as i64;
        let dy: i64 = y as i64 - self.c.y as i64;
        proof {
            let k: int = 0x8000;
            lemma_mul_within(self.bc_y as int, dx as int, k, k);
            lemma_mul_within(self.cb_x as int, dy as int, k, k);
            lemma_mul_within(self.ca_y as int, dx as int, k, k);
            lemma_mul_within(self.ac_x as int, dy as int, k, k);
            lemma_mul_within(self.b.y - self.c.y, self.a.x - self.c.x, k, k);
            lemma_mul_within(self.c.x - self.b.x, self.a.y - self.c.y, k, k);
        }
        let w1: i64 = self.bc_y * dx + self.cb_x * dy;
        let w2: i64 = self.ca_y * dx + self.ac_x * dy;
        proof {
            let (a, b, c) = (self.a, self.b, self.c);
            let o = orientation(a, b, c);
            let (xi, yi) = (x as int, y as int);
            assert(w1 == o * edge_at(b, c, xi, yi)) by (nonlinear_arith)
                requires
                    w1 == self.bc_y * dx + self.cb_x * dy,
                    self.bc_y == o * (b.y - c.y),
                    self.cb_x == o * (c.x - b.x),
                    dx == xi - c.x,
                    dy == yi - c.y,
            ;
            assert(w2 == o * edge_at(c, a, xi, yi)) by (nonlinear_arith)
                requires
                    w2 == self.ca_y * dx + self.ac_x * dy,
                    self.ca_y == o * (c.y - a.y),
                    self.ac_x == o * (a.x - c.x),
                    dx == xi - c.x,
                    dy == yi - c.y,
            ;
            lemma_areas_sum(a, b, c, xi, yi);
            assert(o * edge_at(b, c, xi, yi) + o * edge_at(c, a, xi, yi) + o * edge_at(a, b, xi, yi)
                == o * edge_at(a, b, c.x as int, c.y as int)) by (nonlinear_arith)
                requires
                    edge_at(b, c, xi, yi) + edge_at(c, a, xi, yi) + edge_at(a, b, xi, yi) == edge_at(
                        a,
                        b,
                        c.x as int,
                        c.y as int,
                    ),
            ;
        }
        Weights { n1: w1, n2: w2, n3: self.den - w1 - w2, den: self.den }
    }
}

} // verus!

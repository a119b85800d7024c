use vstd::prelude::*;

use crate::geometry::BarycentricSystem;
use crate::geometry::SCREEN_LIMIT;
use crate::geometry::Tri;
use crate::geometry::Vert;
use crate::geometry::Weights;
use crate::geometry::depth_nonlinear;
use crate::geometry::edge_at;
use crate::geometry::interp;
use crate::geometry::persp_interp;
use crate::geometry::tex_in_limit;
use crate::geometry::is_behind_view;
use crate::geometry::normal_of;
use crate::geometry::sorted_tri;
use crate::geometry::weights_of;
use crate::math::Vec2i;
use crate::math::Vec3i;
use crate::math::clamp;
use crate::render_utils::Buffer;
use crate::render_utils::BufferView;
use crate::render_utils::Color;
use crate::render_utils::attenuated;
use crate::render_utils::color_word;
use crate::render_utils::lemma_set_keeps_least_depth;
use crate::render_utils::lemma_index_in_range;
use crate::texture::Texture;
use crate::texture::TexelGrid;

verus! {

/// Largest magnitude of a coordinate that an edge tracer accepts; it keeps the
/// doubled error term within `i32`.
pub const COORD_LIMIT: i32 = 0x0800_0000;

/// Absolute value.
pub open spec fn abs(v: int) -> int {
    if v < 0 {
        -v
    } else {
        v
    }
}

/// Integer Bresenham walker from a start pixel to a target pixel.
pub struct EdgeTracer {
    current: Vec2i,
    target: Vec2i,
    steps: Vec2i,
    deltas: Vec2i,
    error: i32,
}

/// The mathematical state of an [`EdgeTracer`].
pub struct TracerView {
    pub current: Vec2i,
    pub target: Vec2i,
    pub steps: Vec2i,
    pub deltas: Vec2i,
    pub error: int,
}

impl View for EdgeTracer {
    type V = TracerView;

    closed spec fn view(&self) -> TracerView {
        TracerView {
            current: self.current,
            target: self.target,
            steps: self.steps,
            deltas: self.deltas,
            error: self.error as int,
        }
    }
}

/// Both coordinates lie within the tracer's limit.
pub open spec fn in_limit(p: Vec2i) -> bool {
    -COORD_LIMIT <= p.x <= COORD_LIMIT && -COORD_LIMIT <= p.y <= COORD_LIMIT
}

impl TracerView {
    /// Distance still to walk along the x axis.
    pub open spec fn rem_x(self) -> int {
        self.steps.x * (self.target.x - self.current.x)
    }

    /// Distance still to walk along the y axis.
    pub open spec fn rem_y(self) -> int {
        self.steps.y * (self.target.y - self.current.y)
    }

    /// Number of single steps that separate the current pixel from the target.
    pub open spec fn remaining(self) -> nat {
        (abs(self.target.x - self.current.x) + abs(self.target.y - self.current.y)) as nat
    }

    /// The walk heads toward the target on both axes, and the error term is
    /// Bresenham's: fixed by the distances still to walk, and within
    /// `[2 dy, dx]`.
    pub open spec fn wf(self) -> bool {
        let dx = self.deltas.x as int;
        let dy = self.deltas.y as int;
        &&& in_limit(self.current)
        &&& in_limit(self.target)
        &&& (self.steps.x == 1 || self.steps.x == -1)
        &&& (self.steps.y == 1 || self.steps.y == -1)
        &&& 0 <= self.rem_x() <= dx <= 2 * COORD_LIMIT
        &&& 0 <= self.rem_y() <= -dy <= 2 * COORD_LIMIT
        &&& self.error == dx + dy - dx * self.rem_y() - dy * self.rem_x()
        &&& 2 * dy <= self.error <= dx
    }

    /// One Bresenham step: the next state, and the pixel reached, or `None`
    /// when the walk is exhausted.
    pub open spec fn step(self) -> (TracerView, Option<Vec2i>) {
        if 2 * self.error >= self.deltas.y {
            if self.current.x == self.target.x {
                (self, None)
            } else {
                let next = TracerView {
                    current: Vec2i { x: (self.current.x + self.steps.x) as i32, y: self.current.y },
                    error: self.error + self.deltas.y,
                    ..self
                };
                (next, Some(next.current))
            }
        } else if 2 * self.error <= self.deltas.x {
            if self.current.y == self.target.y {
                (self, None)
            } else {
                let next = TracerView {
                    current: Vec2i { x: self.current.x, y: (self.current.y + self.steps.y) as i32 },
                    error: self.error + self.deltas.x,
                    ..self
                };
                (next, Some(next.current))
            }
        } else {
            (self, Some(self.current))
        }
    }

    /// Steps until the row differs from `row`: the state reached, and the first
    /// pixel off that row, or `None` when the walk ends on it.
    pub open spec fn walk_row(self, row: i32) -> (TracerView, Option<Vec2i>)
        decreases self.remaining(),
    {
        if !self.wf() || self.current.y != row {
            (self, Some(self.current))
        } else {
            let (next, p) = self.step();
            if p is None {
                (next, None)
            } else if next.remaining() < self.remaining() {
                next.walk_row(row)
            } else {
                (next, p)
            }
        }
    }
}

/// A well-formed tracer walks to its target one axis at a time, getting one
/// step closer with each pixel it yields, and stops exactly at the target.
pub proof fn lemma_step(v: TracerView)
    requires
        v.wf(),
    ensures
        v.step().0.wf(),
        v.step().1 is None <==> v.current == v.target,
        v.step().1 is None ==> v.step().0 == v,
        v.step().1 is Some ==> {
            &&& v.step().1 == Some(v.step().0.current)
            &&& v.step().0.remaining() + 1 == v.remaining()
            &&& v.step().0.target == v.target
        },
{
    let dx = v.deltas.x as int;
    let dy = v.deltas.y as int;
    let rx = v.rem_x();
    let ry = v.rem_y();
    let e = v.error;
    assert(v.target.x == v.current.x <==> rx == 0) by (nonlinear_arith)
        requires
            rx == v.steps.x * (v.target.x - v.current.x),
            v.steps.x == 1 || v.steps.x == -1,
    ;
    assert(v.target.y == v.current.y <==> ry == 0) by (nonlinear_arith)
        requires
            ry == v.steps.y * (v.target.y - v.current.y),
            v.steps.y == 1 || v.steps.y == -1,
    ;
    if v.steps.x == 1 {
        assert(rx == v.target.x - v.current.x);
    } else {
        assert(rx == v.current.x - v.target.x);
    }
    if v.steps.y == 1 {
        assert(ry == v.target.y - v.current.y);
    } else {
        assert(ry == v.current.y - v.target.y);
    }
    if 2 * e >= dy {
        if rx == 0 {
            assert(ry == 0) by (nonlinear_arith)
                requires
                    e == dx + dy - dx * ry - dy * rx,
                    rx == 0,
                    2 * e >= dy,
                    0 <= ry <= -dy,
                    dx >= 0,
            ;
        } else {
            let n = v.step().0;
            assert(n.rem_x() == rx - 1) by (nonlinear_arith)
                requires
                    rx == v.steps.x * (v.target.x - v.current.x),
                    n.rem_x() == v.steps.x * (v.target.x - (v.current.x + v.steps.x)),
                    v.steps.x == 1 || v.steps.x == -1,
            ;
            assert(e + dy == dx + dy - dx * ry - dy * (rx - 1)) by (nonlinear_arith)
                requires
                    e == dx + dy - dx * ry - dy * rx,
            ;
        }
    } else {
        if ry == 0 {
            assert(rx == 0) by (nonlinear_arith)
                requires
                    e == dx + dy - dx * ry - dy * rx,
                    ry == 0,
                    2 * e < dy,
                    0 <= rx <= dx,
                    dy <= 0,
            ;
        } else {
            let n = v.step().0;
            assert(n.rem_y() == ry - 1) by (nonlinear_arith)
                requires
                    ry == v.steps.y * (v.target.y - v.current.y),
                    n.rem_y() == v.steps.y * (v.target.y - (v.current.y + v.steps.y)),
                    v.steps.y == 1 || v.steps.y == -1,
            ;
            assert(e + dx == dx + dy - dx * (ry - 1) - dy * rx) by (nonlinear_arith)
                requires
                    e == dx + dy - dx * ry - dy * rx,
            ;
        }
    }
}

/// The state of a tracer from `s` to `e`: standing on `s`, stepping toward
/// `e` on each axis, with the error term at the sum of the two deltas.
pub open spec fn tracer_start(s: Vec3i, e: Vec3i) -> TracerView {
    let dx = abs(e.x - s.x);
    let dy = -abs(e.y - s.y);
    TracerView {
        current: Vec2i { x: s.x, y: s.y },
        target: Vec2i { x: e.x, y: e.y },
        steps: Vec2i {
            x: if s.x < e.x {
                1
            } else {
                -1i32
            },
            y: if s.y < e.y {
                1
            } else {
                -1i32
            },
        },
        deltas: Vec2i { x: dx as i32, y: dy as i32 },
        error: dx + dy,
    }
}

impl EdgeTracer {
    /// A tracer from `start` to `end`, which walks their x and y components.
    pub fn cons(start: Vec3i, end: Vec3i) -> (r: EdgeTracer)
        requires
            -COORD_LIMIT <= start.x <= COORD_LIMIT,
            -COORD_LIMIT <= start.y <= COORD_LIMIT,
            -COORD_LIMIT <= end.x <= COORD_LIMIT,
            -COORD_LIMIT <= end.y <= COORD_LIMIT,
        ensures
            r@.wf(),
            r@ == tracer_start(start, end),
    {
        let current = Vec2i::cons(start.x, start.y);
        let target = Vec2i::cons(end.x, end.y);
        let dx: i32 = if target.x >= current.x {
            target.x - current.x
        } else {
            current.x - target.x
        };
        let dy: i32 = if target.y >= current.y {
            current.y - target.y
        } else {
            target.y - current.y
        };
        let int_step_x: i32 = if current.x < target.x {
            1
        } else {
            -1
        };
        let int_step_y: i32 = if current.y < target.y {
            1
        } else {
            -1
        };
        let error: i32 = dx + dy;
        let r = EdgeTracer {
            current,
            target,
            steps: Vec2i::cons(int_step_x, int_step_y),
            deltas: Vec2i::cons(dx, dy),
            error,
        };
        assert(r@.steps.x == int_step_x && r@.target.x == target.x && r@.current.x == current.x);
        assert(r@.steps.y == int_step_y && r@.target.y == target.y && r@.current.y == current.y);
        assert(int_step_x * (target.x - current.x) == dx) by (nonlinear_arith)
            requires
                int_step_x == 1 || int_step_x == -1,
                int_step_x == 1 <==> current.x < target.x,
                dx == abs(target.x - current.x),
        ;
        assert(int_step_y * (target.y - current.y) == -dy) by (nonlinear_arith)
            requires
                int_step_y == 1 || int_step_y == -1,
                int_step_y == 1 <==> current.y < target.y,
                dy == -abs(target.y - current.y),
        ;
        assert(r@.error == dx + dy - dx * r@.rem_y() - dy * r@.rem_x()) by (nonlinear_arith)
            requires
                r@.rem_x() == dx,
                r@.rem_y() == -dy,
                r@.error == dx + dy,
        ;
        r
    }

    /// The pixel the tracer stands on.
    pub fn current(&self) -> (r: Vec2i)
        ensures
            r == self@.current,
    {
        self.current
    }

    /// Advances one pixel along the edge; `None` once the target is reached.
    pub fn step_once(&mut self) -> (r: Option<Vec2i>)
        requires
            old(self)@.wf(),
        ensures
            (final(self)@, r) == old(self)@.step(),
            final(self)@.wf(),
            r is None <==> old(self)@.current == old(self)@.target,
            r is None ==> final(self)@ == old(self)@,
            r is Some ==> r == Some(final(self)@.current) && final(self)@.remaining() + 1
                == old(self)@.remaining(),
            final(self)@.target == old(self)@.target,
    {
        proof {
            lemma_step(self@);
        }
        let twice_error: i32 = 2 * self.error;
        if twice_error >= self.deltas.y {
            if self.current.x == self.target.x {
                return None;
            }
            self.error = self.error + self.deltas.y;
            self.current.x = self.current.x + self.steps.x;
        } else if twice_error <= self.deltas.x {
            if self.current.y == self.target.y {
                return None;
            }
            self.error = self.error + self.deltas.x;
            self.current.y = self.current.y + self.steps.y;
        }
        Some(self.current)
    }

    /// Walks to the first pixel on another row, or `None` when the target is
    /// reached on the current row.
    pub fn step_constant(&mut self) -> (r: Option<Vec2i>)
        requires
            old(self)@.wf(),
        ensures
            (final(self)@, r) == old(self)@.walk_row(old(self)@.current.y),
            final(self)@.wf(),
            final(self)@.target == old(self)@.target,
            final(self)@.remaining() <= old(self)@.remaining(),
            r is None ==> final(self)@.current == old(self)@.target && final(self)@.current.y
                == old(self)@.current.y,
            r is Some ==> r == Some(final(self)@.current) && final(self)@.current.y
                != old(self)@.current.y && final(self)@.remaining() < old(self)@.remaining(),
    {
        let startingy = self.current.y;
        while self.current.y == startingy
            invariant
                self@.wf(),
                self@.target == old(self)@.target,
                self@.remaining() <= old(self)@.remaining(),
                self@.current.y == startingy ==> old(self)@.walk_row(startingy) == self@.walk_row(
                    startingy,
                ),
                self@.current.y != startingy ==> old(self)@.walk_row(startingy) == (
                    self@,
                    Some(self@.current),
                ) && self@.remaining() < old(self)@.remaining(),
                startingy == old(self)@.current.y,
            decreases self@.remaining(),
        {
            let r = self.step_once();
            if r.is_none() {
                return None;
            }
        }
        Some(self.current)
    }
}

/// Depth at which lines are drawn: one view-space unit.
pub const LINE_DEPTH: i64 = 1000;

/// The view of an optional texture.
pub open spec fn tex_view(texture: Option<&Texture>) -> Option<TexelGrid> {
    match texture {
        Some(t) => Some(t@),
        None => None,
    }
}

/// A texture, if any, is well formed, and the texture coordinates of `t`
/// lie within the perspective bound.
pub open spec fn tex_ok(texture: Option<&Texture>, t: Tri) -> bool {
    texture matches Some(g) ==> g@.wf() && tex_in_limit(t)
}

/// The weights of the pixel (x, y) in `t`.
pub open spec fn weights_at(t: Tri, x: int, y: int) -> Weights {
    let (n1, n2, n3, den) = weights_of(t.a.pos, t.b.pos, t.c.pos, x, y);
    Weights { n1: n1 as i64, n2: n2 as i64, n3: n3 as i64, den: den as i64 }
}

/// A color channel held within a byte.
pub open spec fn channel(v: int) -> u8 {
    clamp(v, 0, 255) as u8
}

/// The unlit color of the weighted point: the texture sampled at the
/// perspective-correct texture coordinates, or else the interpolated vertex
/// colors.
pub open spec fn base_color(t: Tri, w: Weights, tex: Option<TexelGrid>) -> Color {
    let (za, zb, zc) = (t.a.pos.z as int, t.b.pos.z as int, t.c.pos.z as int);
    match tex {
        Some(tv) => tv.sample(
            persp_interp(w, t.a.texpos.x as int, t.b.texpos.x as int, t.c.texpos.x as int, za, zb, zc),
            persp_interp(w, t.a.texpos.y as int, t.b.texpos.y as int, t.c.texpos.y as int, za, zb, zc),
        ),
        None => Color {
            red: channel(interp(w, t.a.color.red as int, t.b.color.red as int, t.c.color.red as int)),
            green: channel(
                interp(w, t.a.color.green as int, t.b.color.green as int, t.c.color.green as int),
            ),
            blue: channel(interp(w, t.a.color.blue as int, t.b.color.blue as int, t.c.color.blue as int)),
        },
    }
}

/// A color under a lighting level.
pub open spec fn lit(c: Color, level: u32) -> Color {
    Color {
        red: attenuated(c.red as int, level as int) as u8,
        green: attenuated(c.green as int, level as int) as u8,
        blue: attenuated(c.blue as int, level as int) as u8,
    }
}

/// The buffer after shading the pixel (x, y) of `t` and submitting it to the
/// depth test; a pixel without a perspective-correct depth is left alone.
pub open spec fn plot(b: BufferView, t: Tri, level: u32, tex: Option<TexelGrid>, x: int, y: int) -> BufferView {
    let w = weights_at(t, x, y);
    match depth_nonlinear(w, t.a.pos.z as int, t.b.pos.z as int, t.c.pos.z as int) {
        Some(d) => b.set(x, y, color_word(lit(base_color(t, w, tex), level)), d as i64),
        None => b,
    }
}

/// The buffer after plotting the pixels x0 to x1 of row y, from left to right.
pub open spec fn plot_run(
    b: BufferView,
    t: Tri,
    level: u32,
    tex: Option<TexelGrid>,
    y: int,
    x0: int,
    x1: int,
) -> BufferView
    decreases x1 - x0 + 1,
{
    if x1 < x0 {
        b
    } else {
        plot(plot_run(b, t, level, tex, y, x0, x1 - 1), t, level, tex, x1, y)
    }
}

/// The buffer after filling the span from `start` to `end` on the row of
/// `start`, which stops at the first pixel off the buffer.
pub open spec fn span_fill(
    b: BufferView,
    t: Tri,
    level: u32,
    tex: Option<TexelGrid>,
    start: Vec2i,
    end: Vec2i,
) -> BufferView {
    if start.y < 0 || start.y >= b.height || start.x < 0 {
        b
    } else {
        let last = if end.x < b.width - 1 {
            end.x as int
        } else {
            b.width - 1
        };
        plot_run(b, t, level, tex, start.y as int, start.x as int, last)
    }
}

/// The buffer after walking two edges in lockstep, one row at a time, and
/// filling the span between them on each new row, until either edge ends.
pub open spec fn trace_fill(
    b: BufferView,
    t: Tri,
    level: u32,
    tex: Option<TexelGrid>,
    e1: TracerView,
    e2: TracerView,
) -> BufferView
    decreases e1.remaining(),
{
    let (n1, p1) = e1.walk_row(e1.current.y);
    let (n2, p2) = e2.walk_row(e2.current.y);
    if !e1.wf() || !e2.wf() {
        b
    } else if let (Some(q1), Some(q2)) = (p1, p2) {
        if n1.remaining() < e1.remaining() {
            trace_fill(span_fill(b, t, level, tex, q1, q2), t, level, tex, n1, n2)
        } else {
            b
        }
    } else {
        b
    }
}

/// A vertex whose screen position is held within `[0, w] x [0, h]`.
pub open spec fn clamp_vert(v: Vert, w: int, h: int) -> Vert {
    Vert {
        pos: Vec3i { x: clamp(v.pos.x as int, 0, w) as i32, y: clamp(v.pos.y as int, 0, h) as i32, ..v.pos },
        ..v
    }
}

/// A triangle whose screen positions are held within `[0, w] x [0, h]`.
pub open spec fn clamp_tri(t: Tri, w: int, h: int) -> Tri {
    Tri { a: clamp_vert(t.a, w, h), b: clamp_vert(t.b, w, h), c: clamp_vert(t.c, w, h) }
}

/// The buffer after rasterizing the screen-space triangle `t`: positions are
/// clamped to the buffer, a triangle reaching in front of the near plane or
/// with collinear vertices is dropped, and the vertically sorted triangle is
/// filled as an upper and a lower half that share its long edge.
pub open spec fn render_tri(b: BufferView, t: Tri, level: u32, tex: Option<TexelGrid>) -> BufferView {
    let c = clamp_tri(t, b.width as int, b.height as int);
    let s = sorted_tri(c);
    let (pa, pb, pc) = (s.a.pos, s.b.pos, s.c.pos);
    if is_behind_view(c) || edge_at(pa, pb, pc.x as int, pc.y as int) == 0 {
        b
    } else if normal_of(pa, pb, pc).2 <= 0 {
        let upper = trace_fill(b, s, level, tex, tracer_start(pa, pc), tracer_start(pa, pb));
        trace_fill(upper, s, level, tex, tracer_start(pc, pa), tracer_start(pc, pb))
    } else {
        let upper = trace_fill(b, s, level, tex, tracer_start(pa, pb), tracer_start(pa, pc));
        trace_fill(upper, s, level, tex, tracer_start(pc, pb), tracer_start(pc, pa))
    }
}

/// The buffer after drawing the pixels that the tracer `e` steps onto, up to
/// the first one off the buffer; each takes `color` and the line depth
/// without the depth test.
pub open spec fn line_run(b: BufferView, e: TracerView, color: u32) -> BufferView
    decreases e.remaining(),
{
    let (n, p) = e.step();
    if let Some(q) = p {
        if !e.wf() || !b.inbounds(q.x as int, q.y as int) {
            b
        } else if n.remaining() < e.remaining() {
            line_run(b.overwrite(q.x as int, q.y as int, color, LINE_DEPTH), n, color)
        } else {
            b
        }
    } else {
        b
    }
}

/// Color of wireframe edges before lighting: cyan.
pub open spec fn wire_color() -> Color {
    Color { red: 0, green: 255, blue: 255 }
}

/// The buffer after drawing the outline of `t`: positions are clamped to the
/// buffer, a triangle reaching in front of the near plane is dropped, and the
/// edges A-B, A-C and C-B of the vertically sorted triangle are drawn in lit
/// cyan, bypassing the depth test.
pub open spec fn wireframe_tri(b: BufferView, t: Tri, level: u32) -> BufferView {
    let c = clamp_tri(t, b.width as int, b.height as int);
    let s = sorted_tri(c);
    let (pa, pb, pc) = (s.a.pos, s.b.pos, s.c.pos);
    let col = color_word(lit(wire_color(), level));
    if is_behind_view(c) {
        b
    } else {
        line_run(line_run(line_run(b, tracer_start(pa, pb), col), tracer_start(pa, pc), col), tracer_start(pc, pb), col)
    }
}

/// `after` has the dimensions of `before`, and no stored depth grew.
pub open spec fn depth_not_raised(before: BufferView, after: BufferView) -> bool {
    &&& after.width == before.width
    &&& after.height == before.height
    &&& after.pixels.len() == before.pixels.len()
    &&& after.depth.len() == before.depth.len()
    &&& forall|i: int| 0 <= i < before.depth.len() ==> after.depth[i] <= before.depth[i]
}

proof fn lemma_set_not_raised(b: BufferView, x: int, y: int, color: u32, depth: i64)
    requires
        b.wf(),
        b.inbounds(x, y),
    ensures
        depth_not_raised(b, b.set(x, y, color, depth)),
{
    lemma_set_keeps_least_depth(b, x, y, color, depth);
}

proof fn lemma_plot_run_not_raised(
    b: BufferView,
    t: Tri,
    level: u32,
    tex: Option<TexelGrid>,
    y: int,
    x0: int,
    x1: int,
)
    requires
        b.wf(),
        0 <= y < b.height,
        0 <= x0,
        x1 < b.width,
    ensures
        depth_not_raised(b, plot_run(b, t, level, tex, y, x0, x1)),
    decreases x1 - x0 + 1,
{
    if x1 >= x0 {
        lemma_plot_run_not_raised(b, t, level, tex, y, x0, x1 - 1);
        let p = plot_run(b, t, level, tex, y, x0, x1 - 1);
        let w = weights_at(t, x1, y);
        if let Some(d) = depth_nonlinear(w, t.a.pos.z as int, t.b.pos.z as int, t.c.pos.z as int) {
            lemma_set_not_raised(p, x1, y, color_word(lit(base_color(t, w, tex), level)), d as i64);
        }
    }
}

proof fn lemma_trace_fill_not_raised(
    b: BufferView,
    t: Tri,
    level: u32,
    tex: Option<TexelGrid>,
    e1: TracerView,
    e2: TracerView,
)
    requires
        b.wf(),
    ensures
        depth_not_raised(b, trace_fill(b, t, level, tex, e1, e2)),
    decreases e1.remaining(),
{
    let (n1, p1) = e1.walk_row(e1.current.y);
    let (n2, p2) = e2.walk_row(e2.current.y);
    if e1.wf() && e2.wf() {
        if let (Some(q1), Some(q2)) = (p1, p2) {
            if n1.remaining() < e1.remaining() {
                let s = span_fill(b, t, level, tex, q1, q2);
                if !(q1.y < 0 || q1.y >= b.height || q1.x < 0) {
                    let last = if q2.x < b.width - 1 {
                        q2.x as int
                    } else {
                        b.width - 1
                    };
                    lemma_plot_run_not_raised(b, t, level, tex, q1.y as int, q1.x as int, last);
                }
                lemma_trace_fill_not_raised(s, t, level, tex, n1, n2);
            }
        }
    }
}

/// Rasterizing a triangle never raises the depth stored at any pixel: each
/// pixel keeps the least depth written to it.
pub proof fn lemma_render_never_raises_depth(b: BufferView, t: Tri, level: u32, tex: Option<TexelGrid>)
    requires
        b.wf(),
    ensures
        depth_not_raised(b, render_tri(b, t, level, tex)),
{
    let c = clamp_tri(t, b.width as int, b.height as int);
    let s = sorted_tri(c);
    let (pa, pb, pc) = (s.a.pos, s.b.pos, s.c.pos);
    if !(is_behind_view(c) || edge_at(pa, pb, pc.x as int, pc.y as int) == 0) {
        if normal_of(pa, pb, pc).2 <= 0 {
            lemma_trace_fill_not_raised(b, s, level, tex, tracer_start(pa, pc), tracer_start(pa, pb));
            let upper = trace_fill(b, s, level, tex, tracer_start(pa, pc), tracer_start(pa, pb));
            lemma_trace_fill_not_raised(upper, s, level, tex, tracer_start(pc, pa), tracer_start(pc, pb));
        } else {
            lemma_trace_fill_not_raised(b, s, level, tex, tracer_start(pa, pb), tracer_start(pa, pc));
            let upper = trace_fill(b, s, level, tex, tracer_start(pa, pb), tracer_start(pa, pc));
            lemma_trace_fill_not_raised(upper, s, level, tex, tracer_start(pc, pb), tracer_start(pc, pa));
        }
    }
}

proof fn lemma_index_injective(b: BufferView, x1: int, y1: int, x2: int, y2: int)
    requires
        b.wf(),
        b.inbounds(x1, y1),
        b.inbounds(x2, y2),
        x1 != x2 || y1 != y2,
    ensures
        b.index(x1, y1) != b.index(x2, y2),
{
    let w = b.width as int;
    let (r1, r2) = (b.height - 1 - y1, b.height - 1 - y2);
    if r1 < r2 {
        assert(r1 * w + w <= r2 * w) by (nonlinear_arith)
            requires
                r1 < r2,
                w >= 0,
        ;
    } else if r2 < r1 {
        assert(r2 * w + w <= r1 * w) by (nonlinear_arith)
            requires
                r2 < r1,
                w >= 0,
        ;
    }
}

/// Plotting a run of pixels on one row leaves every other pixel as it was,
/// and leaves each pixel of the run as one depth-tested write of its shaded
/// color to the starting buffer would.
pub proof fn lemma_plot_run_effect(
    b: BufferView,
    t: Tri,
    level: u32,
    tex: Option<TexelGrid>,
    y: int,
    x0: int,
    x1: int,
)
    requires
        b.wf(),
        0 <= y < b.height,
        0 <= x0,
        x1 < b.width,
    ensures
        forall|x: int, yy: int|
            #![trigger b.index(x, yy)]
            b.inbounds(x, yy) && (yy != y || x < x0 || x > x1) ==> plot_run(
                b,
                t,
                level,
                tex,
                y,
                x0,
                x1,
            ).pixels[b.index(x, yy)] == b.pixels[b.index(x, yy)] && plot_run(b, t, level, tex, y, x0, x1).depth[b.index(x, yy)]
                == b.depth[b.index(x, yy)],
        forall|x: int|
            #![trigger b.index(x, y)]
            x0 <= x <= x1 ==> plot_run(b, t, level, tex, y, x0, x1).pixels[b.index(x, y)] == plot(
                b,
                t,
                level,
                tex,
                x,
                y,
            ).pixels[b.index(x, y)] && plot_run(b, t, level, tex, y, x0, x1).depth[b.index(x, y)] == plot(
                b,
                t,
                level,
                tex,
                x,
                y,
            ).depth[b.index(x, y)],
    decreases x1 - x0 + 1,
{
    if x1 >= x0 {
        lemma_plot_run_effect(b, t, level, tex, y, x0, x1 - 1);
        lemma_plot_run_not_raised(b, t, level, tex, y, x0, x1 - 1);
        let p = plot_run(b, t, level, tex, y, x0, x1 - 1);
        let r = plot_run(b, t, level, tex, y, x0, x1);
        let i1 = b.index(x1, y);
        lemma_index_in_range(b, x1, y);
        assert(p.index(x1, y) == i1);
        assert forall|x: int, yy: int|
            #![trigger b.index(x, yy)]
            b.inbounds(x, yy) && (x != x1 || yy != y) implies r.pixels[b.index(x, yy)] == p.pixels[b.index(
                x,
                yy,
            )] && r.depth[b.index(x, yy)] == p.depth[b.index(x, yy)] by {
            lemma_index_injective(b, x, yy, x1, y);
            lemma_index_in_range(b, x, yy);
        }
        assert(p.pixels[i1] == b.pixels[i1] && p.depth[i1] == b.depth[i1]);
    }
}

/// Filling a span changes only the pixels of its row from its start up to
/// its end or the buffer's right edge, and each of those as one depth-tested
/// write of its shaded color to the starting buffer would.
pub proof fn lemma_span_fill_effect(
    b: BufferView,
    t: Tri,
    level: u32,
    tex: Option<TexelGrid>,
    start: Vec2i,
    end: Vec2i,
)
    requires
        b.wf(),
    ensures
        forall|x: int, yy: int|
            #![trigger b.index(x, yy)]
            b.inbounds(x, yy) && (yy != start.y || x < start.x || x > end.x) ==> span_fill(
                b,
                t,
                level,
                tex,
                start,
                end,
            ).pixels[b.index(x, yy)] == b.pixels[b.index(x, yy)] && span_fill(b, t, level, tex, start, end).depth[b.index(x, yy)]
                == b.depth[b.index(x, yy)],
        forall|x: int|
            #![trigger b.index(x, start.y as int)]
            0 <= start.x <= x <= end.x && b.inbounds(x, start.y as int) ==> span_fill(
                b,
                t,
                level,
                tex,
                start,
                end,
            ).pixels[b.index(x, start.y as int)] == plot(b, t, level, tex, x, start.y as int).pixels[b.index(
                x,
                start.y as int,
            )] && span_fill(b, t, level, tex, start, end).depth[b.index(x, start.y as int)] == plot(
                b,
                t,
                level,
                tex,
                x,
                start.y as int,
            ).depth[b.index(x, start.y as int)],
{
    if !(start.y < 0 || start.y >= b.height || start.x < 0) {
        let last = if end.x < b.width - 1 {
            end.x as int
        } else {
            b.width - 1
        };
        lemma_plot_run_effect(b, t, level, tex, start.y as int, start.x as int, last);
    }
}

fn channel_of(v: i128) -> (r: u8)
    ensures
        r == channel(v as int),
{
    if v < 0 {
        0
    } else if v > 255 {
        255
    } else {
        v as u8
    }
}

/// Shades and depth-tests the pixels of one span, from `starting` to `ending`
/// on the row of `starting`; the span stops at the first pixel off the buffer.
pub fn fill_edge_trace(
    buffer: &mut Buffer,
    starting: Vec2i,
    ending: Vec2i,
    tri: &Tri,
    bary: &BarycentricSystem,
    lighting: u32,
    texture: Option<&Texture>,
)
    requires
        old(buffer)@.wf(),
        old(buffer)@.width <= SCREEN_LIMIT,
        old(buffer)@.height <= SCREEN_LIMIT,
        bary.wf(),
        bary@ == (tri.a.pos, tri.b.pos, tri.c.pos),
        tri.a.pos.z > 0 && tri.b.pos.z > 0 && tri.c.pos.z > 0,
        tex_ok(texture, *tri),
    ensures
        final(buffer)@ == span_fill(old(buffer)@, *tri, lighting, tex_view(texture), starting, ending),
        final(buffer)@.wf(),
        final(buffer)@.width == old(buffer)@.width,
        final(buffer)@.height == old(buffer)@.height,
{
    let y = starting.y;
    let mut x: i64 = starting.x as i64;
    while x <= ending.x as i64
        invariant
            starting.x <= x <= ending.x + 1 || (x == starting.x && ending.x < starting.x),
            x > starting.x ==> 0 <= starting.x && 0 <= y < old(buffer)@.height && x - 1 < old(
                buffer,
            )@.width,
            buffer@ == plot_run(old(buffer)@, *tri, lighting, tex_view(texture), y as int, starting.x as int, x - 1),
            buffer@.wf(),
            buffer@.width == old(buffer)@.width,
            buffer@.height == old(buffer)@.height,
            y == starting.y,
            old(buffer)@.width <= SCREEN_LIMIT,
            old(buffer)@.height <= SCREEN_LIMIT,
            bary.wf(),
            bary@ == (tri.a.pos, tri.b.pos, tri.c.pos),
            tri.a.pos.z > 0 && tri.b.pos.z > 0 && tri.c.pos.z > 0,
            tex_ok(texture, *tri),
        decreases ending.x - x + 1,
    {
        if x < 0 || y < 0 || !buffer.inbounds(x as usize, y as usize) {
            return;
        }
        let xi = x as i32;
        let coords = bary.get_coords(xi, y);
        proof {
            assert(coords == weights_at(*tri, x as int, y as int));
        }
        if let Some(depth) = tri.interpolate_depth_nonlinear(coords) {
            let mut color = Color::default();
            match texture {
                Some(tex) => {
                    let u = tri.interpolate_tex_u(&coords);
                    let v = tri.interpolate_tex_v(&coords);
                    if let (Some(u), Some(v)) = (u, v) {
                        color = tex.get_texture(u, v);
                    }
                },
                None => {
                    color.red = channel_of(coords.inner_prod(&tri.get_red_ordered_vec()));
                    color.green = channel_of(coords.inner_prod(&tri.get_green_ordered_vec()));
                    color.blue = channel_of(coords.inner_prod(&tri.get_blue_ordered_vec()));
                },
            }
            color.attenuate(lighting);
            buffer.set(x as usize, y as usize, color, depth);
        }
        x = x + 1;
    }
}

/// Walks the edges from `e1s` to `e1e` and from `e2s` to `e2e` in lockstep,
/// one row at a time, filling the span between them on each new row.
pub fn trace_and_fill(
    buffer: &mut Buffer,
    tri: &Tri,
    bary: &BarycentricSystem,
    lighting: u32,
    texture: Option<&Texture>,
    e1s: Vec3i,
    e1e: Vec3i,
    e2s: Vec3i,
    e2e: Vec3i,
)
    requires
        old(buffer)@.wf(),
        old(buffer)@.width <= SCREEN_LIMIT,
        old(buffer)@.height <= SCREEN_LIMIT,
        bary.wf(),
        bary@ == (tri.a.pos, tri.b.pos, tri.c.pos),
        tri.a.pos.z > 0 && tri.b.pos.z > 0 && tri.c.pos.z > 0,
        tex_ok(texture, *tri),
        in_limit(Vec2i { x: e1s.x, y: e1s.y }) && in_limit(Vec2i { x: e1e.x, y: e1e.y }),
        in_limit(Vec2i { x: e2s.x, y: e2s.y }) && in_limit(Vec2i { x: e2e.x, y: e2e.y }),
    ensures
        final(buffer)@ == trace_fill(
            old(buffer)@,
            *tri,
            lighting,
            tex_view(texture),
            tracer_start(e1s, e1e),
            tracer_start(e2s, e2e),
        ),
        final(buffer)@.wf(),
        final(buffer)@.width == old(buffer)@.width,
        final(buffer)@.height == old(buffer)@.height,
{
    let mut e1 = EdgeTracer::cons(e1s, e1e);
    let mut e2 = EdgeTracer::cons(e2s, e2e);
    loop
        invariant
            e1@.wf(),
            e2@.wf(),
            trace_fill(buffer@, *tri, lighting, tex_view(texture), e1@, e2@) == trace_fill(
                old(buffer)@,
                *tri,
                lighting,
                tex_view(texture),
                tracer_start(e1s, e1e),
                tracer_start(e2s, e2e),
            ),
            buffer@.wf(),
            buffer@.width == old(buffer)@.width,
            buffer@.height == old(buffer)@.height,
            old(buffer)@.width <= SCREEN_LIMIT,
            old(buffer)@.height <= SCREEN_LIMIT,
            bary.wf(),
            bary@ == (tri.a.pos, tri.b.pos, tri.c.pos),
            tri.a.pos.z > 0 && tri.b.pos.z > 0 && tri.c.pos.z > 0,
            tex_ok(texture, *tri),
        decreases e1@.remaining(),
    {
        let p1 = e1.step_constant();
        let p2 = e2.step_constant();
        match (p1, p2) {
            (Some(p1), Some(p2)) => {
                fill_edge_trace(buffer, p1, p2, tri, bary, lighting, texture);
            },
            _ => {
                return;
            },
        }
    }
}

/// Rasterizes one screen-space triangle, lit at `lighting` thousandths and
/// colored by `texture` when there is one, else by its vertex colors.
pub fn render_triangle(buffer: &mut Buffer, tri: &Tri, lighting: u32, texture: Option<&Texture>)
    requires
        old(buffer)@.wf(),
        old(buffer)@.width <= SCREEN_LIMIT,
        old(buffer)@.height <= SCREEN_LIMIT,
        tex_ok(texture, *tri),
    ensures
        final(buffer)@ == render_tri(old(buffer)@, *tri, lighting, tex_view(texture)),
        final(buffer)@.wf(),
        final(buffer)@.width == old(buffer)@.width,
        final(buffer)@.height == old(buffer)@.height,
{
    let mut triangle = *tri;
    let w = buffer.get_width() as i32;
    let h = buffer.get_height() as i32;
    triangle.a.pos.clamp_xy(0, w, 0, h);
    triangle.b.pos.clamp_xy(0, w, 0, h);
    triangle.c.pos.clamp_xy(0, w, 0, h);
    proof {
        assert(triangle == clamp_tri(*tri, w as int, h as int));
    }
    if triangle.behind_view() {
        return;
    }
    triangle.sort_verts_vertical();
    let bary = match BarycentricSystem::cons(&triangle) {
        Some(sys) => sys,
        None => {
            return;
        },
    };
    let (a, b, c) = (triangle.a.pos, triangle.b.pos, triangle.c.pos);
    if triangle.lumped_left() {
        trace_and_fill(buffer, &triangle, &bary, lighting, texture, a, c, a, b);
        trace_and_fill(buffer, &triangle, &bary, lighting, texture, c, a, c, b);
    } else {
        trace_and_fill(buffer, &triangle, &bary, lighting, texture, a, b, a, c);
        trace_and_fill(buffer, &triangle, &bary, lighting, texture, c, b, c, a);
    }
}

/// Draws the pixels from `p1` (not included) to `p2`, up to the first pixel
/// off the buffer, overwriting each with `color` at the line depth.
pub fn draw_line_screen(buffer: &mut Buffer, p1: Vec3i, p2: Vec3i, color: Color)
    requires
        old(buffer)@.wf(),
        in_limit(Vec2i { x: p1.x, y: p1.y }),
        in_limit(Vec2i { x: p2.x, y: p2.y }),
    ensures
        final(buffer)@ == line_run(old(buffer)@, tracer_start(p1, p2), color_word(color)),
        final(buffer)@.wf(),
        final(buffer)@.width == old(buffer)@.width,
        final(buffer)@.height == old(buffer)@.height,
{
    let mut edge = EdgeTracer::cons(p1, p2);
    loop
        invariant
            edge@.wf(),
            line_run(buffer@, edge@, color_word(color)) == line_run(
                old(buffer)@,
                tracer_start(p1, p2),
                color_word(color),
            ),
            buffer@.wf(),
            buffer@.width == old(buffer)@.width,
            buffer@.height == old(buffer)@.height,
        decreases edge@.remaining(),
    {
        match edge.step_once() {
            None => {
                return;
            },
            Some(point) => {
                if point.x < 0 || point.y < 0 || !buffer.inbounds(point.x as usize, point.y as usize) {
                    return;
                }
                buffer.overwrite(point.x as usize, point.y as usize, color, LINE_DEPTH);
            },
        }
    }
}

/// Draws the outline of one screen-space triangle in cyan, lit at `lighting`
/// thousandths, over whatever the buffer holds.
pub fn render_wireframe_triangle(buffer: &mut Buffer, tri: &Tri, lighting: u32)
    requires
        old(buffer)@.wf(),
        old(buffer)@.width <= SCREEN_LIMIT,
        old(buffer)@.height <= SCREEN_LIMIT,
    ensures
        final(buffer)@ == wireframe_tri(old(buffer)@, *tri, lighting),
        final(buffer)@.wf(),
        final(buffer)@.width == old(buffer)@.width,
        final(buffer)@.height == old(buffer)@.height,
{
    let mut triangle = *tri;
    let w = buffer.get_width() as i32;
    let h = buffer.get_height() as i32;
    triangle.a.pos.clamp_xy(0, w, 0, h);
    triangle.b.pos.clamp_xy(0, w, 0, h);
    triangle.c.pos.clamp_xy(0, w, 0, h);
    proof {
        assert(triangle == clamp_tri(*tri, w as int, h as int));
    }
    if triangle.behind_view() {
        return;
    }
    triangle.sort_verts_vertical();
    let mut color = Color::cons(0, 255, 255);
    color.attenuate(lighting);
    proof {
        assert(color == lit(wire_color(), lighting));
    }
    let (a, b, c) = (triangle.a.pos, triangle.b.pos, triangle.c.pos);
    draw_line_screen(buffer, a, b, color);
    draw_line_screen(buffer, a, c, color);
    draw_line_screen(buffer, c, b, color);
}
} // verus!

use vstd::prelude::*;

use crate::math::Vec3i;
use crate::math::lemma_mul_within;

verus! {

/// Packed color of a cleared pixel.
pub const BACKGROUND: u32 = 0xffbb_bbbb;

/// Depth of a cleared pixel: farther than anything drawn.
pub const DEPTH_FAR: i64 = 1_000_000_000_000;

/// Lighting levels are in thousandths: this level leaves a color unchanged.
pub const LIGHT_ONE: u32 = 1000;

/// Ambient floor of the flat lighting level.
pub const MIN_LIGHTING: u32 = 150;

/// A color with one byte per channel.
#[derive(Debug, Clone, Copy, PartialEq, Eq, Structural)]
pub struct Color {
    pub red: u8,
    pub green: u8,
    pub blue: u8,
}

/// The packed form of a color: red in the third byte, green in the second,
/// blue in the lowest, the highest byte zero.
pub open spec fn packed(red: int, green: int, blue: int) -> int {
    red * 0x10000 + green * 0x100 + blue
}

/// The packed word of a color.
pub open spec fn color_word(c: Color) -> u32 {
    packed(c.red as int, c.green as int, c.blue as int) as u32
}

/// A channel scaled by a lighting level in thousandths, saturated at 255.
pub open spec fn attenuated(channel: int, level: int) -> int {
    if channel * level / LIGHT_ONE as int > 255 {
        255
    } else {
        channel * level / LIGHT_ONE as int
    }
}

/// The flat lighting level of a triangle whose lit intensity is `dot`
/// thousandths: the intensity, held at least at the ambient floor.
pub open spec fn lighting_of(dot: int) -> int {
    if dot < MIN_LIGHTING as int {
        MIN_LIGHTING as int
    } else {
        dot
    }
}

/// The lighting level for a lit intensity of `dot` thousandths, never below
/// the ambient floor.
pub fn lighting_level(dot: i32) -> (r: u32)
    ensures
        r == lighting_of(dot as int),
{
    if dot < MIN_LIGHTING as i32 {
        MIN_LIGHTING
    } else {
        dot as u32
    }
}

/// The light shines along (-3, 1, -4); this is its squared length.
pub const LIGHT_NORM2: i128 = 26;

/// Inner product of the light direction with `n`.
pub open spec fn light_dot(n: Vec3i) -> int {
    -3 * n.x + n.y - 4 * n.z
}

/// Squared length of `n`.
pub open spec fn norm2(n: Vec3i) -> int {
    n.x * n.x + n.y * n.y + n.z * n.z
}

/// `k` thousandths is at most the cosine of the angle between the light
/// direction and `n`: `k |L| |n| <= 1000 (L . n)`, squared.
pub open spec fn level_fits(n: Vec3i, k: int) -> bool {
    k * k * (LIGHT_NORM2 * norm2(n)) <= (1000 * light_dot(n)) * (1000 * light_dot(n))
}

/// The cosine between the light direction and `n` never exceeds 1.
proof fn lemma_light_cosine_at_most_one(n: Vec3i)
    ensures
        light_dot(n) * light_dot(n) <= LIGHT_NORM2 * norm2(n),
{
    let (x, y, z) = (n.x as int, n.y as int, n.z as int);
    assert(26 * (x * x + y * y + z * z) - (-3 * x + y - 4 * z) * (-3 * x + y - 4 * z) == (z + 4 * y)
        * (z + 4 * y) + (3 * z - 4 * x) * (3 * z - 4 * x) + (x + 3 * y) * (x + 3 * y))
        by (nonlinear_arith);
    assert((z + 4 * y) * (z + 4 * y) >= 0 && (3 * z - 4 * x) * (3 * z - 4 * x) >= 0 && (x + 3 * y) * (
    x + 3 * y) >= 0) by (nonlinear_arith);
}

/// The lit intensity of a surface with normal `n`, in thousandths: the
/// cosine between `n` and the light direction rounded down, and 0 for a
/// surface that does not face the light.
pub fn light_intensity(n: Vec3i) -> (r: i32)
    ensures
        light_dot(n) <= 0 ==> r == 0,
        light_dot(n) > 0 ==> 0 <= r <= 1000 && level_fits(n, r as int) && !level_fits(n, r + 1),
{
    let (x, y, z) = (n.x as i128, n.y as i128, n.z as i128);
    let dot: i128 = -3 * x + y - 4 * z;
    if dot <= 0 {
        return 0;
    }
    proof {
        lemma_mul_within(x as int, x as int, 0x8000_0000, 0x8000_0000);
        lemma_mul_within(y as int, y as int, 0x8000_0000, 0x8000_0000);
        lemma_mul_within(z as int, z as int, 0x8000_0000, 0x8000_0000);
        assert(x * x >= 0 && y * y >= 0 && z * z >= 0) by (nonlinear_arith);
        lemma_light_cosine_at_most_one(n);
    }
    let len2: i128 = LIGHT_NORM2 * (x * x + y * y + z * z);
    let scaled: i128 = 1000 * dot;
    proof {
        lemma_mul_within(scaled as int, scaled as int, 0x20_0000_0000_0000, 0x20_0000_0000_0000);
        assert(scaled * scaled == 1_000_000 * (dot * dot)) by (nonlinear_arith)
            requires
                scaled == 1000 * dot,
        ;
        assert(1001 * 1001 * len2 > scaled * scaled) by (nonlinear_arith)
            requires
                scaled * scaled == 1_000_000 * (dot * dot),
                dot * dot <= len2,
                dot > 0,
        ;
    }
    let target: i128 = scaled * scaled;
    assert(0 * 0 * len2 <= target) by (nonlinear_arith)
        requires
            target == scaled * scaled,
    ;
    let mut lo: i128 = 0;
    let mut hi: i128 = 1001;
    while hi - lo > 1
        invariant
            0 <= lo < hi <= 1001,
            lo * lo * len2 <= target,
            hi * hi * len2 > target,
            0 <= len2 <= 26 * 3 * 0x4000_0000_0000_0000,
            target == (1000 * light_dot(n)) * (1000 * light_dot(n)),
            len2 == LIGHT_NORM2 * norm2(n),
        decreases hi - lo,
    {
        let mid: i128 = lo + (hi - lo) / 2;
        proof {
            assert(0 <= mid * mid <= 1001 * 1001) by (nonlinear_arith)
                requires
                    0 <= mid <= 1001,
            ;
            lemma_mul_within(mid * mid, len2 as int, 1002001int, 26 * 3 * 0x4000_0000_0000_0000int);
        }
        if mid * mid * len2 <= target {
            lo = mid;
        } else {
            hi = mid;
        }
    }
    lo as i32
}

/// The flat lighting level of a surface with normal `n`.
pub fn lighting_for_normal(n: Vec3i) -> (r: u32)
    ensures
        light_dot(n) <= 0 ==> r == MIN_LIGHTING,
        light_dot(n) > 0 ==> exists|k: int|
            0 <= k <= 1000 && level_fits(n, k) && !level_fits(n, k + 1) && r == lighting_of(k),
{
    let k = light_intensity(n);
    lighting_level(k)
}

/// A normal that points along the light direction is lit at the full level,
/// whatever its length.
pub proof fn lemma_facing_light_full_level(n: Vec3i, t: int, k: int)
    requires
        t >= 1,
        n.x == -3 * t,
        n.y == t,
        n.z == -4 * t,
        0 <= k,
    ensures
        level_fits(n, k) <==> k <= 1000,
{
    assert(light_dot(n) == 26 * t);
    assert(norm2(n) == 26 * (t * t)) by (nonlinear_arith)
        requires
            n.x == -3 * t,
            n.y == t,
            n.z == -4 * t,
    ;
    assert(k * k * (26 * (26 * (t * t))) == (k * k) * (676 * (t * t))) by (nonlinear_arith);
    assert((1000 * (26 * t)) * (1000 * (26 * t)) == 1_000_000 * (676 * (t * t))) by (nonlinear_arith);
    assert(676 * (t * t) > 0) by (nonlinear_arith)
        requires
            t >= 1,
    ;
    if k <= 1000 {
        assert(k * k <= 1_000_000) by (nonlinear_arith)
            requires
                0 <= k <= 1000,
        ;
        assert((k * k) * (676 * (t * t)) <= 1_000_000 * (676 * (t * t))) by (nonlinear_arith)
            requires
                k * k <= 1_000_000,
                676 * (t * t) > 0,
        ;
    } else {
        assert(k * k > 1_000_000) by (nonlinear_arith)
            requires
                k > 1000,
        ;
        assert((k * k) * (676 * (t * t)) > 1_000_000 * (676 * (t * t))) by (nonlinear_arith)
            requires
                k * k > 1_000_000,
                676 * (t * t) > 0,
        ;
    }
}

impl Color {
    pub fn cons(red: u8, green: u8, blue: u8) -> (r: Color)
        ensures
            r.red == red,
            r.green == green,
            r.blue == blue,
    {
        Color { red, green, blue }
    }

    /// Unpacks the three low bytes of `color`.
    pub fn from_u32(color: u32) -> (r: Color)
        ensures
            r.red == (color / 0x10000) % 0x100,
            r.green == (color / 0x100) % 0x100,
            r.blue == color % 0x100,
    {
        let red = (color >> 16 & 0xff) as u8;
        let green = (color >> 8 & 0xff) as u8;
        let blue = (color & 0xff) as u8;
        assert(color >> 16 & 0xff == (color / 0x10000) % 0x100) by (bit_vector);
        assert(color >> 8 & 0xff == (color / 0x100) % 0x100) by (bit_vector);
        assert(color & 0xff == color % 0x100) by (bit_vector);
        Color::cons(red, green, blue)
    }

    /// Packs the channels into one word.
    pub fn to_u32(self) -> (r: u32)
        ensures
            r == packed(self.red as int, self.green as int, self.blue as int),
    {
        let red = self.red as u32;
        let green = self.green as u32;
        let blue = self.blue as u32;
        assert(red < 0x100 && green < 0x100 && blue < 0x100 ==> (red << 16) | (green << 8) | blue
            == red * 0x10000 + green * 0x100 + blue) by (bit_vector);
        (red << 16) | (green << 8) | blue
    }

    /// The channels as a vector (red, green, blue).
    pub fn as_vec3i(&self) -> (r: Vec3i)
        ensures
            r.x == self.red,
            r.y == self.green,
            r.z == self.blue,
    {
        Vec3i::cons(self.red as i32, self.green as i32, self.blue as i32)
    }

    /// Scales each channel by a lighting level in thousandths.
    pub fn attenuate(&mut self, value: u32)
        ensures
            final(self).red == attenuated(old(self).red as int, value as int),
            final(self).green == attenuated(old(self).green as int, value as int),
            final(self).blue == attenuated(old(self).blue as int, value as int),
    {
        self.red = scale_channel(self.red, value);
        self.green = scale_channel(self.green, value);
        self.blue = scale_channel(self.blue, value);
    }
}

fn scale_channel(channel: u8, value: u32) -> (r: u8)
    ensures
        r == attenuated(channel as int, value as int),
{
    assert(channel as int * value as int <= 255 * 0xffff_ffff) by (nonlinear_arith)
        requires
            channel <= 255,
            value <= 0xffff_ffff,
    ;
    let scaled: u64 = channel as u64 * value as u64 / LIGHT_ONE as u64;
    if scaled > 255 {
        255
    } else {
        scaled as u8
    }
}

impl Default for Color {
    /// White.
    fn default() -> (r: Color)
        ensures
            r == (Color { red: 255, green: 255, blue: 255 }),
    {
        Color::cons(255, 255, 255)
    }
}

/// The mathematical content of a [`Buffer`].
pub struct BufferView {
    pub height: nat,
    pub width: nat,
    pub pixels: Seq<u32>,
    pub depth: Seq<i64>,
}

impl BufferView {
    /// Both planes hold one entry per pixel.
    pub open spec fn wf(self) -> bool {
        &&& self.pixels.len() == self.width * self.height
        &&& self.depth.len() == self.width * self.height
    }

    pub open spec fn inbounds(self, x: int, y: int) -> bool {
        0 <= x < self.width && 0 <= y < self.height
    }

    /// Storage index of the pixel in column `x` and row `y`, row 0 being the
    /// bottom of the image and the last storage row.
    pub open spec fn index(self, x: int, y: int) -> int {
        (self.height - 1 - y) * self.width + x
    }

    /// The unconditional write: the pixel takes `color` and `depth` whatever
    /// it held.
    pub open spec fn overwrite(self, x: int, y: int, color: u32, depth: i64) -> BufferView {
        let i = self.index(x, y);
        BufferView { pixels: self.pixels.update(i, color), depth: self.depth.update(i, depth), ..self }
    }

    /// The depth-tested write: a pixel whose stored depth is smaller than
    /// `depth` is kept, otherwise it takes `color` and `depth`.
    pub open spec fn set(self, x: int, y: int, color: u32, depth: i64) -> BufferView {
        let i = self.index(x, y);
        if self.depth[i] < depth {
            self
        } else {
            BufferView {
                pixels: self.pixels.update(i, color),
                depth: self.depth.update(i, depth),
                ..self
            }
        }
    }
}

pub proof fn lemma_index_in_range(b: BufferView, x: int, y: int)
    requires
        b.wf(),
        b.inbounds(x, y),
    ensures
        0 <= b.index(x, y) < b.width * b.height,
{
    assert(0 <= (b.height - 1 - y) * b.width <= (b.height - 1) * b.width) by (nonlinear_arith)
        requires
            0 <= y < b.height,
    ;
    assert((b.height - 1) * b.width + b.width == b.width * b.height) by (nonlinear_arith);
}

/// A depth-tested write keeps at each pixel the least depth written so far,
/// and touches no other pixel.
pub proof fn lemma_set_keeps_least_depth(b: BufferView, x: int, y: int, color: u32, depth: i64)
    requires
        b.wf(),
        b.inbounds(x, y),
    ensures
        b.set(x, y, color, depth).wf(),
        b.set(x, y, color, depth).depth[b.index(x, y)] == if b.depth[b.index(x, y)] < depth {
            b.depth[b.index(x, y)]
        } else {
            depth
        },
        forall|i: int|
            0 <= i < b.width * b.height && i != b.index(x, y) ==> b.set(x, y, color, depth).pixels[i]
                == b.pixels[i] && b.set(x, y, color, depth).depth[i] == b.depth[i],
{
    lemma_index_in_range(b, x, y);
}

/// A write behind an earlier one at the same pixel leaves the earlier color,
/// and a write at the same depth replaces it: the later write wins ties.
pub proof fn lemma_depth_test_order(
    b: BufferView,
    x: int,
    y: int,
    first: u32,
    second: u32,
    d1: i64,
    d2: i64,
)
    requires
        b.wf(),
        b.inbounds(x, y),
    ensures
        d1 < d2 ==> b.set(x, y, first, d1).set(x, y, second, d2) == b.set(x, y, first, d1),
        b.set(x, y, first, d1).set(x, y, second, d1) == b.set(x, y, second, d1),
{
    lemma_index_in_range(b, x, y);
    let i = b.index(x, y);
    let b1 = b.set(x, y, first, d1);
    if b.depth[i] >= d1 {
        assert(b1.set(x, y, second, d1).pixels =~= b.set(x, y, second, d1).pixels);
        assert(b1.set(x, y, second, d1).depth =~= b.set(x, y, second, d1).depth);
    }
}

/// Writes of distinct depths to one pixel leave the same result in either
/// order: the nearer write wins.
pub proof fn lemma_depth_test_order_independent(
    b: BufferView,
    x: int,
    y: int,
    c1: u32,
    c2: u32,
    d1: i64,
    d2: i64,
)
    requires
        b.wf(),
        b.inbounds(x, y),
        d1 != d2,
    ensures
        b.set(x, y, c1, d1).set(x, y, c2, d2) == b.set(x, y, c2, d2).set(x, y, c1, d1),
{
    lemma_index_in_range(b, x, y);
    let one = b.set(x, y, c1, d1).set(x, y, c2, d2);
    let two = b.set(x, y, c2, d2).set(x, y, c1, d1);
    assert(one.pixels =~= two.pixels);
    assert(one.depth =~= two.depth);
}

/// Color and depth planes of one frame.
pub struct Buffer {
    height: usize,
    width: usize,
    pixels: Vec<u32>,
    depth: Vec<i64>,
}

impl View for Buffer {
    type V = BufferView;

    closed spec fn view(&self) -> BufferView {
        BufferView {
            height: self.height as nat,
            width: self.width as nat,
            pixels: self.pixels@,
            depth: self.depth@,
        }
    }
}

impl Buffer {
    /// A cleared buffer of `height` rows of `width` pixels.
    pub fn cons(height: usize, width: usize) -> (r: Buffer)
        requires
            width * height <= usize::MAX,
        ensures
            r@.wf(),
            r@.height == height,
            r@.width == width,
            forall|i: int| 0 <= i < width * height ==> r@.pixels[i] == BACKGROUND && r@.depth[i]
                == DEPTH_FAR,
    {
        let n: usize = width * height;
        let mut pixels: Vec<u32> = Vec::new();
        let mut depth: Vec<i64> = Vec::new();
        let mut i: usize = 0;
        while i < n
            invariant
                i <= n,
                pixels@.len() == i,
                depth@.len() == i,
                forall|j: int| 0 <= j < i ==> pixels@[j] == BACKGROUND && depth@[j] == DEPTH_FAR,
            decreases n - i,
        {
            pixels.push(BACKGROUND);
            depth.push(DEPTH_FAR);
            i = i + 1;
        }
        Buffer { height, width, pixels, depth }
    }

    /// The depth-tested write of one pixel.
    pub fn set(&mut self, x: usize, y: usize, color: Color, depth: i64)
        requires
            old(self)@.wf(),
            old(self)@.inbounds(x as int, y as int),
        ensures
            final(self)@ == old(self)@.set(x as int, y as int, color_word(color), depth),
            final(self)@.wf(),
    {
        proof {
            lemma_index_in_range(self@, x as int, y as int);
        }
        let idx = self.idx(x, y);
        if self.depth[idx] < depth {
            return;
        }
        self.depth[idx] = depth;
        self.pixels[idx] = color.to_u32();
    }

    /// Writes one pixel without the depth test.
    pub fn overwrite(&mut self, x: usize, y: usize, color: Color, depth: i64)
        requires
            old(self)@.wf(),
            old(self)@.inbounds(x as int, y as int),
        ensures
            final(self)@ == old(self)@.overwrite(x as int, y as int, color_word(color), depth),
            final(self)@.wf(),
    {
        proof {
            lemma_index_in_range(self@, x as int, y as int);
        }
        let idx = self.idx(x, y);
        self.depth[idx] = depth;
        self.pixels[idx] = color.to_u32();
    }

    /// The color plane, bottom row last.
    pub fn get_pixels(&self) -> (r: &Vec<u32>)
        ensures
            r@ == self@.pixels,
    {
        &self.pixels
    }

    /// Packed color of the pixel in column `x` and row `y`.
    pub fn get_pixel(&self, x: usize, y: usize) -> (r: u32)
        requires
            self@.wf(),
            self@.inbounds(x as int, y as int),
        ensures
            r == self@.pixels[self@.index(x as int, y as int)],
    {
        proof {
            lemma_index_in_range(self@, x as int, y as int);
        }
        self.pixels[self.idx(x, y)]
    }

    /// Stored depth of the pixel in column `x` and row `y`.
    pub fn get_depth(&self, x: usize, y: usize) -> (r: i64)
        requires
            self@.wf(),
            self@.inbounds(x as int, y as int),
        ensures
            r == self@.depth[self@.index(x as int, y as int)],
    {
        proof {
            lemma_index_in_range(self@, x as int, y as int);
        }
        self.depth[self.idx(x, y)]
    }

    pub fn get_height(&self) -> (r: usize)
        ensures
            r == self@.height,
    {
        self.height
    }

    pub fn get_width(&self) -> (r: usize)
        ensures
            r == self@.width,
    {
        self.width
    }

    /// Resets every pixel to the background and the farthest depth.
    pub fn clear(&mut self)
        requires
            old(self)@.wf(),
        ensures
            final(self)@.wf(),
            final(self)@.width == old(self)@.width,
            final(self)@.height == old(self)@.height,
            forall|i: int|
                0 <= i < final(self)@.pixels.len() ==> final(self)@.pixels[i] == BACKGROUND
                    && final(self)@.depth[i] == DEPTH_FAR,
    {
        let n = self.pixels.len();
        let mut i: usize = 0;
        while i < n
            invariant
                i <= n,
                n == self.pixels@.len(),
                self@.wf(),
                self@.width == old(self)@.width,
                self@.height == old(self)@.height,
                forall|j: int| 0 <= j < i ==> self@.pixels[j] == BACKGROUND && self@.depth[j] == DEPTH_FAR,
            decreases n - i,
        {
            self.pixels.set(i, BACKGROUND);
            self.depth.set(i, DEPTH_FAR);
            i = i + 1;
        }
    }

    pub fn inbounds(&self, x: usize, y: usize) -> (r: bool)
        ensures
            r == self@.inbounds(x as int, y as int),
    {
        x < self.width && y < self.height
    }

    fn idx(&self, x: usize, y: usize) -> (r: usize)
        requires
            self@.wf(),
            self@.inbounds(x as int, y as int),
        ensures
            r == self@.index(x as int, y as int),
    {
        let len = self.pixels.len();
        let row = self.height_inversion(y);
        proof {
            lemma_index_in_range(self@, x as int, y as int);
            assert(row * self.width + x < len);
        }
        row * self.width + x
    }

    fn height_inversion(&self, y: usize) -> (r: usize)
        requires
            y < self@.height,
        ensures
            r == self@.height - 1 - y,
    {
        self.height - 1 - y
    }
}

} // verus!

use vstd::prelude::*;

use crate::math::clamp;
use crate::render_utils::Color;

verus! {

/// Texture coordinates are fixed-point numbers: this value stands for 1.
pub const TEX_ONE: i128 = 0x1_0000;

/// The mathematical content of a [`Texture`].
pub struct TexelGrid {
    pub height: nat,
    pub width: nat,
    pub texels: Seq<Color>,
}

/// Index along an axis of `n` texels for the coordinate `u`: the whole part
/// of `u * n`, held within the axis.
pub open spec fn texel_coord(u: int, n: int) -> int {
    clamp(u * n / TEX_ONE as int, 0, n - 1)
}

impl TexelGrid {
    /// At least one texel, and one per grid cell.
    pub open spec fn wf(self) -> bool {
        &&& self.width >= 1
        &&& self.height >= 1
        &&& self.texels.len() == self.width * self.height
    }

    /// The texel at the coordinates (u, v), rows stored one after another.
    pub open spec fn sample(self, u: int, v: int) -> Color {
        self.texels[texel_coord(v, self.height as int) * self.width + texel_coord(u, self.width as int)]
    }
}

/// An immutable grid of colors, stored row after row.
pub struct Texture {
    height: usize,
    width: usize,
    texture: Vec<Color>,
}

impl View for Texture {
    type V = TexelGrid;

    closed spec fn view(&self) -> TexelGrid {
        TexelGrid { height: self.height as nat, width: self.width as nat, texels: self.texture@ }
    }
}

fn texel_index(u: i128, n: usize) -> (r: usize)
    requires
        n >= 1,
    ensures
        r == texel_coord(u as int, n as int),
        r < n,
{
    let one = TEX_ONE;
    if u <= 0 {
        assert(u * n <= 0) by (nonlinear_arith)
            requires
                u <= 0,
                n >= 1,
        ;
        assert(u * n / (one as int) <= 0) by (nonlinear_arith)
            requires
                u * n <= 0,
                one > 0,
        ;
        0
    } else if u >= one {
        assert(u * n >= one * n) by (nonlinear_arith)
            requires
                u >= one,
                n >= 1,
        ;
        assert(u * n / (one as int) >= n) by (nonlinear_arith)
            requires
                u * n >= one * n,
                one > 0,
        ;
        n - 1
    } else {
        assert(0 < u * n < 0x1_0000 * 0x1_0000_0000_0000_0000) by (nonlinear_arith)
            requires
                0 < u < 0x1_0000,
                1 <= n <= 0xffff_ffff_ffff_ffff,
        ;
        let scaled: i128 = u * (n as i128) / one;
        if scaled >= n as i128 {
            n - 1
        } else {
            scaled as usize
        }
    }
}

impl Texture {
    /// A texture of `height` rows of `width` texels; `None` unless both are
    /// positive and `texels` holds exactly that many.
    pub fn from_texels(width: usize, height: usize, texels: Vec<Color>) -> (r: Option<Texture>)
        ensures
            r is Some <==> (width >= 1 && height >= 1 && texels@.len() == width * height),
            r matches Some(t) ==> t@ == (TexelGrid {
                height: height as nat,
                width: width as nat,
                texels: texels@,
            }) && t@.wf(),
    {
        if width == 0 || height == 0 {
            return None;
        }
        let n = texels.len();
        proof {
            if n == width * height {
                vstd::arithmetic::div_mod::lemma_fundamental_div_mod_converse(
                    n as int,
                    width as int,
                    height as int,
                    0,
                );
            }
        }
        if n / width != height || n % width != 0 {
            return None;
        }
        proof {
            vstd::arithmetic::div_mod::lemma_fundamental_div_mod(n as int, width as int);
        }
        Some(Texture { height, width, texture: texels })
    }

    /// The texel at the fixed-point coordinates (x, y).
    pub fn get_texture(&self, x: i128, y: i128) -> (r: Color)
        requires
            self@.wf(),
        ensures
            r == self@.sample(x as int, y as int),
    {
        let idx = self.idx(x, y);
        self.texture[idx]
    }

    pub fn get_width(&self) -> (r: usize)
        ensures
            r == self@.width,
    {
        self.width
    }

    pub fn get_height(&self) -> (r: usize)
        ensures
            r == self@.height,
    {
        self.height
    }

    fn idx(&self, x: i128, y: i128) -> (r: usize)
        requires
            self@.wf(),
        ensures
            r == texel_coord(y as int, self@.height as int) * self@.width + texel_coord(
                x as int,
                self@.width as int,
            ),
            r < self@.texels.len(),
    {
        let len = self.texture.len();
        let nx = texel_index(x, self.width);
        let ny = texel_index(y, self.height);
        assert(ny * self.width + nx < self.width * self.height) by (nonlinear_arith)
            requires
                nx < self.width,
                ny < self.height,
        ;
        assert(ny * self.width + nx < len);
        ny * self.width + nx
    }
}

} // verus!

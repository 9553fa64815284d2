//! Drawing a QR symbol into an RGBA8 pixel buffer.
use vstd::prelude::*;
use vstd::arithmetic::div_mod::lemma_fundamental_div_mod_converse;

use crate::app::Style;

verus! {

/// The modules of a QR symbol: `width` modules per side, and for each module,
/// row by row, whether it is dark.
pub struct ModuleGrid {
    pub width: usize,
    pub dark: Vec<bool>,
}

pub struct GridView {
    pub width: nat,
    pub dark: Seq<bool>,
}

impl View for ModuleGrid {
    type V = GridView;

    open spec fn view(&self) -> GridView {
        GridView { width: self.width as nat, dark: self.dark@ }
    }
}

impl ModuleGrid {
    /// One flag per module.
    pub open spec fn wf(&self) -> bool {
        self.dark@.len() == self.width * self.width
    }

    /// The grid of `width` modules per side whose flags are `dark`, where
    /// there is one flag per module.
    pub fn from_modules(width: usize, dark: Vec<bool>) -> (r: Option<ModuleGrid>)
        ensures
            r is Some <==> dark@.len() == width * width,
            r matches Some(g) ==> g.wf() && g@ == (GridView { width: width as nat, dark: dark@ }),
    {
        if width == 0 {
            if dark.len() == 0 {
                return Some(ModuleGrid { width, dark });
            } else {
                return None;
            }
        }
        if dark.len() % width == 0 && dark.len() / width == width {
            proof {
                vstd::arithmetic::div_mod::lemma_fundamental_div_mod(dark.len() as int, width as int);
            }
            Some(ModuleGrid { width, dark })
        } else {
            proof {
                if dark@.len() == width * width {
                    lemma_fundamental_div_mod_converse(
                        dark.len() as int,
                        width as int,
                        width as int,
                        0,
                    );
                }
            }
            None
        }
    }
}

/// Pixels per module: the style's module size, and at least one.
pub open spec fn scale(style: Style) -> nat {
    if style.module_size == 0 {
        1
    } else {
        style.module_size as nat
    }
}

/// Pixels per side of the image of a symbol `width` modules wide.
pub open spec fn side_px(width: nat, style: Style) -> nat {
    (width + 2 * (style.quiet_zone as nat)) * scale(style)
}

/// The image side fits the `u32` arithmetic of the renderer, and the image
/// fits in memory addressable by `usize`.
pub open spec fn renderable(width: nat, style: Style) -> bool {
    side_px(width, style) <= u32::MAX && side_px(width, style) * side_px(width, style) * 4
        <= usize::MAX
}

/// Pixel (`x`, `y`) falls in a dark module of the symbol, the quiet zone
/// being light.
pub open spec fn dark_at(g: GridView, style: Style, x: int, y: int) -> bool {
    let mx = x / scale(style) as int - style.quiet_zone;
    let my = y / scale(style) as int - style.quiet_zone;
    0 <= mx < g.width && 0 <= my < g.width && g.dark[my * g.width + mx]
}

/// Byte `i` of the RGBA image of `g`: the channel `i % 4` of the colour of
/// pixel `i / 4`, pixels being laid out row by row.
pub open spec fn rgba_byte(g: GridView, style: Style, i: int) -> u8 {
    let side = side_px(g.width, style) as int;
    let p = i / 4;
    if dark_at(g, style, p % side, p / side) {
        style.foreground@[i % 4]
    } else {
        style.background@[i % 4]
    }
}

/// The RGBA image of `g`: `side_px` pixels per side, four bytes per pixel.
pub open spec fn rgba_image(g: GridView, style: Style) -> Seq<u8> {
    Seq::new(
        side_px(g.width, style) * side_px(g.width, style) * 4,
        |i: int| rgba_byte(g, style, i),
    )
}

proof fn lemma_pixel_index(side: int, x: int, y: int, c: int)
    requires
        0 <= x < side,
        0 <= y,
        0 <= c < 4,
    ensures
        ((y * side + x) * 4 + c) / 4 == y * side + x,
        ((y * side + x) * 4 + c) % 4 == c,
        (y * side + x) % side == x,
        (y * side + x) / side == y,
{
    lemma_fundamental_div_mod_converse((y * side + x) * 4 + c, 4, y * side + x, c);
    assert(y * side == side * y) by (nonlinear_arith);
    lemma_fundamental_div_mod_converse(y * side + x, side, y, x);
}

proof fn lemma_module_index(w: int, mx: int, my: int)
    requires
        0 <= mx < w,
        0 <= my < w,
    ensures
        0 <= my * w + mx < w * w,
{
    assert(my * w + mx < w * w) by (nonlinear_arith)
        requires
            0 <= mx < w,
            0 <= my < w,
    ;
    assert(0 <= my * w) by (nonlinear_arith)
        requires
            0 <= my,
            0 <= w,
    ;
}

/// Render a QR symbol into an RGBA8 byte buffer at the requested pixel size
/// and with the configured foreground / background colors and quiet zone.
/// Returns the buffer, its width and its height in pixels.
pub fn render_rgba(grid: &ModuleGrid, style: &Style) -> (r: (Vec<u8>, usize, usize))
    requires
        grid.wf(),
        renderable(grid@.width, *style),
    ensures
        r.1 == side_px(grid@.width, *style),
        r.2 == r.1,
        r.0@.len() == r.1 * r.2 * 4,
        forall|i: int| 0 <= i < r.0@.len() ==> r.0@[i] == rgba_byte(grid@, *style, i),
        r.0@ == rgba_image(grid@, *style),
{
    let w = grid.width;
    let scale: usize = if style.module_size == 0 {
        1
    } else {
        style.module_size as usize
    };
    let border = style.quiet_zone as usize;
    proof {
        let n = w + 2 * border;
        assert(n <= n * scale) by (nonlinear_arith)
            requires
                scale >= 1,
                n >= 0,
        ;
    }
    let side = (w + 2 * border) * scale;
    let ghost g = grid@;
    let mut buf: Vec<u8> = Vec::new();
    let mut y: usize = 0;
    while y < side
        invariant
            grid.wf(),
            g == grid@,
            w == grid.width,
            scale == crate::raster::scale(*style),
            border == style.quiet_zone,
            side == side_px(g.width, *style),
            side * side * 4 <= usize::MAX,
            y <= side,
            buf@.len() == y * side * 4,
            forall|i: int| 0 <= i < buf@.len() ==> buf@[i] == rgba_byte(g, *style, i),
        decreases side - y,
    {
        let mut x: usize = 0;
        while x < side
            invariant
                grid.wf(),
                g == grid@,
                w == grid.width,
                scale == crate::raster::scale(*style),
                border == style.quiet_zone,
                side == side_px(g.width, *style),
                side * side * 4 <= usize::MAX,
                y < side,
                x <= side,
                buf@.len() == (y * side + x) * 4,
                forall|i: int| 0 <= i < buf@.len() ==> buf@[i] == rgba_byte(g, *style, i),
            decreases side - x,
        {
            let mx = x / scale;
            let my = y / scale;
            let mut dark = false;
            if mx >= border && my >= border && mx - border < w && my - border < w {
                let n = grid.dark.len();
                proof {
                    lemma_module_index(w as int, (mx - border) as int, (my - border) as int);
                    assert(n == w * w);
                }
                dark = grid.dark[(my - border) * w + (mx - border)];
            }
            let color = if dark {
                style.foreground
            } else {
                style.background
            };
            let ghost base = buf@.len();
            proof {
                assert(dark == dark_at(g, *style, x as int, y as int));
                assert forall|c: int| 0 <= c < 4 implies rgba_byte(g, *style, base + c)
                    == color@[c] by {
                    lemma_pixel_index(side as int, x as int, y as int, c);
                }
            }
            let mut c: usize = 0;
            while c < 4
                invariant
                    c <= 4,
                    buf@.len() == base + c,
                    base == (y * side + x) * 4,
                    forall|k: int| 0 <= k < 4 ==> rgba_byte(g, *style, base + k) == color@[k],
                    forall|i: int| 0 <= i < buf@.len() ==> buf@[i] == rgba_byte(g, *style, i),
                decreases 4 - c,
            {
                buf.push(color[c]);
                c = c + 1;
            }
            x = x + 1;
        }
        assert((y * side + side) * 4 == (y + 1) * side * 4) by (nonlinear_arith);
        y = y + 1;
    }
    assert(buf@ =~= rgba_image(g, *style));
    (buf, side, side)
}

/// The image is square: `width + 2 * quiet_zone` modules per side, each
/// `module_size` pixels wide (one pixel where the size is zero), four bytes
/// per pixel.
pub proof fn law_image_size(g: GridView, style: Style)
    ensures
        ({
            let m: nat = if style.module_size == 0 {
                1
            } else {
                style.module_size as nat
            };
            let side = (g.width + 2 * (style.quiet_zone as nat)) * m;
            &&& side_px(g.width, style) == side
            &&& rgba_image(g, style).len() == side * side * 4
        }),
{
}

/// Each module of the grid becomes a `scale` by `scale` block of pixels,
/// inside the quiet zone: pixel (`(q + col) * s + dx`, `(q + row) * s + dy`),
/// row by row in the buffer, takes the foreground colour exactly where the
/// module in column `col` and row `row` is dark, the flags being stored row
/// by row (flag `row * width + col`).
pub proof fn law_module_blocks(
    g: GridView,
    style: Style,
    col: nat,
    row: nat,
    dx: nat,
    dy: nat,
    c: nat,
)
    requires
        g.dark.len() == g.width * g.width,
        col < g.width,
        row < g.width,
        dx < scale(style),
        dy < scale(style),
        c < 4,
    ensures
        ({
            let s = scale(style);
            let q = style.quiet_zone as nat;
            let side = side_px(g.width, style);
            let x = (q + col) * s + dx;
            let y = (q + row) * s + dy;
            let i = (y * side + x) * 4 + c;
            &&& x < side && y < side
            &&& i < rgba_image(g, style).len()
            &&& rgba_image(g, style)[i as int] == if g.dark[(row * g.width + col) as int] {
                style.foreground@[c as int]
            } else {
                style.background@[c as int]
            }
        }),
{
    let s = scale(style);
    let q = style.quiet_zone as nat;
    let w = g.width;
    let side = side_px(w, style);
    let x = (q + col) * s + dx;
    let y = (q + row) * s + dy;
    lemma_block_coordinate(q, col, s, dx, w);
    lemma_block_coordinate(q, row, s, dy, w);
    lemma_pixel_index(side as int, x as int, y as int, c as int);
    assert((y * side + x) * 4 + c < side * side * 4) by (nonlinear_arith)
        requires
            x < side,
            y < side,
            c < 4,
    ;
}

/// Pixel coordinate `(q + m) * s + d` lies in module `m` after the quiet zone,
/// and inside the image.
proof fn lemma_block_coordinate(q: nat, m: nat, s: nat, d: nat, w: nat)
    requires
        m < w,
        d < s,
    ensures
        (((q + m) * s + d) as int) / (s as int) - q == m,
        (q + m) * s + d < (w + 2 * q) * s,
{
    lemma_fundamental_div_mod_converse(((q + m) * s + d) as int, s as int, (q + m) as int, d as int);
    assert((q + m) * s + d < (w + 2 * q) * s) by (nonlinear_arith)
        requires
            m < w,
            d < s,
    ;
}

/// The quiet zone, and whatever lies outside the modules, is drawn in the
/// background colour.
pub proof fn law_quiet_zone(g: GridView, style: Style, x: nat, y: nat, c: nat)
    requires
        g.dark.len() == g.width * g.width,
        x < side_px(g.width, style),
        y < side_px(g.width, style),
        c < 4,
        x < style.quiet_zone * scale(style) || y < style.quiet_zone * scale(style) || x >= (
        style.quiet_zone + g.width) * scale(style) || y >= (style.quiet_zone + g.width) * scale(
            style,
        ),
    ensures
        rgba_image(g, style)[((y * side_px(g.width, style) + x) * 4 + c) as int]
            == style.background@[c as int],
{
    let s = scale(style);
    let q = style.quiet_zone as nat;
    let w = g.width;
    let side = side_px(w, style);
    lemma_pixel_index(side as int, x as int, y as int, c as int);
    assert((y * side + x) * 4 + c < side * side * 4) by (nonlinear_arith)
        requires
            x < side,
            y < side,
            c < 4,
    ;
    lemma_outside_modules(x, q, w, s);
    lemma_outside_modules(y, q, w, s);
}

/// A pixel coordinate before the modules falls before module 0, and one
/// after them falls after the last module.
proof fn lemma_outside_modules(x: nat, q: nat, w: nat, s: nat)
    requires
        s > 0,
    ensures
        x < q * s ==> (x as int) / (s as int) - q < 0,
        x >= (q + w) * s ==> (x as int) / (s as int) - q >= w,
{
    if x < q * s {
        vstd::arithmetic::div_mod::lemma_div_is_ordered(x as int, (q * s - 1) as int, s as int);
        assert((q - 1) * s + (s - 1) == q * s - 1) by (nonlinear_arith)
            requires
                q >= 1,
        ;
        lemma_fundamental_div_mod_converse((q * s - 1) as int, s as int, q - 1, s - 1);
    }
    if x >= (q + w) * s {
        vstd::arithmetic::div_mod::lemma_div_is_ordered(((q + w) * s) as int, x as int, s as int);
        lemma_fundamental_div_mod_converse(((q + w) * s) as int, s as int, (q + w) as int, 0);
    }
}

} // verus!

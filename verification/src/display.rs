use vstd::prelude::*;

verus! {

/// Width of the framebuffer, in pixels.
pub const WIDTH: usize = 64;

/// Height of the framebuffer, in pixels.
pub const HEIGHT: usize = 32;

/// Total number of pixels of the framebuffer.
pub const PIXELS: usize = 64 * 32;

/// Monochrome 64x32 framebuffer with a dirty flag. Pixels live in one
/// linear buffer of `WIDTH * HEIGHT` cells, row after row; a sprite byte
/// drawn at the right edge of a row therefore runs into the start of the
/// next row, and only cells past the end of the whole buffer are skipped.
pub struct Display {
    pixels: Vec<bool>,
    refresh: bool,
}

/// Mathematical image of a `Display`.
pub struct DisplayView {
    pub pixels: Seq<bool>,
    pub refresh: bool,
}

impl View for Display {
    type V = DisplayView;

    closed spec fn view(&self) -> DisplayView {
        DisplayView { pixels: self.pixels@, refresh: self.refresh }
    }
}

impl DisplayView {
    pub open spec fn wf(self) -> bool {
        self.pixels.len() == PIXELS
    }
}

/// The all-dark framebuffer contents.
pub open spec fn blank() -> Seq<bool> {
    Seq::new(PIXELS as nat, |j: int| false)
}

/// Bit `u` of a sprite byte, counting the most significant bit as `u == 0`:
/// the leftmost pixel of a sprite row comes from the high bit.
pub open spec fn sprite_bit(b: u8, u: int) -> bool {
    (b >> ((7 - u) as u8)) & 1 == 1
}

/// Whether the sprite byte `b`, drawn with its leftmost bit at column `x`
/// of row `yy`, sets the bit that lands on buffer cell `j`. Only the first
/// `u` bits of the byte are considered.
pub open spec fn row_hit_upto(x: int, yy: int, b: u8, j: int, u: int) -> bool {
    let base = x + 64 * yy;
    base <= j < base + u && sprite_bit(b, j - base)
}

/// Whether the full sprite byte `b`, drawn at column `x` of row `yy`, sets
/// the bit that lands on buffer cell `j`.
pub open spec fn row_hit(x: int, yy: int, b: u8, j: int) -> bool {
    row_hit_upto(x, yy, b, j, 8)
}

/// Whether one of the first `v` rows of the sprite sets the bit that lands
/// on buffer cell `j`.
pub open spec fn draw_hit_upto(x: int, y: int, sprite: Seq<u8>, j: int, v: int) -> bool {
    exists|w: int| 0 <= w < v && row_hit(x, y + w, sprite[w], j)
}

/// Whether the sprite, drawn at `(x, y)`, sets the bit that lands on buffer
/// cell `j`.
pub open spec fn draw_hit(x: int, y: int, sprite: Seq<u8>, j: int) -> bool {
    draw_hit_upto(x, y, sprite, j, sprite.len() as int)
}

/// The framebuffer after the sprite is drawn at `(x, y)`: every cell a
/// sprite bit lands on is flipped (the sprite is XORed in), every other
/// cell keeps its value. Distinct sprite bits land on distinct cells, so
/// the order of the flips does not matter.
pub open spec fn draw_pixels(p: Seq<bool>, x: int, y: int, sprite: Seq<u8>) -> Seq<bool> {
    Seq::new(p.len(), |j: int| p[j] != draw_hit(x, y, sprite, j))
}

/// The collision result of drawing the sprite at `(x, y)` on `p`: true
/// exactly when some lit cell is flipped off (a sprite bit lands on a cell
/// that already shows a pixel).
pub open spec fn draw_collision(p: Seq<bool>, x: int, y: int, sprite: Seq<u8>) -> bool {
    exists|j: int| 0 <= j < p.len() && p[j] && draw_hit(x, y, sprite, j)
}

/// Two different sprite rows never land a bit on the same buffer cell:
/// their 8-cell windows sit at least 64 cells apart.
proof fn lemma_rows_disjoint(x: int, y: int, sprite: Seq<u8>, j: int, v: int)
    requires
        0 <= v,
    ensures
        !(draw_hit_upto(x, y, sprite, j, v) && row_hit_upto(x, y + v, sprite[v], j, 8)),
{
    if draw_hit_upto(x, y, sprite, j, v) {
        let w = choose|w: int| 0 <= w < v && row_hit(x, y + w, sprite[w], j);
        assert(j < x + 64 * (y + w) + 8);
        assert(64 * (y + w) + 64 <= 64 * (y + v)) by (nonlinear_arith)
            requires w < v;
    }
}

/// Collision accumulated by a partial draw: the first `v` rows, plus the
/// first `u` bits of the byte `b` meant for row `y + v`, flip some lit cell
/// of `p`.
spec fn collision_upto(p: Seq<bool>, x: int, y: int, s: Seq<u8>, v: int, b: u8, u: int) -> bool {
    exists|j: int|
        0 <= j < p.len() && p[j] && (draw_hit_upto(x, y, s, j, v) || row_hit_upto(
            x,
            y + v,
            b,
            j,
            u,
        ))
}

/// One bit of one row extends the accumulated collision by exactly the cell
/// `idx` that bit `u` lands on.
proof fn lemma_collision_upto_step(
    p: Seq<bool>,
    x: int,
    y: int,
    s: Seq<u8>,
    v: int,
    b: u8,
    u: int,
    idx: int,
)
    requires
        0 <= v,
        0 <= u < 8,
        idx == x + 64 * (y + v) + u,
    ensures
        collision_upto(p, x, y, s, v, b, u + 1) == (collision_upto(p, x, y, s, v, b, u) || (0
            <= idx < p.len() && p[idx] && sprite_bit(b, u))),
{
    let base = x + 64 * (y + v);
    if collision_upto(p, x, y, s, v, b, u + 1) {
        let j = choose|j: int|
            0 <= j < p.len() && p[j] && (draw_hit_upto(x, y, s, j, v) || row_hit_upto(
                x,
                y + v,
                b,
                j,
                u + 1,
            ));
        if row_hit_upto(x, y + v, b, j, u + 1) && !row_hit_upto(x, y + v, b, j, u) {
            assert(j == idx);
        } else {
            assert(collision_upto(p, x, y, s, v, b, u));
        }
    }
    if collision_upto(p, x, y, s, v, b, u) {
        let j = choose|j: int|
            0 <= j < p.len() && p[j] && (draw_hit_upto(x, y, s, j, v) || row_hit_upto(
                x,
                y + v,
                b,
                j,
                u,
            ));
        assert(p[j] && (draw_hit_upto(x, y, s, j, v) || row_hit_upto(x, y + v, b, j, u + 1)));
    }
    if 0 <= idx < p.len() && p[idx] && sprite_bit(b, u) {
        assert(row_hit_upto(x, y + v, b, idx, u + 1));
        assert(p[idx] && (draw_hit_upto(x, y, s, idx, v) || row_hit_upto(x, y + v, b, idx, u + 1)));
    }
}

/// Splitting off the last row of a partial draw: the first `v + 1` rows hit
/// cell `j` exactly when the first `v` rows do or row `v` does.
proof fn lemma_hit_upto_step(x: int, y: int, sprite: Seq<u8>, j: int, v: int)
    requires
        0 <= v,
    ensures
        draw_hit_upto(x, y, sprite, j, v + 1) == (draw_hit_upto(x, y, sprite, j, v)
            || row_hit(x, y + v, sprite[v], j)),
{
    if draw_hit_upto(x, y, sprite, j, v + 1) {
        let w = choose|w: int| 0 <= w < v + 1 && row_hit(x, y + w, sprite[w], j);
        if w < v {
            assert(draw_hit_upto(x, y, sprite, j, v));
        }
    }
    if draw_hit_upto(x, y, sprite, j, v) {
        let w = choose|w: int| 0 <= w < v && row_hit(x, y + w, sprite[w], j);
        assert(0 <= w < v + 1 && row_hit(x, y + w, sprite[w], j));
    }
    if row_hit(x, y + v, sprite[v], j) {
        assert(0 <= v < v + 1 && row_hit(x, y + v, sprite[v], j));
    }
}

/// Collision accumulated by the first `v` full rows of the sprite.
spec fn collision_rows(p: Seq<bool>, x: int, y: int, s: Seq<u8>, v: int) -> bool {
    exists|j: int| 0 <= j < p.len() && p[j] && draw_hit_upto(x, y, s, j, v)
}

/// A finished row folds into the row count: the collision of `v` rows plus
/// all 8 bits of row `v` is the collision of `v + 1` rows.
proof fn lemma_collision_row_done(p: Seq<bool>, x: int, y: int, s: Seq<u8>, v: int)
    requires
        0 <= v,
    ensures
        collision_upto(p, x, y, s, v, s[v], 8) == collision_rows(p, x, y, s, v + 1),
{
    if collision_upto(p, x, y, s, v, s[v], 8) {
        let j = choose|j: int|
            0 <= j < p.len() && p[j] && (draw_hit_upto(x, y, s, j, v) || row_hit_upto(
                x,
                y + v,
                s[v],
                j,
                8,
            ));
        lemma_hit_upto_step(x, y, s, j, v);
        assert(p[j] && draw_hit_upto(x, y, s, j, v + 1));
    }
    if collision_rows(p, x, y, s, v + 1) {
        let j = choose|j: int| 0 <= j < p.len() && p[j] && draw_hit_upto(x, y, s, j, v + 1);
        lemma_hit_upto_step(x, y, s, j, v);
        assert(p[j] && (draw_hit_upto(x, y, s, j, v) || row_hit_upto(x, y + v, s[v], j, 8)));
    }
}

/// An empty row prefix adds nothing: the collision of `v` rows plus no bits
/// of the next byte is the collision of `v` rows alone.
proof fn lemma_collision_row_start(p: Seq<bool>, x: int, y: int, s: Seq<u8>, v: int, b: u8)
    ensures
        collision_upto(p, x, y, s, v, b, 0) == collision_rows(p, x, y, s, v),
{
    if collision_upto(p, x, y, s, v, b, 0) {
        let j = choose|j: int|
            0 <= j < p.len() && p[j] && (draw_hit_upto(x, y, s, j, v) || row_hit_upto(
                x,
                y + v,
                b,
                j,
                0,
            ));
        assert(p[j] && draw_hit_upto(x, y, s, j, v));
    }
    if collision_rows(p, x, y, s, v) {
        let j = choose|j: int| 0 <= j < p.len() && p[j] && draw_hit_upto(x, y, s, j, v);
        assert(p[j] && (draw_hit_upto(x, y, s, j, v) || row_hit_upto(x, y + v, b, j, 0)));
    }
}

impl Display {
    /// Create a new display: all pixels dark, an initial refresh pending.
    pub fn new() -> (d: Display)
        ensures
            d@.wf(),
            d@.pixels == blank(),
            d@.refresh == true,
    {
        let mut pixels: Vec<bool> = Vec::new();
        let mut k: usize = 0;
        while k < PIXELS
            invariant
                pixels@.len() == k,
                k <= PIXELS,
                forall|j: int| 0 <= j < k ==> pixels@[j] == false,
            decreases PIXELS - k,
        {
            pixels.push(false);
            k = k + 1;
        }
        proof {
            assert(pixels@ =~= blank());
        }
        Display { pixels, refresh: true }
    }

    /// Draw a sprite with its top-left corner at `(x, y)`: each sprite bit
    /// is XORed into the cell it lands on, and the collision result says
    /// whether some lit cell was turned off. Sets the dirty flag.
    pub fn draw(&mut self, x: u8, y: u8, sprite: &Vec<u8>) -> (carry: bool)
        requires
            old(self)@.wf(),
            sprite@.len() <= 15,
        ensures
            final(self)@.wf(),
            final(self)@.pixels == draw_pixels(old(self)@.pixels, x as int, y as int, sprite@),
            final(self)@.refresh == true,
            carry == draw_collision(old(self)@.pixels, x as int, y as int, sprite@),
    {
        let ghost p0 = self.pixels@;
        let ghost xg = x as int;
        let ghost yg = y as int;
        let xi = x as usize;
        let yi = y as usize;
        let mut carry = false;
        let mut v: usize = 0;
        while v < sprite.len()
            invariant
                self.pixels@.len() == PIXELS,
                sprite@.len() <= 15,
                v <= sprite@.len(),
                xi == xg,
                yi == yg,
                xi <= 255,
                yi <= 255,
                p0.len() == PIXELS,
                forall|j: int|
                    0 <= j < PIXELS ==> self.pixels@[j] == (p0[j] != draw_hit_upto(
                        xg,
                        yg,
                        sprite@,
                        j,
                        v as int,
                    )),
                carry == collision_rows(p0, xg, yg, sprite@, v as int),
            decreases sprite@.len() - v,
        {
            let b = sprite[v];
            let ghost vg = v as int;
            let ghost base = xg + 64 * (yg + vg);
            proof {
                lemma_collision_row_start(p0, xg, yg, sprite@, vg, b);
            }
            let mut u: usize = 0;
            while u < 8
                invariant
                    self.pixels@.len() == PIXELS,
                    sprite@.len() <= 15,
                    v < sprite@.len(),
                    v == vg,
                    u <= 8,
                    b == sprite@[vg],
                    xi == xg,
                    yi == yg,
                    xi <= 255,
                    yi <= 255,
                    base == xg + 64 * (yg + vg),
                    p0.len() == PIXELS,
                    forall|j: int|
                        0 <= j < PIXELS ==> self.pixels@[j] == (p0[j] != (draw_hit_upto(
                            xg,
                            yg,
                            sprite@,
                            j,
                            vg,
                        ) || row_hit_upto(xg, yg + vg, b, j, u as int))),
                    carry == collision_upto(p0, xg, yg, sprite@, vg, b, u as int),
                decreases 8 - u,
            {
                let idx = xi + u + 64 * (yi + v);
                proof {
                    assert(idx == base + u);
                    lemma_collision_upto_step(p0, xg, yg, sprite@, vg, b, u as int, idx as int);
                    lemma_rows_disjoint(xg, yg, sprite@, idx as int, vg);
                }
                if idx < PIXELS {
                    let sh: u8 = (7 - u) as u8;
                    let bit = (b >> sh) & 1 == 1;
                    proof {
                        assert(bit == sprite_bit(b, u as int));
                    }
                    if bit {
                        let cur = self.pixels[idx];
                        proof {
                            assert(!row_hit_upto(xg, yg + vg, b, idx as int, u as int));
                            assert(cur == p0[idx as int]);
                        }
                        if cur {
                            carry = true;
                        }
                        self.pixels[idx] = !cur;
                    }
                }
                proof {
                    assert forall|j: int| 0 <= j < PIXELS && j != idx implies #[trigger] row_hit_upto(
                        xg,
                        yg + vg,
                        b,
                        j,
                        u as int + 1,
                    ) == row_hit_upto(xg, yg + vg, b, j, u as int) by {}
                }
                u = u + 1;
            }
            proof {
                lemma_collision_row_done(p0, xg, yg, sprite@, vg);
                assert forall|j: int| 0 <= j < PIXELS implies (draw_hit_upto(
                    xg,
                    yg,
                    sprite@,
                    j,
                    vg,
                ) || row_hit_upto(xg, yg + vg, b, j, 8)) == draw_hit_upto(
                    xg,
                    yg,
                    sprite@,
                    j,
                    vg + 1,
                ) by {
                    lemma_hit_upto_step(xg, yg, sprite@, j, vg);
                }
            }
            v = v + 1;
        }
        self.refresh = true;
        proof {
            assert(self.pixels@ =~= draw_pixels(p0, xg, yg, sprite@));
            if carry {
                let j = choose|j: int|
                    0 <= j < p0.len() && p0[j] && draw_hit_upto(xg, yg, sprite@, j, sprite@.len() as int);
                assert(p0[j] && draw_hit(xg, yg, sprite@, j));
            }
            if draw_collision(p0, xg, yg, sprite@) {
                let j = choose|j: int| 0 <= j < p0.len() && p0[j] && draw_hit(xg, yg, sprite@, j);
                assert(p0[j] && draw_hit_upto(xg, yg, sprite@, j, sprite@.len() as int));
            }
        }
        carry
    }

    /// Clear the display: every pixel dark, dirty flag set.
    pub fn clear(&mut self)
        requires
            old(self)@.wf(),
        ensures
            final(self)@.wf(),
            final(self)@.pixels == blank(),
            final(self)@.refresh == true,
    {
        let mut k: usize = 0;
        while k < PIXELS
            invariant
                self.pixels@.len() == PIXELS,
                k <= PIXELS,
                forall|j: int| 0 <= j < k ==> self.pixels@[j] == false,
            decreases PIXELS - k,
        {
            self.pixels[k] = false;
            k = k + 1;
        }
        self.refresh = true;
        proof {
            assert(self.pixels@ =~= blank());
        }
    }

    /// Read one cell of the framebuffer.
    pub fn pixel(&self, idx: usize) -> (r: bool)
        requires
            self@.wf(),
            idx < PIXELS,
        ensures
            r == self@.pixels[idx as int],
    {
        self.pixels[idx]
    }

    /// Consume the dirty flag: report whether a refresh is due and clear
    /// the flag, so that the next frame redraws only after a new change.
    pub fn take_refresh(&mut self) -> (r: bool)
        ensures
            r == old(self)@.refresh,
            final(self)@.refresh == false,
            final(self)@.pixels == old(self)@.pixels,
    {
        let r = self.refresh;
        self.refresh = false;
        r
    }
}

/// The column and row a linear buffer index denotes.
pub fn cell_position(idx: usize) -> (pos: (usize, usize))
    requires
        idx < PIXELS,
    ensures
        pos.0 == idx % WIDTH,
        pos.1 == idx / WIDTH,
        pos.0 < WIDTH,
        pos.1 < HEIGHT,
{
    (idx % WIDTH, idx / WIDTH)
}

/// Drawing the same sprite twice at the same location with no clear in
/// between restores every pixel to its value before the first draw: the
/// XOR blit is self-inverse.
pub proof fn lemma_draw_twice_restores(p: Seq<bool>, x: int, y: int, sprite: Seq<u8>)
    ensures
        draw_pixels(draw_pixels(p, x, y, sprite), x, y, sprite) == p,
{
    let q = draw_pixels(p, x, y, sprite);
    assert(draw_pixels(q, x, y, sprite) =~= p);
}

/// The second of two identical draws reports a collision exactly when the
/// first draw set some pixel that was dark before it.
pub proof fn lemma_second_draw_collision(p: Seq<bool>, x: int, y: int, sprite: Seq<u8>)
    ensures
        draw_collision(draw_pixels(p, x, y, sprite), x, y, sprite) == exists|j: int|
            0 <= j < p.len() && !p[j] && #[trigger] draw_hit(x, y, sprite, j),
{
    let q = draw_pixels(p, x, y, sprite);
    if draw_collision(q, x, y, sprite) {
        let j = choose|j: int| 0 <= j < q.len() && q[j] && draw_hit(x, y, sprite, j);
        assert(!p[j] && draw_hit(x, y, sprite, j));
    }
    if exists|j: int| 0 <= j < p.len() && !p[j] && #[trigger] draw_hit(x, y, sprite, j) {
        let j = choose|j: int| 0 <= j < p.len() && !p[j] && #[trigger] draw_hit(x, y, sprite, j);
        assert(0 <= j < q.len() && q[j] && draw_hit(x, y, sprite, j));
    }
}

} // verus!

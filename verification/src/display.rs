use vstd::prelude::*;

use vstd::arithmetic::div_mod::{
    lemma_add_mod_noop_right, lemma_fundamental_div_mod, lemma_fundamental_div_mod_converse,
    lemma_mod_equivalence, lemma_small_mod, lemma_sub_mod_noop, lemma_sub_mod_noop_right,
};

verus! {

pub const SCREEN_WIDTH: usize = 64;

pub const SCREEN_HEIGHT: usize = 32;

pub const SCREEN_PIXELS: usize = 2048;

pub const PIXEL_SIZE: usize = 20;

/// The 64x32 monochrome bit grid. Row `sy` occupies positions
/// `sy * 64 .. sy * 64 + 64`, leftmost column first. Sprites are drawn by
/// XOR and wrap around both edges.
pub struct Display {
    pub pixels: [bool; 2048],
}

/// Bit `j` of a sprite byte, counted from the left (bit 0 is the leftmost,
/// most significant bit).
pub open spec fn bit_of(b: u8, j: int) -> bool {
    (b >> ((7 - j) as u8)) & 1 == 1
}

/// The grid position of column offset `j` of a sprite row drawn at `(x, yy)`,
/// wrapping both coordinates.
pub open spec fn row_pos(x: int, yy: int, j: int) -> int {
    (yy % 32) * 64 + (x + j) % 64
}

/// Whether position `p` is flipped by one of the leftmost `j` bits of a
/// sprite row drawn at `(x, yy)`.
pub open spec fn row_bit_upto(b: u8, x: int, yy: int, p: int, j: int) -> bool {
    &&& p / 64 == yy % 32
    &&& (p % 64 - x) % 64 < j
    &&& bit_of(b, (p % 64 - x) % 64)
}

/// Whether position `p` is flipped by a sprite row drawn at `(x, yy)`.
pub open spec fn row_bit(b: u8, x: int, yy: int, p: int) -> bool {
    row_bit_upto(b, x, yy, p, 8)
}

/// The grid after one sprite row is XOR-drawn at `(x, yy)`.
pub open spec fn row_apply(g: Seq<bool>, b: u8, x: int, yy: int) -> Seq<bool> {
    Seq::new(g.len(), |p: int| g[p] != row_bit(b, x, yy, p))
}

/// Whether a sprite row drawn at `(x, yy)` clears some set pixel of `g`: a
/// set sprite bit lands on a set pixel, which XOR then turns off.
pub open spec fn row_collides(g: Seq<bool>, b: u8, x: int, yy: int) -> bool {
    exists|j: int| 0 <= j < 8 && bit_of(b, j) && g[row_pos(x, yy, j)]
}

/// The grid after a whole sprite is XOR-drawn row by row at `(x, y)`.
pub open spec fn blit_grid(g: Seq<bool>, bytes: Seq<u8>, x: int, y: int) -> Seq<bool>
    decreases bytes.len(),
{
    if bytes.len() == 0 {
        g
    } else {
        blit_grid(row_apply(g, bytes[0], x, y), bytes.drop_first(), x, y + 1)
    }
}

/// Whether drawing a whole sprite at `(x, y)` clears some pixel that was set
/// when its row was drawn.
pub open spec fn blit_collides(g: Seq<bool>, bytes: Seq<u8>, x: int, y: int) -> bool
    decreases bytes.len(),
{
    if bytes.len() == 0 {
        false
    } else {
        row_collides(g, bytes[0], x, y) || blit_collides(
            row_apply(g, bytes[0], x, y),
            bytes.drop_first(),
            x,
            y + 1,
        )
    }
}

/// Whether position `p` is flipped by the sprite as a whole: the XOR of its
/// rows' contributions.
pub open spec fn sprite_mask(bytes: Seq<u8>, x: int, y: int, p: int) -> bool
    decreases bytes.len(),
{
    if bytes.len() == 0 {
        false
    } else {
        row_bit(bytes[0], x, y, p) != sprite_mask(bytes.drop_first(), x, y + 1, p)
    }
}

/// The column offset within a wrapped sprite row is recovered from the
/// column it landed on.
proof fn lemma_col_offset(x: int, j: int)
    requires
        0 <= x,
        0 <= j < 8,
    ensures
        ((x + j) % 64 - x) % 64 == j,
{
    lemma_sub_mod_noop_right((x + j) % 64, x, 64);
    lemma_sub_mod_noop(x + j, x, 64);
    lemma_small_mod(j as nat, 64);
}

/// A column equals its own offset re-applied to the sprite's x coordinate.
proof fn lemma_col_inverse(x: int, c: int)
    requires
        0 <= x,
        0 <= c < 64,
    ensures
        (x + (c - x) % 64) % 64 == c,
{
    lemma_add_mod_noop_right(x, c - x, 64);
    lemma_small_mod(c as nat, 64);
}

/// Appending one row to a sprite draws that row onto the grid the earlier
/// rows produced, and collides exactly when the earlier rows collided or the
/// new row does.
proof fn lemma_blit_push(g: Seq<bool>, bytes: Seq<u8>, b: u8, x: int, y: int)
    ensures
        blit_grid(g, bytes.push(b), x, y) == row_apply(
            blit_grid(g, bytes, x, y),
            b,
            x,
            y + bytes.len(),
        ),
        blit_collides(g, bytes.push(b), x, y) == (blit_collides(g, bytes, x, y) || row_collides(
            blit_grid(g, bytes, x, y),
            b,
            x,
            y + bytes.len(),
        )),
    decreases bytes.len(),
{
    if bytes.len() == 0 {
        assert(bytes.push(b)[0] == b);
        assert(bytes.push(b).drop_first() =~= Seq::<u8>::empty());
        assert(blit_grid(g, bytes.push(b), x, y) == blit_grid(
            row_apply(g, b, x, y),
            Seq::<u8>::empty(),
            x,
            y + 1,
        ));
        assert(blit_grid(row_apply(g, b, x, y), Seq::<u8>::empty(), x, y + 1) == row_apply(
            g,
            b,
            x,
            y,
        ));
        assert(blit_collides(row_apply(g, b, x, y), Seq::<u8>::empty(), x, y + 1) == false);
        assert(blit_grid(g, bytes, x, y) == g);
        assert(blit_collides(g, bytes, x, y) == false);
    } else {
        assert(bytes.push(b)[0] == bytes[0]);
        assert(bytes.push(b).drop_first() =~= bytes.drop_first().push(b));
        let g1 = row_apply(g, bytes[0], x, y);
        lemma_blit_push(g1, bytes.drop_first(), b, x, y + 1);
        assert(blit_grid(g, bytes.push(b), x, y) == blit_grid(
            g1,
            bytes.drop_first().push(b),
            x,
            y + 1,
        ));
        assert(blit_grid(g, bytes, x, y) == blit_grid(g1, bytes.drop_first(), x, y + 1));
        assert(blit_collides(g, bytes, x, y) == (row_collides(g, bytes[0], x, y)
            || blit_collides(g1, bytes.drop_first(), x, y + 1)));
        assert(blit_collides(g, bytes.push(b), x, y) == (row_collides(g, bytes[0], x, y)
            || blit_collides(g1, bytes.drop_first().push(b), x, y + 1)));
        assert(y + 1 + bytes.drop_first().len() == y + bytes.len());
    }
}

/// Pointwise reading of a blit: the grid keeps its length and each position
/// is the XOR of its old value with the sprite's mask there.
proof fn lemma_blit_pointwise(g: Seq<bool>, bytes: Seq<u8>, x: int, y: int)
    ensures
        blit_grid(g, bytes, x, y).len() == g.len(),
        forall|p: int|
            0 <= p < g.len() ==> blit_grid(g, bytes, x, y)[p] == (g[p] != sprite_mask(
                bytes,
                x,
                y,
                p,
            )),
    decreases bytes.len(),
{
    if bytes.len() > 0 {
        let g1 = row_apply(g, bytes[0], x, y);
        lemma_blit_pointwise(g1, bytes.drop_first(), x, y + 1);
        assert(blit_grid(g, bytes, x, y) == blit_grid(g1, bytes.drop_first(), x, y + 1));
        assert forall|p: int| 0 <= p < g.len() implies blit_grid(g, bytes, x, y)[p] == (g[p]
            != sprite_mask(bytes, x, y, p)) by {
            assert(g1[p] == (g[p] != row_bit(bytes[0], x, y, p)));
            assert(blit_grid(g1, bytes.drop_first(), x, y + 1)[p] == (g1[p] != sprite_mask(
                bytes.drop_first(),
                x,
                y + 1,
                p,
            )));
            assert(sprite_mask(bytes, x, y, p) == (row_bit(bytes[0], x, y, p) != sprite_mask(
                bytes.drop_first(),
                x,
                y + 1,
                p,
            )));
        }
    }
}

/// Whether grid position `p` lies in the screen row that sprite row `r` of a
/// sprite drawn at vertical coordinate `y` lands on.
pub open spec fn touches_row(y: int, r: int, p: int) -> bool {
    p / 64 == (y + r) % 32
}

/// A sprite's mask can flip a position only in a row the sprite touches.
proof fn lemma_mask_needs_row(bytes: Seq<u8>, x: int, y: int, p: int)
    requires
        sprite_mask(bytes, x, y, p),
    ensures
        exists|r: int| 0 <= r < bytes.len() && #[trigger] touches_row(y, r, p),
    decreases bytes.len(),
{
    if bytes.len() > 0 {
        if row_bit(bytes[0], x, y, p) {
            assert(touches_row(y, 0, p));
        } else {
            lemma_mask_needs_row(bytes.drop_first(), x, y + 1, p);
            let r = choose|r: int|
                0 <= r < bytes.drop_first().len() && #[trigger] touches_row(y + 1, r, p);
            assert(touches_row(y, r + 1, p));
        }
    }
}

/// Two of a sprite's rows land on the same grid row only if they are the same
/// row, as long as the sprite has at most 32 rows.
proof fn lemma_rows_distinct(y: int, d: int)
    requires
        0 < d < 32,
    ensures
        (y + d) % 32 != y % 32,
{
    lemma_mod_equivalence(y + d, y, 32);
    lemma_small_mod(d as nat, 32);
}

/// For a sprite of at most 32 rows, a collision during the blit is the same
/// as some set sprite bit landing on a pixel that was already set before the
/// whole blit: with so few rows no position is flipped twice.
proof fn lemma_collides_pointwise(g: Seq<bool>, bytes: Seq<u8>, x: int, y: int)
    requires
        g.len() == 2048,
        0 <= x,
        0 <= y,
        bytes.len() <= 32,
    ensures
        blit_collides(g, bytes, x, y) == exists|p: int|
            0 <= p < 2048 && #[trigger] sprite_mask(bytes, x, y, p) && g[p],
    decreases bytes.len(),
{
    if bytes.len() == 0 {
        assert(forall|p: int| !sprite_mask(bytes, x, y, p));
    } else {
        let b = bytes[0];
        let g1 = row_apply(g, b, x, y);
        lemma_collides_pointwise(g1, bytes.drop_first(), x, y + 1);

        // Positions flipped by the remaining rows lie outside the first row,
        // so there the applied grid and the original agree and the first
        // row's bit contributes nothing to the mask.
        assert forall|p: int|
            0 <= p < 2048 && #[trigger] sprite_mask(bytes.drop_first(), x, y + 1, p) implies !row_bit(
            b,
            x,
            y,
            p,
        ) && g1[p] == g[p] && sprite_mask(bytes, x, y, p) == sprite_mask(
            bytes.drop_first(),
            x,
            y + 1,
            p,
        ) by {
            lemma_mask_needs_row(bytes.drop_first(), x, y + 1, p);
            let r = choose|r: int|
                0 <= r < bytes.drop_first().len() && #[trigger] touches_row(y + 1, r, p);
            lemma_rows_distinct(y, r + 1);
            assert(p / 64 != y % 32);
        }

        // The first row collides exactly when some position of the first
        // grid row carries a set sprite bit over a set pixel.
        assert forall|j: int| 0 <= j < 8 && bit_of(b, j) && g[row_pos(x, y, j)] implies {
            let p = row_pos(x, y, j);
            &&& 0 <= p < 2048
            &&& row_bit(b, x, y, p)
            &&& g[p]
        } by {
            let p = row_pos(x, y, j);
            lemma_mod_bounds_32_64(x, y, j);
            lemma_fundamental_div_mod_converse(p, 64, y % 32, (x + j) % 64);
            lemma_col_offset(x, j);
        }
        assert forall|p: int| 0 <= p < 2048 && #[trigger] row_bit(b, x, y, p) implies {
            let j = (p % 64 - x) % 64;
            &&& 0 <= j < 8
            &&& bit_of(b, j)
            &&& row_pos(x, y, j) == p
        } by {
            lemma_fundamental_div_mod(p, 64);
            lemma_mod_bounds_of(p);
            lemma_col_inverse(x, p % 64);
        }

        // A position in the first grid row gets no mask from the remaining
        // rows, so there the whole mask is the first row's bit.
        assert forall|p: int|
            0 <= p < 2048 && p / 64 == y % 32 implies sprite_mask(bytes, x, y, p) == row_bit(
            b,
            x,
            y,
            p,
        ) by {
            if sprite_mask(bytes.drop_first(), x, y + 1, p) {
                lemma_mask_needs_row(bytes.drop_first(), x, y + 1, p);
                let r = choose|r: int|
                    0 <= r < bytes.drop_first().len() && #[trigger] touches_row(y + 1, r, p);
                lemma_rows_distinct(y, r + 1);
            }
        }

        assert(blit_collides(g, bytes, x, y) == (row_collides(g, b, x, y) || blit_collides(
            g1,
            bytes.drop_first(),
            x,
            y + 1,
        )));
        if blit_collides(g, bytes, x, y) {
            if row_collides(g, b, x, y) {
                let j = choose|j: int| 0 <= j < 8 && bit_of(b, j) && g[row_pos(x, y, j)];
                let p = row_pos(x, y, j);
                lemma_mod_bounds_32_64(x, y, j);
                lemma_fundamental_div_mod_converse(p, 64, y % 32, (x + j) % 64);
                lemma_col_offset(x, j);
                assert(sprite_mask(bytes, x, y, p) && g[p]);
            } else {
                let p = choose|p: int|
                    0 <= p < 2048 && #[trigger] sprite_mask(bytes.drop_first(), x, y + 1, p)
                        && g1[p];
                assert(sprite_mask(bytes, x, y, p) && g[p]);
            }
        }
        if exists|p: int| 0 <= p < 2048 && #[trigger] sprite_mask(bytes, x, y, p) && g[p] {
            let p = choose|p: int| 0 <= p < 2048 && #[trigger] sprite_mask(bytes, x, y, p) && g[p];
            if p / 64 == y % 32 {
                assert(row_bit(b, x, y, p));
                assert(bit_of(b, (p % 64 - x) % 64) && g[row_pos(x, y, (p % 64 - x) % 64)]);
                assert(row_collides(g, b, x, y));
            } else {
                assert(!row_bit(b, x, y, p));
                assert(sprite_mask(bytes.drop_first(), x, y + 1, p));
                assert(g1[p] == g[p]);
                assert(blit_collides(g1, bytes.drop_first(), x, y + 1));
            }
        }
    }
}

/// Row and column bounds of a decomposed position.
proof fn lemma_mod_bounds_of(p: int)
    requires
        0 <= p < 2048,
    ensures
        0 <= p % 64 < 64,
        0 <= p / 64 < 32,
{
    lemma_fundamental_div_mod(p, 64);
}

/// Bounds of the wrapped coordinates of a sprite bit.
proof fn lemma_mod_bounds_32_64(x: int, y: int, j: int)
    requires
        0 <= x,
        0 <= y,
    ensures
        0 <= y % 32 < 32,
        0 <= (x + j) % 64 < 64,
        0 <= row_pos(x, y, j) < 2048,
{
}

/// Drawing the same sprite twice at the same coordinates restores the grid
/// exactly — XOR blitting is an involution — and the second draw reports a
/// collision precisely when the first draw set at least one pixel. A CHIP-8
/// sprite has at most 15 rows, well under the 32 this lemma allows.
pub proof fn lemma_blit_twice(g: Seq<bool>, bytes: Seq<u8>, x: int, y: int)
    requires
        g.len() == 2048,
        0 <= x,
        0 <= y,
        bytes.len() <= 32,
    ensures
        blit_grid(blit_grid(g, bytes, x, y), bytes, x, y) == g,
        blit_collides(blit_grid(g, bytes, x, y), bytes, x, y) <==> exists|p: int|
            0 <= p < 2048 && !g[p] && #[trigger] blit_grid(g, bytes, x, y)[p],
{
    let g1 = blit_grid(g, bytes, x, y);
    lemma_blit_pointwise(g, bytes, x, y);
    lemma_blit_pointwise(g1, bytes, x, y);
    assert(blit_grid(g1, bytes, x, y) =~= g);
    lemma_collides_pointwise(g1, bytes, x, y);
    assert forall|p: int| 0 <= p < 2048 implies (#[trigger] sprite_mask(bytes, x, y, p) && g1[p])
        == (!g[p] && g1[p]) by {}
}

impl Display {
    /// A blank display.
    pub fn new() -> (d: Display)
        ensures
            forall|p: int| 0 <= p < 2048 ==> !d.pixels@[p],
    {
        Display { pixels: [false; 2048] }
    }

    /// XOR-draw the sprite rows `bytes` at wrapped coordinates `(x, y)`.
    /// Returns 1 exactly when the draw cleared some pixel that was set — a
    /// collision — and 0 otherwise.
    pub fn write_bytes(&mut self, bytes: Vec<u8>, x: usize, y: usize) -> (rv: u8)
        requires
            x + 8 <= usize::MAX,
            y + bytes@.len() <= usize::MAX,
        ensures
            final(self).pixels@ == blit_grid(old(self).pixels@, bytes@, x as int, y as int),
            rv == (if blit_collides(old(self).pixels@, bytes@, x as int, y as int) {
                1u8
            } else {
                0u8
            }),
    {
        let ghost g0 = self.pixels@;
        let mut rv: u8 = 0;
        let mut r: usize = 0;
        while r < bytes.len()
            invariant
                r <= bytes@.len(),
                x + 8 <= usize::MAX,
                y + bytes@.len() <= usize::MAX,
                g0.len() == 2048,
                self.pixels@ == blit_grid(g0, bytes@.take(r as int), x as int, y as int),
                rv == (if blit_collides(g0, bytes@.take(r as int), x as int, y as int) {
                    1u8
                } else {
                    0u8
                }),
            decreases bytes@.len() - r,
        {
            let byte = bytes[r];
            let sy = (r + y) % 32;
            let ghost gr = self.pixels@;
            let ghost yy = y as int + r as int;
            proof {
                lemma_blit_pointwise(g0, bytes@.take(r as int), x as int, y as int);
                assert(sy == yy % 32);
            }
            let mut row_hit: bool = false;
            let mut j: usize = 0;
            while j < 8
                invariant
                    j <= 8,
                    x + 8 <= usize::MAX,
                    sy == yy % 32,
                    sy < 32,
                    0 <= yy,
                    gr.len() == 2048,
                    self.pixels@.len() == 2048,
                    forall|p: int|
                        0 <= p < 2048 ==> self.pixels@[p] == (gr[p] != row_bit_upto(
                            byte,
                            x as int,
                            yy,
                            p,
                            j as int,
                        )),
                    row_hit == exists|jj: int|
                        0 <= jj < j && #[trigger] bit_of(byte, jj) && gr[row_pos(
                            x as int,
                            yy,
                            jj,
                        )],
                decreases 8 - j,
            {
                let sx = (x + j) % 64;
                let offset = sy * 64 + sx;
                proof {
                    lemma_fundamental_div_mod_converse(
                        offset as int,
                        64,
                        sy as int,
                        sx as int,
                    );
                    lemma_col_offset(x as int, j as int);
                    assert(row_pos(x as int, yy, j as int) == offset);
                }
                let dot = self.pixels[offset];
                let dot_set = (byte >> ((7 - j) as u8)) & 1;
                let new_dot = dot != (dot_set == 1);
                self.pixels[offset] = new_dot;
                if dot && !new_dot {
                    row_hit = true;
                }
                proof {
                    let xi = x as int;
                    let ji = j as int;
                    let po = offset as int;
                    assert((po % 64 - xi) % 64 == ji);
                    assert(!row_bit_upto(byte, xi, yy, po, ji));
                    assert(dot == gr[po]);
                    assert((dot_set == 1) == bit_of(byte, ji));
                    assert forall|p: int| 0 <= p < 2048 implies self.pixels@[p] == (gr[p]
                        != row_bit_upto(byte, xi, yy, p, ji + 1)) by {
                        if p == po {
                            assert(row_bit_upto(byte, xi, yy, po, ji + 1) == bit_of(byte, ji));
                        } else {
                            if p / 64 == yy % 32 && (p % 64 - xi) % 64 == ji {
                                lemma_fundamental_div_mod(p, 64);
                                lemma_mod_bounds_of(p);
                                lemma_col_inverse(xi, p % 64);
                                assert(p % 64 == sx as int);
                                assert(p == po);
                            }
                            assert(row_bit_upto(byte, xi, yy, p, ji + 1) == row_bit_upto(
                                byte,
                                xi,
                                yy,
                                p,
                                ji,
                            ));
                        }
                    }
                    if dot && !new_dot {
                        assert(bit_of(byte, ji) && gr[row_pos(xi, yy, ji)]);
                    }
                }
                j = j + 1;
            }
            if row_hit {
                rv = 1;
            }
            proof {
                let xi = x as int;
                let yi = y as int;
                let taken = bytes@.take(r as int);
                assert(bytes@.take(r as int + 1) =~= taken.push(bytes@[r as int]));
                lemma_blit_push(g0, taken, byte, xi, yi);
                assert(yi + taken.len() == yy);
                assert(self.pixels@ =~= row_apply(gr, byte, xi, yy));
                assert(row_hit == row_collides(gr, byte, xi, yy));
            }
            r = r + 1;
        }
        proof {
            assert(bytes@.take(bytes@.len() as int) =~= bytes@);
        }
        rv
    }

    /// The sprite byte as eight 0/1 digits, leftmost bit first.
    pub fn byte_to_digits(&self, byte: u8) -> (r: [u8; 8])
        ensures
            forall|i: int|
                0 <= i < 8 ==> r@[i] == (if bit_of(byte, i) {
                    1u8
                } else {
                    0u8
                }),
    {
        let mut out: [u8; 8] = [0; 8];
        let mut i: usize = 0;
        while i < 8
            invariant
                i <= 8,
                out@.len() == 8,
                forall|k: int|
                    0 <= k < i ==> out@[k] == (if bit_of(byte, k) {
                        1u8
                    } else {
                        0u8
                    }),
            decreases 8 - i,
        {
            let d = (byte >> ((7 - i) as u8)) & 1;
            proof {
                let sh = (7 - i) as u8;
                assert((byte >> sh) & 1 == 0 || (byte >> sh) & 1 == 1) by (bit_vector);
            }
            out[i] = d;
            i = i + 1;
        }
        out
    }

    /// The filled rectangles of the lit pixels, in grid order.
    pub fn draw(&self) -> (r: Vec<Pixel>)
        ensures
            r@ == lit_pixels(self.pixels@, 2048),
    {
        let mut out: Vec<Pixel> = Vec::new();
        let mut idx: usize = 0;
        while idx < 2048
            invariant
                idx <= 2048,
                out@ == lit_pixels(self.pixels@, idx as int),
            decreases 2048 - idx,
        {
            if self.pixels[idx] {
                let x = idx - (idx / 64 * 64);
                let y = idx / 64;
                proof {
                    lemma_fundamental_div_mod(idx as int, 64);
                    lemma_mod_bounds_of(idx as int);
                }
                out.push(Pixel::new(x, y));
            }
            idx = idx + 1;
        }
        out
    }

    /// Turn every pixel off.
    pub fn clear(&mut self)
        ensures
            final(self).pixels@.len() == 2048,
            forall|p: int| 0 <= p < 2048 ==> !final(self).pixels@[p],
    {
        self.pixels = [false; 2048];
    }
}

/// A screen rectangle covering one lit grid pixel, in window coordinates.
pub struct Pixel {
    pub x: usize,
    pub y: usize,
    pub w: usize,
    pub h: usize,
}

/// The rectangle of grid position `idx`.
pub open spec fn pixel_at(idx: int) -> Pixel {
    Pixel { x: ((idx % 64) * 20) as usize, y: ((idx / 64) * 20) as usize, w: 20, h: 20 }
}

/// The rectangles of the lit pixels among grid positions below `n`.
pub open spec fn lit_pixels(g: Seq<bool>, n: int) -> Seq<Pixel>
    decreases n,
{
    if n <= 0 {
        Seq::empty()
    } else if g[n - 1] {
        lit_pixels(g, n - 1).push(pixel_at(n - 1))
    } else {
        lit_pixels(g, n - 1)
    }
}

impl Pixel {
    /// The rectangle of the grid pixel at column `x`, row `y`.
    pub fn new(x: usize, y: usize) -> (p: Pixel)
        requires
            x < 64,
            y < 32,
        ensures
            p == (Pixel { x: (x * 20) as usize, y: (y * 20) as usize, w: 20usize, h: 20usize }),
    {
        Pixel { x: x * PIXEL_SIZE, y: y * PIXEL_SIZE, w: PIXEL_SIZE, h: PIXEL_SIZE }
    }
}

/// Eight consecutive pixels of the grid as 0/1 digits, starting at column `x`
/// of row `y`, without wrapping.
pub fn get_sub_arr(arr: &[bool; 2048], x: usize, y: usize) -> (r: [u8; 8])
    requires
        x + y * 64 + 8 <= 2048,
    ensures
        forall|i: int|
            0 <= i < 8 ==> r@[i] == (if arr@[x + y * 64 + i] {
                1u8
            } else {
                0u8
            }),
{
    let start = x + y * 64;
    let mut list: [u8; 8] = [0; 8];
    let mut i: usize = 0;
    while i < 8
        invariant
            i <= 8,
            start == x + y * 64,
            start + 8 <= 2048,
            list@.len() == 8,
            forall|k: int|
                0 <= k < i ==> list@[k] == (if arr@[start + k] {
                    1u8
                } else {
                    0u8
                }),
            forall|k: int| i <= k < 8 ==> list@[k] == 0u8,
        decreases 8 - i,
    {
        if arr[i + start] {
            list[i] = 1;
        }
        i = i + 1;
    }
    list
}

} // verus!

use vstd::prelude::*;

verus! {

/// Width of the framebuffer in pixels.
pub const WIDTH: usize = 64;

/// Height of the framebuffer in pixels.
pub const HEIGHT: usize = 32;

/// Number of pixels in the framebuffer.
pub const PIXELS: usize = 2048;

/// The 64x32 monochrome framebuffer, row-major, one byte per pixel holding 0
/// (off) or 1 (on).
pub struct Display {
    gfx: [u8; 2048],
}

/// The framebuffer with every pixel off.
pub open spec fn blank() -> Seq<u8> {
    Seq::new(PIXELS as nat, |c: int| 0u8)
}

/// Bit `t` of a sprite row, counted from the most significant bit.
pub open spec fn sprite_bit(b: u8, t: int) -> u8 {
    (b >> ((7 - t) as u8)) & 1
}

/// The framebuffer cell that column `t` of sprite row `i` lands on when the
/// sprite is drawn at `(x, y)`: both coordinates wrap around the screen.
pub open spec fn cell(x: u8, y: u8, i: int, t: int) -> int {
    ((y as int % 32 + i) % 32) * 64 + (x as int % 64 + t) % 64
}

/// Column offset of cell `c` within a sprite row that starts at column `x`.
pub open spec fn offset_in_row(x: u8, c: int) -> int {
    (c % 64 - x as int % 64 + 64) % 64
}

/// `g` after XOR-ing the first `n` bits of sprite row `i`, holding `b`, onto it.
pub open spec fn xor_row_prefix(g: Seq<u8>, x: u8, y: u8, i: int, b: u8, n: int) -> Seq<u8> {
    Seq::new(
        g.len(),
        |c: int|
            if c / 64 == (y as int % 32 + i) % 32 && offset_in_row(x, c) < n {
                g[c] ^ sprite_bit(b, offset_in_row(x, c))
            } else {
                g[c]
            },
    )
}

/// `g` after XOR-ing sprite row `i`, holding `b`, onto it.
pub open spec fn xor_row(g: Seq<u8>, x: u8, y: u8, i: int, b: u8) -> Seq<u8> {
    xor_row_prefix(g, x, y, i, b, 8)
}

/// Whether some of the first `n` bits of sprite row `i` is set where `g`
/// already has its pixel on.
pub open spec fn row_prefix_collides(g: Seq<u8>, x: u8, y: u8, i: int, b: u8, n: int) -> bool {
    exists|t: int| 0 <= t < n && sprite_bit(b, t) == 1 && #[trigger] g[cell(x, y, i, t)] == 1
}

/// `g` after drawing the first `k` rows of `sprite` at `(x, y)`, row by row.
pub open spec fn drawn(g: Seq<u8>, x: u8, y: u8, sprite: Seq<u8>, k: int) -> Seq<u8>
    decreases k,
{
    if k <= 0 {
        g
    } else {
        xor_row(drawn(g, x, y, sprite, k - 1), x, y, k - 1, sprite[k - 1])
    }
}

/// Whether drawing the first `k` rows of `sprite` at `(x, y)` onto `g` turns
/// some lit pixel off.
pub open spec fn collides(g: Seq<u8>, x: u8, y: u8, sprite: Seq<u8>, k: int) -> bool
    decreases k,
{
    if k <= 0 {
        false
    } else {
        collides(g, x, y, sprite, k - 1)
            || row_prefix_collides(drawn(g, x, y, sprite, k - 1), x, y, k - 1, sprite[k - 1], 8)
    }
}

impl View for Display {
    type V = Seq<u8>;

    closed spec fn view(&self) -> Seq<u8> {
        self.gfx@
    }
}

proof fn lemma_cell_offset(x: u8, y: u8, i: int, t: int)
    requires
        0 <= i,
        0 <= t < 8,
    ensures
        0 <= cell(x, y, i, t) < PIXELS,
        cell(x, y, i, t) / 64 == (y as int % 32 + i) % 32,
        offset_in_row(x, cell(x, y, i, t)) == t,
{
    let r = (y as int % 32 + i) % 32;
    let col = (x as int % 64 + t) % 64;
    assert(0 <= r < 32);
    assert(0 <= col < 64);
    assert((r * 64 + col) / 64 == r) by (nonlinear_arith)
        requires 0 <= col < 64, 0 <= r < 32;
    assert((r * 64 + col) % 64 == col) by (nonlinear_arith)
        requires 0 <= col < 64, 0 <= r < 32;
}

impl Display {
    /// A framebuffer with every pixel off.
    pub fn new() -> (r: Display)
        ensures
            r@ == blank(),
    {
        let r = Display { gfx: [0u8; 2048] };
        assert(r@ =~= blank());
        r
    }

    /// The framebuffer always holds `PIXELS` cells.
    pub proof fn lemma_size(&self)
        ensures
            self@.len() == PIXELS,
    {
    }

    /// Turns every pixel off.
    pub fn clear_window(&mut self)
        ensures
            final(self)@ == blank(),
    {
        let mut c: usize = 0;
        while c < PIXELS
            invariant
                c <= PIXELS,
                self@.len() == PIXELS,
                forall|d: int| 0 <= d < c ==> #[trigger] self@[d] == 0,
            decreases PIXELS - c,
        {
            self.gfx[c] = 0;
            c = c + 1;
        }
        assert(self@ =~= blank());
    }

    /// The pixel in column `x` of row `y`: 0 or 1.
    pub fn pixel(&self, x: usize, y: usize) -> (r: u8)
        requires
            x < WIDTH,
            y < HEIGHT,
        ensures
            r == self@[y * 64 + x],
    {
        self.gfx[y * WIDTH + x]
    }

    /// XORs row `i` of a sprite, holding `b`, onto the framebuffer and
    /// reports whether one of its set bits met a lit pixel.
    fn draw_row(&mut self, x: u8, y: u8, i: usize, b: u8) -> (hit: bool)
        requires
            old(self)@.len() == PIXELS,
        ensures
            final(self)@ == xor_row(old(self)@, x, y, i as int, b),
            final(self)@.len() == PIXELS,
            hit == row_prefix_collides(old(self)@, x, y, i as int, b, 8),
    {
        let x0: usize = (x % 64) as usize;
        let row: usize = ((y % 32) as usize + i % 32) % 32;
        assert(row == (y as int % 32 + i) % 32) by (nonlinear_arith)
            requires row == ((y as int % 32) + i % 32) % 32, 0 <= i;
        let ghost before = self@;
        let mut hit = false;
        let mut t: usize = 0;
        while t < 8
            invariant
                t <= 8,
                x0 == x as int % 64,
                row == (y as int % 32 + i) % 32,
                self@.len() == PIXELS,
                before.len() == PIXELS,
                self@ == xor_row_prefix(before, x, y, i as int, b, t as int),
                hit == row_prefix_collides(before, x, y, i as int, b, t as int),
            decreases 8 - t,
        {
            let pos: usize = row * WIDTH + (x0 + t) % 64;
            proof {
                lemma_cell_offset(x, y, i as int, t as int);
                assert(pos == cell(x, y, i as int, t as int));
            }
            let bit: u8 = (b >> ((7 - t) as u8)) & 1;
            assert(self@[pos as int] == before[pos as int]);
            if bit == 1 && self.gfx[pos] == 1 {
                hit = true;
            }
            self.gfx[pos] = self.gfx[pos] ^ bit;
            t = t + 1;
            proof {
                assert forall|c: int| 0 <= c < PIXELS implies #[trigger] self@[c]
                    == xor_row_prefix(before, x, y, i as int, b, t as int)[c] by {
                    if c != pos {
                    }
                }
                assert(self@ =~= xor_row_prefix(before, x, y, i as int, b, t as int));
            }
        }
        hit
    }

    /// XORs `sprite` onto the framebuffer with its top-left corner at
    /// `(x mod 64, y mod 32)`: one byte per row, most significant bit leftmost,
    /// both axes wrapping around the screen. Returns whether a set sprite bit
    /// met a lit pixel, that is whether some pixel was turned off.
    pub fn draw_sprite(&mut self, x: u8, y: u8, sprite: &[u8]) -> (collision: bool)
        ensures
            final(self)@ == drawn(old(self)@, x, y, sprite@, sprite@.len() as int),
            collision == collides(old(self)@, x, y, sprite@, sprite@.len() as int),
    {
        let mut res = false;
        let mut i: usize = 0;
        while i < sprite.len()
            invariant
                i <= sprite@.len(),
                self@.len() == PIXELS,
                self@ == drawn(old(self)@, x, y, sprite@, i as int),
                res == collides(old(self)@, x, y, sprite@, i as int),
            decreases sprite@.len() - i,
        {
            let hit = self.draw_row(x, y, i, sprite[i]);
            res = res || hit;
            i = i + 1;
        }
        res
    }
}

/// The bit that sprite row `i`, holding `b`, XORs onto cell `c`: 0 for a
/// cell outside that row's eight columns.
pub open spec fn row_bit(x: u8, y: u8, i: int, b: u8, c: int) -> u8 {
    if c / 64 == (y as int % 32 + i) % 32 && offset_in_row(x, c) < 8 {
        sprite_bit(b, offset_in_row(x, c))
    } else {
        0
    }
}

/// What the first `k` rows of `sprite` XOR onto cell `c` in all.
pub open spec fn pattern(x: u8, y: u8, sprite: Seq<u8>, k: int, c: int) -> u8
    decreases k,
{
    if k <= 0 {
        0
    } else {
        pattern(x, y, sprite, k - 1, c) ^ row_bit(x, y, k - 1, sprite[k - 1], c)
    }
}

proof fn lemma_drawn_is_xor(g: Seq<u8>, x: u8, y: u8, sprite: Seq<u8>, k: int)
    requires
        0 <= k <= sprite.len(),
    ensures
        drawn(g, x, y, sprite, k).len() == g.len(),
        forall|c: int|
            0 <= c < g.len() ==> #[trigger] drawn(g, x, y, sprite, k)[c] == g[c] ^ pattern(
                x,
                y,
                sprite,
                k,
                c,
            ),
    decreases k,
{
    if k == 0 {
        assert forall|c: int| 0 <= c < g.len() implies #[trigger] drawn(g, x, y, sprite, k)[c] == g[c]
            ^ pattern(x, y, sprite, k, c) by {
            let a = g[c];
            assert(a ^ 0 == a) by (bit_vector);
        }
    } else {
        lemma_drawn_is_xor(g, x, y, sprite, k - 1);
        assert forall|c: int| 0 <= c < g.len() implies #[trigger] drawn(g, x, y, sprite, k)[c] == g[c]
            ^ pattern(x, y, sprite, k, c) by {
            let a = g[c];
            let p = pattern(x, y, sprite, k - 1, c);
            let rb = row_bit(x, y, k - 1, sprite[k - 1], c);
            assert((a ^ p) ^ rb == a ^ (p ^ rb)) by (bit_vector);
            assert((a ^ p) ^ 0 == a ^ p) by (bit_vector);
        }
    }
}

proof fn lemma_rows_distinct(y: u8, i: int, j: int)
    requires
        0 <= i < 32,
        0 <= j < 32,
        i != j,
    ensures
        (y as int % 32 + i) % 32 != (y as int % 32 + j) % 32,
{
}

/// On a cell of row `i`'s line, only row `i` contributes, where the sprite
/// has at most 32 rows.
proof fn lemma_pattern_on_row(x: u8, y: u8, sprite: Seq<u8>, k: int, i: int, c: int)
    requires
        0 <= k <= sprite.len() <= 32,
        0 <= i < sprite.len(),
        c / 64 == (y as int % 32 + i) % 32,
    ensures
        pattern(x, y, sprite, k, c) == if i < k {
            row_bit(x, y, i, sprite[i], c)
        } else {
            0
        },
    decreases k,
{
    if k > 0 {
        lemma_pattern_on_row(x, y, sprite, k - 1, i, c);
        let p = pattern(x, y, sprite, k - 1, c);
        let rb = row_bit(x, y, k - 1, sprite[k - 1], c);
        if k - 1 != i {
            lemma_rows_distinct(y, i, k - 1);
            assert(p ^ 0 == p) by (bit_vector);
        } else {
            assert(0 ^ rb == rb) by (bit_vector);
        }
    }
}

/// Where row `i` of `sprite` collides with `g`, drawing `k > i` rows
/// collides.
proof fn lemma_collides_from_row(g: Seq<u8>, x: u8, y: u8, sprite: Seq<u8>, k: int, i: int)
    requires
        0 <= i < k,
        row_prefix_collides(drawn(g, x, y, sprite, i), x, y, i, sprite[i], 8),
    ensures
        collides(g, x, y, sprite, k),
    decreases k,
{
    if k - 1 > i {
        lemma_collides_from_row(g, x, y, sprite, k - 1, i);
    }
}

/// Drawing a sprite twice at the same place restores the framebuffer: the
/// second XOR cancels the first.
pub proof fn lemma_draw_twice_restores(g: Seq<u8>, x: u8, y: u8, sprite: Seq<u8>)
    ensures
        drawn(drawn(g, x, y, sprite, sprite.len() as int), x, y, sprite, sprite.len() as int) == g,
{
    let n = sprite.len() as int;
    let g1 = drawn(g, x, y, sprite, n);
    let g2 = drawn(g1, x, y, sprite, n);
    lemma_drawn_is_xor(g, x, y, sprite, n);
    lemma_drawn_is_xor(g1, x, y, sprite, n);
    assert forall|c: int| 0 <= c < g.len() implies #[trigger] g2[c] == g[c] by {
        let a = g[c];
        let p = pattern(x, y, sprite, n, c);
        assert((a ^ p) ^ p == a) by (bit_vector);
    }
    assert(g2 =~= g);
}

/// On a blank framebuffer, a sprite of at most 32 rows with a set bit,
/// drawn twice at the same place, does not collide the first time, collides
/// the second time, and leaves the framebuffer blank.
pub proof fn lemma_draw_twice_on_blank(x: u8, y: u8, sprite: Seq<u8>)
    requires
        sprite.len() <= 32,
        exists|i: int| 0 <= i < sprite.len() && sprite[i] != 0,
    ensures
        !collides(blank(), x, y, sprite, sprite.len() as int),
        collides(drawn(blank(), x, y, sprite, sprite.len() as int), x, y, sprite, sprite.len() as int),
        drawn(drawn(blank(), x, y, sprite, sprite.len() as int), x, y, sprite, sprite.len() as int)
            == blank(),
{
    let n = sprite.len() as int;
    let g1 = drawn(blank(), x, y, sprite, n);
    lemma_draw_twice_restores(blank(), x, y, sprite);
    lemma_no_collision_on_blank(x, y, sprite, n);
    let i = choose|i: int| 0 <= i < sprite.len() && sprite[i] != 0;
    let b = sprite[i];
    assert(b != 0 ==> (b >> 7u8) & 1 == 1 || (b >> 6u8) & 1 == 1 || (b >> 5u8) & 1 == 1 || (b
        >> 4u8) & 1 == 1 || (b >> 3u8) & 1 == 1 || (b >> 2u8) & 1 == 1 || (b >> 1u8) & 1 == 1 || (b
        >> 0u8) & 1 == 1) by (bit_vector);
    assert(sprite_bit(b, 0) == 1 || sprite_bit(b, 1) == 1 || sprite_bit(b, 2) == 1 || sprite_bit(b, 3)
        == 1 || sprite_bit(b, 4) == 1 || sprite_bit(b, 5) == 1 || sprite_bit(b, 6) == 1 || sprite_bit(
        b,
        7,
    ) == 1);
    let t = choose|t: int| 0 <= t < 8 && sprite_bit(b, t) == 1;
    let c = cell(x, y, i, t);
    lemma_cell_offset(x, y, i, t);
    lemma_drawn_is_xor(blank(), x, y, sprite, n);
    lemma_drawn_is_xor(g1, x, y, sprite, i);
    lemma_pattern_on_row(x, y, sprite, n, i, c);
    lemma_pattern_on_row(x, y, sprite, i, i, c);
    assert(0u8 ^ 1u8 == 1u8) by (bit_vector);
    assert(1u8 ^ 0u8 == 1u8) by (bit_vector);
    assert(drawn(g1, x, y, sprite, i)[c] == 1);
    assert(row_prefix_collides(drawn(g1, x, y, sprite, i), x, y, i, b, 8));
    lemma_collides_from_row(g1, x, y, sprite, n, i);
}

proof fn lemma_no_collision_on_blank(x: u8, y: u8, sprite: Seq<u8>, k: int)
    requires
        0 <= k <= sprite.len() <= 32,
    ensures
        !collides(blank(), x, y, sprite, k),
    decreases k,
{
    if k > 0 {
        lemma_no_collision_on_blank(x, y, sprite, k - 1);
        let g = drawn(blank(), x, y, sprite, k - 1);
        lemma_drawn_is_xor(blank(), x, y, sprite, k - 1);
        assert forall|t: int| 0 <= t < 8 implies #[trigger] g[cell(x, y, k - 1, t)] != 1 by {
            let c = cell(x, y, k - 1, t);
            lemma_cell_offset(x, y, k - 1, t);
            lemma_pattern_on_row(x, y, sprite, k - 1, k - 1, c);
            assert(0u8 ^ 0u8 == 0u8) by (bit_vector);
        }
    }
}

} // verus!

use vstd::prelude::*;

verus! {

/// A frame: 32 rows of 64 pixels, indexed row first (`frame[y][x]`).
pub open spec fn is_frame(frame: Seq<Seq<bool>>) -> bool {
    &&& frame.len() == 32
    &&& forall|y: int| 0 <= y < 32 ==> (#[trigger] frame[y]).len() == 64
}

/// The frame with every pixel off.
pub open spec fn blank_frame() -> Seq<Seq<bool>> {
    Seq::new(32, |y: int| Seq::new(64, |x: int| false))
}

/// Whether bit `b` of a sprite row is set, counting from the leftmost
/// (most significant) bit.
pub open spec fn sprite_bit(row: u8, b: int) -> bool {
    (row >> ((7 - b) as usize)) & 1 == 1
}

/// Whether a sprite row whose leftmost bit lands in column `x0` flips
/// column `c`. Columns wrap around the right edge one by one.
pub open spec fn row_hits(x0: int, row: u8, c: int) -> bool {
    let b = (c - x0) % 64;
    b < 8 && sprite_bit(row, b)
}

/// Whether drawing `sprite` with its top-left corner at `(x0, y0)` leaves the
/// pixel in column `c` of row `r` flipped: the pixel is flipped once for every
/// sprite row that lands on `r` (rows wrap around the bottom edge) with a set
/// bit over `c`.
pub open spec fn toggled(x0: int, y0: int, sprite: Seq<u8>, c: int, r: int) -> bool
    decreases sprite.len(),
{
    if sprite.len() == 0 {
        false
    } else {
        let k = sprite.len() - 1;
        toggled(x0, y0, sprite.drop_last(), c, r) != ((y0 + k) % 32 == r && row_hits(
            x0,
            sprite[k],
            c,
        ))
    }
}

/// The frame after `sprite` has been XOR-ed onto `frame` at `(x0, y0)`.
pub open spec fn drawn(frame: Seq<Seq<bool>>, x0: int, y0: int, sprite: Seq<u8>) -> Seq<
    Seq<bool>,
> {
    Seq::new(32, |r: int| Seq::new(64, |c: int| frame[r][c] != toggled(x0, y0, sprite, c, r)))
}

/// Whether a sprite row drawn into row `r` of `frame` turns a lit pixel off.
pub open spec fn row_collides(frame: Seq<Seq<bool>>, x0: int, r: int, row: u8) -> bool {
    exists|b: int| 0 <= b < 8 && #[trigger] sprite_bit(row, b) && frame[r][(x0 + b) % 64]
}

/// Whether drawing `sprite` onto `frame` at `(x0, y0)`, row after row, turns
/// any lit pixel off.
pub open spec fn collides(frame: Seq<Seq<bool>>, x0: int, y0: int, sprite: Seq<u8>) -> bool
    decreases sprite.len(),
{
    if sprite.len() == 0 {
        false
    } else {
        let k = sprite.len() - 1;
        collides(frame, x0, y0, sprite.drop_last()) || row_collides(
            drawn(frame, x0, y0, sprite.drop_last()),
            x0,
            (y0 + k) % 32,
            sprite[k],
        )
    }
}

/// Whether any bit of the sprite is set.
pub open spec fn has_lit_bit(sprite: Seq<u8>) -> bool {
    exists|k: int, b: int|
        0 <= k < sprite.len() && 0 <= b < 8 && #[trigger] sprite_bit(sprite[k], b)
}

/// Whether some row of `sprite`, drawn at `(x0, y0)`, has a set bit over the
/// pixel in column `c` of row `r`.
pub open spec fn covers(x0: int, y0: int, sprite: Seq<u8>, c: int, r: int) -> bool {
    exists|k: int|
        0 <= k < sprite.len() && (y0 + k) % 32 == r && #[trigger] row_hits(x0, sprite[k], c)
}

/// A sprite no taller than the frame lands on every row at most once, so it
/// flips exactly the pixels that it covers.
pub proof fn lemma_toggled_is_covers(x0: u8, y0: u8, sprite: Seq<u8>, c: int, r: int)
    requires
        sprite.len() <= 32,
    ensures
        toggled(x0 as int, y0 as int, sprite, c, r) == covers(x0 as int, y0 as int, sprite, c, r),
    decreases sprite.len(),
{
    if sprite.len() > 0 {
        let k = sprite.len() - 1;
        let rest = sprite.drop_last();
        lemma_toggled_is_covers(x0, y0, rest, c, r);
        let here = (y0 + k) % 32 == r && row_hits(x0 as int, sprite[k], c);
        if covers(x0 as int, y0 as int, rest, c, r) {
            let j = choose|j: int|
                0 <= j < rest.len() && (y0 + j) % 32 == r && #[trigger] row_hits(
                    x0 as int,
                    rest[j],
                    c,
                );
            assert(rest[j] == sprite[j]);
            assert(row_hits(x0 as int, sprite[j], c));
            lemma_rows_apart(y0, j, k);
        } else if here {
            assert(row_hits(x0 as int, sprite[k], c));
        } else {
            if covers(x0 as int, y0 as int, sprite, c, r) {
                let j = choose|j: int|
                    0 <= j < sprite.len() && (y0 + j) % 32 == r && #[trigger] row_hits(
                        x0 as int,
                        sprite[j],
                        c,
                    );
                assert(j < k);
                assert(rest[j] == sprite[j]);
                assert(row_hits(x0 as int, rest[j], c));
            }
        }
    }
}

/// Two rows of a sprite no taller than the frame land on different rows.
proof fn lemma_rows_apart(y0: u8, j: int, k: int)
    requires
        0 <= j < k < 32,
    ensures
        (y0 + j) % 32 != (y0 + k) % 32,
{
}

/// Among the rows of a sprite no taller than the frame, only row `k` lands
/// on the frame row where row `k` lands.
proof fn lemma_covers_own_row(x0: u8, y0: u8, sprite: Seq<u8>, k: int, c: int)
    requires
        sprite.len() <= 32,
        0 <= k < sprite.len(),
    ensures
        !covers(x0 as int, y0 as int, sprite.take(k), c, (y0 + k) % 32),
        covers(x0 as int, y0 as int, sprite, c, (y0 + k) % 32) == row_hits(
            x0 as int,
            sprite[k],
            c,
        ),
{
    let rest = sprite.take(k);
    let r = (y0 + k) % 32;
    if covers(x0 as int, y0 as int, rest, c, r) {
        let j = choose|j: int|
            0 <= j < rest.len() && (y0 + j) % 32 == r && #[trigger] row_hits(x0 as int, rest[j], c);
        lemma_rows_apart(y0, j, k);
    }
    if covers(x0 as int, y0 as int, sprite, c, r) {
        let j = choose|j: int|
            0 <= j < sprite.len() && (y0 + j) % 32 == r && #[trigger] row_hits(
                x0 as int,
                sprite[j],
                c,
            );
        if j < k {
            lemma_rows_apart(y0, j, k);
        } else if k < j {
            lemma_rows_apart(y0, k, j);
        }
    }
}

/// Drawing the same sprite twice at the same place restores the frame: the
/// blit is an XOR.
pub proof fn law_draw_twice_restores(frame: Seq<Seq<bool>>, x0: u8, y0: u8, sprite: Seq<u8>)
    requires
        is_frame(frame),
    ensures
        drawn(drawn(frame, x0 as int, y0 as int, sprite), x0 as int, y0 as int, sprite) == frame,
{
    assert(drawn(drawn(frame, x0 as int, y0 as int, sprite), x0 as int, y0 as int, sprite)
        =~~= frame);
}

/// Whether some set bit of `sprite`, drawn at `(x0, y0)`, lands on a pixel
/// that is lit in `frame`.
pub open spec fn hits_lit_pixel(frame: Seq<Seq<bool>>, x0: int, y0: int, sprite: Seq<u8>) -> bool {
    exists|k: int, b: int|
        0 <= k < sprite.len() && 0 <= b < 8 && #[trigger] sprite_bit(sprite[k], b) && frame[(y0
            + k) % 32][(x0 + b) % 64]
}

/// A sprite no taller than the frame collides exactly if one of its set bits
/// lands on a pixel that was lit before the draw.
pub proof fn law_collision_is_a_lit_pixel_hit(
    frame: Seq<Seq<bool>>,
    x0: u8,
    y0: u8,
    sprite: Seq<u8>,
)
    requires
        is_frame(frame),
        sprite.len() <= 32,
    ensures
        collides(frame, x0 as int, y0 as int, sprite) == hits_lit_pixel(
            frame,
            x0 as int,
            y0 as int,
            sprite,
        ),
{
    lemma_collision_prefix(frame, x0, y0, sprite, sprite.len() as int);
    assert(sprite.take(sprite.len() as int) =~= sprite);
}

/// Before row `k` of a sprite no taller than the frame is drawn, the pixels
/// under it are as they were before the draw: no earlier row lands there.
proof fn lemma_row_untouched(
    frame: Seq<Seq<bool>>,
    x0: u8,
    y0: u8,
    sprite: Seq<u8>,
    k: int,
    b: int,
)
    requires
        is_frame(frame),
        sprite.len() <= 32,
        0 <= k < sprite.len(),
        0 <= b < 8,
    ensures
        drawn(frame, x0 as int, y0 as int, sprite.take(k))[(y0 + k) % 32][(x0 + b) % 64]
            == frame[(y0 + k) % 32][(x0 + b) % 64],
{
    let rest = sprite.take(k);
    let r = (y0 + k) % 32;
    let c = (x0 + b) % 64;
    lemma_toggled_is_covers(x0, y0, rest, c, r);
    lemma_covers_own_row(x0, y0, sprite, k, c);
    assert(drawn(frame, x0 as int, y0 as int, rest)[r][c] == (frame[r][c] != toggled(
        x0 as int,
        y0 as int,
        rest,
        c,
        r,
    )));
}

/// The induction behind [`law_collision_is_a_lit_pixel_hit`].
proof fn lemma_collision_prefix(frame: Seq<Seq<bool>>, x0: u8, y0: u8, sprite: Seq<u8>, n: int)
    requires
        is_frame(frame),
        sprite.len() <= 32,
        0 <= n <= sprite.len(),
    ensures
        collides(frame, x0 as int, y0 as int, sprite.take(n)) == hits_lit_pixel(
            frame,
            x0 as int,
            y0 as int,
            sprite.take(n),
        ),
    decreases n,
{
    let prefix = sprite.take(n);
    if n > 0 {
        let k = n - 1;
        let rest = sprite.take(k);
        let r = (y0 + k) % 32;
        lemma_collision_prefix(frame, x0, y0, sprite, k);
        assert(prefix.drop_last() =~= rest);
        assert(prefix[k] == sprite[k]);
        let under = drawn(frame, x0 as int, y0 as int, rest);
        let hit = row_collides(under, x0 as int, r, sprite[k]);
        let lit = row_collides(frame, x0 as int, r, sprite[k]);
        assert(hit == lit) by {
            if hit {
                let b = choose|b: int|
                    0 <= b < 8 && #[trigger] sprite_bit(sprite[k], b) && under[r][(x0 + b) % 64];
                lemma_row_untouched(frame, x0, y0, sprite, k, b);
            }
            if lit {
                let b = choose|b: int|
                    0 <= b < 8 && #[trigger] sprite_bit(sprite[k], b) && frame[r][(x0 + b) % 64];
                lemma_row_untouched(frame, x0, y0, sprite, k, b);
            }
        }
        assert(hits_lit_pixel(frame, x0 as int, y0 as int, prefix) == (hits_lit_pixel(
            frame,
            x0 as int,
            y0 as int,
            rest,
        ) || lit)) by {
            if hits_lit_pixel(frame, x0 as int, y0 as int, prefix) {
                let (j, b) = choose|j: int, b: int|
                    0 <= j < prefix.len() && 0 <= b < 8 && #[trigger] sprite_bit(prefix[j], b)
                        && frame[(y0 + j) % 32][(x0 + b) % 64];
                if j < k {
                    assert(rest[j] == prefix[j]);
                    assert(sprite_bit(rest[j], b));
                } else {
                    assert(sprite_bit(sprite[k], b));
                }
            }
            if hits_lit_pixel(frame, x0 as int, y0 as int, rest) {
                let (j, b) = choose|j: int, b: int|
                    0 <= j < rest.len() && 0 <= b < 8 && #[trigger] sprite_bit(rest[j], b)
                        && frame[(y0 + j) % 32][(x0 + b) % 64];
                assert(rest[j] == prefix[j]);
                assert(sprite_bit(prefix[j], b));
            }
            if lit {
                let b = choose|b: int|
                    0 <= b < 8 && #[trigger] sprite_bit(sprite[k], b) && frame[r][(x0 + b) % 64];
                assert(sprite_bit(prefix[k], b));
            }
        }
        assert(collides(frame, x0 as int, y0 as int, prefix) == (collides(
            frame,
            x0 as int,
            y0 as int,
            rest,
        ) || hit));
    }
}

/// On a blank frame, a sprite of at most 32 rows is drawn without a
/// collision, and lights exactly the pixels that it covers.
pub proof fn law_draw_on_blank(x0: u8, y0: u8, sprite: Seq<u8>)
    requires
        sprite.len() <= 32,
    ensures
        !collides(blank_frame(), x0 as int, y0 as int, sprite),
        forall|r: int, c: int|
            0 <= r < 32 && 0 <= c < 64 ==> #[trigger] drawn(
                blank_frame(),
                x0 as int,
                y0 as int,
                sprite,
            )[r][c] == covers(x0 as int, y0 as int, sprite, c, r),
{
    assert forall|r: int, c: int| 0 <= r < 32 && 0 <= c < 64 implies #[trigger] drawn(
        blank_frame(),
        x0 as int,
        y0 as int,
        sprite,
    )[r][c] == covers(x0 as int, y0 as int, sprite, c, r) by {
        lemma_toggled_is_covers(x0, y0, sprite, c, r);
    }
    law_collision_is_a_lit_pixel_hit(blank_frame(), x0, y0, sprite);
    if hits_lit_pixel(blank_frame(), x0 as int, y0 as int, sprite) {
        let (k, b) = choose|k: int, b: int|
            0 <= k < sprite.len() && 0 <= b < 8 && #[trigger] sprite_bit(sprite[k], b)
                && blank_frame()[(y0 + k) % 32][(x0 + b) % 64];
        assert(!blank_frame()[(y0 + k) % 32][(x0 + b) % 64]);
    }
}

/// Drawing a sprite of at most 32 rows a second time at the same place on a
/// frame that was blank before the first draw turns every pixel off again,
/// and reports a collision exactly if the sprite has a set bit.
pub proof fn law_redraw_on_blank(x0: u8, y0: u8, sprite: Seq<u8>)
    requires
        sprite.len() <= 32,
    ensures
        drawn(
            drawn(blank_frame(), x0 as int, y0 as int, sprite),
            x0 as int,
            y0 as int,
            sprite,
        ) == blank_frame(),
        collides(
            drawn(blank_frame(), x0 as int, y0 as int, sprite),
            x0 as int,
            y0 as int,
            sprite,
        ) <==> has_lit_bit(sprite),
{
    law_draw_twice_restores(blank_frame(), x0, y0, sprite);
    let first = drawn(blank_frame(), x0 as int, y0 as int, sprite);
    law_collision_is_a_lit_pixel_hit(first, x0, y0, sprite);
    if has_lit_bit(sprite) {
        let (k, b) = choose|k: int, b: int|
            0 <= k < sprite.len() && 0 <= b < 8 && #[trigger] sprite_bit(sprite[k], b);
        let r = (y0 + k) % 32;
        let c = (x0 + b) % 64;
        assert((c - x0) % 64 == b);
        assert(row_hits(x0 as int, sprite[k], c));
        lemma_toggled_is_covers(x0, y0, sprite, c, r);
        assert(first[r][c] == (blank_frame()[r][c] != toggled(x0 as int, y0 as int, sprite, c, r)));
        assert(first[r][c]);
    }
    if hits_lit_pixel(first, x0 as int, y0 as int, sprite) {
        let (k, b) = choose|k: int, b: int|
            0 <= k < sprite.len() && 0 <= b < 8 && #[trigger] sprite_bit(sprite[k], b)
                && first[(y0 + k) % 32][(x0 + b) % 64];
        assert(sprite_bit(sprite[k], b));
    }
}

/// The monochrome frame buffer.
pub struct Display {
    pixels: [[bool; 64]; 32],
}

impl View for Display {
    type V = Seq<Seq<bool>>;

    closed spec fn view(&self) -> Seq<Seq<bool>> {
        Seq::new(32, |y: int| self.pixels@[y]@)
    }
}

impl Display {
    pub const WIDTH: usize = 64;

    pub const HEIGHT: usize = 32;

    /// The view of a display always has the shape of a frame.
    pub proof fn lemma_shape(&self)
        ensures
            is_frame(self@),
    {
    }

    /// A display with every pixel off.
    pub fn new() -> (display: Self)
        ensures
            display@ == blank_frame(),
    {
        let display = Display { pixels: [[false; 64]; 32] };
        assert(display@ =~~= blank_frame());
        display
    }

    /// Turns every pixel off.
    pub fn clear_screen(&mut self)
        ensures
            final(self)@ == blank_frame(),
    {
        self.pixels = [[false; 64]; 32];
        assert(self@ =~~= blank_frame());
    }

    /// The pixel in column `x` of row `y`.
    pub fn get_pixel(&self, x: usize, y: usize) -> (on: bool)
        requires
            x < 64,
            y < 32,
        ensures
            on == self@[y as int][x as int],
    {
        self.pixels[y][x]
    }

    /// Sets the pixel in column `x` of row `y`.
    pub fn set_pixel(&mut self, x: usize, y: usize, on: bool)
        requires
            x < 64,
            y < 32,
        ensures
            final(self)@ == old(self)@.update(
                y as int,
                old(self)@[y as int].update(x as int, on),
            ),
    {
        self.pixels[y][x] = on;
        assert(self@ =~~= old(self)@.update(y as int, old(self)@[y as int].update(x as int, on)));
    }

    /// XOR-blits `memory`, one byte per sprite row, with the sprite's top-left
    /// corner at (`starting_x`, `starting_y`). Each pixel coordinate wraps
    /// around the frame's edges on its own. Returns whether any lit pixel was
    /// turned off.
    pub fn draw(&mut self, starting_x: u8, starting_y: u8, memory: &[u8]) -> (collision: bool)
        ensures
            final(self)@ == drawn(old(self)@, starting_x as int, starting_y as int, memory@),
            collision == collides(old(self)@, starting_x as int, starting_y as int, memory@),
    {
        let ghost x0 = starting_x as int;
        let ghost y0 = starting_y as int;
        let mut pixel_turned_off = false;
        let mut byte_number: usize = 0;
        proof {
            assert(memory@.take(0) =~= Seq::<u8>::empty());
            assert(self@ =~~= drawn(old(self)@, x0, y0, memory@.take(0)));
        }
        while byte_number < memory.len()
            invariant
                byte_number <= memory.len(),
                x0 == starting_x as int,
                y0 == starting_y as int,
                self@ == drawn(old(self)@, x0, y0, memory@.take(byte_number as int)),
                pixel_turned_off == collides(old(self)@, x0, y0, memory@.take(byte_number as int)),
            decreases memory.len() - byte_number,
        {
            let block: u8 = memory[byte_number];
            let y: usize = (starting_y as usize % 32 + byte_number % 32) % 32;
            let ghost before = self@;
            let ghost flag_before = pixel_turned_off;
            let mut bit_number: usize = 0;
            while bit_number < 8
                invariant
                    bit_number <= 8,
                    y < 32,
                    x0 == starting_x as int,
                    is_frame(before),
                    is_frame(self@),
                    forall|r: int, c: int|
                        0 <= r < 32 && 0 <= c < 64 ==> #[trigger] self@[r][c] == (before[r][c] != (r
                            == y && (c - x0) % 64 < bit_number && sprite_bit(
                            block,
                            (c - x0) % 64,
                        ))),
                    pixel_turned_off == (flag_before || exists|b: int|
                        0 <= b < bit_number && #[trigger] sprite_bit(block, b) && before[y as int][(
                        x0 + b) % 64]),
                decreases 8 - bit_number,
            {
                let x: usize = (starting_x as usize + bit_number) % 64;
                let current_pixel = self.pixels[y][x];
                let current_bit: u8 = (block >> (7 - bit_number)) & 1;
                let new_pixel = (current_bit == 1) != current_pixel;
                let ghost mid = self@;
                self.pixels[y][x] = new_pixel;
                if current_pixel && !new_pixel {
                    pixel_turned_off = true;
                }
                proof {
                    assert(self@ =~~= mid.update(y as int, mid[y as int].update(x as int, new_pixel)));
                    assert((x as int - x0) % 64 == bit_number);
                    assert(current_pixel == before[y as int][x as int]);
                    assert((current_bit == 1) == sprite_bit(block, bit_number as int));
                }
                bit_number += 1;
            }
            proof {
                let prefix = memory@.take(byte_number as int);
                let next = memory@.take(byte_number as int + 1);
                assert(next.drop_last() =~= prefix);
                assert(next[byte_number as int] == block);
                assert((y0 + byte_number) % 32 == y);
                assert forall|r: int, c: int| 0 <= r < 32 && 0 <= c < 64 implies #[trigger] self@[r][c]
                    == drawn(old(self)@, x0, y0, next)[r][c] by {
                    assert(before[r][c] == (old(self)@[r][c] != toggled(x0, y0, prefix, c, r)));
                }
                assert(self@ =~~= drawn(old(self)@, x0, y0, next));
            }
            byte_number += 1;
        }
        proof {
            assert(memory@.take(memory.len() as int) =~= memory@);
        }
        pixel_turned_off
    }
}

} // verus!

//! The monochrome framebuffer and the sprite blitter.
//!
//! The screen is a torus: a coordinate past the right or the bottom edge
//! comes back in at the opposite edge. A sprite is a sequence of bytes, one
//! per row, the most significant bit leftmost. Drawing XORs each sprite bit
//! into the pixel under it.

use vstd::prelude::*;
use vstd::slice::slice_subrange;
use crate::error::Fault;
use crate::memory::AddressSpace;
use crate::registers::{index_address, Registers, FLAG};

verus! {

/// Pixels per row.
pub const WIDTH: usize = 64;

/// Rows on the screen.
pub const HEIGHT: usize = 32;

/// Pixels on the screen.
pub const PIXEL_COUNT: usize = 2048;

/// The tallest sprite that an instruction can name.
pub const MAX_SPRITE_HEIGHT: usize = 15;

/// The place value of bit `pos` of a byte, where bit 1 is the most
/// significant bit and bit 8 the least significant one.
pub open spec fn place_value(pos: int) -> int {
    if pos <= 1 {
        128
    } else if pos == 2 {
        64
    } else if pos == 3 {
        32
    } else if pos == 4 {
        16
    } else if pos == 5 {
        8
    } else if pos == 6 {
        4
    } else if pos == 7 {
        2
    } else {
        1
    }
}

/// Bit `pos` of `byte`, counting from the most significant bit, which is
/// bit 1.
pub open spec fn bit_of(byte: u8, pos: int) -> int {
    (byte as int / place_value(pos)) % 2
}

/// Reads bit `pos` of `byte`, where position 1 is the most significant bit
/// and position 8 the least significant one.
pub fn get_bit(byte: u8, pos: u8) -> (bit: u8)
    requires
        1 <= pos <= 8,
    ensures
        bit == bit_of(byte, pos as int),
        bit <= 1,
{
    if pos == 8 {
        assert(byte & 0x01 == byte % 2) by (bit_vector);
        return byte & 0x01;
    }
    let shift: u8 = 8 - pos;
    let bit: u8 = (byte >> shift) & 0x1;
    assert(bit == bit_of(byte, pos as int)) by {
        assert((byte >> 1u8) & 1 == (byte / 2) % 2) by (bit_vector);
        assert((byte >> 2u8) & 1 == (byte / 4) % 2) by (bit_vector);
        assert((byte >> 3u8) & 1 == (byte / 8) % 2) by (bit_vector);
        assert((byte >> 4u8) & 1 == (byte / 16) % 2) by (bit_vector);
        assert((byte >> 5u8) & 1 == (byte / 32) % 2) by (bit_vector);
        assert((byte >> 6u8) & 1 == (byte / 64) % 2) by (bit_vector);
        assert((byte >> 7u8) & 1 == (byte / 128) % 2) by (bit_vector);
    }
    bit
}

/// Where pixel `(x, y)` is kept, after wrapping both coordinates onto the
/// screen.
pub open spec fn pixel_index(x: int, y: int) -> int {
    (y % 32) * 64 + x % 64
}

/// Whether `sprite` has a lit bit in row `row`, column `col`. Column 0 is
/// the leftmost one.
pub open spec fn sprite_bit(sprite: Seq<u8>, row: int, col: int) -> bool {
    0 <= row < sprite.len() && 0 <= col < 8 && bit_of(sprite[row], col + 1) == 1
}

/// The sprite row that lies over the pixel kept at `k` when the sprite's
/// corner is at row `y`.
pub open spec fn row_over(y: int, k: int) -> int {
    (k / 64 - y) % 32
}

/// The sprite column that lies over the pixel kept at `k` when the
/// sprite's corner is at column `x`.
pub open spec fn col_over(x: int, k: int) -> int {
    (k % 64 - x) % 64
}

/// Whether `sprite`, drawn with its corner at `(x, y)`, has a lit bit over
/// the pixel kept at `k`.
pub open spec fn covers(sprite: Seq<u8>, x: int, y: int, k: int) -> bool {
    sprite_bit(sprite, row_over(y, k), col_over(x, k))
}

/// The screen after `sprite` is drawn with its corner at `(x, y)`: each
/// pixel under a lit sprite bit is flipped, every other pixel stays.
pub open spec fn blit(screen: Seq<bool>, sprite: Seq<u8>, x: int, y: int) -> Seq<bool> {
    Seq::new(2048, |k: int| screen[k] != covers(sprite, x, y, k))
}

/// Whether drawing `sprite` at `(x, y)` turns off a pixel that was on.
pub open spec fn collides(screen: Seq<bool>, sprite: Seq<u8>, x: int, y: int) -> bool {
    exists|k: int| 0 <= k < 2048 && #[trigger] screen[k] && covers(sprite, x, y, k)
}

/// As `covers`, for the part of the sprite drawn so far: the rows before
/// `rows`, and of row `rows` the columns before `cols`.
pub open spec fn covers_part(
    sprite: Seq<u8>,
    x: int,
    y: int,
    rows: int,
    cols: int,
    k: int,
) -> bool {
    covers(sprite, x, y, k) && (row_over(y, k) < rows || (row_over(y, k) == rows && col_over(x, k)
        < cols))
}

/// As `collides`, for the part of the sprite drawn so far.
pub open spec fn collides_part(
    screen: Seq<bool>,
    sprite: Seq<u8>,
    x: int,
    y: int,
    rows: int,
    cols: int,
) -> bool {
    exists|k: int|
        0 <= k < 2048 && #[trigger] screen[k] && covers_part(sprite, x, y, rows, cols, k)
}

/// Sprite cell `(row, col)` lies over exactly one pixel, the one at the
/// wrapped sum of corner and cell.
pub proof fn lemma_cell_target(x: int, y: int, row: int, col: int, k: int)
    requires
        0 <= row < 32,
        0 <= col < 64,
        0 <= k < 2048,
    ensures
        (row_over(y, k) == row && col_over(x, k) == col) <==> k == pixel_index(x + col, y + row),
{
}

/// The 64-by-32 screen. Pixel `(x, y)` is kept at `y * 64 + x`.
#[derive(Clone, Debug, PartialEq, Eq)]
pub struct Framebuffer {
    /// The pixels, row by row; `true` is lit.
    pub pixels: [bool; 2048],
}

impl View for Framebuffer {
    type V = Seq<bool>;

    open spec fn view(&self) -> Seq<bool> {
        self.pixels@
    }
}

impl Framebuffer {
    /// A dark screen.
    pub fn new() -> (screen: Framebuffer)
        ensures
            screen@ =~= Seq::new(2048, |k: int| false),
    {
        Framebuffer { pixels: [false; 2048] }
    }

    /// Turns every pixel off.
    pub fn clear(&mut self)
        ensures
            final(self)@ =~= Seq::new(2048, |k: int| false),
    {
        self.pixels = [false; 2048];
    }

    /// Whether pixel `(x, y)` is lit. Coordinates past an edge wrap.
    pub fn pixel(&self, x: usize, y: usize) -> (lit: bool)
        ensures
            lit == self@[pixel_index(x as int, y as int)],
    {
        self.pixels[(y % HEIGHT) * WIDTH + x % WIDTH]
    }

    /// A copy of all pixels, row by row, for whoever presents the screen.
    pub fn snapshot(&self) -> (pixels: Vec<bool>)
        ensures
            pixels@ == self@,
    {
        let mut pixels: Vec<bool> = Vec::new();
        let mut k: usize = 0;
        while k < PIXEL_COUNT
            invariant
                k <= 2048,
                self@.len() == 2048,
                pixels@ =~= self@.take(k as int),
            decreases 2048 - k,
        {
            pixels.push(self.pixels[k]);
            k = k + 1;
        }
        pixels
    }

    /// Draws `sprite` with its corner at `(x, y)` by XOR, wrapping at the
    /// edges, and reports whether a lit pixel was turned off anywhere under
    /// the sprite.
    pub fn xor_sprite(&mut self, sprite: &[u8], x: u8, y: u8) -> (collision: bool)
        requires
            sprite@.len() <= HEIGHT,
        ensures
            final(self)@ == blit(old(self)@, sprite@, x as int, y as int),
            collision == collides(old(self)@, sprite@, x as int, y as int),
    {
        let ghost before = self@;
        let ghost xi = x as int;
        let ghost yi = y as int;
        let mut collision = false;
        let mut row: usize = 0;
        while row < sprite.len()
            invariant
                row <= sprite@.len() <= 32,
                self@.len() == 2048,
                before.len() == 2048,
                xi == x as int,
                yi == y as int,
                forall|k: int|
                    0 <= k < 2048 ==> self@[k] == (before[k] != covers_part(
                        sprite@,
                        xi,
                        yi,
                        row as int,
                        0,
                        k,
                    )),
                collision == collides_part(before, sprite@, xi, yi, row as int, 0),
            decreases sprite@.len() - row,
        {
            let byte: u8 = sprite[row];
            let py: usize = (y as usize + row) % HEIGHT;
            let mut col: usize = 0;
            while col < 8
                invariant
                    row < sprite@.len() <= 32,
                    col <= 8,
                    byte == sprite@[row as int],
                    py == (yi + row) % 32,
                    self@.len() == 2048,
                    before.len() == 2048,
                    xi == x as int,
                    yi == y as int,
                    forall|k: int|
                        0 <= k < 2048 ==> self@[k] == (before[k] != covers_part(
                            sprite@,
                            xi,
                            yi,
                            row as int,
                            col as int,
                            k,
                        )),
                    collision == collides_part(before, sprite@, xi, yi, row as int, col as int),
                decreases 8 - col,
            {
                let px: usize = (x as usize + col) % WIDTH;
                let idx: usize = py * WIDTH + px;
                let lit: bool = get_bit(byte, (col + 1) as u8) == 1;
                let ghost mid = self@;
                let ghost hit = collision;
                proof {
                    assert(idx as int == pixel_index(xi + col, yi + row));
                    assert forall|k: int| 0 <= k < 2048 implies (covers_part(
                        sprite@,
                        xi,
                        yi,
                        row as int,
                        col as int + 1,
                        k,
                    ) == (covers_part(sprite@, xi, yi, row as int, col as int, k) || (k == idx
                        && lit))) by {
                        lemma_cell_target(xi, yi, row as int, col as int, k);
                    }
                    assert(!covers_part(sprite@, xi, yi, row as int, col as int, idx as int)) by {
                        lemma_cell_target(xi, yi, row as int, col as int, idx as int);
                    }
                }
                if lit {
                    if self.pixels[idx] {
                        collision = true;
                    }
                    self.pixels[idx] = !self.pixels[idx];
                }
                proof {
                    assert(mid[idx as int] == before[idx as int]);
                    assert(collision == (hit || (lit && before[idx as int])));
                    if collides_part(before, sprite@, xi, yi, row as int, col as int + 1) {
                        let k = choose|k: int|
                            0 <= k < 2048 && #[trigger] before[k] && covers_part(
                                sprite@,
                                xi,
                                yi,
                                row as int,
                                col as int + 1,
                                k,
                            );
                        if k != idx {
                            assert(before[k] && covers_part(
                                sprite@,
                                xi,
                                yi,
                                row as int,
                                col as int,
                                k,
                            ));
                        }
                        assert(collision);
                    }
                    if collision {
                        if hit {
                            let k = choose|k: int|
                                0 <= k < 2048 && #[trigger] before[k] && covers_part(
                                    sprite@,
                                    xi,
                                    yi,
                                    row as int,
                                    col as int,
                                    k,
                                );
                            assert(before[k] && covers_part(
                                sprite@,
                                xi,
                                yi,
                                row as int,
                                col as int + 1,
                                k,
                            ));
                        } else {
                            assert(before[idx as int] && covers_part(
                                sprite@,
                                xi,
                                yi,
                                row as int,
                                col as int + 1,
                                idx as int,
                            ));
                        }
                    }
                }
                col = col + 1;
            }
            proof {
                assert forall|k: int| 0 <= k < 2048 implies covers_part(
                    sprite@,
                    xi,
                    yi,
                    row as int,
                    8,
                    k,
                ) == covers_part(sprite@, xi, yi, row as int + 1, 0, k) by {}
                lemma_collides_part_same(before, sprite@, xi, yi, row as int, 8, row as int + 1, 0);
            }
            row = row + 1;
        }
        proof {
            assert forall|k: int| 0 <= k < 2048 implies covers_part(
                sprite@,
                xi,
                yi,
                row as int,
                0,
                k,
            ) == covers(sprite@, xi, yi, k) by {}
            assert(self@ =~= blit(before, sprite@, xi, yi));
            if collides(before, sprite@, xi, yi) {
                let k = choose|k: int|
                    0 <= k < 2048 && #[trigger] before[k] && covers(sprite@, xi, yi, k);
                assert(before[k] && covers_part(sprite@, xi, yi, row as int, 0, k));
            }
            if collides_part(before, sprite@, xi, yi, row as int, 0) {
                let k = choose|k: int|
                    0 <= k < 2048 && #[trigger] before[k] && covers_part(
                        sprite@,
                        xi,
                        yi,
                        row as int,
                        0,
                        k,
                    );
                assert(before[k] && covers(sprite@, xi, yi, k));
            }
        }
        collision
    }
}

/// The `n` sprite rows that memory `mem` holds from the address that the
/// index register value `i` names.
pub open spec fn sprite_rows(mem: Seq<u8>, i: u16, n: int) -> Seq<u8> {
    mem.subrange(index_address(i), index_address(i) + n)
}

/// The flag register's value for a draw that did, or did not, turn a lit
/// pixel off.
pub open spec fn collision_flag(collision: bool) -> u8 {
    if collision {
        1
    } else {
        0
    }
}

/// The draw instruction without its step of the program counter: draws
/// the `n`-row sprite that `memory` holds at the index register, its
/// corner at `(V[x], V[y])`, and sets `VF` to 1 if a lit pixel was turned
/// off anywhere under the sprite, else to 0. A sprite that would reach
/// past the top of memory is a fault, and nothing is drawn.
pub fn update_display_mem(
    display_mem: &mut Framebuffer,
    reg: &mut Registers,
    x: usize,
    y: usize,
    memory: &AddressSpace,
    n: usize,
) -> (r: Result<(), Fault>)
    requires
        x < 16,
        y < 16,
        n <= MAX_SPRITE_HEIGHT,
    ensures
        index_address(old(reg).i) + n <= 4096 ==> {
            let sprite = sprite_rows(memory@, old(reg).i, n as int);
            let cx = old(reg).v@[x as int] as int;
            let cy = old(reg).v@[y as int] as int;
            &&& r is Ok
            &&& final(display_mem)@ == blit(old(display_mem)@, sprite, cx, cy)
            &&& final(reg).v@ == old(reg).v@.update(
                15,
                collision_flag(collides(old(display_mem)@, sprite, cx, cy)),
            )
        },
        index_address(old(reg).i) + n > 4096 ==> {
            &&& r == Err::<(), Fault>(Fault::AddressOutOfRange)
            &&& final(display_mem)@ == old(display_mem)@
            &&& final(reg).v@ == old(reg).v@
        },
        final(reg).i == old(reg).i,
        final(reg).pc == old(reg).pc,
        final(reg).dt == old(reg).dt,
        final(reg).st == old(reg).st,
{
    let base: usize = reg.address();
    if base + n > 4096 {
        return Err(Fault::AddressOutOfRange);
    }
    let sprite: &[u8] = slice_subrange(memory.bytes.as_slice(), base, base + n);
    let collision: bool = display_mem.xor_sprite(sprite, reg.v[x], reg.v[y]);
    reg.v[FLAG] = if collision {
        1
    } else {
        0
    };
    Ok(())
}

/// Two parts of a sprite that cover the same pixels collide alike.
proof fn lemma_collides_part_same(
    screen: Seq<bool>,
    sprite: Seq<u8>,
    x: int,
    y: int,
    rows_a: int,
    cols_a: int,
    rows_b: int,
    cols_b: int,
)
    requires
        forall|k: int|
            0 <= k < 2048 ==> covers_part(sprite, x, y, rows_a, cols_a, k) == covers_part(
                sprite,
                x,
                y,
                rows_b,
                cols_b,
                k,
            ),
    ensures
        collides_part(screen, sprite, x, y, rows_a, cols_a) == collides_part(
            screen,
            sprite,
            x,
            y,
            rows_b,
            cols_b,
        ),
{
    if collides_part(screen, sprite, x, y, rows_a, cols_a) {
        let k = choose|k: int|
            0 <= k < 2048 && #[trigger] screen[k] && covers_part(sprite, x, y, rows_a, cols_a, k);
        assert(screen[k] && covers_part(sprite, x, y, rows_b, cols_b, k));
    }
    if collides_part(screen, sprite, x, y, rows_b, cols_b) {
        let k = choose|k: int|
            0 <= k < 2048 && #[trigger] screen[k] && covers_part(sprite, x, y, rows_b, cols_b, k);
        assert(screen[k] && covers_part(sprite, x, y, rows_a, cols_a, k));
    }
}

} // verus!

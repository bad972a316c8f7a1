//! The sprite compositor: draw an N-row, 8-column-wide sprite read from
//! memory at the index register onto the display with XOR blending, clipping
//! at the right and bottom edges, and report pixel collision in the flags
//! register.

use vstd::prelude::*;

use crate::emu::Emu;
use crate::emu::EmuView;
use crate::emu::FLAG_REG;
use crate::emu::RAM_SIZE;
use crate::emu::SCREEN_CELLS;
use crate::emu::SCREEN_HEIGHT;
use crate::emu::SCREEN_WIDTH;
use crate::emu::VREG_SIZE;

verus! {

/// Pixel `c` of a sprite row byte, counted with the most significant bit as
/// column 0.
pub open spec fn sprite_pixel(byte: u8, c: int) -> bool
    recommends
        0 <= c < 8,
{
    ((byte >> ((7 - c) as u8)) & 1) == 1
}

/// Row-major index of display cell `(cx, cy)`.
pub open spec fn cell_index(cx: int, cy: int) -> int {
    cy * (SCREEN_WIDTH as int) + cx
}

/// Whether a draw with origin `(left, top)` and `n` sprite rows writes
/// display cell `(cx, cy)`: the cell lies in the sprite's 8-column band and
/// its first `n` rows, and strictly inside the screen — pixels that would
/// fall on or past the right or bottom edge are clipped, not wrapped.
pub open spec fn draw_covers(left: int, top: int, n: int, cx: int, cy: int) -> bool {
    &&& left <= cx < left + 8
    &&& cx < SCREEN_WIDTH as int
    &&& top <= cy < top + n
    &&& cy < SCREEN_HEIGHT as int
}

/// The display after drawing `n` sprite rows read from `mem` at address `i`
/// with origin `(left, top)`: every covered cell is XOR-composited with its
/// sprite pixel; every other cell is unchanged.
pub open spec fn screen_after_draw(
    screen: Seq<bool>,
    mem: Seq<u8>,
    i: int,
    left: int,
    top: int,
    n: int,
) -> Seq<bool> {
    Seq::new(
        screen.len(),
        |k: int|
            {
                let cx = k % (SCREEN_WIDTH as int);
                let cy = k / (SCREEN_WIDTH as int);
                if draw_covers(left, top, n, cx, cy) {
                    screen[k] != sprite_pixel(mem[i + (cy - top)], cx - left)
                } else {
                    screen[k]
                }
            },
    )
}

/// Whether sprite pixel `(r, c)` of the draw is lit, lands strictly inside
/// the screen, and finds its target cell already lit — the one situation the
/// flags register reports.
pub open spec fn pixel_hit(
    screen: Seq<bool>,
    mem: Seq<u8>,
    i: int,
    left: int,
    top: int,
    r: int,
    c: int,
) -> bool {
    &&& top + r < SCREEN_HEIGHT as int
    &&& left + c < SCREEN_WIDTH as int
    &&& sprite_pixel(mem[i + r], c)
    &&& screen[cell_index(left + c, top + r)]
}

/// Whether drawing `n` sprite rows erases some lit cell: at least one
/// lit-on-lit XOR occurs inside the screen.
pub open spec fn draw_collision(
    screen: Seq<bool>,
    mem: Seq<u8>,
    i: int,
    left: int,
    top: int,
    n: int,
) -> bool {
    exists|r: int, c: int|
        0 <= r < n && 0 <= c < 8 && pixel_hit(screen, mem, i, left, top, r, c)
}

/// Whether sprite pixel `(r, c)` of the draw is lit, lands strictly inside
/// the screen, and finds its target cell unlit — so the draw lights it.
pub open spec fn pixel_lights(
    screen: Seq<bool>,
    mem: Seq<u8>,
    i: int,
    left: int,
    top: int,
    r: int,
    c: int,
) -> bool {
    &&& top + r < SCREEN_HEIGHT as int
    &&& left + c < SCREEN_WIDTH as int
    &&& sprite_pixel(mem[i + r], c)
    &&& !screen[cell_index(left + c, top + r)]
}

/// Whether drawing `n` sprite rows lights some cell: a lit, in-range sprite
/// pixel lands on a cell that is unlit.
pub open spec fn lights_unlit_cell(
    screen: Seq<bool>,
    mem: Seq<u8>,
    i: int,
    left: int,
    top: int,
    n: int,
) -> bool {
    exists|r: int, c: int|
        0 <= r < n && 0 <= c < 8 && pixel_lights(screen, mem, i, left, top, r, c)
}

/// Drawing the same sprite twice at the same origin restores every display
/// cell — the XOR composite is an involution — and the second draw reports a
/// collision exactly when the first draw lit some cell that had been unlit.
pub proof fn lemma_draw_twice_restores_screen(
    screen: Seq<bool>,
    mem: Seq<u8>,
    i: int,
    left: int,
    top: int,
    n: int,
)
    requires
        screen.len() == SCREEN_CELLS,
        0 <= left,
        0 <= top,
    ensures
        screen_after_draw(screen_after_draw(screen, mem, i, left, top, n), mem, i, left, top, n)
            == screen,
        draw_collision(screen_after_draw(screen, mem, i, left, top, n), mem, i, left, top, n)
            <==> lights_unlit_cell(screen, mem, i, left, top, n),
{
    let once = screen_after_draw(screen, mem, i, left, top, n);
    assert(screen_after_draw(once, mem, i, left, top, n) =~= screen);
    if draw_collision(once, mem, i, left, top, n) {
        let (r, c) = choose|r: int, c: int|
            0 <= r < n && 0 <= c < 8 && pixel_hit(once, mem, i, left, top, r, c);
        let k = cell_index(left + c, top + r);
        assert(0 <= k < SCREEN_CELLS);
        assert(once[k] == !screen[k]);
        assert(0 <= r < n && 0 <= c < 8 && pixel_lights(screen, mem, i, left, top, r, c));
    }
    if lights_unlit_cell(screen, mem, i, left, top, n) {
        let (r, c) = choose|r: int, c: int|
            0 <= r < n && 0 <= c < 8 && pixel_lights(screen, mem, i, left, top, r, c);
        let k = cell_index(left + c, top + r);
        assert(0 <= k < SCREEN_CELLS);
        assert(once[k] == !screen[k]);
        assert(pixel_hit(once, mem, i, left, top, r, c));
        assert(0 <= r < n && 0 <= c < 8 && pixel_hit(once, mem, i, left, top, r, c));
    }
}

/// The draw origin's column: the selected register wraps modulo the screen
/// width. The flags register is reset before the origin registers are read,
/// so a draw whose origin register is the flags register itself starts
/// from 0.
pub open spec fn draw_left(s: EmuView, x: int) -> int {
    (s.v_reg.update(FLAG_REG as int, 0u8)[x] as int) % (SCREEN_WIDTH as int)
}

/// The draw origin's row: the selected register wraps modulo the screen
/// height, after the flags-register reset, as for [`draw_left`].
pub open spec fn draw_top(s: EmuView, y: int) -> int {
    (s.v_reg.update(FLAG_REG as int, 0u8)[y] as int) % (SCREEN_HEIGHT as int)
}

/// State transition of the sprite-draw handler: the display is XOR-composited
/// with the sprite as in [`screen_after_draw`], and the flags register ends
/// at 1 if and only if at least one lit-on-lit XOR occurred during the draw;
/// nothing else changes.
pub open spec fn spec_draw(s: EmuView, x: int, y: int, n: u8) -> EmuView {
    let left = draw_left(s, x);
    let top = draw_top(s, y);
    let i = s.i_reg as int;
    let collision = draw_collision(s.screen, s.memory, i, left, top, n as int);
    EmuView {
        screen: screen_after_draw(s.screen, s.memory, i, left, top, n as int),
        v_reg: s.v_reg.update(FLAG_REG as int, if collision { 1u8 } else { 0u8 }),
        ..s
    }
}

/// Drawing the same sprite twice with the same arguments restores the
/// display exactly, whatever it held: the draw transition's XOR composite is
/// an involution on the screen. A draw never touches memory, the program
/// counter, or the index register.
pub proof fn lemma_draw_twice_restores_display(s: EmuView, x: int, y: int, n: u8)
    requires
        s.wf(),
        0 <= x < VREG_SIZE,
        0 <= y < VREG_SIZE,
    ensures
        spec_draw(spec_draw(s, x, y, n), x, y, n).screen == s.screen,
        spec_draw(s, x, y, n).memory == s.memory,
        spec_draw(s, x, y, n).pc == s.pc,
        spec_draw(s, x, y, n).i_reg == s.i_reg,
{
    let s1 = spec_draw(s, x, y, n);
    // The first draw only rewrites the flags register, which both draws
    // reset before reading their origin registers: the second draw has the
    // same origin.
    assert(s1.v_reg.update(FLAG_REG as int, 0u8) =~= s.v_reg.update(FLAG_REG as int, 0u8));
    assert(draw_left(s1, x) == draw_left(s, x));
    assert(draw_top(s1, y) == draw_top(s, y));
    lemma_draw_twice_restores_screen(
        s.screen,
        s.memory,
        s.i_reg as int,
        draw_left(s, x),
        draw_top(s, y),
        n as int,
    );
}

/// Which display cells a partially drawn sprite row has reached: all of rows
/// `0..r`, and columns `0..c` of row `r` itself.
spec fn covers_mid(left: int, top: int, r: int, c: int, cx: int, cy: int) -> bool {
    ||| draw_covers(left, top, r, cx, cy)
    ||| {
        &&& cy == top + r
        &&& cy < SCREEN_HEIGHT as int
        &&& left <= cx < left + c
        &&& cx < SCREEN_WIDTH as int
    }
}

/// The display in the middle of a draw, after all of rows `0..r` and columns
/// `0..c` of row `r` have been composited.
spec fn screen_mid_draw(
    screen: Seq<bool>,
    mem: Seq<u8>,
    i: int,
    left: int,
    top: int,
    r: int,
    c: int,
) -> Seq<bool> {
    Seq::new(
        screen.len(),
        |k: int|
            {
                let cx = k % (SCREEN_WIDTH as int);
                let cy = k / (SCREEN_WIDTH as int);
                if covers_mid(left, top, r, c, cx, cy) {
                    screen[k] != sprite_pixel(mem[i + (cy - top)], cx - left)
                } else {
                    screen[k]
                }
            },
    )
}

/// Whether a collision has occurred by the middle of a draw: in some full
/// row `0..r`, or at one of columns `0..c` of row `r` itself.
spec fn collision_mid(
    screen: Seq<bool>,
    mem: Seq<u8>,
    i: int,
    left: int,
    top: int,
    r: int,
    c: int,
) -> bool {
    ||| draw_collision(screen, mem, i, left, top, r)
    ||| exists|cc: int| 0 <= cc < c && pixel_hit(screen, mem, i, left, top, r, cc)
}

/// Compositing one more column extends the mid-draw collision by exactly the
/// hit (or miss) at that column.
proof fn lemma_collision_mid_step(
    screen: Seq<bool>,
    mem: Seq<u8>,
    i: int,
    left: int,
    top: int,
    r: int,
    c: int,
)
    requires
        0 <= c < 8,
    ensures
        collision_mid(screen, mem, i, left, top, r, c + 1) <==> (collision_mid(
            screen,
            mem,
            i,
            left,
            top,
            r,
            c,
        ) || pixel_hit(screen, mem, i, left, top, r, c)),
{
    if collision_mid(screen, mem, i, left, top, r, c + 1) && !draw_collision(
        screen,
        mem,
        i,
        left,
        top,
        r,
    ) {
        let cc = choose|cc: int| 0 <= cc < c + 1 && pixel_hit(screen, mem, i, left, top, r, cc);
        if cc < c {
            assert(collision_mid(screen, mem, i, left, top, r, c));
        } else {
            assert(pixel_hit(screen, mem, i, left, top, r, c));
        }
    }
    if collision_mid(screen, mem, i, left, top, r, c) && !draw_collision(
        screen,
        mem,
        i,
        left,
        top,
        r,
    ) {
        let cc = choose|cc: int| 0 <= cc < c && pixel_hit(screen, mem, i, left, top, r, cc);
        assert(0 <= cc < c + 1 && pixel_hit(screen, mem, i, left, top, r, cc));
    }
    if pixel_hit(screen, mem, i, left, top, r, c) {
        assert(0 <= c < c + 1 && pixel_hit(screen, mem, i, left, top, r, c));
    }
}

/// A row composited through all 8 columns is exactly one more full row.
proof fn lemma_collision_row_complete(
    screen: Seq<bool>,
    mem: Seq<u8>,
    i: int,
    left: int,
    top: int,
    r: int,
)
    requires
        0 <= r,
    ensures
        collision_mid(screen, mem, i, left, top, r, 8) <==> draw_collision(
            screen,
            mem,
            i,
            left,
            top,
            r + 1,
        ),
{
    if collision_mid(screen, mem, i, left, top, r, 8) {
        if draw_collision(screen, mem, i, left, top, r) {
            let (rr, cc) = choose|rr: int, cc: int|
                0 <= rr < r && 0 <= cc < 8 && pixel_hit(screen, mem, i, left, top, rr, cc);
            assert(0 <= rr < r + 1 && 0 <= cc < 8 && pixel_hit(screen, mem, i, left, top, rr, cc));
        } else {
            let cc = choose|cc: int| 0 <= cc < 8 && pixel_hit(screen, mem, i, left, top, r, cc);
            assert(0 <= r < r + 1 && 0 <= cc < 8 && pixel_hit(screen, mem, i, left, top, r, cc));
        }
    }
    if draw_collision(screen, mem, i, left, top, r + 1) {
        let (rr, cc) = choose|rr: int, cc: int|
            0 <= rr < r + 1 && 0 <= cc < 8 && pixel_hit(screen, mem, i, left, top, rr, cc);
        if rr < r {
            assert(draw_collision(screen, mem, i, left, top, r));
        } else {
            assert(0 <= cc < 8 && pixel_hit(screen, mem, i, left, top, r, cc));
        }
    }
}

impl Emu {
    /// Sprite-draw handler: reset the flags register, read the draw origin
    /// from registers `x` and `y` (wrapping modulo the screen dimensions),
    /// XOR-composite `n` sprite rows read from memory at the index register
    /// onto the display — clipping pixels past the right or bottom edge —
    /// and set the flags register to 1 exactly when some lit sprite pixel
    /// erased an already-lit cell.
    #[verifier::loop_isolation(false)]
    pub fn op_dxyn_draw(&mut self, x: usize, y: usize, n: u8)
        requires
            x < VREG_SIZE,
            y < VREG_SIZE,
            n > 0 ==> old(self).i_reg as int + n as int <= RAM_SIZE,
        ensures
            final(self)@ == spec_draw(old(self)@, x as int, y as int, n),
    {
        self.v_reg[FLAG_REG] = 0;
        let left: usize = self.v_reg[x] as usize % SCREEN_WIDTH;
        let top: usize = self.v_reg[y] as usize % SCREEN_HEIGHT;
        let ghost scr0 = old(self).screen@;
        let ghost mem0 = old(self).memory@;
        let ghost i0 = old(self).i_reg as int;
        let ghost l = left as int;
        let ghost t = top as int;
        proof {
            assert(self.screen@ =~= screen_after_draw(scr0, mem0, i0, l, t, 0));
        }
        let mut flipped = false;
        let mut row: usize = 0;
        while row < n as usize
            invariant
                row <= n,
                self.pc == old(self).pc,
                self.i_reg == old(self).i_reg,
                self.memory@ == old(self).memory@,
                self.v_reg@ == old(self).v_reg@.update(FLAG_REG as int, 0u8),
                self.screen@ == screen_after_draw(scr0, mem0, i0, l, t, row as int),
                flipped == draw_collision(scr0, mem0, i0, l, t, row as int),
            decreases n - row,
        {
            let sprite_data = self.memory[(self.i_reg + row as u16) as usize];
            proof {
                assert(self.screen@ =~= screen_mid_draw(scr0, mem0, i0, l, t, row as int, 0));
            }
            let mut col: usize = 0;
            while col < 8
                invariant
                    col <= 8,
                    self.pc == old(self).pc,
                    self.i_reg == old(self).i_reg,
                    self.memory@ == old(self).memory@,
                    self.v_reg@ == old(self).v_reg@.update(FLAG_REG as int, 0u8),
                    sprite_data == mem0[i0 + row],
                    self.screen@ == screen_mid_draw(scr0, mem0, i0, l, t, row as int, col as int),
                    flipped == collision_mid(scr0, mem0, i0, l, t, row as int, col as int),
                decreases 8 - col,
            {
                let pixel = ((sprite_data >> ((7 - col) as u8)) & 1) == 1;
                proof {
                    assert(pixel == sprite_pixel(sprite_data, col as int));
                }
                let screen_x = left + col;
                let screen_y = top + row;
                if screen_x < SCREEN_WIDTH && screen_y < SCREEN_HEIGHT {
                    let index = screen_y * SCREEN_WIDTH + screen_x;
                    proof {
                        assert(index as int % (SCREEN_WIDTH as int) == screen_x as int);
                        assert(index as int / (SCREEN_WIDTH as int) == screen_y as int);
                        assert(self.screen@[index as int] == scr0[index as int]);
                    }
                    let was_lit = self.screen[index];
                    if pixel && was_lit {
                        flipped = true;
                    }
                    self.screen[index] = was_lit != pixel;
                    proof {
                        assert(self.screen@ =~= screen_mid_draw(scr0, mem0, i0, l, t, row as int, col as int + 1));
                    }
                } else {
                    proof {
                        assert(self.screen@ =~= screen_mid_draw(scr0, mem0, i0, l, t, row as int, col as int + 1));
                    }
                }
                proof {
                    lemma_collision_mid_step(scr0, mem0, i0, l, t, row as int, col as int);
                    assert(flipped == collision_mid(scr0, mem0, i0, l, t, row as int, col as int + 1));
                }
                col = col + 1;
            }
            proof {
                lemma_collision_row_complete(scr0, mem0, i0, l, t, row as int);
                assert(self.screen@ =~= screen_after_draw(scr0, mem0, i0, l, t, row as int + 1));
            }
            row = row + 1;
        }
        if flipped {
            self.v_reg[FLAG_REG] = 1;
        }
        proof {
            assert(self@ =~= spec_draw(old(self)@, x as int, y as int, n));
        }
    }
}

} // verus!

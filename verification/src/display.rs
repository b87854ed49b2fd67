//! The display compositor: clearing, scrolling and XOR sprite drawing on
//! the one or two boolean bit-planes, each proved against the semantics
//! module's transition functions.

use vstd::prelude::*;

use crate::quirks::height_of;
use crate::quirks::width_of;
use crate::quirks::Variant;
use crate::semantics::clear_planes;
use crate::semantics::lemma_double_mod;
use crate::semantics::ctx_cols;
use crate::semantics::ctx_lores2x;
use crate::semantics::ctx_mask;
use crate::semantics::draw_plane_spec;
use crate::semantics::draw_row_upto;
use crate::semantics::draw_to_plane1;
use crate::semantics::draw_to_plane2;
use crate::semantics::draw_upto;
use crate::semantics::eff_x;
use crate::semantics::eff_y;
use crate::semantics::pc_minus2;
use crate::semantics::pixel_cells;
use crate::semantics::pixel_dropped;
use crate::semantics::pixel_x;
use crate::semantics::pixel_y;
use crate::semantics::plane_ctx;
use crate::semantics::scroll_amount;
use crate::semantics::scroll_one;
use crate::semantics::scroll_planes;
use crate::semantics::sprite_bit;
use crate::semantics::sprite_span;
use crate::semantics::sprite_word;
use crate::semantics::step_00cn;
use crate::semantics::step_00dn;
use crate::semantics::step_00e0;
use crate::semantics::step_00fb;
use crate::semantics::step_00fc;
use crate::semantics::step_dxyn;
use crate::semantics::step_resolution;
use crate::semantics::xor_cells;
use crate::semantics::DrawCtx;
use crate::state::BitPlane;
use crate::state::EmuError;
use crate::state::view_wf;
use crate::state::EmuView;
use crate::state::Emulator;

verus! {

/// The four cells of the 2-by-2 physical block at `(px, py)`.
pub open spec fn block_cells(px: int, py: int, w: int) -> Seq<int> {
    seq![px + w * py, px + 1 + w * py, px + w * (py + 1), px + 1 + w * (py + 1)]
}

pub open spec fn single_cell(px: int, py: int, w: int) -> Seq<int> {
    seq![px + w * py]
}

/// Toggles one cell, reporting whether it was set.
fn xor_cell(screen: &mut Vec<bool>, idx: usize) -> (hit: bool)
    requires
        idx < old(screen)@.len(),
    ensures
        final(screen)@ == old(screen)@.update(idx as int, !old(screen)@[idx as int]),
        hit == old(screen)@[idx as int],
{
    let cur = screen[idx];
    screen[idx] = !cur;
    cur
}

/// Toggles a single pixel cell, matching `xor_cells` on its one-element
/// list.
fn xor_single(screen: &mut Vec<bool>, px: usize, py: usize, w: usize) -> (hit: bool)
    requires
        px < w,
        w <= 128,
        py < 64,
        px + w * py < old(screen)@.len(),
    ensures
        (final(screen)@, hit) == xor_cells(old(screen)@, single_cell(px as int, py as int, w as int)),
        final(screen)@.len() == old(screen)@.len(),
{
    proof {
        assert(screen.len() == screen@.len());
        assert(w * py <= 128 * 64) by (nonlinear_arith)
            requires
                w <= 128,
                py < 64,
        ;
    }
    let idx = px + w * py;
    let hit = xor_cell(screen, idx);
    proof {
        let cells = single_cell(px as int, py as int, w as int);
        assert(cells.skip(1) =~= Seq::<int>::empty());
        assert(xor_cells(screen@, cells.skip(1)) == (screen@, false));
    }
    hit
}

/// Toggles the 2-by-2 block at `(px, py)`, matching `xor_cells` on its
/// four-element list.
fn xor_block(screen: &mut Vec<bool>, px: usize, py: usize, w: usize) -> (hit: bool)
    requires
        px + 1 < w,
        w <= 128,
        py + 1 < 64,
        px + w * py < old(screen)@.len(),
        px + 1 + w * py < old(screen)@.len(),
        px + w * (py + 1) < old(screen)@.len(),
        px + 1 + w * (py + 1) < old(screen)@.len(),
    ensures
        (final(screen)@, hit) == xor_cells(old(screen)@, block_cells(px as int, py as int, w as int)),
        final(screen)@.len() == old(screen)@.len(),
{
    proof {
        assert(screen.len() == screen@.len());
        assert(w * (py + 1) <= 128 * 64) by (nonlinear_arith)
            requires
                w <= 128,
                py + 1 < 64,
        ;
    }
    let ghost cells = block_cells(px as int, py as int, w as int);
    let ghost p0 = screen@;
    let c0 = px + w * py;
    let c1 = px + 1 + w * py;
    let c2 = px + w * (py + 1);
    let c3 = px + 1 + w * (py + 1);
    let h0 = xor_cell(screen, c0);
    let ghost p1 = screen@;
    let h1 = xor_cell(screen, c1);
    let ghost p2 = screen@;
    let h2 = xor_cell(screen, c2);
    let ghost p3 = screen@;
    let h3 = xor_cell(screen, c3);
    let hit = h0 || h1 || h2 || h3;
    proof {
        let t1 = cells.skip(1);
        let t2 = t1.skip(1);
        let t3 = t2.skip(1);
        let t4 = t3.skip(1);
        assert(t1 =~= seq![c1 as int, c2 as int, c3 as int]);
        assert(t2 =~= seq![c2 as int, c3 as int]);
        assert(t3 =~= seq![c3 as int]);
        assert(t4 =~= Seq::<int>::empty());
        assert(xor_cells(screen@, t4) == (screen@, false));
        assert(xor_cells(p3, t3) == (screen@, p3[c3 as int]));
        assert(xor_cells(p2, t2) == (screen@, p2[c2 as int] || p3[c3 as int]));
        assert(xor_cells(p1, t1) == (screen@, p1[c1 as int] || p2[c2 as int] || p3[c3 as int]));
        assert(xor_cells(p0, cells) == (screen@, hit));
    }
    hit
}

/// Draws one sprite onto one plane buffer, returning the number of rows on
/// which a set pixel was toggled off (or counted as a collision by the
/// clipping quirk).
#[verifier::rlimit(100)]
fn draw_plane(
    screen: &mut Vec<bool>,
    ram: &Vec<u8>,
    x_base: usize,
    y_base: usize,
    n: u8,
    addr: usize,
    w: usize,
    h: usize,
    hires: bool,
    variant: Variant,
    clipping: bool,
    clipcollision: bool,
    Ghost(ctx): Ghost<DrawCtx>,
) -> (flipped: u8)
    requires
        n < 16,
        2 <= w <= 128,
        2 <= h <= 64,
        w % 2 == 0,
        h % 2 == 0,
        x_base < w,
        y_base < h,
        old(screen)@.len() == w * h,
        addr + sprite_span(n) <= ram@.len(),
        ctx == (DrawCtx {
            w: w as nat,
            h: h as nat,
            hires: hires,
            variant: variant,
            clipping: clipping,
            clipcollision: clipcollision,
            x_base: x_base as nat,
            y_base: y_base as nat,
            wide: n == 0,
            rows: if n == 0 { 16nat } else { n as nat },
            addr: addr as nat,
            ram: ram@,
        }),
    ensures
        (final(screen)@, flipped as int) == draw_plane_spec(old(screen)@, ctx),
        final(screen)@.len() == old(screen)@.len(),
        flipped <= 16,
{
    let ram_len: usize = ram.len();
    let wide = n == 0;
    let num_rows: usize = if wide { 16 } else { n as usize };
    let ncols: usize = if wide { 16 } else { 8 };
    let width_bytes: usize = if wide { 2 } else { 1 };
    let mask: u16 = if wide { 0x8000 } else { 0x80 };
    let lores2x = !hires && !matches!(variant, Variant::Chip8);
    let wh = w / 2;
    let hh = h / 2;
    proof {
        assert(ctx_cols(ctx) == ncols);
        assert(ctx_mask(ctx) == mask);
        assert(ctx_lores2x(ctx) == lores2x);
        assert(ctx.rows == num_rows);
    }
    let mut flipped: u8 = 0;
    let mut row: usize = 0;
    while row < num_rows
        invariant
            2 <= w <= 128,
            2 <= h <= 64,
            w % 2 == 0,
            h % 2 == 0,
            w == 2 * wh,
            h == 2 * hh,
            x_base < w,
            y_base < h,
            wide == (n == 0),
            num_rows == (if wide { 16int } else { n as int }),
            num_rows <= 16,
            ncols == (if wide { 16int } else { 8int }),
            width_bytes == (if wide { 2int } else { 1int }),
            mask == (if wide { 0x8000u16 } else { 0x80u16 }),
            addr + width_bytes * num_rows <= ram_len,
            ram_len == ram@.len(),
            ctx == (DrawCtx {
                w: w as nat,
                h: h as nat,
                hires: hires,
                variant: variant,
                clipping: clipping,
                clipcollision: clipcollision,
                x_base: x_base as nat,
                y_base: y_base as nat,
                wide: n == 0,
                rows: num_rows as nat,
                addr: addr as nat,
                ram: ram@,
            }),
            lores2x == ctx_lores2x(ctx),
            row <= num_rows,
            flipped <= row,
            screen@.len() == w * h,
            (screen@, flipped as int) == draw_upto(old(screen)@, ctx, row as int),
        decreases num_rows - row,
    {
        let ghost row_start = screen@;
        let ghost flipped_start = flipped as int;
        proof {
            assert(width_bytes * row + width_bytes <= width_bytes * num_rows) by (nonlinear_arith)
                requires
                    row < num_rows,
                    width_bytes >= 1,
            ;
        }
        let address = addr + width_bytes * row;
        let pixels: u16;
        if wide {
            let hi = ram[address] as u16;
            let lo = ram[address + 1] as u16;
            pixels = (hi << 8u16) | lo;
            proof {
                assert(((hi << 8u16) | lo) == hi * 256 + lo) by (bit_vector)
                    requires
                        hi < 256 && lo < 256,
                ;
                assert(pixels == sprite_word(ctx, row as int));
            }
        } else {
            pixels = ram[address] as u16;
            proof {
                assert(pixels == sprite_word(ctx, row as int));
            }
        }
        let mut row_flipped = false;
        let mut col: usize = 0;
        while col < ncols
            invariant
                2 <= w <= 128,
                2 <= h <= 64,
                w == 2 * wh,
                h == 2 * hh,
                x_base < w,
                y_base < h,
                wide == (n == 0),
                num_rows == (if wide { 16int } else { n as int }),
                ncols == (if wide { 16int } else { 8int }),
                mask == (if wide { 0x8000u16 } else { 0x80u16 }),
                ctx == (DrawCtx {
                    w: w as nat,
                    h: h as nat,
                    hires: hires,
                    variant: variant,
                    clipping: clipping,
                    clipcollision: clipcollision,
                    x_base: x_base as nat,
                    y_base: y_base as nat,
                    wide: n == 0,
                    rows: num_rows as nat,
                    addr: addr as nat,
                    ram: ram@,
                }),
                lores2x == ctx_lores2x(ctx),
                row < num_rows,
                col <= ncols,
                pixels == sprite_word(ctx, row as int),
                screen@.len() == w * h,
                (screen@, row_flipped) == draw_row_upto(row_start, ctx, row as int, col as int),
            decreases ncols - col,
        {
            proof {
                assert(sprite_bit(ctx, row as int, col as int) == (pixels & (mask >> (col as u16))
                    != 0));
            }
            if pixels & (mask >> (col as u16)) != 0 {
                let hit: bool;
                let mut dropped = false;
                if lores2x {
                    let xb = x_base % wh;
                    let yb = y_base % hh;
                    let ex = 2 * (xb + col);
                    let ey = 2 * (yb + row);
                    proof {
                        assert(ex == eff_x(ctx, col as int));
                        assert(ey == eff_y(ctx, row as int));
                    }
                    if clipping {
                        if ex < w && ey < h {
                            proof {
                                assert(ex + w * ey < w * h && ex + 1 + w * ey < w * h && ex + w * (
                                ey + 1) < w * h && (ex + 1) + w * (ey + 1) < w * h)
                                    by (nonlinear_arith)
                                    requires
                                        ex + 1 < w,
                                        ey + 1 < h,
                                        w >= 1,
                                ;
                            }
                            hit = xor_block(screen, ex, ey, w);
                            proof {
                                assert(pixel_cells(ctx, row as int, col as int) =~= block_cells(
                                    ex as int,
                                    ey as int,
                                    w as int,
                                ));
                            }
                        } else {
                            hit = false;
                            dropped = true;
                        }
                    } else {
                        let px = 2 * ((xb + col) % wh);
                        let py = 2 * ((yb + row) % hh);
                        proof {
                            lemma_double_mod((xb + col) as int, wh as int);
                            lemma_double_mod((yb + row) as int, hh as int);
                            assert(px == pixel_x(ctx, col as int));
                            assert(py == pixel_y(ctx, row as int));
                            assert(px + w * py < w * h && px + 1 + w * py < w * h && px + w * (
                            py + 1) < w * h && (px + 1) + w * (py + 1) < w * h)
                                by (nonlinear_arith)
                                requires
                                    px + 1 < w,
                                    py + 1 < h,
                                    w >= 1,
                            ;
                        }
                        hit = xor_block(screen, px, py, w);
                        proof {
                            assert(pixel_cells(ctx, row as int, col as int) =~= block_cells(
                                px as int,
                                py as int,
                                w as int,
                            ));
                        }
                    }
                } else {
                    let ex = x_base + col;
                    let ey = y_base + row;
                    proof {
                        assert(ex == eff_x(ctx, col as int));
                        assert(ey == eff_y(ctx, row as int));
                    }
                    if clipping {
                        if ex < w && ey < h {
                            proof {
                                assert(ex + w * ey < w * h) by (nonlinear_arith)
                                    requires
                                        ex < w,
                                        ey < h,
                                        w >= 1,
                                ;
                            }
                            hit = xor_single(screen, ex, ey, w);
                            proof {
                                assert(pixel_cells(ctx, row as int, col as int) =~= single_cell(
                                    ex as int,
                                    ey as int,
                                    w as int,
                                ));
                            }
                        } else {
                            hit = false;
                            dropped = true;
                        }
                    } else {
                        let px = ex % w;
                        let py = ey % h;
                        proof {
                            assert(px == pixel_x(ctx, col as int));
                            assert(py == pixel_y(ctx, row as int));
                            assert(px + w * py < w * h) by (nonlinear_arith)
                                requires
                                    px < w,
                                    py < h,
                                    w >= 1,
                            ;
                        }
                        hit = xor_single(screen, px, py, w);
                        proof {
                            assert(pixel_cells(ctx, row as int, col as int) =~= single_cell(
                                px as int,
                                py as int,
                                w as int,
                            ));
                        }
                    }
                }
                if dropped {
                    if clipcollision {
                        row_flipped = true;
                    }
                    proof {
                        assert(pixel_dropped(ctx, row as int, col as int));
                    }
                } else {
                    row_flipped = row_flipped || hit;
                    proof {
                        assert(!pixel_dropped(ctx, row as int, col as int));
                    }
                }
            }
            col = col + 1;
            proof {
                assert((screen@, row_flipped) == draw_row_upto(
                    row_start,
                    ctx,
                    row as int,
                    col as int,
                ));
            }
        }
        if row_flipped {
            flipped = flipped + 1;
        }
        row = row + 1;
        proof {
            assert((screen@, flipped as int) == draw_upto(old(screen)@, ctx, row as int));
        }
    }
    flipped
}

/// The screen dimensions that well-formedness pins down, in the concrete
/// bounds the buffer arithmetic needs.
proof fn lemma_screen_dims(s: EmuView)
    requires
        view_wf(s),
    ensures
        s.screen.len() <= 8192,
        s.screen2.len() <= 8192,
        (s.screen.len() as int) % (width_of(s.config.variant) as int) == 0,
        (s.screen2.len() as int) % (width_of(s.config.variant) as int) == 0,
        2 <= width_of(s.config.variant) <= 128,
        2 <= height_of(s.config.variant) <= 64,
{
    match s.config.variant {
        Variant::Chip8 => {
            assert(s.screen.len() == 2048);
        },
        Variant::SChip => {
            assert(s.screen.len() == 8192);
        },
        Variant::XOChip => {
            assert(s.screen.len() == 8192);
        },
    }
}

impl Emulator {
    /// Turns off every pixel of the given plane selection.
    #[verifier::rlimit(100)]
    pub(crate) fn clear_screen(&mut self, plane: BitPlane)
        requires
            old(self).wf(),
        ensures
            final(self).wf(),
            final(self)@ == clear_planes(old(self)@, plane),
    {
        match plane {
            BitPlane::NoPlane => {},
            BitPlane::Plane1 => {
                clear_plane(&mut self.screen);
            },
            BitPlane::Plane2 => {
                clear_plane(&mut self.screen2);
            },
            BitPlane::Both => {
                clear_plane(&mut self.screen);
                clear_plane(&mut self.screen2);
            },
        }
    }

    /// `00E0`: clear the active plane(s).
    pub(crate) fn opcode_00e0(&mut self)
        requires
            old(self).wf(),
        ensures
            final(self).wf(),
            final(self)@ == step_00e0(old(self)@),
    {
        let current_plane = self.plane;
        self.clear_screen(current_plane);
    }

    /// `00FE`: leave high-resolution mode; XO-Chip also clears both planes.
    pub(crate) fn opcode_00fe(&mut self)
        requires
            old(self).wf(),
        ensures
            final(self).wf(),
            final(self)@ == step_resolution(old(self)@, false),
    {
        self.high_res_mode = false;
        if matches!(self.config.variant, Variant::XOChip) {
            self.clear_screen(BitPlane::Both);
        }
    }

    /// `00FF`: enter high-resolution mode; XO-Chip also clears both planes.
    pub(crate) fn opcode_00ff(&mut self)
        requires
            old(self).wf(),
        ensures
            final(self).wf(),
            final(self)@ == step_resolution(old(self)@, true),
    {
        self.high_res_mode = true;
        if matches!(self.config.variant, Variant::XOChip) {
            self.clear_screen(BitPlane::Both);
        }
    }

    /// The physical pixel count a nominal scroll distance amounts to.
    fn scroll_value(&self, n: u8) -> (k: usize)
        requires
            n <= 16,
        ensures
            k == scroll_amount(self@, n as nat),
            k <= 32,
    {
        if self.high_res_mode {
            n as usize
        } else {
            match self.config.variant {
                Variant::Chip8 => n as usize,
                Variant::SChip => if self.config.quirk_legacyscroll {
                    n as usize
                } else {
                    2 * n as usize
                },
                Variant::XOChip => 2 * n as usize,
            }
        }
    }

    /// Applies a scroll in direction `dir` to the selected plane(s).
    #[verifier::rlimit(100)]
    fn scroll_selected(&mut self, k: usize, dir: u8)
        requires
            old(self).wf(),
            k <= 32,
            dir < 4,
        ensures
            final(self).wf(),
            final(self)@ == scroll_planes(old(self)@, k as nat, dir as int),
    {
        proof {
            lemma_screen_dims(self@);
        }
        match self.plane {
            BitPlane::NoPlane => {},
            BitPlane::Plane1 => {
                self.screen = scrolled(&self.screen, self.screen_width, k, dir);
            },
            BitPlane::Plane2 => {
                self.screen2 = scrolled(&self.screen2, self.screen_width, k, dir);
            },
            BitPlane::Both => {
                self.screen = scrolled(&self.screen, self.screen_width, k, dir);
                self.screen2 = scrolled(&self.screen2, self.screen_width, k, dir);
            },
        }
    }

    /// `00CN`: scroll the selected plane(s) down.
    pub(crate) fn opcode_00cn(&mut self, n: u8)
        requires
            old(self).wf(),
            n <= 15,
        ensures
            final(self).wf(),
            final(self)@ == step_00cn(old(self)@, n),
    {
        let k = self.scroll_value(n);
        self.scroll_selected(k, 1);
    }

    /// `00DN`: scroll the selected plane(s) up.
    pub(crate) fn opcode_00dn(&mut self, n: u8)
        requires
            old(self).wf(),
            n <= 15,
        ensures
            final(self).wf(),
            final(self)@ == step_00dn(old(self)@, n),
    {
        let k = self.scroll_value(n);
        self.scroll_selected(k, 0);
    }

    /// `00FB`: scroll the selected plane(s) right by 4 nominal pixels.
    pub(crate) fn opcode_00fb(&mut self)
        requires
            old(self).wf(),
        ensures
            final(self).wf(),
            final(self)@ == step_00fb(old(self)@),
    {
        let k = self.scroll_value(4);
        self.scroll_selected(k, 2);
    }

    /// `00FC`: scroll the selected plane(s) left by 4 nominal pixels.
    pub(crate) fn opcode_00fc(&mut self)
        requires
            old(self).wf(),
        ensures
            final(self).wf(),
            final(self)@ == step_00fc(old(self)@),
    {
        let k = self.scroll_value(4);
        self.scroll_selected(k, 3);
    }

    /// Draws one sprite image from memory onto one plane, then records the
    /// collision result in VF.
    pub(crate) fn draw_sprite(
        &mut self,
        x_base: u16,
        y_base: u16,
        n: u8,
        base_address: u16,
        plane: BitPlane,
    )
        requires
            old(self).wf(),
            n < 16,
            plane == BitPlane::Plane1 || plane == BitPlane::Plane2,
            x_base < width_of(old(self)@.config.variant),
            y_base < height_of(old(self)@.config.variant),
            base_address + sprite_span(n) <= old(self)@.ram.len(),
        ensures
            final(self).wf(),
            final(self)@ == (if plane == BitPlane::Plane1 {
                draw_to_plane1(
                    old(self)@,
                    plane_ctx(old(self)@, x_base as nat, y_base as nat, n, base_address as nat),
                )
            } else {
                draw_to_plane2(
                    old(self)@,
                    plane_ctx(old(self)@, x_base as nat, y_base as nat, n, base_address as nat),
                )
            }),
    {
        let w = self.screen_width;
        let h = self.screen_height;
        let ghost ctx = plane_ctx(
            old(self)@,
            x_base as nat,
            y_base as nat,
            n,
            base_address as nat,
        );
        let flipped: u8 = match plane {
            BitPlane::Plane1 => draw_plane(
                &mut self.screen,
                &self.ram,
                x_base as usize,
                y_base as usize,
                n,
                base_address as usize,
                w,
                h,
                self.high_res_mode,
                self.config.variant,
                self.config.quirk_clipping,
                self.config.quirk_clipcollision,
                Ghost(ctx),
            ),
            _ => draw_plane(
                &mut self.screen2,
                &self.ram,
                x_base as usize,
                y_base as usize,
                n,
                base_address as usize,
                w,
                h,
                self.high_res_mode,
                self.config.variant,
                self.config.quirk_clipping,
                self.config.quirk_clipcollision,
                Ghost(ctx),
            ),
        };
        if self.high_res_mode {
            self.v_register[15] = flipped;
        } else {
            self.v_register[15] = if flipped > 0 {
                1
            } else {
                0
            };
        }
        proof {
            if plane == BitPlane::Plane1 {
                assert(self@ =~= draw_to_plane1(old(self)@, ctx));
            } else {
                assert(self@ =~= draw_to_plane2(old(self)@, ctx));
            }
        }
    }

    /// `DXYN`: draw the N-row (or 16-row big) sprite at I onto the plane(s)
    /// the configuration and plane selector pick, at the coordinates VX, VY.
    pub(crate) fn opcode_dxyn(&mut self, x: u8, y: u8, n: u8) -> (r: Result<(), EmuError>)
        requires
            old(self).wf(),
            x < 16,
            y < 16,
            n < 16,
        ensures
            final(self).wf(),
            match r {
                Ok(_) => step_dxyn(old(self)@, x as int, y as int, n) == Ok::<EmuView, EmuError>(
                    final(self)@,
                ),
                Err(e) => step_dxyn(old(self)@, x as int, y as int, n) == Err::<EmuView, EmuError>(
                    e,
                ) && final(self)@ == old(self)@,
            },
    {
        if self.config.quirk_displaywait && !self.key_frame {
            self.pc = self.pc.wrapping_sub(2);
            proof {
                assert(self@ == (EmuView { pc: pc_minus2(old(self)@.pc), ..old(self)@ }));
            }
            return Ok(());
        }
        let x_base = (self.v_register[x as usize] % self.screen_width as u8) as u16;
        let y_base = (self.v_register[y as usize] % self.screen_height as u8) as u16;
        let span: usize = if n == 0 {
            32
        } else {
            n as usize
        };
        let i = self.i_register;
        match self.config.variant {
            Variant::Chip8 | Variant::SChip => {
                if i as usize + span > self.ram.len() {
                    return Err(EmuError::OutOfBoundsAccess);
                }
                self.draw_sprite(x_base, y_base, n, i, BitPlane::Plane1);
                Ok(())
            },
            Variant::XOChip => {
                match self.plane {
                    BitPlane::NoPlane => Ok(()),
                    BitPlane::Plane1 => {
                        if i as usize + span > self.ram.len() {
                            return Err(EmuError::OutOfBoundsAccess);
                        }
                        self.draw_sprite(x_base, y_base, n, i, BitPlane::Plane1);
                        Ok(())
                    },
                    BitPlane::Plane2 => {
                        if i as usize + span > self.ram.len() {
                            return Err(EmuError::OutOfBoundsAccess);
                        }
                        self.draw_sprite(x_base, y_base, n, i, BitPlane::Plane2);
                        Ok(())
                    },
                    BitPlane::Both => {
                        if i as usize + 2 * span > self.ram.len() {
                            return Err(EmuError::OutOfBoundsAccess);
                        }
                        self.draw_sprite(x_base, y_base, n, i, BitPlane::Plane1);
                        let second = i + span as u16;
                        self.draw_sprite(x_base, y_base, n, second, BitPlane::Plane2);
                        proof {
                            assert(plane_ctx(
                                self@,
                                x_base as nat,
                                y_base as nat,
                                n,
                                second as nat,
                            ) == plane_ctx(
                                old(self)@,
                                x_base as nat,
                                y_base as nat,
                                n,
                                (old(self)@.i + sprite_span(n)) as nat,
                            ));
                        }
                        Ok(())
                    },
                }
            },
        }
    }
}

/// Turns off every pixel of one plane buffer.
fn clear_plane(p: &mut Vec<bool>)
    ensures
        final(p)@ == crate::state::all_false(old(p)@.len()),
{
    let n = p.len();
    let mut idx: usize = 0;
    while idx < n
        invariant
            idx <= n,
            p@.len() == n,
            n == old(p)@.len(),
            forall|j: int| 0 <= j < idx ==> p@[j] == false,
        decreases n - idx,
    {
        p[idx] = false;
        idx = idx + 1;
    }
    proof {
        assert(p@ =~= crate::state::all_false(old(p)@.len()));
    }
}

/// A plane shifted by `k` pixels in direction `dir` (`0` up, `1` down, `2`
/// right, `3` left), built pixel by pixel: pixels shifted off the plane are
/// discarded and vacated positions cleared.
fn scrolled(p: &Vec<bool>, w: usize, k: usize, dir: u8) -> (r: Vec<bool>)
    requires
        1 <= w <= 128,
        p@.len() <= 8192,
        (p@.len() as int) % (w as int) == 0,
        k <= 32,
        dir < 4,
    ensures
        r@ == scroll_one(p@, w as nat, k as nat, dir as int),
{
    let n = p.len();
    let mut r: Vec<bool> = Vec::new();
    let mut idx: usize = 0;
    while idx < n
        invariant
            1 <= w <= 128,
            k <= 32,
            dir < 4,
            n == p@.len() <= 8192,
            (n as int) % (w as int) == 0,
            idx <= n,
            r@.len() == idx,
            forall|j: int| 0 <= j < idx ==> r@[j] == scroll_one(p@, w as nat, k as nat, dir as int)[j],
        decreases n - idx,
    {
        proof {
            assert(k * w <= 32 * 128) by (nonlinear_arith)
                requires
                    k <= 32,
                    w <= 128,
            ;
            assert((idx as int) % (w as int) <= idx) by (nonlinear_arith)
                requires
                    w >= 1,
                    idx >= 0,
            ;
            if idx % w + k < w {
                assert(idx + k < n) by (nonlinear_arith)
                    requires
                        idx < n,
                        w >= 1,
                        (idx as int) % (w as int) + k < w,
                        (n as int) % (w as int) == 0,
                ;
            }
        }
        let value: bool = if dir == 0 {
            if idx + k * w < n {
                p[idx + k * w]
            } else {
                false
            }
        } else if dir == 1 {
            if idx >= k * w {
                p[idx - k * w]
            } else {
                false
            }
        } else if dir == 2 {
            if idx % w >= k {
                p[idx - k]
            } else {
                false
            }
        } else {
            if idx % w + k < w {
                p[idx + k]
            } else {
                false
            }
        };
        r.push(value);
        idx = idx + 1;
    }
    proof {
        assert(r@ =~= scroll_one(p@, w as nat, k as nat, dir as int));
    }
    r
}

} // verus!

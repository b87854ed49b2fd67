//! Laws of the instruction semantics, stated and proved over the spec-level
//! transition functions: the flag conventions of the arithmetic group, the
//! clearing opcode, the block store/load round trip, and the involution of
//! XOR sprite drawing.

use vstd::prelude::*;

use vstd::arithmetic::div_mod::lemma_fundamental_div_mod;
use vstd::arithmetic::div_mod::lemma_mod_pos_bound;

use crate::semantics::ctx_cols;
use crate::semantics::ctx_lores2x;
use crate::semantics::lemma_double_mod;
use crate::semantics::draw_plane_spec;
use crate::semantics::draw_row_upto;
use crate::semantics::draw_to_plane1;
use crate::semantics::draw_upto;
use crate::semantics::pixel_cells;
use crate::semantics::plane_ctx;
use crate::semantics::pixel_x;
use crate::semantics::pixel_y;
use crate::semantics::pixel_dropped;
use crate::semantics::sprite_bit;
use crate::semantics::step_00e0;
use crate::semantics::step_8xy1;
use crate::semantics::step_8xy4;
use crate::semantics::step_8xy5;
use crate::semantics::step_fx55;
use crate::semantics::step_fx65;
use crate::semantics::xor_cells;
use crate::semantics::DrawCtx;
use crate::state::view_wf;
use crate::state::BitPlane;
use crate::state::EmuView;

verus! {

/// The carry convention of `8XY4`: the flag register is 1 exactly when the
/// 8-bit sum of VX and VY overflows, whichever register the sum lands in.
pub proof fn lemma_add_sets_carry(s: EmuView, x: int, y: int)
    requires
        view_wf(s),
        0 <= x < 16,
        0 <= y < 16,
    ensures
        step_8xy4(s, x, y).v[15] == (if s.v[x] + s.v[y] > 255 {
            1u8
        } else {
            0u8
        }),
{
}

/// The inverted borrow convention of `8XY5`: the flag register is 0 exactly
/// when VX is less than VY, that is, when the subtraction borrows.
pub proof fn lemma_sub_clears_flag_on_borrow(s: EmuView, x: int, y: int)
    requires
        view_wf(s),
        0 <= x < 16,
        0 <= y < 16,
    ensures
        step_8xy5(s, x, y).v[15] == (if s.v[x] < s.v[y] {
            0u8
        } else {
            1u8
        }),
{
}

/// Under the flag-reset quirk, the bitwise OR opcode always leaves the flag
/// register at 0, whatever it held before.
pub proof fn lemma_or_resets_flag(s: EmuView, x: int, y: int)
    requires
        view_wf(s),
        0 <= x < 16,
        0 <= y < 16,
        s.config.quirk_vfreset,
    ensures
        step_8xy1(s, x, y).v[15] == 0,
{
}

/// The clear opcode turns every pixel of the active plane(s) off, whatever
/// was drawn before.
pub proof fn lemma_clear_clears_active_planes(s: EmuView)
    requires
        view_wf(s),
    ensures
        s.plane == BitPlane::Plane1 || s.plane == BitPlane::Both ==> (forall|i: int|
            0 <= i < step_00e0(s).screen.len() ==> !step_00e0(s).screen[i]),
        s.plane == BitPlane::Plane2 || s.plane == BitPlane::Both ==> (forall|i: int|
            0 <= i < step_00e0(s).screen2.len() ==> !step_00e0(s).screen2[i]),
{
}

/// The machine state between the two halves of a store/load round trip:
/// the state the block store left, with the memory pointer put back.
pub open spec fn roundtrip_mid(s: EmuView, x: int) -> EmuView {
    EmuView {
        i: s.i,
        ..(match step_fx55(s, x) {
            Ok(t) => t,
            Err(_) => s,
        })
    }
}

/// `FX55` then `FX65` with the same X and memory pointer is a round trip:
/// every register V0 through VX reads back exactly the byte it held before
/// the store (and the higher registers are untouched by either half).
pub proof fn lemma_store_load_roundtrip(s: EmuView, x: int)
    requires
        view_wf(s),
        0 <= x < 16,
        s.i + x < s.ram.len(),
    ensures
        step_fx55(s, x) is Ok,
        step_fx65(roundtrip_mid(s, x), x) is Ok,
        (match step_fx65(roundtrip_mid(s, x), x) {
            Ok(t) => t.v == s.v,
            Err(_) => false,
        }),
{
    let mid = roundtrip_mid(s, x);
    let loaded = match step_fx65(mid, x) {
        Ok(t) => t,
        Err(_) => s,
    };
    assert forall|j: int| 0 <= j < 16 implies loaded.v[j] == s.v[j] by {
        if j <= x {
            assert(mid.ram[mid.i + j] == s.v[j]);
        }
    }
    assert(loaded.v =~= s.v);
}

/// The shape of a plane-draw context that a well-formed machine produces:
/// even screen dimensions in their hardware bounds, base coordinates on the
/// screen, and a plane buffer of matching size.
pub open spec fn draw_ctx_wf(ctx: DrawCtx, len: int) -> bool {
    &&& 2 <= ctx.w <= 128
    &&& 2 <= ctx.h <= 64
    &&& ctx.w % 2 == 0
    &&& ctx.h % 2 == 0
    &&& ctx.x_base < ctx.w
    &&& ctx.y_base < ctx.h
    &&& len == ctx.w * ctx.h
}

/// The physical coordinates of a kept (non-clipped) sprite pixel lie on
/// the screen; in the doubled mode they are even with room for the 2-by-2
/// block.
proof fn lemma_pixel_coords_in_range(ctx: DrawCtx, row: int, col: int, len: int)
    requires
        draw_ctx_wf(ctx, len),
        !pixel_dropped(ctx, row, col),
        0 <= col,
        0 <= row,
    ensures
        0 <= pixel_x(ctx, col),
        0 <= pixel_y(ctx, row),
        ctx_lores2x(ctx) ==> pixel_x(ctx, col) + 1 < ctx.w && pixel_y(ctx, row) + 1 < ctx.h,
        !ctx_lores2x(ctx) ==> pixel_x(ctx, col) < ctx.w && pixel_y(ctx, row) < ctx.h,
{
    let w = ctx.w as int;
    let h = ctx.h as int;
    let px = pixel_x(ctx, col);
    let py = pixel_y(ctx, row);
    if ctx_lores2x(ctx) {
        let wh = (ctx.w / 2) as int;
        let hh = (ctx.h / 2) as int;
        lemma_fundamental_div_mod(w, 2);
        lemma_fundamental_div_mod(h, 2);
        assert(w == 2 * wh && h == 2 * hh);
        let ax = (ctx.x_base as int) % wh + col;
        let ay = (ctx.y_base as int) % hh + row;
        lemma_mod_pos_bound(ctx.x_base as int, wh);
        lemma_mod_pos_bound(ctx.y_base as int, hh);
        if !ctx.clipping {
            lemma_double_mod(ax, wh);
            lemma_double_mod(ay, hh);
            lemma_mod_pos_bound(ax, wh);
            lemma_mod_pos_bound(ay, hh);
            assert(px == 2 * (ax % wh));
            assert(py == 2 * (ay % hh));
        }
        assert(0 <= px && px + 1 < w && 0 <= py && py + 1 < h);
    } else {
        if !ctx.clipping {
            lemma_mod_pos_bound(crate::semantics::eff_x(ctx, col), w);
            lemma_mod_pos_bound(crate::semantics::eff_y(ctx, row), h);
        }
        assert(0 <= px < w && 0 <= py < h);
    }
}

/// Every cell a kept (non-clipped) sprite pixel toggles lies inside the
/// plane buffer.
proof fn lemma_cells_in_range(ctx: DrawCtx, row: int, col: int, len: int)
    requires
        draw_ctx_wf(ctx, len),
        !pixel_dropped(ctx, row, col),
        0 <= col,
        0 <= row,
    ensures
        forall|k: int| 0 <= k < pixel_cells(ctx, row, col).len() ==> 0 <= #[trigger] pixel_cells(
            ctx,
            row,
            col,
        )[k] < len,
{
    let w = ctx.w as int;
    let h = ctx.h as int;
    let px = pixel_x(ctx, col);
    let py = pixel_y(ctx, row);
    lemma_pixel_coords_in_range(ctx, row, col, len);
    if ctx_lores2x(ctx) {
        assert(0 <= px + w * py && px + 1 + w * (py + 1) < w * h && px + w * py <= px + 1 + w * (py
            + 1) && px + 1 + w * py <= px + 1 + w * (py + 1) && px + w * (py + 1) <= px + 1 + w * (
        py + 1)) by (nonlinear_arith)
            requires
                0 <= px,
                0 <= py,
                px + 1 < w,
                py + 1 < h,
                w >= 1,
        ;
    } else {
        assert(0 <= px + w * py && px + w * py < w * h) by (nonlinear_arith)
            requires
                0 <= px < w,
                0 <= py < h,
                w >= 1,
        ;
    }
}

/// XOR-compositing a fixed cell list toggles the same positions whatever
/// the plane held: two starting contents end up changed at exactly the same
/// cells.
proof fn lemma_xor_cells_toggle(p: Seq<bool>, q: Seq<bool>, cells: Seq<int>)
    requires
        p.len() == q.len(),
        forall|k: int| 0 <= k < cells.len() ==> 0 <= #[trigger] cells[k] < p.len(),
    ensures
        xor_cells(p, cells).0.len() == p.len(),
        xor_cells(q, cells).0.len() == q.len(),
        forall|i: int| 0 <= i < p.len() ==> ((xor_cells(p, cells).0[i] != p[i]) == (#[trigger] xor_cells(
            q,
            cells,
        ).0[i] != q[i])),
    decreases cells.len(),
{
    if cells.len() > 0 {
        let c = cells[0];
        let p1 = p.update(c, !p[c]);
        let q1 = q.update(c, !q[c]);
        assert(forall|k: int| 0 <= k < cells.skip(1).len() ==> #[trigger] cells.skip(1)[k]
            == cells[k + 1]);
        lemma_xor_cells_toggle(p1, q1, cells.skip(1));
    }
}

/// One sprite row toggles the same positions whatever the plane held.
proof fn lemma_draw_row_toggle(p: Seq<bool>, q: Seq<bool>, ctx: DrawCtx, row: int, ncol: int)
    requires
        draw_ctx_wf(ctx, p.len() as int),
        p.len() == q.len(),
        0 <= row,
        0 <= ncol,
    ensures
        draw_row_upto(p, ctx, row, ncol).0.len() == p.len(),
        draw_row_upto(q, ctx, row, ncol).0.len() == q.len(),
        forall|i: int| 0 <= i < p.len() ==> ((draw_row_upto(p, ctx, row, ncol).0[i] != p[i]) == (
        #[trigger] draw_row_upto(q, ctx, row, ncol).0[i] != q[i])),
    decreases ncol,
{
    if ncol > 0 {
        let col = ncol - 1;
        lemma_draw_row_toggle(p, q, ctx, row, col);
        let pp = draw_row_upto(p, ctx, row, col).0;
        let qp = draw_row_upto(q, ctx, row, col).0;
        if sprite_bit(ctx, row, col) && !pixel_dropped(ctx, row, col) {
            lemma_cells_in_range(ctx, row, col, p.len() as int);
            lemma_xor_cells_toggle(pp, qp, pixel_cells(ctx, row, col));
        }
    }
}

/// A whole sprite draw toggles the same positions whatever the plane held.
proof fn lemma_draw_toggle(p: Seq<bool>, q: Seq<bool>, ctx: DrawCtx, nrow: int)
    requires
        draw_ctx_wf(ctx, p.len() as int),
        p.len() == q.len(),
        0 <= nrow,
    ensures
        draw_upto(p, ctx, nrow).0.len() == p.len(),
        draw_upto(q, ctx, nrow).0.len() == q.len(),
        forall|i: int| 0 <= i < p.len() ==> ((draw_upto(p, ctx, nrow).0[i] != p[i]) == (
        #[trigger] draw_upto(q, ctx, nrow).0[i] != q[i])),
    decreases nrow,
{
    if nrow > 0 {
        lemma_draw_toggle(p, q, ctx, nrow - 1);
        let pp = draw_upto(p, ctx, nrow - 1).0;
        let qp = draw_upto(q, ctx, nrow - 1).0;
        lemma_draw_row_toggle(pp, qp, ctx, nrow - 1, crate::semantics::ctx_cols(ctx) as int);
    }
}

/// Drawing the same sprite twice at the same location onto one plane flips
/// every touched pixel back: the plane's contents return to exactly what
/// they were before the first draw.
pub proof fn lemma_draw_twice_restores(p: Seq<bool>, ctx: DrawCtx)
    requires
        draw_ctx_wf(ctx, p.len() as int),
    ensures
        draw_plane_spec(draw_plane_spec(p, ctx).0, ctx).0 == p,
{
    let q = draw_plane_spec(p, ctx).0;
    lemma_draw_toggle(p, p, ctx, ctx.rows as int);
    lemma_draw_toggle(p, q, ctx, ctx.rows as int);
    assert(draw_plane_spec(q, ctx).0 =~= p);
}

/// The same involution at the machine level: two identical draws to the
/// first plane leave its pixels exactly as they started.
pub proof fn lemma_draw_sprite_twice_restores_plane(s: EmuView, ctx: DrawCtx)
    requires
        draw_ctx_wf(ctx, s.screen.len() as int),
    ensures
        draw_to_plane1(draw_to_plane1(s, ctx), ctx).screen == s.screen,
{
    lemma_draw_twice_restores(s.screen, ctx);
}

// ---------------------------------------------------------------------------
// The collision half of the double-draw law: starting from a plane where
// every touched cell is clear, the first draw collides nowhere, and the
// second draw collides on exactly the rows that have a kept sprite pixel.

/// A sprite pixel that is set and survives clipping.
pub open spec fn kept_pixel(ctx: DrawCtx, row: int, col: int) -> bool {
    sprite_bit(ctx, row, col) && !pixel_dropped(ctx, row, col)
}

/// The sprite's column and row counts fit inside the coordinate space the
/// draw addresses, as they do on every real machine of this family.
pub open spec fn draw_ctx_fits(ctx: DrawCtx) -> bool {
    if ctx_lores2x(ctx) {
        ctx_cols(ctx) <= ctx.w / 2 && ctx.rows <= ctx.h / 2
    } else {
        ctx_cols(ctx) <= ctx.w && ctx.rows <= ctx.h
    }
}

/// Cell `i` is toggled by a kept pixel in the first `ncol` columns of `row`.
pub open spec fn row_owns(ctx: DrawCtx, row: int, ncol: int, i: int) -> bool {
    exists|c: int, k: int|
        0 <= c < ncol && kept_pixel(ctx, row, c) && 0 <= k < pixel_cells(ctx, row, c).len()
            && pixel_cells(ctx, row, c)[k] == i
}

/// Cell `i` is toggled by a kept pixel in the first `nrow` sprite rows.
pub open spec fn draw_owns(ctx: DrawCtx, nrow: int, i: int) -> bool {
    exists|r: int| 0 <= r < nrow && row_owns(ctx, r, ctx_cols(ctx) as int, i)
}

/// Whether a row holds at least one kept pixel.
pub open spec fn row_has_kept(ctx: DrawCtx, row: int) -> bool {
    exists|c: int| 0 <= c < ctx_cols(ctx) && kept_pixel(ctx, row, c)
}

/// How many of the first `nrow` sprite rows hold a kept pixel.
pub open spec fn kept_rows_upto(ctx: DrawCtx, nrow: int) -> int
    decreases nrow,
{
    if nrow <= 0 {
        0
    } else {
        kept_rows_upto(ctx, nrow - 1) + (if row_has_kept(ctx, nrow - 1) {
            1int
        } else {
            0int
        })
    }
}

/// Two distinct positions inside the addressable grid land on two distinct
/// buffer cells.
proof fn lemma_linear_cell_inj(x1: int, y1: int, x2: int, y2: int, w: int)
    requires
        0 <= x1 < w,
        0 <= x2 < w,
        0 <= y1,
        0 <= y2,
        x1 != x2 || y1 != y2,
    ensures
        x1 + w * y1 != x2 + w * y2,
{
    assert(x1 + w * y1 != x2 + w * y2) by (nonlinear_arith)
        requires
            0 <= x1 < w,
            0 <= x2 < w,
            0 <= y1,
            0 <= y2,
            x1 != x2 || y1 != y2,
    ;
}

/// Adding two different offsets below the modulus to the same base gives
/// two different remainders.
proof fn lemma_mod_window_inj(a: int, r1: int, r2: int, m: int)
    requires
        m > 0,
        a >= 0,
        0 <= r1 < m,
        0 <= r2 < m,
        r1 != r2,
    ensures
        (a + r1) % m != (a + r2) % m,
{
    lemma_fundamental_div_mod(a + r1, m);
    lemma_fundamental_div_mod(a + r2, m);
    if (a + r1) % m == (a + r2) % m {
        let q1 = (a + r1) / m;
        let q2 = (a + r2) / m;
        assert(r1 - r2 == m * (q1 - q2)) by (nonlinear_arith)
            requires
                a + r1 == m * q1 + (a + r1) % m,
                a + r2 == m * q2 + (a + r2) % m,
                (a + r1) % m == (a + r2) % m,
        ;
        assert(false) by (nonlinear_arith)
            requires
                r1 - r2 == m * (q1 - q2),
                0 <= r1 < m,
                0 <= r2 < m,
                r1 != r2,
        ;
    }
}

/// Distinct kept columns land on distinct physical columns; in the doubled
/// mode the columns are even, so their 2-wide spans do not overlap either.
proof fn lemma_px_inj(ctx: DrawCtx, len: int, c1: int, c2: int, row1: int, row2: int)
    requires
        draw_ctx_wf(ctx, len),
        draw_ctx_fits(ctx),
        0 <= c1 < ctx_cols(ctx),
        0 <= c2 < ctx_cols(ctx),
        c1 != c2,
        !pixel_dropped(ctx, row1, c1),
        !pixel_dropped(ctx, row2, c2),
    ensures
        pixel_x(ctx, c1) != pixel_x(ctx, c2),
        ctx_lores2x(ctx) ==> pixel_x(ctx, c1) % 2 == 0 && pixel_x(ctx, c2) % 2 == 0 && pixel_x(
            ctx,
            c1,
        ) + 1 != pixel_x(ctx, c2) && pixel_x(ctx, c1) != pixel_x(ctx, c2) + 1,
{
    let w = ctx.w as int;
    if ctx_lores2x(ctx) {
        let wh = (ctx.w / 2) as int;
        lemma_fundamental_div_mod(w, 2);
        let xb = (ctx.x_base as int) % wh;
        lemma_mod_pos_bound(ctx.x_base as int, wh);
        if ctx.clipping {
            assert(pixel_x(ctx, c1) == 2 * (xb + c1) && pixel_x(ctx, c2) == 2 * (xb + c2));
        } else {
            lemma_double_mod(xb + c1, wh);
            lemma_double_mod(xb + c2, wh);
            lemma_mod_window_inj(xb, c1, c2, wh);
            lemma_mod_pos_bound(xb + c1, wh);
            lemma_mod_pos_bound(xb + c2, wh);
            assert(pixel_x(ctx, c1) == 2 * ((xb + c1) % wh) && pixel_x(ctx, c2) == 2 * ((xb + c2)
                % wh));
        }
    } else {
        if ctx.clipping {
        } else {
            lemma_mod_window_inj(ctx.x_base as int, c1, c2, w);
        }
    }
}

/// Distinct rows land on distinct physical rows, with disjoint 2-high
/// spans in the doubled mode.
proof fn lemma_py_inj(ctx: DrawCtx, len: int, r1: int, r2: int, c1: int, c2: int)
    requires
        draw_ctx_wf(ctx, len),
        draw_ctx_fits(ctx),
        0 <= r1 < ctx.rows,
        0 <= r2 < ctx.rows,
        r1 != r2,
        !pixel_dropped(ctx, r1, c1),
        !pixel_dropped(ctx, r2, c2),
    ensures
        pixel_y(ctx, r1) != pixel_y(ctx, r2),
        ctx_lores2x(ctx) ==> pixel_y(ctx, r1) % 2 == 0 && pixel_y(ctx, r2) % 2 == 0 && pixel_y(
            ctx,
            r1,
        ) + 1 != pixel_y(ctx, r2) && pixel_y(ctx, r1) != pixel_y(ctx, r2) + 1,
{
    let h = ctx.h as int;
    if ctx_lores2x(ctx) {
        let hh = (ctx.h / 2) as int;
        lemma_fundamental_div_mod(h, 2);
        let yb = (ctx.y_base as int) % hh;
        lemma_mod_pos_bound(ctx.y_base as int, hh);
        if ctx.clipping {
            assert(pixel_y(ctx, r1) == 2 * (yb + r1) && pixel_y(ctx, r2) == 2 * (yb + r2));
        } else {
            lemma_double_mod(yb + r1, hh);
            lemma_double_mod(yb + r2, hh);
            lemma_mod_window_inj(yb, r1, r2, hh);
            lemma_mod_pos_bound(yb + r1, hh);
            lemma_mod_pos_bound(yb + r2, hh);
            assert(pixel_y(ctx, r1) == 2 * ((yb + r1) % hh) && pixel_y(ctx, r2) == 2 * ((yb + r2)
                % hh));
        }
    } else {
        if ctx.clipping {
        } else {
            lemma_mod_window_inj(ctx.y_base as int, r1, r2, h);
        }
    }
}

/// Two distinct kept sprite pixels toggle disjoint sets of cells.
proof fn lemma_pixels_disjoint(ctx: DrawCtx, len: int, r1: int, c1: int, r2: int, c2: int)
    requires
        draw_ctx_wf(ctx, len),
        draw_ctx_fits(ctx),
        0 <= r1 < ctx.rows,
        0 <= r2 < ctx.rows,
        0 <= c1 < ctx_cols(ctx),
        0 <= c2 < ctx_cols(ctx),
        !(r1 == r2 && c1 == c2),
        kept_pixel(ctx, r1, c1),
        kept_pixel(ctx, r2, c2),
    ensures
        forall|k1: int, k2: int|
            0 <= k1 < pixel_cells(ctx, r1, c1).len() && 0 <= k2 < pixel_cells(ctx, r2, c2).len()
                ==> #[trigger] pixel_cells(ctx, r1, c1)[k1] != #[trigger] pixel_cells(
                ctx,
                r2,
                c2,
            )[k2],
{
    let w = ctx.w as int;
    let px1 = pixel_x(ctx, c1);
    let px2 = pixel_x(ctx, c2);
    let py1 = pixel_y(ctx, r1);
    let py2 = pixel_y(ctx, r2);
    lemma_pixel_coords_in_range(ctx, r1, c1, len);
    lemma_pixel_coords_in_range(ctx, r2, c2, len);
    assert forall|k1: int, k2: int|
        0 <= k1 < pixel_cells(ctx, r1, c1).len() && 0 <= k2 < pixel_cells(ctx, r2, c2).len()
            implies #[trigger] pixel_cells(ctx, r1, c1)[k1] != #[trigger] pixel_cells(
        ctx,
        r2,
        c2,
    )[k2] by {
        if ctx_lores2x(ctx) {
            let x1 = px1 + (if k1 == 1 || k1 == 3 { 1int } else { 0int });
            let y1 = py1 + (if k1 >= 2 { 1int } else { 0int });
            let x2 = px2 + (if k2 == 1 || k2 == 3 { 1int } else { 0int });
            let y2 = py2 + (if k2 >= 2 { 1int } else { 0int });
            assert(pixel_cells(ctx, r1, c1)[k1] == x1 + w * y1);
            assert(pixel_cells(ctx, r2, c2)[k2] == x2 + w * y2);
            if c1 != c2 {
                lemma_px_inj(ctx, len, c1, c2, r1, r2);
                assert(x1 != x2);
            } else {
                lemma_py_inj(ctx, len, r1, r2, c1, c2);
                assert(y1 != y2);
            }
            // The in-range facts give 0 <= x < w for both cells.
            lemma_linear_cell_inj(x1, y1, x2, y2, w);
        } else {
            assert(pixel_cells(ctx, r1, c1)[k1] == px1 + w * py1);
            assert(pixel_cells(ctx, r2, c2)[k2] == px2 + w * py2);
            if c1 != c2 {
                lemma_px_inj(ctx, len, c1, c2, r1, r2);
            } else {
                lemma_py_inj(ctx, len, r1, r2, c1, c2);
            }
            lemma_linear_cell_inj(px1, py1, px2, py2, w);
        }
    }
}

/// XOR-compositing a list of distinct in-range cells that all hold `b`:
/// a collision is reported exactly when `b` is set and the list is not
/// empty, the listed cells flip to the opposite value, and nothing else
/// changes.
proof fn lemma_xor_uniform(p: Seq<bool>, cells: Seq<int>, b: bool)
    requires
        forall|k: int| 0 <= k < cells.len() ==> 0 <= #[trigger] cells[k] < p.len(),
        forall|k1: int, k2: int|
            0 <= k1 < cells.len() && 0 <= k2 < cells.len() && k1 != k2 ==> #[trigger] cells[k1]
                != #[trigger] cells[k2],
        forall|k: int| 0 <= k < cells.len() ==> p[#[trigger] cells[k]] == b,
    ensures
        xor_cells(p, cells).0.len() == p.len(),
        xor_cells(p, cells).1 == (b && cells.len() > 0),
        forall|i: int|
            0 <= i < p.len() ==> xor_cells(p, cells).0[i] == (if exists|k: int|
                0 <= k < cells.len() && cells[k] == i {
                !b
            } else {
                p[i]
            }),
    decreases cells.len(),
{
    if cells.len() > 0 {
        let c = cells[0];
        let p1 = p.update(c, !p[c]);
        let rest = cells.skip(1);
        assert(forall|k: int| 0 <= k < rest.len() ==> #[trigger] rest[k] == cells[k + 1]);
        lemma_xor_uniform(p1, rest, b);
        assert forall|i: int| 0 <= i < p.len() implies xor_cells(p, cells).0[i] == (if exists|
            k: int,
        |
            0 <= k < cells.len() && cells[k] == i {
            !b
        } else {
            p[i]
        }) by {
            if exists|k: int| 0 <= k < cells.len() && cells[k] == i {
                let k = choose|k: int| 0 <= k < cells.len() && cells[k] == i;
                if k == 0 {
                    assert(forall|k2: int| 0 <= k2 < rest.len() ==> rest[k2] != i);
                } else {
                    assert(rest[k - 1] == i);
                }
            } else {
                assert(forall|k2: int| 0 <= k2 < rest.len() ==> rest[k2] != i);
                assert(c != i);
            }
        }
    }
}

/// Scanning one sprite row over a plane whose cells owned by the row's
/// kept pixels all hold `b`: the row collides exactly when `b` is set and
/// a kept pixel exists, the owned cells flip, and nothing else changes.
proof fn lemma_row_scan(t: Seq<bool>, ctx: DrawCtx, len: int, row: int, ncol: int, b: bool)
    requires
        draw_ctx_wf(ctx, len),
        draw_ctx_fits(ctx),
        !ctx.clipcollision,
        len == t.len(),
        0 <= row < ctx.rows,
        0 <= ncol <= ctx_cols(ctx),
        forall|c: int, k: int|
            0 <= c < ncol && kept_pixel(ctx, row, c) && 0 <= k < pixel_cells(ctx, row, c).len()
                ==> t[#[trigger] pixel_cells(ctx, row, c)[k]] == b,
    ensures
        draw_row_upto(t, ctx, row, ncol).0.len() == t.len(),
        draw_row_upto(t, ctx, row, ncol).1 == (b && exists|c: int|
            0 <= c < ncol && kept_pixel(ctx, row, c)),
        forall|i: int|
            0 <= i < t.len() ==> draw_row_upto(t, ctx, row, ncol).0[i] == (if row_owns(
                ctx,
                row,
                ncol,
                i,
            ) {
                !b
            } else {
                t[i]
            }),
    decreases ncol,
{
    if ncol > 0 {
        let col = ncol - 1;
        lemma_row_scan(t, ctx, len, row, col, b);
        let prev = draw_row_upto(t, ctx, row, col);
        if sprite_bit(ctx, row, col) && !pixel_dropped(ctx, row, col) {
            let cells = pixel_cells(ctx, row, col);
            lemma_cells_in_range(ctx, row, col, len);
            // The current pixel's cells are not owned by any earlier column,
            // so they still hold the starting value b.
            assert forall|k: int| 0 <= k < cells.len() implies prev.0[#[trigger] cells[k]]
                == b by {
                assert(!row_owns(ctx, row, col, cells[k])) by {
                    if row_owns(ctx, row, col, cells[k]) {
                        let (c2, k2) = choose|c2: int, k2: int|
                            0 <= c2 < col && kept_pixel(ctx, row, c2) && 0 <= k2 < pixel_cells(
                                ctx,
                                row,
                                c2,
                            ).len() && pixel_cells(ctx, row, c2)[k2] == cells[k];
                        lemma_pixels_disjoint(ctx, len, row, col, row, c2);
                    }
                }
            }
            // Within one pixel the cells are pairwise distinct.
            let w = ctx.w as int;
            lemma_pixel_coords_in_range(ctx, row, col, len);
            let px = pixel_x(ctx, col);
            let py = pixel_y(ctx, row);
            if ctx_lores2x(ctx) {
                assert(cells.len() == 4);
                assert(cells[0] == px + w * py && cells[1] == px + 1 + w * py && cells[2] == px + w
                    * (py + 1) && cells[3] == px + 1 + w * (py + 1));
                assert(w * (py + 1) == w * py + w) by (nonlinear_arith);
                assert(cells[0] != cells[1] && cells[0] != cells[2] && cells[0] != cells[3]
                    && cells[1] != cells[2] && cells[1] != cells[3] && cells[2] != cells[3]);
            } else {
                assert(cells.len() == 1);
            }
            assert(forall|k1: int, k2: int|
                0 <= k1 < cells.len() && 0 <= k2 < cells.len() && k1 != k2 ==> #[trigger] cells[k1]
                    != #[trigger] cells[k2]);
            lemma_xor_uniform(prev.0, cells, b);
            assert(draw_row_upto(t, ctx, row, ncol).1 == (prev.1 || (b && cells.len() > 0)));
            assert(exists|c: int| 0 <= c < ncol && kept_pixel(ctx, row, c));
            assert forall|i: int| 0 <= i < t.len() implies draw_row_upto(t, ctx, row, ncol).0[i]
                == (if row_owns(ctx, row, ncol, i) {
                !b
            } else {
                t[i]
            }) by {
                if row_owns(ctx, row, ncol, i) {
                    let (c2, k2) = choose|c2: int, k2: int|
                        0 <= c2 < ncol && kept_pixel(ctx, row, c2) && 0 <= k2 < pixel_cells(
                            ctx,
                            row,
                            c2,
                        ).len() && pixel_cells(ctx, row, c2)[k2] == i;
                    if c2 == col {
                        assert(exists|k: int| 0 <= k < cells.len() && cells[k] == i);
                    } else {
                        assert(row_owns(ctx, row, col, i));
                        assert forall|k: int| 0 <= k < cells.len() implies cells[k] != i by {
                            lemma_pixels_disjoint(ctx, len, row, col, row, c2);
                        }
                        assert(!(exists|k: int| 0 <= k < cells.len() && cells[k] == i));
                    }
                } else {
                    assert(!row_owns(ctx, row, col, i));
                    assert(!(exists|k: int| 0 <= k < cells.len() && cells[k] == i)) by {
                        if exists|k: int| 0 <= k < cells.len() && cells[k] == i {
                            let k = choose|k: int| 0 <= k < cells.len() && cells[k] == i;
                            assert(row_owns(ctx, row, ncol, i));
                        }
                    }
                }
            }
        } else {
            assert forall|i: int| 0 <= i < t.len() implies draw_row_upto(t, ctx, row, ncol).0[i]
                == (if row_owns(ctx, row, ncol, i) {
                !b
            } else {
                t[i]
            }) by {
                assert(row_owns(ctx, row, ncol, i) == row_owns(ctx, row, col, i)) by {
                    if row_owns(ctx, row, ncol, i) {
                        let (c2, k2) = choose|c2: int, k2: int|
                            0 <= c2 < ncol && kept_pixel(ctx, row, c2) && 0 <= k2 < pixel_cells(
                                ctx,
                                row,
                                c2,
                            ).len() && pixel_cells(ctx, row, c2)[k2] == i;
                        assert(c2 != col);
                        assert(row_owns(ctx, row, col, i));
                    }
                }
            }
            assert(draw_row_upto(t, ctx, row, ncol).1 == (b && exists|c: int|
                0 <= c < ncol && kept_pixel(ctx, row, c))) by {
                if exists|c: int| 0 <= c < ncol && kept_pixel(ctx, row, c) {
                    let c = choose|c: int| 0 <= c < ncol && kept_pixel(ctx, row, c);
                    assert(c != col);
                    assert(exists|c2: int| 0 <= c2 < col && kept_pixel(ctx, row, c2));
                }
            }
        }
    }
}

/// Scanning the whole sprite over a plane whose cells owned by kept pixels
/// all hold `b`: with `b` set every row holding a kept pixel collides and
/// with `b` clear nothing does; the owned cells flip and nothing else
/// changes.
proof fn lemma_draw_scan(p: Seq<bool>, ctx: DrawCtx, len: int, nrow: int, b: bool)
    requires
        draw_ctx_wf(ctx, len),
        draw_ctx_fits(ctx),
        !ctx.clipcollision,
        len == p.len(),
        0 <= nrow <= ctx.rows,
        forall|r: int, c: int, k: int|
            0 <= r < nrow && 0 <= c < ctx_cols(ctx) && kept_pixel(ctx, r, c) && 0 <= k
                < pixel_cells(ctx, r, c).len() ==> p[#[trigger] pixel_cells(ctx, r, c)[k]] == b,
    ensures
        draw_upto(p, ctx, nrow).0.len() == p.len(),
        draw_upto(p, ctx, nrow).1 == (if b {
            kept_rows_upto(ctx, nrow)
        } else {
            0int
        }),
        forall|i: int|
            0 <= i < p.len() ==> draw_upto(p, ctx, nrow).0[i] == (if draw_owns(ctx, nrow, i) {
                !b
            } else {
                p[i]
            }),
    decreases nrow,
{
    let ncol = ctx_cols(ctx) as int;
    if nrow > 0 {
        let row = nrow - 1;
        lemma_draw_scan(p, ctx, len, row, b);
        let prev = draw_upto(p, ctx, row);
        // Cells of this row's kept pixels are untouched by the earlier rows,
        // so they still hold b.
        assert forall|c: int, k: int|
            0 <= c < ncol && kept_pixel(ctx, row, c) && 0 <= k < pixel_cells(ctx, row, c).len()
                implies prev.0[#[trigger] pixel_cells(ctx, row, c)[k]] == b by {
            lemma_cells_in_range(ctx, row, c, len);
            let i = pixel_cells(ctx, row, c)[k];
            assert(!draw_owns(ctx, row, i)) by {
                if draw_owns(ctx, row, i) {
                    let r2 = choose|r2: int| 0 <= r2 < row && row_owns(ctx, r2, ncol, i);
                    let (c2, k2) = choose|c2: int, k2: int|
                        0 <= c2 < ncol && kept_pixel(ctx, r2, c2) && 0 <= k2 < pixel_cells(
                            ctx,
                            r2,
                            c2,
                        ).len() && pixel_cells(ctx, r2, c2)[k2] == i;
                    lemma_pixels_disjoint(ctx, len, row, c, r2, c2);
                }
            }
        }
        lemma_row_scan(prev.0, ctx, len, row, ncol, b);
        let scanned = draw_row_upto(prev.0, ctx, row, ncol);
        assert(scanned.1 == (b && row_has_kept(ctx, row)));
        assert forall|i: int| 0 <= i < p.len() implies draw_upto(p, ctx, nrow).0[i] == (if
        draw_owns(ctx, nrow, i) {
            !b
        } else {
            p[i]
        }) by {
            if draw_owns(ctx, nrow, i) {
                let r2 = choose|r2: int| 0 <= r2 < nrow && row_owns(ctx, r2, ncol, i);
                if r2 == row {
                    assert(scanned.0[i] == !b);
                } else {
                    assert(draw_owns(ctx, row, i));
                    assert(prev.0[i] == !b);
                    // This cell belongs to an earlier row, so the scan of
                    // `row` does not touch it.
                    assert(!row_owns(ctx, row, ncol, i)) by {
                        if row_owns(ctx, row, ncol, i) {
                            let (c1, k1) = choose|c1: int, k1: int|
                                0 <= c1 < ncol && kept_pixel(ctx, row, c1) && 0 <= k1
                                    < pixel_cells(ctx, row, c1).len() && pixel_cells(
                                    ctx,
                                    row,
                                    c1,
                                )[k1] == i;
                            let (c2, k2) = choose|c2: int, k2: int|
                                0 <= c2 < ncol && kept_pixel(ctx, r2, c2) && 0 <= k2 < pixel_cells(
                                    ctx,
                                    r2,
                                    c2,
                                ).len() && pixel_cells(ctx, r2, c2)[k2] == i;
                            lemma_pixels_disjoint(ctx, len, row, c1, r2, c2);
                        }
                    }
                    assert(scanned.0[i] == prev.0[i]);
                }
            } else {
                assert(!draw_owns(ctx, row, i)) by {
                    if draw_owns(ctx, row, i) {
                        let r2 = choose|r2: int| 0 <= r2 < row && row_owns(ctx, r2, ncol, i);
                        assert(draw_owns(ctx, nrow, i));
                    }
                }
                assert(!row_owns(ctx, row, ncol, i)) by {
                    if row_owns(ctx, row, ncol, i) {
                        assert(draw_owns(ctx, nrow, i));
                    }
                }
                assert(scanned.0[i] == prev.0[i]);
            }
        }
    }
}

/// The collision half of the double-draw law.  Starting from a plane where
/// every cell the sprite touches is clear: the first draw reports no
/// collision at all, and the second identical draw reports a collision on
/// exactly the rows holding a kept pixel, because every touched pixel was
/// already set.  The flag register then shows 1 in low resolution, or this
/// row count in high resolution.
pub proof fn lemma_second_draw_collides_everywhere(p: Seq<bool>, ctx: DrawCtx)
    requires
        draw_ctx_wf(ctx, p.len() as int),
        draw_ctx_fits(ctx),
        !ctx.clipcollision,
        forall|r: int, c: int, k: int|
            0 <= r < ctx.rows && 0 <= c < ctx_cols(ctx) && kept_pixel(ctx, r, c) && 0 <= k
                < pixel_cells(ctx, r, c).len() ==> !p[#[trigger] pixel_cells(ctx, r, c)[k]],
    ensures
        draw_plane_spec(p, ctx).1 == 0,
        draw_plane_spec(draw_plane_spec(p, ctx).0, ctx).1 == kept_rows_upto(
            ctx,
            ctx.rows as int,
        ),
{
    let len = p.len() as int;
    let nrow = ctx.rows as int;
    lemma_draw_scan(p, ctx, len, nrow, false);
    let q = draw_plane_spec(p, ctx).0;
    assert forall|r: int, c: int, k: int|
        0 <= r < nrow && 0 <= c < ctx_cols(ctx) && kept_pixel(ctx, r, c) && 0 <= k < pixel_cells(
            ctx,
            r,
            c,
        ).len() implies q[#[trigger] pixel_cells(ctx, r, c)[k]] == true by {
        lemma_cells_in_range(ctx, r, c, len);
        let i = pixel_cells(ctx, r, c)[k];
        assert(row_owns(ctx, r, ctx_cols(ctx) as int, i));
        assert(draw_owns(ctx, nrow, i));
    }
    lemma_draw_scan(q, ctx, len, nrow, true);
}

/// Every draw context a well-formed machine produces satisfies the shape
/// and size hypotheses of the drawing laws above.
pub proof fn lemma_machine_ctx_well_formed(s: EmuView, x_base: nat, y_base: nat, n: u8, addr: nat)
    requires
        view_wf(s),
        x_base < crate::quirks::width_of(s.config.variant),
        y_base < crate::quirks::height_of(s.config.variant),
        n < 16,
    ensures
        draw_ctx_wf(plane_ctx(s, x_base, y_base, n, addr), s.screen.len() as int),
        draw_ctx_fits(plane_ctx(s, x_base, y_base, n, addr)),
{
    match s.config.variant {
        crate::quirks::Variant::Chip8 => {
            assert(crate::quirks::width_of(s.config.variant) == 64);
            assert(crate::quirks::height_of(s.config.variant) == 32);
            assert(s.screen.len() == 64 * 32);
        },
        crate::quirks::Variant::SChip => {
            assert(s.screen.len() == 128 * 64);
        },
        crate::quirks::Variant::XOChip => {
            assert(s.screen.len() == 128 * 64);
        },
    }
}

} // verus!

//! The mathematical semantics of the instruction set: one transition
//! function per opcode over the machine view, combined into a single
//! `step_spec` interpreter that the executable dispatcher is proved against.

use vstd::prelude::*;

use crate::quirks::height_of;
use crate::quirks::width_of;
use crate::quirks::Variant;
use crate::state::all_false;
use crate::state::BitPlane;
use crate::state::EmuError;
use crate::state::EmuView;

verus! {

/// Doubling a value commutes with halving the modulus.
pub proof fn lemma_double_mod(a: int, m: int)
    requires
        m > 0,
        a >= 0,
    ensures
        2 * (a % m) == (2 * a) % (2 * m),
{
    vstd::arithmetic::div_mod::lemma_fundamental_div_mod(a, m);
    assert(2 * a == (a / m) * (2 * m) + 2 * (a % m)) by (nonlinear_arith)
        requires
            a == m * (a / m) + a % m,
    ;
    vstd::arithmetic::div_mod::lemma_fundamental_div_mod_converse(2 * a, 2 * m, a / m, 2 * (a % m));
}

// ---------------------------------------------------------------------------
// Program counter arithmetic (16-bit, wrapping).

pub open spec fn pc_plus(pc: u16, d: u16) -> u16 {
    ((pc + d) % 0x10000) as u16
}

pub open spec fn pc_minus2(pc: u16) -> u16 {
    ((pc + 0xFFFE) % 0x10000) as u16
}

/// Where a taken skip lands: 2 bytes further, or 4 when the skipped
/// instruction is the double-wide `F000`.
pub open spec fn skip_pc(s: EmuView) -> u16 {
    if s.next_wide {
        pc_plus(s.pc, 4)
    } else {
        pc_plus(s.pc, 2)
    }
}

pub open spec fn step_skip(s: EmuView, cond: bool) -> EmuView {
    if cond {
        EmuView { pc: skip_pc(s), ..s }
    } else {
        s
    }
}

// ---------------------------------------------------------------------------
// Small helpers.

pub open spec fn set_v(s: EmuView, x: int, value: u8) -> EmuView {
    EmuView { v: s.v.update(x, value), ..s }
}

/// The classic quirk: bitwise ALU opcodes force the flag register to 0.
pub open spec fn vf_reset_after(s: EmuView) -> EmuView {
    if s.config.quirk_vfreset {
        EmuView { v: s.v.update(15, 0u8), ..s }
    } else {
        s
    }
}

/// The 16-bit big-endian word at `a`.
pub open spec fn word_at(ram: Seq<u8>, a: int) -> u16 {
    (ram[a] * 256 + ram[a + 1]) as u16
}

/// Bytes `start .. start + bytes.len()` replaced inside `ram`.
pub open spec fn store_bytes(ram: Seq<u8>, start: int, bytes: Seq<u8>) -> Seq<u8> {
    Seq::new(
        ram.len(),
        |j: int| if start <= j < start + bytes.len() {
            bytes[j - start]
        } else {
            ram[j]
        },
    )
}

// ---------------------------------------------------------------------------
// Register, timer and control transitions.

pub open spec fn step_1mmm(s: EmuView, nnn: u16) -> EmuView {
    EmuView { pc: nnn, ..s }
}

pub open spec fn step_2mmm(s: EmuView, nnn: u16) -> Result<EmuView, EmuError> {
    if s.stack.len() < 16 {
        Ok(EmuView { stack: s.stack.push(s.pc), pc: nnn, ..s })
    } else {
        Err(EmuError::StackOverflow)
    }
}

pub open spec fn step_00ee(s: EmuView) -> Result<EmuView, EmuError> {
    if s.stack.len() > 0 {
        Ok(EmuView { pc: s.stack.last(), stack: s.stack.drop_last(), ..s })
    } else {
        Err(EmuError::StackUnderflow)
    }
}

pub open spec fn step_3xnn(s: EmuView, x: int, nn: u8) -> EmuView {
    step_skip(s, s.v[x] == nn)
}

pub open spec fn step_4xnn(s: EmuView, x: int, nn: u8) -> EmuView {
    step_skip(s, s.v[x] != nn)
}

pub open spec fn step_5xy0(s: EmuView, x: int, y: int) -> EmuView {
    step_skip(s, s.v[x] == s.v[y])
}

pub open spec fn step_9xy0(s: EmuView, x: int, y: int) -> EmuView {
    step_skip(s, s.v[x] != s.v[y])
}

pub open spec fn step_6xnn(s: EmuView, x: int, nn: u8) -> EmuView {
    set_v(s, x, nn)
}

pub open spec fn step_7xnn(s: EmuView, x: int, nn: u8) -> EmuView {
    set_v(s, x, ((s.v[x] + nn) % 256) as u8)
}

pub open spec fn step_8xy0(s: EmuView, x: int, y: int) -> EmuView {
    set_v(s, x, s.v[y])
}

pub open spec fn step_8xy1(s: EmuView, x: int, y: int) -> EmuView {
    vf_reset_after(set_v(s, x, s.v[x] | s.v[y]))
}

pub open spec fn step_8xy2(s: EmuView, x: int, y: int) -> EmuView {
    vf_reset_after(set_v(s, x, s.v[x] & s.v[y]))
}

pub open spec fn step_8xy3(s: EmuView, x: int, y: int) -> EmuView {
    vf_reset_after(set_v(s, x, s.v[x] ^ s.v[y]))
}

/// Addition with carry: the flag register reports the 8-bit overflow.
pub open spec fn step_8xy4(s: EmuView, x: int, y: int) -> EmuView {
    let sum = s.v[x] + s.v[y];
    EmuView {
        v: s.v.update(x, (sum % 256) as u8).update(15, if sum > 255 { 1u8 } else { 0u8 }),
        ..s
    }
}

/// Subtraction with inverted borrow: the flag is 0 exactly when a borrow
/// occurred.
pub open spec fn step_8xy5(s: EmuView, x: int, y: int) -> EmuView {
    let dif = if s.v[x] >= s.v[y] { s.v[x] - s.v[y] } else { s.v[x] - s.v[y] + 256 };
    EmuView {
        v: s.v.update(x, dif as u8).update(15, if s.v[x] >= s.v[y] { 1u8 } else { 0u8 }),
        ..s
    }
}

pub open spec fn step_8xy7(s: EmuView, x: int, y: int) -> EmuView {
    let dif = if s.v[y] >= s.v[x] { s.v[y] - s.v[x] } else { s.v[y] - s.v[x] + 256 };
    EmuView {
        v: s.v.update(x, dif as u8).update(15, if s.v[y] >= s.v[x] { 1u8 } else { 0u8 }),
        ..s
    }
}

/// The shift source: the classic behaviour first copies VY into VX.
pub open spec fn shift_src(s: EmuView, x: int, y: int) -> u8 {
    if s.config.quirk_shifting {
        s.v[x]
    } else {
        s.v[y]
    }
}

pub open spec fn step_8xy6(s: EmuView, x: int, y: int) -> EmuView {
    let src = shift_src(s, x, y);
    EmuView { v: s.v.update(x, (src / 2) as u8).update(15, (src % 2) as u8), ..s }
}

pub open spec fn step_8xye(s: EmuView, x: int, y: int) -> EmuView {
    let src = shift_src(s, x, y);
    EmuView { v: s.v.update(x, ((src * 2) % 256) as u8).update(15, (src / 128) as u8), ..s }
}

pub open spec fn step_ammm(s: EmuView, nnn: u16) -> EmuView {
    EmuView { i: nnn, ..s }
}

/// Offset jump: the offset register is V0, or VX with X the high nibble of
/// the address when the jumping quirk is on.
pub open spec fn step_bmmm(s: EmuView, nnn: u16, d2: int) -> EmuView {
    let index = if s.config.quirk_jumping { d2 } else { 0 };
    EmuView { pc: (nnn + s.v[index]) as u16, ..s }
}

pub open spec fn step_cxnn(s: EmuView, x: int, nn: u8, rand: u8) -> EmuView {
    set_v(s, x, nn & rand)
}

pub open spec fn step_ex9e(s: EmuView, x: int) -> EmuView {
    step_skip(s, s.keys[(s.v[x] % 16) as int])
}

pub open spec fn step_exa1(s: EmuView, x: int) -> EmuView {
    step_skip(s, !s.keys[(s.v[x] % 16) as int])
}

pub open spec fn step_fx07(s: EmuView, x: int) -> EmuView {
    set_v(s, x, s.delay)
}

/// The lowest pressed key index at or above `idx`, or 0 when none is.
pub open spec fn first_key(keys: Seq<bool>, idx: nat) -> u8
    decreases 16 - idx,
{
    if idx >= 16 {
        0
    } else if keys[idx as int] {
        idx as u8
    } else {
        first_key(keys, idx + 1)
    }
}

/// Wait for a key: store the lowest pressed key, or rewind the program
/// counter so the instruction re-executes on the next step.
pub open spec fn step_fx0a(s: EmuView, x: int) -> EmuView {
    if exists|j: int| 0 <= j < 16 && s.keys[j] {
        set_v(s, x, first_key(s.keys, 0))
    } else {
        EmuView { pc: pc_minus2(s.pc), ..s }
    }
}

pub open spec fn step_fx15(s: EmuView, x: int) -> EmuView {
    EmuView { delay: s.v[x], ..s }
}

pub open spec fn step_fx18(s: EmuView, x: int) -> EmuView {
    EmuView { sound: s.v[x], ..s }
}

pub open spec fn step_fx1e(s: EmuView, x: int) -> EmuView {
    EmuView { i: ((s.i + s.v[x]) % 0x10000) as u16, ..s }
}

/// Point the index register at the 5-byte glyph for digit VX.
pub open spec fn step_fx29(s: EmuView, x: int) -> EmuView {
    EmuView { i: (s.v[x] * 5) as u16, ..s }
}

/// Point the index register at the 10-byte big glyph for digit VX.
pub open spec fn step_fx30(s: EmuView, x: int) -> EmuView {
    EmuView { i: (80 + s.v[x] * 10) as u16, ..s }
}

/// Binary-coded-decimal decomposition of VX into three bytes at I.
pub open spec fn step_fx33(s: EmuView, x: int) -> Result<EmuView, EmuError> {
    if s.i + 2 < s.ram.len() {
        Ok(EmuView {
            ram: store_bytes(
                s.ram,
                s.i as int,
                seq![(s.v[x] / 100) as u8, ((s.v[x] / 10) % 10) as u8, (s.v[x] % 10) as u8],
            ),
            ..s
        })
    } else {
        Err(EmuError::OutOfBoundsAccess)
    }
}

/// The memory pointer after a block store/load: advanced past the block
/// when the memory quirk asks for it.
pub open spec fn advanced_i(s: EmuView, x: int) -> u16 {
    if s.config.quirk_memory {
        ((s.i + x + 1) % 0x10000) as u16
    } else {
        s.i
    }
}

pub open spec fn step_fx55(s: EmuView, x: int) -> Result<EmuView, EmuError> {
    if s.i + x < s.ram.len() {
        Ok(EmuView {
            ram: store_bytes(s.ram, s.i as int, s.v.subrange(0, x + 1)),
            i: advanced_i(s, x),
            ..s
        })
    } else {
        Err(EmuError::OutOfBoundsAccess)
    }
}

pub open spec fn step_fx65(s: EmuView, x: int) -> Result<EmuView, EmuError> {
    if s.i + x < s.ram.len() {
        Ok(EmuView {
            v: Seq::new(16, |j: int| if j <= x { s.ram[s.i + j] } else { s.v[j] }),
            i: advanced_i(s, x),
            ..s
        })
    } else {
        Err(EmuError::OutOfBoundsAccess)
    }
}

pub open spec fn step_00fd(s: EmuView) -> EmuView {
    EmuView { pc: 0x200, ..s }
}

/// Every pixel of the selected plane(s) turned off.
pub open spec fn clear_planes(s: EmuView, p: BitPlane) -> EmuView {
    match p {
        BitPlane::NoPlane => s,
        BitPlane::Plane1 => EmuView { screen: all_false(s.screen.len()), ..s },
        BitPlane::Plane2 => EmuView { screen2: all_false(s.screen2.len()), ..s },
        BitPlane::Both => EmuView {
            screen: all_false(s.screen.len()),
            screen2: all_false(s.screen2.len()),
            ..s
        },
    }
}

pub open spec fn step_00e0(s: EmuView) -> EmuView {
    clear_planes(s, s.plane)
}

/// Resolution switches; on XO-Chip they also clear both planes.
pub open spec fn step_resolution(s: EmuView, high: bool) -> EmuView {
    let s1 = EmuView { high_res: high, ..s };
    if s.config.variant == Variant::XOChip {
        clear_planes(s1, BitPlane::Both)
    } else {
        s1
    }
}

pub open spec fn step_fx75(s: EmuView, x: int) -> EmuView {
    EmuView { rpl: Seq::new(16, |j: int| if j <= x { s.v[j] } else { s.rpl[j] }), ..s }
}

pub open spec fn step_fx85(s: EmuView, x: int) -> EmuView {
    EmuView { v: Seq::new(16, |j: int| if j <= x { s.rpl[j] } else { s.v[j] }), ..s }
}

// ---------------------------------------------------------------------------
// Scrolling.

/// How far a scroll moves, in physical pixels: the nominal amount doubles in
/// low resolution, except on the classic machine (which has no other mode)
/// and under the legacy scroll quirk.
pub open spec fn scroll_amount(s: EmuView, n: nat) -> nat {
    if s.high_res {
        n
    } else {
        match s.config.variant {
            Variant::Chip8 => n,
            Variant::SChip => if s.config.quirk_legacyscroll { n } else { 2 * n },
            Variant::XOChip => 2 * n,
        }
    }
}

pub open spec fn scroll_plane_up(p: Seq<bool>, w: nat, k: nat) -> Seq<bool> {
    Seq::new(p.len(), |idx: int| if idx + k * w < p.len() { p[idx + k * w] } else { false })
}

pub open spec fn scroll_plane_down(p: Seq<bool>, w: nat, k: nat) -> Seq<bool> {
    Seq::new(p.len(), |idx: int| if idx - k * w >= 0 { p[idx - k * w] } else { false })
}

pub open spec fn scroll_plane_right(p: Seq<bool>, w: nat, k: nat) -> Seq<bool> {
    Seq::new(p.len(), |idx: int| if idx % (w as int) >= k { p[idx - k] } else { false })
}

pub open spec fn scroll_plane_left(p: Seq<bool>, w: nat, k: nat) -> Seq<bool> {
    Seq::new(p.len(), |idx: int| if idx % (w as int) + k < w { p[idx + k] } else { false })
}

/// Applies a scroll of `k` pixels in one direction (`0` up, `1` down, `2`
/// right, `3` left) to one plane's contents.
pub open spec fn scroll_one(p: Seq<bool>, w: nat, k: nat, dir: int) -> Seq<bool> {
    if dir == 0 {
        scroll_plane_up(p, w, k)
    } else if dir == 1 {
        scroll_plane_down(p, w, k)
    } else if dir == 2 {
        scroll_plane_right(p, w, k)
    } else {
        scroll_plane_left(p, w, k)
    }
}

/// A scroll applied to the plane(s) that the selector picks.
pub open spec fn scroll_planes(s: EmuView, k: nat, dir: int) -> EmuView {
    let w = width_of(s.config.variant);
    match s.plane {
        BitPlane::NoPlane => s,
        BitPlane::Plane1 => EmuView { screen: scroll_one(s.screen, w, k, dir), ..s },
        BitPlane::Plane2 => EmuView { screen2: scroll_one(s.screen2, w, k, dir), ..s },
        BitPlane::Both => EmuView {
            screen: scroll_one(s.screen, w, k, dir),
            screen2: scroll_one(s.screen2, w, k, dir),
            ..s
        },
    }
}

pub open spec fn step_00cn(s: EmuView, n: u8) -> EmuView {
    scroll_planes(s, scroll_amount(s, n as nat), 1)
}

pub open spec fn step_00dn(s: EmuView, n: u8) -> EmuView {
    scroll_planes(s, scroll_amount(s, n as nat), 0)
}

pub open spec fn step_00fb(s: EmuView) -> EmuView {
    scroll_planes(s, scroll_amount(s, 4), 2)
}

pub open spec fn step_00fc(s: EmuView) -> EmuView {
    scroll_planes(s, scroll_amount(s, 4), 3)
}

// ---------------------------------------------------------------------------
// Register-range save/load (XO-Chip), both endpoints inclusive in either
// direction.

/// The register whose value lands `off` bytes into the stored block.
pub open spec fn range_reg(x: int, y: int, off: int) -> int {
    if x <= y {
        x + off
    } else {
        x - off
    }
}

pub open spec fn range_len(x: int, y: int) -> int {
    if x <= y {
        y - x + 1
    } else {
        x - y + 1
    }
}

pub open spec fn step_5xy2(s: EmuView, x: int, y: int) -> Result<EmuView, EmuError> {
    let d = range_len(x, y) - 1;
    if s.i + d < s.ram.len() {
        Ok(EmuView {
            ram: Seq::new(
                s.ram.len(),
                |j: int| if s.i <= j <= s.i + d {
                    s.v[range_reg(x, y, j - s.i)]
                } else {
                    s.ram[j]
                },
            ),
            ..s
        })
    } else {
        Err(EmuError::OutOfBoundsAccess)
    }
}

pub open spec fn step_5xy3(s: EmuView, x: int, y: int) -> Result<EmuView, EmuError> {
    let d = range_len(x, y) - 1;
    let lo = if x <= y { x } else { y };
    let hi = if x <= y { y } else { x };
    if s.i + d < s.ram.len() {
        Ok(EmuView {
            v: Seq::new(
                16,
                |j: int| if lo <= j <= hi {
                    s.ram[s.i + (if x <= y { j - x } else { x - j })]
                } else {
                    s.v[j]
                },
            ),
            ..s
        })
    } else {
        Err(EmuError::OutOfBoundsAccess)
    }
}

// ---------------------------------------------------------------------------
// XO-Chip long loads and audio.

/// `F000`: load the following 16-bit word into I, consuming it.
pub open spec fn step_f000(s: EmuView) -> Result<EmuView, EmuError> {
    if s.pc + 1 < s.ram.len() {
        Ok(EmuView { i: word_at(s.ram, s.pc as int), pc: pc_plus(s.pc, 2), ..s })
    } else {
        Err(EmuError::OutOfBoundsAccess)
    }
}

pub open spec fn step_fn01(s: EmuView, n: u8) -> EmuView {
    EmuView {
        plane: if n == 0 {
            BitPlane::NoPlane
        } else if n == 1 {
            BitPlane::Plane1
        } else if n == 2 {
            BitPlane::Plane2
        } else {
            BitPlane::Both
        },
        ..s
    }
}

pub open spec fn step_f002(s: EmuView) -> Result<EmuView, EmuError> {
    if s.i + 15 < s.ram.len() {
        Ok(EmuView { pattern: s.ram.subrange(s.i as int, s.i + 16), ..s })
    } else {
        Err(EmuError::OutOfBoundsAccess)
    }
}

pub open spec fn step_fx3a(s: EmuView, x: int) -> EmuView {
    EmuView { pitch: s.v[x], ..s }
}

// ---------------------------------------------------------------------------
// Sprite drawing.

/// Everything one plane draw depends on besides the plane's own contents.
pub ghost struct DrawCtx {
    pub w: nat,
    pub h: nat,
    pub hires: bool,
    pub variant: Variant,
    pub clipping: bool,
    pub clipcollision: bool,
    /// Base column, already reduced modulo the screen width.
    pub x_base: nat,
    /// Base row, already reduced modulo the screen height.
    pub y_base: nat,
    /// True for the 16-column big sprite (N = 0).
    pub wide: bool,
    /// Number of sprite rows.
    pub rows: nat,
    /// First sprite byte in memory.
    pub addr: nat,
    pub ram: Seq<u8>,
}

pub open spec fn ctx_cols(ctx: DrawCtx) -> nat {
    if ctx.wide {
        16
    } else {
        8
    }
}

/// In low resolution the SUPER-CHIP and XO-Chip machines draw each logical
/// pixel as a 2-by-2 physical block.
pub open spec fn ctx_lores2x(ctx: DrawCtx) -> bool {
    !ctx.hires && ctx.variant != Variant::Chip8
}

/// The sprite row's pixels, one bit per column, highest bit leftmost.
pub open spec fn sprite_word(ctx: DrawCtx, row: int) -> u16 {
    if ctx.wide {
        (ctx.ram[ctx.addr + 2 * row] * 256 + ctx.ram[ctx.addr + 2 * row + 1]) as u16
    } else {
        ctx.ram[ctx.addr + row] as u16
    }
}

pub open spec fn ctx_mask(ctx: DrawCtx) -> u16 {
    if ctx.wide {
        0x8000
    } else {
        0x80
    }
}

pub open spec fn sprite_bit(ctx: DrawCtx, row: int, col: int) -> bool {
    sprite_word(ctx, row) & (ctx_mask(ctx) >> (col as u16)) != 0
}

/// The physical column a sprite pixel lands on before any wrapping.
pub open spec fn eff_x(ctx: DrawCtx, col: int) -> int {
    if ctx_lores2x(ctx) {
        2 * ((ctx.x_base as int) % ((ctx.w / 2) as int) + col)
    } else {
        ctx.x_base + col
    }
}

pub open spec fn eff_y(ctx: DrawCtx, row: int) -> int {
    if ctx_lores2x(ctx) {
        2 * ((ctx.y_base as int) % ((ctx.h / 2) as int) + row)
    } else {
        ctx.y_base + row
    }
}

/// With hard clipping, pixels past the screen edge are dropped.
pub open spec fn pixel_dropped(ctx: DrawCtx, row: int, col: int) -> bool {
    ctx.clipping && !(eff_x(ctx, col) < ctx.w && eff_y(ctx, row) < ctx.h)
}

pub open spec fn pixel_x(ctx: DrawCtx, col: int) -> int {
    if ctx.clipping {
        eff_x(ctx, col)
    } else {
        eff_x(ctx, col) % (ctx.w as int)
    }
}

pub open spec fn pixel_y(ctx: DrawCtx, row: int) -> int {
    if ctx.clipping {
        eff_y(ctx, row)
    } else {
        eff_y(ctx, row) % (ctx.h as int)
    }
}

/// The buffer cells one sprite pixel toggles: a single cell, or the 2-by-2
/// block in doubled low resolution.
pub open spec fn pixel_cells(ctx: DrawCtx, row: int, col: int) -> Seq<int> {
    let x = pixel_x(ctx, col);
    let y = pixel_y(ctx, row);
    let w = ctx.w as int;
    if ctx_lores2x(ctx) {
        seq![x + w * y, x + 1 + w * y, x + w * (y + 1), x + 1 + w * (y + 1)]
    } else {
        seq![x + w * y]
    }
}

/// XOR-composites a list of cells into the plane, reporting whether any of
/// them was already set.
pub open spec fn xor_cells(p: Seq<bool>, cells: Seq<int>) -> (Seq<bool>, bool)
    decreases cells.len(),
{
    if cells.len() == 0 {
        (p, false)
    } else {
        let c = cells[0];
        let hit = p[c];
        let rest = xor_cells(p.update(c, !p[c]), cells.skip(1));
        (rest.0, hit || rest.1)
    }
}

/// One sprite row folded into the plane column by column, with the row's
/// collision flag.
pub open spec fn draw_row_upto(p: Seq<bool>, ctx: DrawCtx, row: int, ncol: int) -> (Seq<bool>, bool)
    decreases ncol,
{
    if ncol <= 0 {
        (p, false)
    } else {
        let prev = draw_row_upto(p, ctx, row, ncol - 1);
        let col = ncol - 1;
        if sprite_bit(ctx, row, col) {
            if pixel_dropped(ctx, row, col) {
                (prev.0, prev.1 || ctx.clipcollision)
            } else {
                let ap = xor_cells(prev.0, pixel_cells(ctx, row, col));
                (ap.0, prev.1 || ap.1)
            }
        } else {
            prev
        }
    }
}

/// The whole sprite folded into the plane row by row, with the number of
/// rows that collided.
pub open spec fn draw_upto(p: Seq<bool>, ctx: DrawCtx, nrow: int) -> (Seq<bool>, int)
    decreases nrow,
{
    if nrow <= 0 {
        (p, 0)
    } else {
        let prev = draw_upto(p, ctx, nrow - 1);
        let r = draw_row_upto(prev.0, ctx, nrow - 1, ctx_cols(ctx) as int);
        (r.0, prev.1 + (if r.1 { 1int } else { 0int }))
    }
}

pub open spec fn draw_plane_spec(p: Seq<bool>, ctx: DrawCtx) -> (Seq<bool>, int) {
    draw_upto(p, ctx, ctx.rows as int)
}

/// The flag register after a draw: a row count in high resolution, a
/// boolean otherwise.
pub open spec fn draw_vf(hires: bool, count: int) -> u8 {
    if hires {
        count as u8
    } else if count > 0 {
        1
    } else {
        0
    }
}

/// The context for a draw at the given base coordinates whose sprite bytes
/// start at `addr`.
pub open spec fn plane_ctx(s: EmuView, x_base: nat, y_base: nat, n: u8, addr: nat) -> DrawCtx {
    DrawCtx {
        w: width_of(s.config.variant),
        h: height_of(s.config.variant),
        hires: s.high_res,
        variant: s.config.variant,
        clipping: s.config.quirk_clipping,
        clipcollision: s.config.quirk_clipcollision,
        x_base: x_base,
        y_base: y_base,
        wide: n == 0,
        rows: if n == 0 { 16 } else { n as nat },
        addr: addr,
        ram: s.ram,
    }
}

/// The context for a `DXYN` draw: base coordinates are VX and VY reduced
/// modulo the screen dimensions.
pub open spec fn draw_ctx(s: EmuView, x: int, y: int, n: u8, addr: int) -> DrawCtx {
    let w = width_of(s.config.variant);
    let h = height_of(s.config.variant);
    plane_ctx(
        s,
        (s.v[x] % (w as u8)) as nat,
        (s.v[y] % (h as u8)) as nat,
        n,
        addr as nat,
    )
}

/// Bytes of sprite data one plane draw consumes.
pub open spec fn sprite_span(n: u8) -> nat {
    if n == 0 {
        32
    } else {
        n as nat
    }
}

pub open spec fn draw_to_plane1(s: EmuView, ctx: DrawCtx) -> EmuView {
    let r = draw_plane_spec(s.screen, ctx);
    EmuView { screen: r.0, v: s.v.update(15, draw_vf(s.high_res, r.1)), ..s }
}

pub open spec fn draw_to_plane2(s: EmuView, ctx: DrawCtx) -> EmuView {
    let r = draw_plane_spec(s.screen2, ctx);
    EmuView { screen2: r.0, v: s.v.update(15, draw_vf(s.high_res, r.1)), ..s }
}

/// `DXYN`.  With the display-wait quirk, a step outside a key frame rewinds
/// the program counter and draws nothing.  On XO-Chip the plane selector
/// picks the target; drawing to both planes consumes two consecutive sprite
/// images.
pub open spec fn step_dxyn(s: EmuView, x: int, y: int, n: u8) -> Result<EmuView, EmuError> {
    if s.config.quirk_displaywait && !s.key_frame {
        Ok(EmuView { pc: pc_minus2(s.pc), ..s })
    } else {
        let span = sprite_span(n);
        if s.config.variant == Variant::XOChip {
            match s.plane {
                BitPlane::NoPlane => Ok(s),
                BitPlane::Plane1 => if s.i + span <= s.ram.len() {
                    Ok(draw_to_plane1(s, draw_ctx(s, x, y, n, s.i as int)))
                } else {
                    Err(EmuError::OutOfBoundsAccess)
                },
                BitPlane::Plane2 => if s.i + span <= s.ram.len() {
                    Ok(draw_to_plane2(s, draw_ctx(s, x, y, n, s.i as int)))
                } else {
                    Err(EmuError::OutOfBoundsAccess)
                },
                BitPlane::Both => if s.i + 2 * span <= s.ram.len() {
                    let s1 = draw_to_plane1(s, draw_ctx(s, x, y, n, s.i as int));
                    Ok(draw_to_plane2(s1, draw_ctx(s, x, y, n, s.i + span)))
                } else {
                    Err(EmuError::OutOfBoundsAccess)
                },
            }
        } else {
            if s.i + span <= s.ram.len() {
                Ok(draw_to_plane1(s, draw_ctx(s, x, y, n, s.i as int)))
            } else {
                Err(EmuError::OutOfBoundsAccess)
            }
        }
    }
}

// ---------------------------------------------------------------------------
// The full decoder: nibble fields and the dispatch.

pub open spec fn op_d1(op: u16) -> int {
    (op / 4096) as int
}

pub open spec fn op_d2(op: u16) -> int {
    ((op / 256) % 16) as int
}

pub open spec fn op_d3(op: u16) -> int {
    ((op / 16) % 16) as int
}

pub open spec fn op_d4(op: u16) -> int {
    (op % 16) as int
}

pub open spec fn op_nn(op: u16) -> u8 {
    (op % 256) as u8
}

pub open spec fn op_nnn(op: u16) -> u16 {
    (op % 4096) as u16
}

/// The machine-control group (first nibble 0): clears, return, exit,
/// resolution switches and scrolls.
pub open spec fn step0_spec(s: EmuView, op: u16) -> Result<EmuView, EmuError> {
    let d2 = op_d2(op);
    let d3 = op_d3(op);
    let d4 = op_d4(op);
    if d2 == 0 && d3 == 0 && d4 == 0 {
        Ok(s)
    } else if d2 == 0 && d3 == 0xE && d4 == 0 {
        Ok(step_00e0(s))
    } else if d2 == 0 && d3 == 0xE && d4 == 0xE {
        step_00ee(s)
    } else if d2 == 0 && d3 == 0xF && d4 == 0xD {
        Ok(step_00fd(s))
    } else if d2 == 0 && d3 == 0xF && d4 == 0xE {
        Ok(step_resolution(s, false))
    } else if d2 == 0 && d3 == 0xF && d4 == 0xF {
        Ok(step_resolution(s, true))
    } else if d2 == 0 && d3 == 0xF && d4 == 0xB {
        Ok(step_00fb(s))
    } else if d2 == 0 && d3 == 0xF && d4 == 0xC {
        Ok(step_00fc(s))
    } else if d2 == 0 && d3 == 0xC {
        Ok(step_00cn(s, d4 as u8))
    } else if d2 == 0 && d3 == 0xD {
        Ok(step_00dn(s, d4 as u8))
    } else {
        Err(EmuError::DecodeFailure)
    }
}

/// The `5XY_` group: the register-equality skip and the XO-Chip inclusive
/// register-range save/load.
pub open spec fn step5_spec(s: EmuView, op: u16) -> Result<EmuView, EmuError> {
    let d2 = op_d2(op);
    let d3 = op_d3(op);
    let d4 = op_d4(op);
    if d4 == 0 {
        Ok(step_5xy0(s, d2, d3))
    } else if d4 == 2 {
        step_5xy2(s, d2, d3)
    } else if d4 == 3 {
        step_5xy3(s, d2, d3)
    } else {
        Err(EmuError::DecodeFailure)
    }
}

/// The ALU group (first nibble 8).
pub open spec fn step8_spec(s: EmuView, op: u16) -> Result<EmuView, EmuError> {
    let d2 = op_d2(op);
    let d3 = op_d3(op);
    let d4 = op_d4(op);
    if d4 == 0 {
        Ok(step_8xy0(s, d2, d3))
    } else if d4 == 1 {
        Ok(step_8xy1(s, d2, d3))
    } else if d4 == 2 {
        Ok(step_8xy2(s, d2, d3))
    } else if d4 == 3 {
        Ok(step_8xy3(s, d2, d3))
    } else if d4 == 4 {
        Ok(step_8xy4(s, d2, d3))
    } else if d4 == 5 {
        Ok(step_8xy5(s, d2, d3))
    } else if d4 == 6 {
        Ok(step_8xy6(s, d2, d3))
    } else if d4 == 7 {
        Ok(step_8xy7(s, d2, d3))
    } else if d4 == 0xE {
        Ok(step_8xye(s, d2, d3))
    } else {
        Err(EmuError::DecodeFailure)
    }
}

/// The keypad skip group (first nibble E).
pub open spec fn stepe_spec(s: EmuView, op: u16) -> Result<EmuView, EmuError> {
    let d2 = op_d2(op);
    let d3 = op_d3(op);
    let d4 = op_d4(op);
    if d3 == 9 && d4 == 0xE {
        Ok(step_ex9e(s, d2))
    } else if d3 == 0xA && d4 == 1 {
        Ok(step_exa1(s, d2))
    } else {
        Err(EmuError::DecodeFailure)
    }
}

/// The timer, memory, font, audio and long-load group (first nibble F).
pub open spec fn stepf_spec(s: EmuView, op: u16) -> Result<EmuView, EmuError> {
    let d2 = op_d2(op);
    let d3 = op_d3(op);
    let d4 = op_d4(op);
    if d2 == 0 && d3 == 0 && d4 == 0 {
        step_f000(s)
    } else if d2 == 0 && d3 == 0 && d4 == 2 {
        step_f002(s)
    } else if d3 == 0 && d4 == 1 {
        Ok(step_fn01(s, d2 as u8))
    } else if d3 == 0 && d4 == 7 {
        Ok(step_fx07(s, d2))
    } else if d3 == 0 && d4 == 0xA {
        Ok(step_fx0a(s, d2))
    } else if d3 == 1 && d4 == 5 {
        Ok(step_fx15(s, d2))
    } else if d3 == 1 && d4 == 8 {
        Ok(step_fx18(s, d2))
    } else if d3 == 1 && d4 == 0xE {
        Ok(step_fx1e(s, d2))
    } else if d3 == 2 && d4 == 9 {
        Ok(step_fx29(s, d2))
    } else if d3 == 3 && d4 == 0 {
        Ok(step_fx30(s, d2))
    } else if d3 == 3 && d4 == 3 {
        step_fx33(s, d2)
    } else if d3 == 3 && d4 == 0xA {
        Ok(step_fx3a(s, d2))
    } else if d3 == 5 && d4 == 5 {
        step_fx55(s, d2)
    } else if d3 == 6 && d4 == 5 {
        step_fx65(s, d2)
    } else if d3 == 7 && d4 == 5 {
        Ok(step_fx75(s, d2))
    } else if d3 == 8 && d4 == 5 {
        Ok(step_fx85(s, d2))
    } else {
        Err(EmuError::DecodeFailure)
    }
}

/// One fetch-decode-execute transition for an already fetched opcode.  The
/// byte `rand` stands for the randomness a `CXNN` instruction consumes; every
/// other instruction ignores it.
pub open spec fn step_spec(s: EmuView, op: u16, rand: u8) -> Result<EmuView, EmuError> {
    let d1 = op_d1(op);
    if d1 == 0 {
        step0_spec(s, op)
    } else if d1 == 1 {
        Ok(step_1mmm(s, op_nnn(op)))
    } else if d1 == 2 {
        step_2mmm(s, op_nnn(op))
    } else if d1 == 3 {
        Ok(step_3xnn(s, op_d2(op), op_nn(op)))
    } else if d1 == 4 {
        Ok(step_4xnn(s, op_d2(op), op_nn(op)))
    } else if d1 == 5 {
        step5_spec(s, op)
    } else if d1 == 6 {
        Ok(step_6xnn(s, op_d2(op), op_nn(op)))
    } else if d1 == 7 {
        Ok(step_7xnn(s, op_d2(op), op_nn(op)))
    } else if d1 == 8 {
        step8_spec(s, op)
    } else if d1 == 9 {
        if op_d4(op) == 0 {
            Ok(step_9xy0(s, op_d2(op), op_d3(op)))
        } else {
            Err(EmuError::DecodeFailure)
        }
    } else if d1 == 0xA {
        Ok(step_ammm(s, op_nnn(op)))
    } else if d1 == 0xB {
        Ok(step_bmmm(s, op_nnn(op), op_d2(op)))
    } else if d1 == 0xC {
        Ok(step_cxnn(s, op_d2(op), op_nn(op), rand))
    } else if d1 == 0xD {
        step_dxyn(s, op_d2(op), op_d3(op), op_d4(op) as u8)
    } else if d1 == 0xE {
        stepe_spec(s, op)
    } else {
        stepf_spec(s, op)
    }
}

// ---------------------------------------------------------------------------
// Fetch and the whole step.

/// Reads the instruction word at the program counter, advances it by 2, and
/// records whether the following word is the double-wide `F000` so that a
/// later skip can jump the right distance.
pub open spec fn fetch_spec(s: EmuView) -> Result<(u16, EmuView), EmuError> {
    if s.pc + 1 < s.ram.len() {
        let op = word_at(s.ram, s.pc as int);
        let pc2 = pc_plus(s.pc, 2);
        let wide = pc2 + 1 < s.ram.len() && word_at(s.ram, pc2 as int) == 0xF000;
        Ok((op, EmuView { pc: pc2, next_wide: wide, ..s }))
    } else {
        Err(EmuError::OutOfBoundsAccess)
    }
}

/// One whole caller-driven step: record the key-frame mark, fetch, then
/// execute.
pub open spec fn tick_spec(s: EmuView, key_frame: bool, rand: u8) -> Result<EmuView, EmuError> {
    let s0 = EmuView { key_frame: key_frame, ..s };
    match fetch_spec(s0) {
        Ok(r) => step_spec(r.1, r.0, rand),
        Err(e) => Err(e),
    }
}

/// The machine state left behind by a step that failed: the fetch may or
/// may not have advanced the program counter first.
pub open spec fn tick_err_state(s: EmuView, key_frame: bool) -> EmuView {
    let s0 = EmuView { key_frame: key_frame, ..s };
    match fetch_spec(s0) {
        Ok(r) => r.1,
        Err(_) => s0,
    }
}

} // verus!

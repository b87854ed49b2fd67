//! Executable opcode handlers for the arithmetic, control-flow, skip,
//! timer, memory and audio instructions, each proved to implement its
//! transition function from the semantics module.

use vstd::prelude::*;

use crate::rng::random_byte;
use crate::semantics::advanced_i;
use crate::semantics::first_key;
use crate::semantics::pc_minus2;
use crate::semantics::range_len;
use crate::semantics::range_reg;
use crate::semantics::set_v;
use crate::semantics::skip_pc;
use crate::semantics::step_00ee;
use crate::semantics::step_00fd;
use crate::semantics::step_1mmm;
use crate::semantics::step_2mmm;
use crate::semantics::step_3xnn;
use crate::semantics::step_4xnn;
use crate::semantics::step_5xy0;
use crate::semantics::step_5xy2;
use crate::semantics::step_5xy3;
use crate::semantics::step_6xnn;
use crate::semantics::step_7xnn;
use crate::semantics::step_8xy0;
use crate::semantics::step_8xy1;
use crate::semantics::step_8xy2;
use crate::semantics::step_8xy3;
use crate::semantics::step_8xy4;
use crate::semantics::step_8xy5;
use crate::semantics::step_8xy6;
use crate::semantics::step_8xy7;
use crate::semantics::step_8xye;
use crate::semantics::step_9xy0;
use crate::semantics::step_ammm;
use crate::semantics::step_bmmm;
use crate::semantics::step_cxnn;
use crate::semantics::step_ex9e;
use crate::semantics::step_exa1;
use crate::semantics::step_f000;
use crate::semantics::step_f002;
use crate::semantics::step_fn01;
use crate::semantics::step_fx07;
use crate::semantics::step_fx0a;
use crate::semantics::step_fx15;
use crate::semantics::step_fx18;
use crate::semantics::step_fx1e;
use crate::semantics::step_fx29;
use crate::semantics::step_fx30;
use crate::semantics::step_fx33;
use crate::semantics::step_fx3a;
use crate::semantics::step_fx55;
use crate::semantics::step_fx65;
use crate::semantics::step_fx75;
use crate::semantics::step_fx85;
use crate::semantics::store_bytes;
use crate::semantics::word_at;
use crate::state::BitPlane;
use crate::state::EmuError;
use crate::state::EmuView;
use crate::state::Emulator;

verus! {

/// If every key below `k` is up and key `k` is down, then `k` is the first
/// pressed key.
proof fn lemma_first_key(keys: Seq<bool>, i: nat, k: nat)
    requires
        keys.len() == 16,
        i <= k < 16,
        keys[k as int],
        forall|j: int| i <= j < k ==> !keys[j],
    ensures
        first_key(keys, i) == k,
    decreases 16 - i,
{
    if i < k {
        lemma_first_key(keys, i + 1, k);
    }
}

impl Emulator {
    /// Advances past the next instruction: the skip taken by the
    /// conditional-skip opcodes.
    fn advance_skip(&mut self)
        requires
            old(self).wf(),
        ensures
            final(self).wf(),
            final(self)@ == (EmuView { pc: skip_pc(old(self)@), ..old(self)@ }),
    {
        let d: u16 = if self.next_opcode_double { 4 } else { 2 };
        self.pc = self.pc.wrapping_add(d);
    }

    /// `0000`: no operation.
    pub(crate) fn opcode_0000(&self) {
    }

    /// `00EE`: return from subroutine.
    pub(crate) fn opcode_00ee(&mut self) -> (r: Result<(), EmuError>)
        requires
            old(self).wf(),
        ensures
            final(self).wf(),
            match r {
                Ok(_) => step_00ee(old(self)@) == Ok::<EmuView, EmuError>(final(self)@),
                Err(e) => step_00ee(old(self)@) == Err::<EmuView, EmuError>(e)
                    && final(self)@ == old(self)@,
            },
    {
        let ret_addr = match self.pop() {
            Ok(value) => value,
            Err(e) => {
                return Err(e);
            },
        };
        self.pc = ret_addr;
        Ok(())
    }

    /// `1NNN`: jump.
    pub(crate) fn opcode_1mmm(&mut self, nnn: u16)
        requires
            old(self).wf(),
        ensures
            final(self).wf(),
            final(self)@ == step_1mmm(old(self)@, nnn),
    {
        self.pc = nnn;
    }

    /// `2NNN`: call subroutine, pushing the return address.
    pub(crate) fn opcode_2mmm(&mut self, nnn: u16) -> (r: Result<(), EmuError>)
        requires
            old(self).wf(),
        ensures
            final(self).wf(),
            match r {
                Ok(_) => step_2mmm(old(self)@, nnn) == Ok::<EmuView, EmuError>(final(self)@),
                Err(e) => step_2mmm(old(self)@, nnn) == Err::<EmuView, EmuError>(e)
                    && final(self)@ == old(self)@,
            },
    {
        let here = self.pc;
        match self.push(here) {
            Ok(_) => {},
            Err(e) => {
                return Err(e);
            },
        }
        self.pc = nnn;
        Ok(())
    }

    /// `3XNN`: skip the next instruction if VX equals NN.
    pub(crate) fn opcode_3xnn(&mut self, x: u8, nn: u8)
        requires
            old(self).wf(),
            x < 16,
        ensures
            final(self).wf(),
            final(self)@ == step_3xnn(old(self)@, x as int, nn),
    {
        if self.v_register[x as usize] == nn {
            self.advance_skip();
        }
    }

    /// `4XNN`: skip the next instruction if VX differs from NN.
    pub(crate) fn opcode_4xnn(&mut self, x: u8, nn: u8)
        requires
            old(self).wf(),
            x < 16,
        ensures
            final(self).wf(),
            final(self)@ == step_4xnn(old(self)@, x as int, nn),
    {
        if self.v_register[x as usize] != nn {
            self.advance_skip();
        }
    }

    /// `5XY0`: skip the next instruction if VX equals VY.
    pub(crate) fn opcode_5xy0(&mut self, x: u8, y: u8)
        requires
            old(self).wf(),
            x < 16,
            y < 16,
        ensures
            final(self).wf(),
            final(self)@ == step_5xy0(old(self)@, x as int, y as int),
    {
        if self.v_register[x as usize] == self.v_register[y as usize] {
            self.advance_skip();
        }
    }

    /// `9XY0`: skip the next instruction if VX differs from VY.
    pub(crate) fn opcode_9xy0(&mut self, x: u8, y: u8)
        requires
            old(self).wf(),
            x < 16,
            y < 16,
        ensures
            final(self).wf(),
            final(self)@ == step_9xy0(old(self)@, x as int, y as int),
    {
        if self.v_register[x as usize] != self.v_register[y as usize] {
            self.advance_skip();
        }
    }

    /// `6XNN`: set VX to NN.
    pub(crate) fn opcode_6xnn(&mut self, x: u8, nn: u8)
        requires
            old(self).wf(),
            x < 16,
        ensures
            final(self).wf(),
            final(self)@ == step_6xnn(old(self)@, x as int, nn),
    {
        self.v_register[x as usize] = nn;
    }

    /// `7XNN`: add NN to VX with 8-bit wraparound, flags untouched.
    pub(crate) fn opcode_7xnn(&mut self, x: u8, nn: u8)
        requires
            old(self).wf(),
            x < 16,
        ensures
            final(self).wf(),
            final(self)@ == step_7xnn(old(self)@, x as int, nn),
    {
        let sum: u16 = self.v_register[x as usize] as u16 + nn as u16;
        self.v_register[x as usize] = (sum % 256) as u8;
    }

    /// `8XY0`: copy VY into VX.
    pub(crate) fn opcode_8xy0(&mut self, x: u8, y: u8)
        requires
            old(self).wf(),
            x < 16,
            y < 16,
        ensures
            final(self).wf(),
            final(self)@ == step_8xy0(old(self)@, x as int, y as int),
    {
        self.v_register[x as usize] = self.v_register[y as usize];
    }

    /// `8XY1`: bitwise OR into VX; the flag resets under the quirk.
    pub(crate) fn opcode_8xy1(&mut self, x: u8, y: u8)
        requires
            old(self).wf(),
            x < 16,
            y < 16,
        ensures
            final(self).wf(),
            final(self)@ == step_8xy1(old(self)@, x as int, y as int),
    {
        self.v_register[x as usize] = self.v_register[x as usize] | self.v_register[y as usize];
        if self.config.quirk_vfreset {
            self.v_register[15] = 0;
        }
    }

    /// `8XY2`: bitwise AND into VX; the flag resets under the quirk.
    pub(crate) fn opcode_8xy2(&mut self, x: u8, y: u8)
        requires
            old(self).wf(),
            x < 16,
            y < 16,
        ensures
            final(self).wf(),
            final(self)@ == step_8xy2(old(self)@, x as int, y as int),
    {
        self.v_register[x as usize] = self.v_register[x as usize] & self.v_register[y as usize];
        if self.config.quirk_vfreset {
            self.v_register[15] = 0;
        }
    }

    /// `8XY3`: bitwise XOR into VX; the flag resets under the quirk.
    pub(crate) fn opcode_8xy3(&mut self, x: u8, y: u8)
        requires
            old(self).wf(),
            x < 16,
            y < 16,
        ensures
            final(self).wf(),
            final(self)@ == step_8xy3(old(self)@, x as int, y as int),
    {
        self.v_register[x as usize] = self.v_register[x as usize] ^ self.v_register[y as usize];
        if self.config.quirk_vfreset {
            self.v_register[15] = 0;
        }
    }

    /// `8XY4`: add VY into VX; VF reports the carry.
    pub(crate) fn opcode_8xy4(&mut self, x: u8, y: u8)
        requires
            old(self).wf(),
            x < 16,
            y < 16,
        ensures
            final(self).wf(),
            final(self)@ == step_8xy4(old(self)@, x as int, y as int),
    {
        let sum: u16 = self.v_register[x as usize] as u16 + self.v_register[y as usize] as u16;
        self.v_register[x as usize] = (sum % 256) as u8;
        self.v_register[15] = if sum > 255 { 1 } else { 0 };
    }

    /// `8XY5`: subtract VY from VX; VF is 0 exactly on borrow.
    pub(crate) fn opcode_8xy5(&mut self, x: u8, y: u8)
        requires
            old(self).wf(),
            x < 16,
            y < 16,
        ensures
            final(self).wf(),
            final(self)@ == step_8xy5(old(self)@, x as int, y as int),
    {
        let a = self.v_register[x as usize];
        let b = self.v_register[y as usize];
        let no_borrow = a >= b;
        let dif: u8 = if no_borrow { a - b } else { ((a as u16 + 256) - b as u16) as u8 };
        self.v_register[x as usize] = dif;
        self.v_register[15] = if no_borrow { 1 } else { 0 };
    }

    /// `8XY7`: set VX to VY minus VX; VF is 0 exactly on borrow.
    pub(crate) fn opcode_8xy7(&mut self, x: u8, y: u8)
        requires
            old(self).wf(),
            x < 16,
            y < 16,
        ensures
            final(self).wf(),
            final(self)@ == step_8xy7(old(self)@, x as int, y as int),
    {
        let a = self.v_register[x as usize];
        let b = self.v_register[y as usize];
        let no_borrow = b >= a;
        let dif: u8 = if no_borrow { b - a } else { ((b as u16 + 256) - a as u16) as u8 };
        self.v_register[x as usize] = dif;
        self.v_register[15] = if no_borrow { 1 } else { 0 };
    }

    /// `8XY6`: shift right by one; VF takes the shifted-out bit.  Without
    /// the shifting quirk, VY is first copied into VX.
    pub(crate) fn opcode_8xy6(&mut self, x: u8, y: u8)
        requires
            old(self).wf(),
            x < 16,
            y < 16,
        ensures
            final(self).wf(),
            final(self)@ == step_8xy6(old(self)@, x as int, y as int),
    {
        let src = if !self.config.quirk_shifting {
            self.v_register[y as usize]
        } else {
            self.v_register[x as usize]
        };
        self.v_register[x as usize] = src / 2;
        self.v_register[15] = src % 2;
    }

    /// `8XYE`: shift left by one; VF takes the shifted-out bit.  Without
    /// the shifting quirk, VY is first copied into VX.
    pub(crate) fn opcode_8xye(&mut self, x: u8, y: u8)
        requires
            old(self).wf(),
            x < 16,
            y < 16,
        ensures
            final(self).wf(),
            final(self)@ == step_8xye(old(self)@, x as int, y as int),
    {
        let src = if !self.config.quirk_shifting {
            self.v_register[y as usize]
        } else {
            self.v_register[x as usize]
        };
        self.v_register[x as usize] = ((src as u16 * 2) % 256) as u8;
        self.v_register[15] = src / 128;
    }

    /// `ANNN`: set the index register.
    pub(crate) fn opcode_ammm(&mut self, nnn: u16)
        requires
            old(self).wf(),
        ensures
            final(self).wf(),
            final(self)@ == step_ammm(old(self)@, nnn),
    {
        self.i_register = nnn;
    }

    /// `BNNN`: jump to NNN plus an offset register.
    pub(crate) fn opcode_bmmm(&mut self, nnn: u16, digit2: u8)
        requires
            old(self).wf(),
            nnn < 4096,
            digit2 < 16,
        ensures
            final(self).wf(),
            final(self)@ == step_bmmm(old(self)@, nnn, digit2 as int),
    {
        let index: usize = if self.config.quirk_jumping { digit2 as usize } else { 0 };
        self.pc = nnn + self.v_register[index] as u16;
    }

    /// `CXNN`: mask a random byte with NN into VX.
    pub(crate) fn opcode_cxnn(&mut self, x: u8, nn: u8)
        requires
            old(self).wf(),
            x < 16,
        ensures
            final(self).wf(),
            exists|rd: u8| final(self)@ == step_cxnn(old(self)@, x as int, nn, rd),
    {
        let r = random_byte();
        self.v_register[x as usize] = nn & r;
        proof {
            assert(self@ == step_cxnn(old(self)@, x as int, nn, r));
        }
    }

    /// `EX9E`: skip if the key VX names is pressed (key indices use the low
    /// four bits of VX).
    pub(crate) fn opcode_ex9e(&mut self, x: u8)
        requires
            old(self).wf(),
            x < 16,
        ensures
            final(self).wf(),
            final(self)@ == step_ex9e(old(self)@, x as int),
    {
        let vx = self.v_register[x as usize];
        let key = self.keys[(vx % 16) as usize];
        if key {
            self.advance_skip();
        }
    }

    /// `EXA1`: skip if the key VX names is not pressed.
    pub(crate) fn opcode_exa1(&mut self, x: u8)
        requires
            old(self).wf(),
            x < 16,
        ensures
            final(self).wf(),
            final(self)@ == step_exa1(old(self)@, x as int),
    {
        let vx = self.v_register[x as usize];
        let key = self.keys[(vx % 16) as usize];
        if !key {
            self.advance_skip();
        }
    }

    /// `FX07`: read the delay timer into VX.
    pub(crate) fn opcode_fx07(&mut self, x: u8)
        requires
            old(self).wf(),
            x < 16,
        ensures
            final(self).wf(),
            final(self)@ == step_fx07(old(self)@, x as int),
    {
        self.v_register[x as usize] = self.delay_timer;
    }

    /// `FX0A`: wait for a key press.  Stores the lowest pressed key, or
    /// rewinds the program counter so the instruction busy-polls across
    /// steps.
    pub(crate) fn opcode_fx0a(&mut self, x: u8)
        requires
            old(self).wf(),
            x < 16,
        ensures
            final(self).wf(),
            final(self)@ == step_fx0a(old(self)@, x as int),
    {
        let mut k: usize = 0;
        while k < 16
            invariant
                old(self).wf(),
                x < 16,
                k <= 16,
                self@ == old(self)@,
                self.ram_size == old(self).ram_size,
                self.screen_width == old(self).screen_width,
                self.screen_height == old(self).screen_height,
                forall|j: int| 0 <= j < k ==> !old(self)@.keys[j],
            decreases 16 - k,
        {
            if self.keys[k] {
                self.v_register[x as usize] = k as u8;
                proof {
                    lemma_first_key(old(self)@.keys, 0, k as nat);
                    assert(self@ == set_v(old(self)@, x as int, first_key(old(self)@.keys, 0)));
                }
                return ;
            }
            k = k + 1;
        }
        self.pc = self.pc.wrapping_sub(2);
        proof {
            assert(self@ == (EmuView { pc: pc_minus2(old(self)@.pc), ..old(self)@ }));
        }
    }

    /// `FX15`: load VX into the delay timer.
    pub(crate) fn opcode_fx15(&mut self, x: u8)
        requires
            old(self).wf(),
            x < 16,
        ensures
            final(self).wf(),
            final(self)@ == step_fx15(old(self)@, x as int),
    {
        self.delay_timer = self.v_register[x as usize];
    }

    /// `FX18`: load VX into the sound timer.
    pub(crate) fn opcode_fx18(&mut self, x: u8)
        requires
            old(self).wf(),
            x < 16,
        ensures
            final(self).wf(),
            final(self)@ == step_fx18(old(self)@, x as int),
    {
        self.sound_timer = self.v_register[x as usize];
    }

    /// `FX1E`: add VX to the index register, wrapping at 16 bits.
    pub(crate) fn opcode_fx1e(&mut self, x: u8)
        requires
            old(self).wf(),
            x < 16,
        ensures
            final(self).wf(),
            final(self)@ == step_fx1e(old(self)@, x as int),
    {
        self.i_register = self.i_register.wrapping_add(self.v_register[x as usize] as u16);
    }

    /// `FX29`: point the index register at the 5-byte glyph for digit VX.
    pub(crate) fn opcode_fx29(&mut self, x: u8)
        requires
            old(self).wf(),
            x < 16,
        ensures
            final(self).wf(),
            final(self)@ == step_fx29(old(self)@, x as int),
    {
        let character = self.v_register[x as usize] as u16;
        self.i_register = character * 5;
    }

    /// `FX30`: point the index register at the 10-byte big glyph for VX.
    pub(crate) fn opcode_fx30(&mut self, x: u8)
        requires
            old(self).wf(),
            x < 16,
        ensures
            final(self).wf(),
            final(self)@ == step_fx30(old(self)@, x as int),
    {
        let character = self.v_register[x as usize] as u16;
        self.i_register = 80 + character * 10;
    }

    /// `FX33`: store the three decimal digits of VX at I, I+1, I+2.
    pub(crate) fn opcode_fx33(&mut self, x: u8) -> (r: Result<(), EmuError>)
        requires
            old(self).wf(),
            x < 16,
        ensures
            final(self).wf(),
            match r {
                Ok(_) => step_fx33(old(self)@, x as int) == Ok::<EmuView, EmuError>(final(self)@),
                Err(e) => step_fx33(old(self)@, x as int) == Err::<EmuView, EmuError>(e)
                    && final(self)@ == old(self)@,
            },
    {
        let i = self.i_register as usize;
        if i + 2 >= self.ram.len() {
            return Err(EmuError::OutOfBoundsAccess);
        }
        let value = self.v_register[x as usize];
        self.ram[i] = value / 100;
        self.ram[i + 1] = (value / 10) % 10;
        self.ram[i + 2] = value % 10;
        proof {
            assert(self@.ram =~= store_bytes(
                old(self)@.ram,
                old(self)@.i as int,
                seq![
                    (old(self)@.v[x as int] / 100) as u8,
                    ((old(self)@.v[x as int] / 10) % 10) as u8,
                    (old(self)@.v[x as int] % 10) as u8,
                ],
            ));
        }
        Ok(())
    }

    /// `FX55`: store V0 through VX at memory starting at I; under the
    /// memory quirk, I then advances past the block.
    pub(crate) fn opcode_fx55(&mut self, x: u8) -> (r: Result<(), EmuError>)
        requires
            old(self).wf(),
            x < 16,
        ensures
            final(self).wf(),
            match r {
                Ok(_) => step_fx55(old(self)@, x as int) == Ok::<EmuView, EmuError>(final(self)@),
                Err(e) => step_fx55(old(self)@, x as int) == Err::<EmuView, EmuError>(e)
                    && final(self)@ == old(self)@,
            },
    {
        let i = self.i_register as usize;
        if i + x as usize >= self.ram.len() {
            return Err(EmuError::OutOfBoundsAccess);
        }
        let mut k: usize = 0;
        while k <= x as usize
            invariant
                old(self).wf(),
                x < 16,
                k <= x as usize + 1,
                i == old(self)@.i,
                i + x < old(self)@.ram.len(),
                self@ == (EmuView { ram: self.ram@, ..old(self)@ }),
                self.ram@.len() == old(self)@.ram.len(),
                self.ram_size == old(self).ram_size,
                self.screen_width == old(self).screen_width,
                self.screen_height == old(self).screen_height,
                forall|j: int| 0 <= j < self.ram@.len() ==> self.ram@[j] == (
                    if i <= j < i + k {
                        old(self)@.v[j - i]
                    } else {
                        old(self)@.ram[j]
                    }
                ),
            decreases x as usize + 1 - k,
    {
            self.ram[i + k] = self.v_register[k];
            k = k + 1;
        }
        if self.config.quirk_memory {
            self.i_register = self.i_register.wrapping_add(x as u16 + 1);
        }
        proof {
            assert(self@.ram =~= store_bytes(
                old(self)@.ram,
                old(self)@.i as int,
                old(self)@.v.subrange(0, x as int + 1),
            ));
            assert(self@.i == advanced_i(old(self)@, x as int));
        }
        Ok(())
    }

    /// `FX65`: load V0 through VX from memory starting at I; under the
    /// memory quirk, I then advances past the block.
    pub(crate) fn opcode_fx65(&mut self, x: u8) -> (r: Result<(), EmuError>)
        requires
            old(self).wf(),
            x < 16,
        ensures
            final(self).wf(),
            match r {
                Ok(_) => step_fx65(old(self)@, x as int) == Ok::<EmuView, EmuError>(final(self)@),
                Err(e) => step_fx65(old(self)@, x as int) == Err::<EmuView, EmuError>(e)
                    && final(self)@ == old(self)@,
            },
    {
        let i = self.i_register as usize;
        if i + x as usize >= self.ram.len() {
            return Err(EmuError::OutOfBoundsAccess);
        }
        let mut k: usize = 0;
        while k <= x as usize
            invariant
                old(self).wf(),
                x < 16,
                k <= x as usize + 1,
                i == old(self)@.i,
                i + x < old(self)@.ram.len(),
                self@ == (EmuView { v: self.v_register@, ..old(self)@ }),
                self.v_register@.len() == 16,
                self.ram_size == old(self).ram_size,
                self.screen_width == old(self).screen_width,
                self.screen_height == old(self).screen_height,
                forall|j: int| 0 <= j < 16 ==> self.v_register@[j] == (
                    if 0 <= j < k {
                        old(self)@.ram[i + j]
                    } else {
                        old(self)@.v[j]
                    }
                ),
            decreases x as usize + 1 - k,
        {
            self.v_register[k] = self.ram[i + k];
            k = k + 1;
        }
        if self.config.quirk_memory {
            self.i_register = self.i_register.wrapping_add(x as u16 + 1);
        }
        proof {
            assert(self@.v =~= Seq::new(
                16,
                |j: int| if j <= x as int {
                    old(self)@.ram[old(self)@.i + j]
                } else {
                    old(self)@.v[j]
                },
            ));
            assert(self@.i == advanced_i(old(self)@, x as int));
        }
        Ok(())
    }

    /// `00FD`: exit the program by resetting the program counter to the
    /// load address.
    pub(crate) fn opcode_00fd(&mut self)
        requires
            old(self).wf(),
        ensures
            final(self).wf(),
            final(self)@ == step_00fd(old(self)@),
    {
        self.pc = 0x200;
    }

    /// `FX75`: store V0 through VX into the persistent RPL flags.
    pub(crate) fn opcode_fx75(&mut self, x: u8)
        requires
            old(self).wf(),
            x < 16,
        ensures
            final(self).wf(),
            final(self)@ == step_fx75(old(self)@, x as int),
    {
        let mut k: usize = 0;
        while k <= x as usize
            invariant
                old(self).wf(),
                x < 16,
                k <= x as usize + 1,
                self@ == (EmuView { rpl: self.rpl@, ..old(self)@ }),
                self.rpl@.len() == 16,
                self.ram_size == old(self).ram_size,
                self.screen_width == old(self).screen_width,
                self.screen_height == old(self).screen_height,
                forall|j: int| 0 <= j < 16 ==> self.rpl@[j] == (
                    if 0 <= j < k {
                        old(self)@.v[j]
                    } else {
                        old(self)@.rpl[j]
                    }
                ),
            decreases x as usize + 1 - k,
        {
            self.rpl[k] = self.v_register[k];
            k = k + 1;
        }
        proof {
            assert(self@.rpl =~= Seq::new(
                16,
                |j: int| if j <= x as int {
                    old(self)@.v[j]
                } else {
                    old(self)@.rpl[j]
                },
            ));
        }
    }

    /// `FX85`: load V0 through VX from the persistent RPL flags.
    pub(crate) fn opcode_fx85(&mut self, x: u8)
        requires
            old(self).wf(),
            x < 16,
        ensures
            final(self).wf(),
            final(self)@ == step_fx85(old(self)@, x as int),
    {
        let mut k: usize = 0;
        while k <= x as usize
            invariant
                old(self).wf(),
                x < 16,
                k <= x as usize + 1,
                self@ == (EmuView { v: self.v_register@, ..old(self)@ }),
                self.v_register@.len() == 16,
                self.ram_size == old(self).ram_size,
                self.screen_width == old(self).screen_width,
                self.screen_height == old(self).screen_height,
                forall|j: int| 0 <= j < 16 ==> self.v_register@[j] == (
                    if 0 <= j < k {
                        old(self)@.rpl[j]
                    } else {
                        old(self)@.v[j]
                    }
                ),
            decreases x as usize + 1 - k,
        {
            self.v_register[k] = self.rpl[k];
            k = k + 1;
        }
        proof {
            assert(self@.v =~= Seq::new(
                16,
                |j: int| if j <= x as int {
                    old(self)@.rpl[j]
                } else {
                    old(self)@.v[j]
                },
            ));
        }
    }

    /// `5XY2`: store the inclusive register range VX..VY (in either
    /// direction) at memory starting at I.
    pub(crate) fn opcode_5xy2(&mut self, x: u8, y: u8) -> (r: Result<(), EmuError>)
        requires
            old(self).wf(),
            x < 16,
            y < 16,
        ensures
            final(self).wf(),
            match r {
                Ok(_) => step_5xy2(old(self)@, x as int, y as int) == Ok::<EmuView, EmuError>(
                    final(self)@,
                ),
                Err(e) => step_5xy2(old(self)@, x as int, y as int) == Err::<EmuView, EmuError>(e)
                    && final(self)@ == old(self)@,
            },
    {
        let i = self.i_register as usize;
        let d: usize = if x <= y { (y - x) as usize } else { (x - y) as usize };
        if i + d >= self.ram.len() {
            return Err(EmuError::OutOfBoundsAccess);
        }
        let forward = x <= y;
        let mut k: usize = 0;
        while k <= d
            invariant
                old(self).wf(),
                x < 16,
                y < 16,
                d == range_len(x as int, y as int) - 1,
                forward == (x <= y),
                k <= d + 1,
                i == old(self)@.i,
                i + d < old(self)@.ram.len(),
                self@ == (EmuView { ram: self.ram@, ..old(self)@ }),
                self.ram@.len() == old(self)@.ram.len(),
                self.ram_size == old(self).ram_size,
                self.screen_width == old(self).screen_width,
                self.screen_height == old(self).screen_height,
                forall|j: int| 0 <= j < self.ram@.len() ==> self.ram@[j] == (
                    if i <= j < i + k {
                        old(self)@.v[range_reg(x as int, y as int, j - i)]
                    } else {
                        old(self)@.ram[j]
                    }
                ),
            decreases d + 1 - k,
        {
            let reg: usize = if forward { x as usize + k } else { x as usize - k };
            self.ram[i + k] = self.v_register[reg];
            k = k + 1;
        }
        proof {
            let spec_ram = Seq::new(
                old(self)@.ram.len(),
                |j: int| if old(self)@.i <= j <= old(self)@.i + (range_len(x as int, y as int) - 1) {
                    old(self)@.v[range_reg(x as int, y as int, j - old(self)@.i)]
                } else {
                    old(self)@.ram[j]
                },
            );
            assert(self@.ram =~= spec_ram);
        }
        Ok(())
    }

    /// `5XY3`: load the inclusive register range VX..VY (in either
    /// direction) from memory starting at I.
    pub(crate) fn opcode_5xy3(&mut self, x: u8, y: u8) -> (r: Result<(), EmuError>)
        requires
            old(self).wf(),
            x < 16,
            y < 16,
        ensures
            final(self).wf(),
            match r {
                Ok(_) => step_5xy3(old(self)@, x as int, y as int) == Ok::<EmuView, EmuError>(
                    final(self)@,
                ),
                Err(e) => step_5xy3(old(self)@, x as int, y as int) == Err::<EmuView, EmuError>(e)
                    && final(self)@ == old(self)@,
            },
    {
        let i = self.i_register as usize;
        let d: usize = if x <= y { (y - x) as usize } else { (x - y) as usize };
        if i + d >= self.ram.len() {
            return Err(EmuError::OutOfBoundsAccess);
        }
        let forward = x <= y;
        let mut k: usize = 0;
        while k <= d
            invariant
                old(self).wf(),
                x < 16,
                y < 16,
                d == range_len(x as int, y as int) - 1,
                forward == (x <= y),
                k <= d + 1,
                i == old(self)@.i,
                i + d < old(self)@.ram.len(),
                self@ == (EmuView { v: self.v_register@, ..old(self)@ }),
                self.v_register@.len() == 16,
                self.ram_size == old(self).ram_size,
                self.screen_width == old(self).screen_width,
                self.screen_height == old(self).screen_height,
                forall|j: int| 0 <= j < 16 ==> self.v_register@[j] == (
                    if exists|off: int| 0 <= off < k && j == range_reg(x as int, y as int, off) {
                        old(self)@.ram[i + (if x <= y { j - x } else { x as int - j })]
                    } else {
                        old(self)@.v[j]
                    }
                ),
            decreases d + 1 - k,
        {
            let reg: usize = if forward { x as usize + k } else { x as usize - k };
            self.v_register[reg] = self.ram[i + k];
            proof {
                assert(reg == range_reg(x as int, y as int, k as int));
                assert(forall|off: int| 0 <= off < k + 1 && off != k ==> range_reg(
                    x as int,
                    y as int,
                    off,
                ) != reg);
            }
            k = k + 1;
        }
        proof {
            let lo = if x <= y { x as int } else { y as int };
            let hi = if x <= y { y as int } else { x as int };
            let spec_v = Seq::new(
                16,
                |j: int| if lo <= j <= hi {
                    old(self)@.ram[old(self)@.i + (if x <= y { j - x } else { x as int - j })]
                } else {
                    old(self)@.v[j]
                },
            );
            assert forall|j: int| 0 <= j < 16 implies self.v_register@[j] == spec_v[j] by {
                if lo <= j <= hi {
                    let off = if x <= y { j - x } else { x as int - j };
                    assert(0 <= off < (d + 1) as int);
                    assert(j == range_reg(x as int, y as int, off));
                }
            }
            assert(self@.v =~= spec_v);
        }
        Ok(())
    }

    /// `F000`: load the next 16-bit word into the index register and step
    /// past it.
    pub(crate) fn opcode_f000(&mut self) -> (r: Result<(), EmuError>)
        requires
            old(self).wf(),
        ensures
            final(self).wf(),
            match r {
                Ok(_) => step_f000(old(self)@) == Ok::<EmuView, EmuError>(final(self)@),
                Err(e) => step_f000(old(self)@) == Err::<EmuView, EmuError>(e)
                    && final(self)@ == old(self)@,
            },
    {
        let pc = self.pc as usize;
        if pc + 1 >= self.ram.len() {
            return Err(EmuError::OutOfBoundsAccess);
        }
        let higher_byte = self.ram[pc] as u16;
        let lower_byte = self.ram[pc + 1] as u16;
        self.i_register = (higher_byte << 8u16) | lower_byte;
        self.pc = self.pc.wrapping_add(2);
        proof {
            assert(((higher_byte << 8u16) | lower_byte) == higher_byte * 256 + lower_byte)
                by (bit_vector)
                requires
                    higher_byte < 256 && lower_byte < 256,
            ;
            assert(self@.i == word_at(old(self)@.ram, old(self)@.pc as int));
        }
        Ok(())
    }

    /// `FN01`: select the drawing plane(s) from the nibble N.
    pub(crate) fn opcode_fn01(&mut self, n: u8)
        requires
            old(self).wf(),
        ensures
            final(self).wf(),
            final(self)@ == step_fn01(old(self)@, n),
    {
        self.plane = match n {
            0 => BitPlane::NoPlane,
            1 => BitPlane::Plane1,
            2 => BitPlane::Plane2,
            _ => BitPlane::Both,
        };
    }

    /// `F002`: copy 16 bytes at I into the audio pattern buffer.
    pub(crate) fn opcode_f002(&mut self) -> (r: Result<(), EmuError>)
        requires
            old(self).wf(),
        ensures
            final(self).wf(),
            match r {
                Ok(_) => step_f002(old(self)@) == Ok::<EmuView, EmuError>(final(self)@),
                Err(e) => step_f002(old(self)@) == Err::<EmuView, EmuError>(e)
                    && final(self)@ == old(self)@,
            },
    {
        let i = self.i_register as usize;
        if i + 15 >= self.ram.len() {
            return Err(EmuError::OutOfBoundsAccess);
        }
        let mut k: usize = 0;
        while k < 16
            invariant
                old(self).wf(),
                k <= 16,
                i == old(self)@.i,
                i + 15 < old(self)@.ram.len(),
                self@ == (EmuView { pattern: self.pattern_buffer@, ..old(self)@ }),
                self.pattern_buffer@.len() == 16,
                self.ram_size == old(self).ram_size,
                self.screen_width == old(self).screen_width,
                self.screen_height == old(self).screen_height,
                forall|j: int| 0 <= j < 16 ==> self.pattern_buffer@[j] == (
                    if 0 <= j < k {
                        old(self)@.ram[i + j]
                    } else {
                        old(self)@.pattern[j]
                    }
                ),
            decreases 16 - k,
        {
            self.pattern_buffer[k] = self.ram[i + k];
            k = k + 1;
        }
        proof {
            assert(self@.pattern =~= old(self)@.ram.subrange(
                old(self)@.i as int,
                old(self)@.i + 16,
            ));
        }
        Ok(())
    }

    /// `FX3A`: load VX into the pitch register.
    pub(crate) fn opcode_fx3a(&mut self, x: u8)
        requires
            old(self).wf(),
            x < 16,
        ensures
            final(self).wf(),
            final(self)@ == step_fx3a(old(self)@, x as int),
    {
        self.pitch = self.v_register[x as usize];
    }
}

} // verus!

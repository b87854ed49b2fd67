//! The fetch unit and the decode/dispatch unit: one caller-driven step is
//! fetch, decode, execute, proved against the spec-level interpreter.

use vstd::prelude::*;

use crate::semantics::fetch_spec;
use crate::semantics::op_d1;
use crate::semantics::op_d2;
use crate::semantics::op_d3;
use crate::semantics::op_d4;
use crate::semantics::op_nn;
use crate::semantics::op_nnn;
use crate::semantics::pc_plus;
use crate::semantics::step0_spec;
use crate::semantics::step5_spec;
use crate::semantics::step8_spec;
use crate::semantics::step_2mmm;
use crate::semantics::step_cxnn;
use crate::semantics::step_dxyn;
use crate::semantics::stepe_spec;
use crate::semantics::stepf_spec;
use crate::semantics::step_spec;
use crate::semantics::tick_err_state;
use crate::semantics::tick_spec;
use crate::semantics::word_at;
use crate::state::EmuError;
use crate::state::EmuView;
use crate::state::Emulator;

verus! {

/// Two equal step results stay equal; stated as a lemma so each dispatch arm
/// can connect its group's transition to the whole interpreter's.
proof fn relate_result(a: Result<EmuView, EmuError>, b: Result<EmuView, EmuError>)
    requires
        a == b,
    ensures
        (match a {
            Ok(v) => b == Ok::<EmuView, EmuError>(v),
            Err(e) => b == Err::<EmuView, EmuError>(e),
        }),
{
}

impl Emulator {
    /// Reads the instruction word at the program counter, advances past it,
    /// and records whether the following word is the double-wide `F000`.
    pub(crate) fn fetch(&mut self) -> (r: Result<u16, EmuError>)
        requires
            old(self).wf(),
        ensures
            final(self).wf(),
            match r {
                Ok(op) => fetch_spec(old(self)@) == Ok::<(u16, EmuView), EmuError>(
                    (op, final(self)@),
                ),
                Err(e) => fetch_spec(old(self)@) == Err::<(u16, EmuView), EmuError>(e)
                    && final(self)@ == old(self)@,
            },
    {
        let pc = self.pc as usize;
        if pc + 1 >= self.ram.len() {
            return Err(EmuError::OutOfBoundsAccess);
        }
        let higher_byte = self.ram[pc] as u16;
        let lower_byte = self.ram[pc + 1] as u16;
        let op = (higher_byte << 8u16) | lower_byte;
        proof {
            assert(((higher_byte << 8u16) | lower_byte) == higher_byte * 256 + lower_byte)
                by (bit_vector)
                requires
                    higher_byte < 256 && lower_byte < 256,
            ;
            assert(op == word_at(old(self)@.ram, old(self)@.pc as int));
        }
        self.pc = self.pc.wrapping_add(2);
        let pc2 = self.pc as usize;
        let wide: bool;
        if pc2 + 1 < self.ram.len() {
            let hi2 = self.ram[pc2] as u16;
            let lo2 = self.ram[pc2 + 1] as u16;
            let op2 = (hi2 << 8u16) | lo2;
            proof {
                assert(((hi2 << 8u16) | lo2) == hi2 * 256 + lo2) by (bit_vector)
                    requires
                        hi2 < 256 && lo2 < 256,
                ;
            }
            wide = op2 == 0xF000;
        } else {
            wide = false;
        }
        self.next_opcode_double = wide;
        proof {
            assert(self@.pc == pc_plus(old(self)@.pc, 2));
            assert(self@ == (EmuView {
                pc: pc_plus(old(self)@.pc, 2),
                next_wide: self@.next_wide,
                ..old(self)@
            }));
        }
        Ok(op)
    }

    /// Decodes the opcode into its four nibbles and runs exactly one
    /// handler; the result and the state change are those of the spec-level
    /// interpreter, for some value of the byte a random draw may consume.
    #[verifier::rlimit(100)]
    pub fn execute(&mut self, op: u16) -> (r: Result<(), EmuError>)
        requires
            old(self).wf(),
        ensures
            final(self).wf(),
            match r {
                Ok(_) => (exists|rd: u8|
                    step_spec(old(self)@, op, rd) == Ok::<EmuView, EmuError>(final(self)@)),
                Err(e) => step_spec(old(self)@, op, 0) == Err::<EmuView, EmuError>(e)
                    && final(self)@ == old(self)@,
            },
    {
        let digit1 = ((op & 0xF000) >> 12u16) as u8;
        let digit2 = ((op & 0x0F00) >> 8u16) as u8;
        let digit3 = ((op & 0x00F0) >> 4u16) as u8;
        let digit4 = (op & 0x000F) as u8;
        let nn = (op & 0xFF) as u8;
        let nnn = op & 0xFFF;
        proof {
            assert(((op & 0xF000) >> 12u16) == op / 4096 && ((op & 0x0F00) >> 8u16) == (op / 256)
                % 16 && ((op & 0x00F0) >> 4u16) == (op / 16) % 16 && (op & 0x000F) == op % 16 && (
            op & 0xFF) == op % 256 && (op & 0xFFF) == op % 4096) by (bit_vector);
            assert(digit1 == op_d1(op) && digit2 == op_d2(op) && digit3 == op_d3(op) && digit4
                == op_d4(op) && nn == op_nn(op) && nnn == op_nnn(op));
        }
        if digit1 < 0x8 {
        match digit1 {
            0x0 => {
                let r = self.exec_group0(op, digit2, digit3, digit4);
                proof {
                    relate_result(step0_spec(old(self)@, op), step_spec(old(self)@, op, 0));
                }
                r
            },
            0x1 => {
                self.opcode_1mmm(nnn);
                proof {
                    assert(step_spec(old(self)@, op, 0) == Ok::<EmuView, EmuError>(self@));
                }
                Ok(())
            },
            0x2 => {
                let r = self.opcode_2mmm(nnn);
                proof {
                    relate_result(step_2mmm(old(self)@, nnn), step_spec(old(self)@, op, 0));
                }
                r
            },
            0x3 => {
                self.opcode_3xnn(digit2, nn);
                proof {
                    assert(step_spec(old(self)@, op, 0) == Ok::<EmuView, EmuError>(self@));
                }
                Ok(())
            },
            0x4 => {
                self.opcode_4xnn(digit2, nn);
                proof {
                    assert(step_spec(old(self)@, op, 0) == Ok::<EmuView, EmuError>(self@));
                }
                Ok(())
            },
            0x5 => {
                let r = self.exec_group5(op, digit2, digit3, digit4);
                proof {
                    relate_result(step5_spec(old(self)@, op), step_spec(old(self)@, op, 0));
                }
                r
            },
            0x6 => {
                self.opcode_6xnn(digit2, nn);
                proof {
                    assert(step_spec(old(self)@, op, 0) == Ok::<EmuView, EmuError>(self@));
                }
                Ok(())
            },
            0x7 => {
                self.opcode_7xnn(digit2, nn);
                proof {
                    assert(step_spec(old(self)@, op, 0) == Ok::<EmuView, EmuError>(self@));
                }
                Ok(())
            },
            _ => Err(EmuError::DecodeFailure),
        }
        } else {
        match digit1 {
            0x8 => {
                let r = self.exec_group8(op, digit2, digit3, digit4);
                proof {
                    relate_result(step8_spec(old(self)@, op), step_spec(old(self)@, op, 0));
                }
                r
            },
            0x9 => {
                if digit4 == 0 {
                    self.opcode_9xy0(digit2, digit3);
                    proof {
                        assert(step_spec(old(self)@, op, 0) == Ok::<EmuView, EmuError>(self@));
                    }
                    Ok(())
                } else {
                    proof {
                        assert(step_spec(old(self)@, op, 0) == Err::<EmuView, EmuError>(
                            EmuError::DecodeFailure,
                        ));
                    }
                    Err(EmuError::DecodeFailure)
                }
            },
            0xA => {
                self.opcode_ammm(nnn);
                proof {
                    assert(step_spec(old(self)@, op, 0) == Ok::<EmuView, EmuError>(self@));
                }
                Ok(())
            },
            0xB => {
                self.opcode_bmmm(nnn, digit2);
                proof {
                    assert(step_spec(old(self)@, op, 0) == Ok::<EmuView, EmuError>(self@));
                }
                Ok(())
            },
            0xC => {
                self.opcode_cxnn(digit2, nn);
                proof {
                    let rd = choose|rd: u8|
                        self@ == step_cxnn(old(self)@, digit2 as int, nn, rd);
                    assert(step_spec(old(self)@, op, rd) == Ok::<EmuView, EmuError>(self@));
                }
                Ok(())
            },
            0xD => {
                let r = self.opcode_dxyn(digit2, digit3, digit4);
                proof {
                    relate_result(
                        step_dxyn(old(self)@, digit2 as int, digit3 as int, digit4),
                        step_spec(old(self)@, op, 0),
                    );
                }
                r
            },
            0xE => {
                let r = self.exec_groupe(op, digit2, digit3, digit4);
                proof {
                    relate_result(stepe_spec(old(self)@, op), step_spec(old(self)@, op, 0));
                }
                r
            },
            _ => {
                let r = self.exec_groupf(op, digit2, digit3, digit4);
                proof {
                    assert(op_d1(op) == 0xF) by {
                        assert(op / 4096 <= 15);
                    }
                    relate_result(stepf_spec(old(self)@, op), step_spec(old(self)@, op, 0));
                }
                r
            },
        }
        }
    }

    /// Handlers for the machine-control group (first nibble 0).
    fn exec_group0(&mut self, op: u16, d2: u8, d3: u8, d4: u8) -> (r: Result<(), EmuError>)
        requires
            old(self).wf(),
            d2 == op_d2(op),
            d3 == op_d3(op),
            d4 == op_d4(op),
        ensures
            final(self).wf(),
            match r {
                Ok(_) => step0_spec(old(self)@, op) == Ok::<EmuView, EmuError>(final(self)@),
                Err(e) => step0_spec(old(self)@, op) == Err::<EmuView, EmuError>(e)
                    && final(self)@ == old(self)@,
            },
    {
        match (d2, d3, d4) {
            (0x0, 0x0, 0x0) => {
                self.opcode_0000();
                Ok(())
            },
            (0x0, 0xE, 0x0) => {
                self.opcode_00e0();
                Ok(())
            },
            (0x0, 0xE, 0xE) => self.opcode_00ee(),
            (0x0, 0xF, 0xD) => {
                self.opcode_00fd();
                Ok(())
            },
            (0x0, 0xF, 0xE) => {
                self.opcode_00fe();
                Ok(())
            },
            (0x0, 0xF, 0xF) => {
                self.opcode_00ff();
                Ok(())
            },
            (0x0, 0xF, 0xB) => {
                self.opcode_00fb();
                Ok(())
            },
            (0x0, 0xF, 0xC) => {
                self.opcode_00fc();
                Ok(())
            },
            (0x0, 0xC, _) => {
                self.opcode_00cn(d4);
                Ok(())
            },
            (0x0, 0xD, _) => {
                self.opcode_00dn(d4);
                Ok(())
            },
            (_, _, _) => Err(EmuError::DecodeFailure),
        }
    }

    /// Handlers for the `5XY_` group.
    fn exec_group5(&mut self, op: u16, d2: u8, d3: u8, d4: u8) -> (r: Result<(), EmuError>)
        requires
            old(self).wf(),
            d2 == op_d2(op),
            d3 == op_d3(op),
            d4 == op_d4(op),
        ensures
            final(self).wf(),
            match r {
                Ok(_) => step5_spec(old(self)@, op) == Ok::<EmuView, EmuError>(final(self)@),
                Err(e) => step5_spec(old(self)@, op) == Err::<EmuView, EmuError>(e)
                    && final(self)@ == old(self)@,
            },
    {
        match d4 {
            0x0 => {
                self.opcode_5xy0(d2, d3);
                Ok(())
            },
            0x2 => self.opcode_5xy2(d2, d3),
            0x3 => self.opcode_5xy3(d2, d3),
            _ => Err(EmuError::DecodeFailure),
        }
    }

    /// Handlers for the ALU group (first nibble 8).
    fn exec_group8(&mut self, op: u16, d2: u8, d3: u8, d4: u8) -> (r: Result<(), EmuError>)
        requires
            old(self).wf(),
            d2 == op_d2(op),
            d3 == op_d3(op),
            d4 == op_d4(op),
        ensures
            final(self).wf(),
            match r {
                Ok(_) => step8_spec(old(self)@, op) == Ok::<EmuView, EmuError>(final(self)@),
                Err(e) => step8_spec(old(self)@, op) == Err::<EmuView, EmuError>(e)
                    && final(self)@ == old(self)@,
            },
    {
        match d4 {
            0x0 => {
                self.opcode_8xy0(d2, d3);
                Ok(())
            },
            0x1 => {
                self.opcode_8xy1(d2, d3);
                Ok(())
            },
            0x2 => {
                self.opcode_8xy2(d2, d3);
                Ok(())
            },
            0x3 => {
                self.opcode_8xy3(d2, d3);
                Ok(())
            },
            0x4 => {
                self.opcode_8xy4(d2, d3);
                Ok(())
            },
            0x5 => {
                self.opcode_8xy5(d2, d3);
                Ok(())
            },
            0x6 => {
                self.opcode_8xy6(d2, d3);
                Ok(())
            },
            0x7 => {
                self.opcode_8xy7(d2, d3);
                Ok(())
            },
            0xE => {
                self.opcode_8xye(d2, d3);
                Ok(())
            },
            _ => Err(EmuError::DecodeFailure),
        }
    }

    /// Handlers for the keypad skip group (first nibble E).
    fn exec_groupe(&mut self, op: u16, d2: u8, d3: u8, d4: u8) -> (r: Result<(), EmuError>)
        requires
            old(self).wf(),
            d2 == op_d2(op),
            d3 == op_d3(op),
            d4 == op_d4(op),
        ensures
            final(self).wf(),
            match r {
                Ok(_) => stepe_spec(old(self)@, op) == Ok::<EmuView, EmuError>(final(self)@),
                Err(e) => stepe_spec(old(self)@, op) == Err::<EmuView, EmuError>(e)
                    && final(self)@ == old(self)@,
            },
    {
        match (d3, d4) {
            (0x9, 0xE) => {
                self.opcode_ex9e(d2);
                Ok(())
            },
            (0xA, 0x1) => {
                self.opcode_exa1(d2);
                Ok(())
            },
            (_, _) => Err(EmuError::DecodeFailure),
        }
    }

    /// Handlers for the timer, memory, font, audio and long-load group
    /// (first nibble F).
    fn exec_groupf(&mut self, op: u16, d2: u8, d3: u8, d4: u8) -> (r: Result<(), EmuError>)
        requires
            old(self).wf(),
            d2 == op_d2(op),
            d3 == op_d3(op),
            d4 == op_d4(op),
        ensures
            final(self).wf(),
            match r {
                Ok(_) => stepf_spec(old(self)@, op) == Ok::<EmuView, EmuError>(final(self)@),
                Err(e) => stepf_spec(old(self)@, op) == Err::<EmuView, EmuError>(e)
                    && final(self)@ == old(self)@,
            },
    {
        if d3 == 0 {
            match (d2, d4) {
                (0x0, 0x0) => self.opcode_f000(),
                (0x0, 0x2) => self.opcode_f002(),
                (_, 0x1) => {
                    self.opcode_fn01(d2);
                    Ok(())
                },
                (_, 0x7) => {
                    self.opcode_fx07(d2);
                    Ok(())
                },
                (_, 0xA) => {
                    self.opcode_fx0a(d2);
                    Ok(())
                },
                (_, _) => Err(EmuError::DecodeFailure),
            }
        } else {
            match (d3, d4) {
                (0x1, 0x5) => {
                    self.opcode_fx15(d2);
                    Ok(())
                },
                (0x1, 0x8) => {
                    self.opcode_fx18(d2);
                    Ok(())
                },
                (0x1, 0xE) => {
                    self.opcode_fx1e(d2);
                    Ok(())
                },
                (0x2, 0x9) => {
                    self.opcode_fx29(d2);
                    Ok(())
                },
                (0x3, 0x0) => {
                    self.opcode_fx30(d2);
                    Ok(())
                },
                (0x3, 0x3) => self.opcode_fx33(d2),
                (0x3, 0xA) => {
                    self.opcode_fx3a(d2);
                    Ok(())
                },
                (0x5, 0x5) => self.opcode_fx55(d2),
                (0x6, 0x5) => self.opcode_fx65(d2),
                (0x7, 0x5) => {
                    self.opcode_fx75(d2);
                    Ok(())
                },
                (0x8, 0x5) => {
                    self.opcode_fx85(d2);
                    Ok(())
                },
                (_, _) => Err(EmuError::DecodeFailure),
            }
        }
    }

    /// One caller-driven step: record the key-frame mark, fetch the next
    /// instruction and execute it.  A failure leaves the state exactly as
    /// the failing stage left it; nothing is retried.
    pub fn tick(&mut self, key_frame: bool) -> (r: Result<(), EmuError>)
        requires
            old(self).wf(),
        ensures
            final(self).wf(),
            match r {
                Ok(_) => (exists|rd: u8|
                    tick_spec(old(self)@, key_frame, rd) == Ok::<EmuView, EmuError>(final(self)@)),
                Err(e) => tick_spec(old(self)@, key_frame, 0) == Err::<EmuView, EmuError>(e)
                    && final(self)@ == tick_err_state(old(self)@, key_frame),
            },
    {
        self.key_frame = key_frame;
        let ghost s0 = self@;
        proof {
            assert(s0 == (EmuView { key_frame: key_frame, ..old(self)@ }));
        }
        let op = match self.fetch() {
            Ok(op) => op,
            Err(e) => {
                return Err(e);
            },
        };
        let ghost s1 = self@;
        let r = self.execute(op);
        proof {
            match r {
                Ok(_) => {
                    let rd = choose|rd: u8|
                        step_spec(s1, op, rd) == Ok::<EmuView, EmuError>(self@);
                    assert(tick_spec(old(self)@, key_frame, rd) == Ok::<EmuView, EmuError>(self@));
                },
                Err(e) => {
                    assert(tick_spec(old(self)@, key_frame, 0) == Err::<EmuView, EmuError>(e));
                    assert(self@ == tick_err_state(old(self)@, key_frame));
                },
            }
        }
        r
    }
}

} // verus!

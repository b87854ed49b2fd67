//! The machine state owned by one interpreter instance, its mathematical
//! view, and the lifecycle operations: construction, reset, program load,
//! timer ticks and the keypad/display/audio accessors.

use vstd::prelude::*;

use crate::font::font_bytes;
use crate::font::font_seq;
use crate::quirks::height_of;
use crate::quirks::ram_size_of;
use crate::quirks::width_of;
use crate::quirks::EmuConfig;
use crate::quirks::Variant;

verus! {

/// Number of bytes in the audio pattern buffer.
pub const PATTERN_BUFFER_SIZE: usize = 16;

/// Programs are loaded, and execution starts, at this memory offset.
pub const START_ADDRESS: u16 = 0x200;

/// Default value of the pitch register (yields a 4000 Hz playback rate).
pub const DEFAULT_PITCH: u8 = 64;

/// Selector for the display plane(s) affected by draw, clear and scroll
/// operations.  The second plane exists for XO-Chip's extra colours.
#[derive(Copy, Clone, PartialEq, Eq, Structural, Debug)]
pub enum BitPlane {
    NoPlane,
    Plane1,
    Plane2,
    Both,
}

/// A failure local to a single instruction step.
#[derive(Copy, Clone, PartialEq, Eq, Structural, Debug)]
pub enum EmuError {
    /// The opcode matches no known pattern.
    DecodeFailure,
    /// A call would push a seventeenth return address.
    StackOverflow,
    /// A return was executed with an empty stack.
    StackUnderflow,
    /// The index register or program counter addresses memory past the
    /// variant's RAM size.
    OutOfBoundsAccess,
}

/// The mathematical view of the whole machine state.
#[verifier::ext_equal]
pub ghost struct EmuView {
    pub config: EmuConfig,
    pub pc: u16,
    pub ram: Seq<u8>,
    pub screen: Seq<bool>,
    pub screen2: Seq<bool>,
    pub v: Seq<u8>,
    pub i: u16,
    pub stack: Seq<u16>,
    pub keys: Seq<bool>,
    pub delay: u8,
    pub sound: u8,
    pub beep: bool,
    pub key_frame: bool,
    pub high_res: bool,
    pub rpl: Seq<u8>,
    pub next_wide: bool,
    pub plane: BitPlane,
    pub pattern: Seq<u8>,
    pub pitch: u8,
}

/// Every buffer has the length that the selected variant dictates and the
/// stack holds at most 16 return addresses.
pub open spec fn view_wf(s: EmuView) -> bool {
    &&& s.ram.len() == ram_size_of(s.config.variant)
    &&& s.v.len() == 16
    &&& s.stack.len() <= 16
    &&& s.keys.len() == 16
    &&& s.rpl.len() == 16
    &&& s.pattern.len() == 16
    &&& s.screen.len() == width_of(s.config.variant) * height_of(s.config.variant)
    &&& s.screen2.len() == s.screen.len()
}

/// One CHIP-8 family interpreter: the variant/quirk configuration plus all
/// mutable machine state.  Deep-copyable, so a caller can snapshot the whole
/// state for save/restore.
#[derive(Clone)]
pub struct Emulator {
    pub config: EmuConfig,

    pub pc: u16,
    pub ram_size: usize,
    pub ram: Vec<u8>,
    pub screen: Vec<bool>,
    pub v_register: Vec<u8>,
    pub i_register: u16,
    pub stack: Vec<u16>,
    pub keys: Vec<bool>,
    pub delay_timer: u8,
    pub sound_timer: u8,
    /// True while the sound timer asks for a beep.
    pub beep: bool,
    pub screen_width: usize,
    pub screen_height: usize,
    pub key_frame: bool,

    pub high_res_mode: bool,
    pub rpl: Vec<u8>,

    pub next_opcode_double: bool,
    pub screen2: Vec<bool>,
    pub plane: BitPlane,
    /// One period of the XO-Chip 1-bit audio waveform.
    pub pattern_buffer: Vec<u8>,
    /// The XO-Chip pitch register controlling audio playback rate.
    pub pitch: u8,
}

impl View for Emulator {
    type V = EmuView;

    open spec fn view(&self) -> EmuView {
        EmuView {
            config: self.config,
            pc: self.pc,
            ram: self.ram@,
            screen: self.screen@,
            screen2: self.screen2@,
            v: self.v_register@,
            i: self.i_register,
            stack: self.stack@,
            keys: self.keys@,
            delay: self.delay_timer,
            sound: self.sound_timer,
            beep: self.beep,
            key_frame: self.key_frame,
            high_res: self.high_res_mode,
            rpl: self.rpl@,
            next_wide: self.next_opcode_double,
            plane: self.plane,
            pattern: self.pattern_buffer@,
            pitch: self.pitch,
        }
    }
}

/// The memory contents right after construction or reset: the font tables
/// followed by zeroes.
pub open spec fn initial_ram(n: nat) -> Seq<u8> {
    Seq::new(n, |j: int| if j < 180 { font_seq()[j] } else { 0u8 })
}

/// A screen plane with every pixel off.
pub open spec fn all_false(n: nat) -> Seq<bool> {
    Seq::new(n, |j: int| false)
}

/// A zeroed byte buffer.
pub open spec fn zero_bytes(n: nat) -> Seq<u8> {
    Seq::new(n, |j: int| 0u8)
}

/// The machine state right after construction.
pub open spec fn initial_view(config: EmuConfig) -> EmuView {
    EmuView {
        config: config,
        pc: 0x200,
        ram: initial_ram(ram_size_of(config.variant)),
        screen: all_false(width_of(config.variant) * height_of(config.variant)),
        screen2: all_false(width_of(config.variant) * height_of(config.variant)),
        v: zero_bytes(16),
        i: 0,
        stack: Seq::empty(),
        keys: all_false(16),
        delay: 0,
        sound: 0,
        beep: false,
        key_frame: true,
        high_res: false,
        rpl: zero_bytes(16),
        next_wide: false,
        plane: BitPlane::Plane1,
        pattern: zero_bytes(16),
        pitch: DEFAULT_PITCH,
    }
}

/// Power of two for the small exponents that the pitch formula produces.
pub open spec fn pow2_small(e: u8) -> int {
    if e == 0 {
        1
    } else if e == 1 {
        2
    } else if e == 2 {
        4
    } else if e == 3 {
        8
    } else if e == 4 {
        16
    } else {
        32
    }
}

/// Audio playback rate derived from the pitch register.  The exponent is
/// computed in eight-bit wrapping arithmetic with the truncating division
/// that interpreters of this family use, so a pitch below the default wraps
/// around rather than lowering the rate.
pub open spec fn sound_frequency_of(pitch: u8) -> int {
    4000 * pow2_small((((pitch + 256 - 64) % 256) / 48) as u8)
}

fn falses(n: usize) -> (v: Vec<bool>)
    ensures
        v@ == all_false(n as nat),
{
    let mut v: Vec<bool> = Vec::new();
    let mut idx: usize = 0;
    while idx < n
        invariant
            idx <= n,
            v@.len() == idx,
            forall|j: int| 0 <= j < idx ==> v@[j] == false,
        decreases n - idx,
    {
        v.push(false);
        idx = idx + 1;
    }
    proof {
        assert(v@ =~= all_false(n as nat));
    }
    v
}

fn zeros(n: usize) -> (v: Vec<u8>)
    ensures
        v@ == zero_bytes(n as nat),
{
    let mut v: Vec<u8> = Vec::new();
    let mut idx: usize = 0;
    while idx < n
        invariant
            idx <= n,
            v@.len() == idx,
            forall|j: int| 0 <= j < idx ==> v@[j] == 0u8,
        decreases n - idx,
    {
        v.push(0);
        idx = idx + 1;
    }
    proof {
        assert(v@ =~= zero_bytes(n as nat));
    }
    v
}

/// A fresh memory image: the font tables followed by zeroes.
fn seeded_ram(n: usize) -> (v: Vec<u8>)
    requires
        n >= 180,
    ensures
        v@ == initial_ram(n as nat),
{
    let mut v = font_bytes();
    while v.len() < n
        invariant
            180 <= v@.len() <= n,
            forall|j: int| 0 <= j < v@.len() ==> v@[j] == initial_ram(n as nat)[j],
        decreases n - v@.len(),
    {
        v.push(0);
    }
    proof {
        assert(v@ =~= initial_ram(n as nat));
    }
    v
}

impl Emulator {
    /// Buffer lengths and cached dimensions agree with the configuration.
    pub open spec fn wf(&self) -> bool {
        &&& view_wf(self@)
        &&& self.screen_width == width_of(self.config.variant)
        &&& self.screen_height == height_of(self.config.variant)
        &&& self.ram_size == ram_size_of(self.config.variant)
    }

    /// Builds a machine in its power-on state for the given configuration:
    /// fonts seeded at the bottom of memory, everything else cleared, the
    /// program counter at the load address.
    pub fn new(given_config: &EmuConfig) -> (emu: Self)
        ensures
            emu.wf(),
            emu@ == initial_view(*given_config),
    {
        let width: usize = match given_config.variant {
            Variant::Chip8 => 64,
            Variant::SChip => 128,
            Variant::XOChip => 128,
        };
        let height: usize = match given_config.variant {
            Variant::Chip8 => 32,
            Variant::SChip => 64,
            Variant::XOChip => 64,
        };
        let platform_ram_size: usize = match given_config.variant {
            Variant::Chip8 => 4096,
            Variant::SChip => 4096,
            Variant::XOChip => 65536,
        };
        let emu = Emulator {
            config: *given_config,

            pc: START_ADDRESS,
            ram_size: platform_ram_size,
            ram: seeded_ram(platform_ram_size),
            screen: falses(width * height),
            v_register: zeros(16),
            i_register: 0,
            stack: Vec::new(),
            keys: falses(16),
            delay_timer: 0,
            sound_timer: 0,
            beep: false,
            screen_width: width,
            screen_height: height,
            key_frame: true,

            high_res_mode: false,
            rpl: zeros(16),

            next_opcode_double: false,
            screen2: falses(width * height),
            plane: BitPlane::Plane1,
            pattern_buffer: zeros(16),
            pitch: DEFAULT_PITCH,
        };
        proof {
            assert(emu@ =~= initial_view(*given_config));
        }
        emu
    }

    /// Reinitialises every field to the power-on state, except that the RPL
    /// flags survive (they model persistent storage) and the beep line keeps
    /// its last value until the next timer tick.
    pub fn reset(&mut self)
        requires
            old(self).wf(),
        ensures
            final(self).wf(),
            final(self)@ == (EmuView {
                rpl: old(self)@.rpl,
                beep: old(self)@.beep,
                ..initial_view(old(self)@.config)
            }),
    {
        self.pc = START_ADDRESS;
        self.ram = seeded_ram(self.ram_size);
        self.screen = falses(self.screen_width * self.screen_height);
        self.v_register = zeros(16);
        self.i_register = 0;
        self.stack = Vec::new();
        self.keys = falses(16);
        self.delay_timer = 0;
        self.sound_timer = 0;
        self.key_frame = true;

        self.high_res_mode = false;

        self.next_opcode_double = false;
        self.screen2 = falses(self.screen_width * self.screen_height);
        self.plane = BitPlane::Plane1;
        self.pattern_buffer = zeros(16);
        self.pitch = DEFAULT_PITCH;
        proof {
            assert(self@ =~= (EmuView {
                rpl: old(self)@.rpl,
                beep: old(self)@.beep,
                ..initial_view(old(self)@.config)
            }));
        }
    }

    /// Decrements the delay and sound timers by exactly 1 each, never below
    /// 0, and raises the beep line exactly while the sound timer is still
    /// positive afterwards.
    #[verifier::rlimit(50)]
    pub fn tick_timers(&mut self)
        requires
            old(self).wf(),
        ensures
            final(self).wf(),
            final(self)@ == (EmuView {
                delay: (if old(self)@.delay > 0 { (old(self)@.delay - 1) as u8 } else { 0u8 }),
                sound: (if old(self)@.sound > 0 { (old(self)@.sound - 1) as u8 } else { 0u8 }),
                beep: old(self)@.sound > 1,
                ..old(self)@
            }),
            final(self).beep <==> final(self)@.sound > 0,
    {
        if self.delay_timer > 0 {
            self.delay_timer = self.delay_timer - 1;
        }
        if self.sound_timer > 0 {
            self.sound_timer = self.sound_timer - 1;
        }
        self.beep = self.sound_timer > 0;
        proof {
            assert(self@ =~= (EmuView {
                delay: (if old(self)@.delay > 0 { (old(self)@.delay - 1) as u8 } else { 0u8 }),
                sound: (if old(self)@.sound > 0 { (old(self)@.sound - 1) as u8 } else { 0u8 }),
                beep: old(self)@.sound > 1,
                ..old(self)@
            }));
        }
    }

    /// Copies a program image into memory at the fixed load address.
    pub fn load(&mut self, data: &[u8])
        requires
            old(self).wf(),
            0x200 + data@.len() <= old(self)@.ram.len(),
        ensures
            final(self).wf(),
            final(self)@ == (EmuView {
                ram: Seq::new(
                    old(self)@.ram.len(),
                    |j: int| if 0x200 <= j < 0x200 + data@.len() {
                        data@[j - 0x200]
                    } else {
                        old(self)@.ram[j]
                    },
                ),
                ..old(self)@
            }),
    {
        let mut idx: usize = 0;
        while idx < data.len()
            invariant
                old(self).wf(),
                idx <= data@.len(),
                0x200 + data@.len() <= old(self)@.ram.len(),
                self.ram@.len() == old(self)@.ram.len(),
                forall|j: int| 0 <= j < old(self)@.ram.len() ==> self.ram@[j] == (
                    if 0x200 <= j < 0x200 + idx {
                        data@[j - 0x200]
                    } else {
                        old(self)@.ram[j]
                    }
                ),
                self@ == (EmuView { ram: self.ram@, ..old(self)@ }),
                self.ram_size == old(self).ram_size,
                self.screen_width == old(self).screen_width,
                self.screen_height == old(self).screen_height,
            decreases data@.len() - idx,
        {
            self.ram[0x200 + idx] = data[idx];
            idx = idx + 1;
        }
        proof {
            assert(self@.ram =~= Seq::new(
                old(self)@.ram.len(),
                |j: int| if 0x200 <= j < 0x200 + data@.len() {
                    data@[j - 0x200]
                } else {
                    old(self)@.ram[j]
                },
            ));
        }
    }

    /// Records a key going down or up on the 16-key pad.
    pub fn register_keypress(&mut self, index: usize, pressed: bool)
        requires
            old(self).wf(),
            index < 16,
        ensures
            final(self).wf(),
            final(self)@ == (EmuView { keys: old(self)@.keys.update(index as int, pressed), ..old(self)@ }),
    {
        self.keys[index] = pressed;
    }

    /// Read-only access to the two screen planes (row-major, width times
    /// height entries; the second plane is only drawn to by XO-Chip).
    pub fn get_screen_buffers<'a>(&'a self) -> (r: (&'a Vec<bool>, &'a Vec<bool>))
        ensures
            r.0@ == self@.screen,
            r.1@ == self@.screen2,
    {
        (&self.screen, &self.screen2)
    }

    /// Pushes a return address, rejecting a seventeenth nested call.
    pub(crate) fn push(&mut self, value: u16) -> (r: Result<(), EmuError>)
        requires
            old(self).wf(),
        ensures
            final(self).wf(),
            match r {
                Ok(_) => old(self)@.stack.len() < 16 && final(self)@ == (EmuView {
                    stack: old(self)@.stack.push(value),
                    ..old(self)@
                }),
                Err(e) => old(self)@.stack.len() == 16 && e == EmuError::StackOverflow
                    && final(self)@ == old(self)@,
            },
    {
        if self.stack.len() < 16 {
            self.stack.push(value);
            Ok(())
        } else {
            Err(EmuError::StackOverflow)
        }
    }

    /// Pops the most recent return address, rejecting a return with an empty
    /// stack.
    pub(crate) fn pop(&mut self) -> (r: Result<u16, EmuError>)
        requires
            old(self).wf(),
        ensures
            final(self).wf(),
            match r {
                Ok(value) => old(self)@.stack.len() > 0 && value == old(self)@.stack.last()
                    && final(self)@ == (EmuView {
                    stack: old(self)@.stack.drop_last(),
                    ..old(self)@
                }),
                Err(e) => old(self)@.stack.len() == 0 && e == EmuError::StackUnderflow
                    && final(self)@ == old(self)@,
            },
    {
        match self.stack.pop() {
            Some(value) => Ok(value),
            None => Err(EmuError::StackUnderflow),
        }
    }

    /// The audio playback rate that the pitch register selects.
    pub fn get_sound_frequency(&self) -> (f: i32)
        ensures
            f == sound_frequency_of(self@.pitch),
    {
        let e: u8 = self.pitch.wrapping_sub(64) / 48;
        let m: i32 = match e {
            0 => 1,
            1 => 2,
            2 => 4,
            3 => 8,
            4 => 16,
            _ => 32,
        };
        4000 * m
    }

    /// The current value of one general-purpose register.
    pub fn get_v(&self, index: usize) -> (value: u8)
        requires
            self.wf(),
            index < 16,
        ensures
            value == self@.v[index as int],
    {
        self.v_register[index]
    }

    /// The current program counter.
    pub fn get_pc(&self) -> (value: u16)
        ensures
            value == self@.pc,
    {
        self.pc
    }

    /// The current index (memory pointer) register.
    pub fn get_i_register(&self) -> (value: u16)
        ensures
            value == self@.i,
    {
        self.i_register
    }

    /// The current delay timer value.
    pub fn get_delay_timer(&self) -> (value: u8)
        ensures
            value == self@.delay,
    {
        self.delay_timer
    }

    /// The current sound timer value.
    pub fn get_sound_timer(&self) -> (value: u8)
        ensures
            value == self@.sound,
    {
        self.sound_timer
    }

    /// One byte of memory.
    pub fn read_ram(&self, address: usize) -> (value: u8)
        requires
            self.wf(),
            address < self@.ram.len(),
        ensures
            value == self@.ram[address as int],
    {
        self.ram[address]
    }
}

} // verus!

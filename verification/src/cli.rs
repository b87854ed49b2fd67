//! Command-line level configuration: the user-facing variant names, the
//! per-variant quirk defaults, and how explicit quirk switches toggle them.

use vstd::prelude::*;

use crate::quirks::EmuConfig;
use crate::quirks::Variant;

verus! {

/// The variant names a user can pick; the legacy SUPER-CHIP entry selects
/// the same instruction set with older scroll and display-wait behaviour.
#[derive(Copy, Clone, PartialEq, Eq, Structural, Debug)]
pub enum CLIVariant {
    Chip8,
    Schip,
    SchipLegacy,
    XOChip,
}

/// Everything configurable from the command line.
pub struct Args {
    pub file_name: String,

    pub variant: CLIVariant,

    pub quirk_legacyscroll: bool,
    pub quirk_vfreset: bool,
    pub quirk_memory: bool,
    pub quirk_displaywait: bool,
    pub quirk_clipping: bool,
    pub quirk_shifting: bool,
    pub quirk_jumping: bool,
    pub quirk_clipcollision: bool,

    pub ticks_per_frame: u32,

    pub scale: u8,

    pub fpscap_off: bool,

    pub mute: bool,
}

/// How many instructions run per frame by default on each variant.
pub open spec fn default_ticks(v: CLIVariant) -> u32 {
    match v {
        CLIVariant::Chip8 => 15,
        CLIVariant::Schip => 20,
        CLIVariant::SchipLegacy => 20,
        CLIVariant::XOChip => 500,
    }
}

/// The instruction set a user-facing variant name selects.
pub open spec fn variant_of_cli(v: CLIVariant) -> Variant {
    match v {
        CLIVariant::Chip8 => Variant::Chip8,
        CLIVariant::Schip => Variant::SChip,
        CLIVariant::SchipLegacy => Variant::SChip,
        CLIVariant::XOChip => Variant::XOChip,
    }
}

/// The quirk defaults of each user-facing variant.
pub open spec fn base_config(v: CLIVariant) -> EmuConfig {
    match v {
        CLIVariant::Chip8 => EmuConfig {
            variant: Variant::Chip8,
            quirk_legacyscroll: false,
            quirk_vfreset: true,
            quirk_memory: true,
            quirk_displaywait: false,
            quirk_clipping: true,
            quirk_shifting: false,
            quirk_jumping: false,
            quirk_clipcollision: false,
        },
        CLIVariant::Schip => EmuConfig {
            variant: Variant::SChip,
            quirk_legacyscroll: false,
            quirk_vfreset: false,
            quirk_memory: false,
            quirk_displaywait: false,
            quirk_clipping: true,
            quirk_shifting: true,
            quirk_jumping: true,
            quirk_clipcollision: false,
        },
        CLIVariant::SchipLegacy => EmuConfig {
            variant: Variant::SChip,
            quirk_legacyscroll: true,
            quirk_vfreset: false,
            quirk_memory: false,
            quirk_displaywait: true,
            quirk_clipping: true,
            quirk_shifting: true,
            quirk_jumping: true,
            quirk_clipcollision: false,
        },
        CLIVariant::XOChip => EmuConfig {
            variant: Variant::XOChip,
            quirk_legacyscroll: false,
            quirk_vfreset: false,
            quirk_memory: true,
            quirk_displaywait: false,
            quirk_clipping: false,
            quirk_shifting: false,
            quirk_jumping: false,
            quirk_clipcollision: false,
        },
    }
}

/// Each explicit quirk switch flips that quirk away from the variant's
/// default; the legacy scroll behaviour is fixed by the variant choice.
pub open spec fn config_of_args(a: &Args) -> EmuConfig {
    let base = base_config(a.variant);
    EmuConfig {
        variant: base.variant,
        quirk_legacyscroll: base.quirk_legacyscroll,
        quirk_vfreset: base.quirk_vfreset != a.quirk_vfreset,
        quirk_memory: base.quirk_memory != a.quirk_memory,
        quirk_displaywait: base.quirk_displaywait != a.quirk_displaywait,
        quirk_clipping: base.quirk_clipping != a.quirk_clipping,
        quirk_shifting: base.quirk_shifting != a.quirk_shifting,
        quirk_jumping: base.quirk_jumping != a.quirk_jumping,
        quirk_clipcollision: base.quirk_clipcollision != a.quirk_clipcollision,
    }
}

impl Args {
    /// The instructions-per-frame rate to run at: the variant's default,
    /// unless a rate other than the base default was given explicitly.
    pub fn get_ticks_per_frame(&self) -> (t: u32)
        ensures
            t == (if self.ticks_per_frame != 15 {
                self.ticks_per_frame
            } else {
                default_ticks(self.variant)
            }),
    {
        let mut ticks: u32 = match self.variant {
            CLIVariant::Chip8 => 15,
            CLIVariant::Schip => 20,
            CLIVariant::SchipLegacy => 20,
            CLIVariant::XOChip => 500,
        };
        if self.ticks_per_frame != 15 {
            ticks = self.ticks_per_frame;
        }
        ticks
    }

    /// The instruction set the chosen variant name selects.
    pub fn get_variant(&self) -> (v: Variant)
        ensures
            v == variant_of_cli(self.variant),
    {
        match self.variant {
            CLIVariant::Chip8 => Variant::Chip8,
            CLIVariant::Schip => Variant::SChip,
            CLIVariant::SchipLegacy => Variant::SChip,
            CLIVariant::XOChip => Variant::XOChip,
        }
    }

    /// The full interpreter configuration: the variant's quirk defaults,
    /// with each explicitly given switch toggled away from its default.
    pub fn get_emuconfig(&self) -> (cfg: EmuConfig)
        ensures
            cfg == config_of_args(self),
    {
        let mut emu_config: EmuConfig = match self.variant {
            CLIVariant::Chip8 => EmuConfig {
                variant: Variant::Chip8,
                quirk_legacyscroll: false,
                quirk_vfreset: true,
                quirk_memory: true,
                quirk_displaywait: false,
                quirk_clipping: true,
                quirk_shifting: false,
                quirk_jumping: false,
                quirk_clipcollision: false,
            },
            CLIVariant::Schip => EmuConfig {
                variant: Variant::SChip,
                quirk_legacyscroll: false,
                quirk_vfreset: false,
                quirk_memory: false,
                quirk_displaywait: false,
                quirk_clipping: true,
                quirk_shifting: true,
                quirk_jumping: true,
                quirk_clipcollision: false,
            },
            CLIVariant::SchipLegacy => EmuConfig {
                variant: Variant::SChip,
                quirk_legacyscroll: true,
                quirk_vfreset: false,
                quirk_memory: false,
                quirk_displaywait: true,
                quirk_clipping: true,
                quirk_shifting: true,
                quirk_jumping: true,
                quirk_clipcollision: false,
            },
            CLIVariant::XOChip => EmuConfig {
                variant: Variant::XOChip,
                quirk_legacyscroll: false,
                quirk_vfreset: false,
                quirk_memory: true,
                quirk_displaywait: false,
                quirk_clipping: false,
                quirk_shifting: false,
                quirk_jumping: false,
                quirk_clipcollision: false,
            },
        };
        if self.quirk_vfreset {
            emu_config.quirk_vfreset = !emu_config.quirk_vfreset;
        }
        if self.quirk_memory {
            emu_config.quirk_memory = !emu_config.quirk_memory;
        }
        if self.quirk_displaywait {
            emu_config.quirk_displaywait = !emu_config.quirk_displaywait;
        }
        if self.quirk_clipping {
            emu_config.quirk_clipping = !emu_config.quirk_clipping;
        }
        if self.quirk_shifting {
            emu_config.quirk_shifting = !emu_config.quirk_shifting;
        }
        if self.quirk_jumping {
            emu_config.quirk_jumping = !emu_config.quirk_jumping;
        }
        if self.quirk_clipcollision {
            emu_config.quirk_clipcollision = !emu_config.quirk_clipcollision;
        }
        emu_config
    }
}

} // verus!

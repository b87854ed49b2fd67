//! The command-line-level configuration logic and the palette colour
//! parser.

use chip8_core::hex_to_rgb;
use chip8_core::Args;
use chip8_core::CLIVariant;
use chip8_core::Variant;

fn args(variant: CLIVariant) -> Args {
    Args {
        file_name: String::from("game.ch8"),
        variant,
        quirk_legacyscroll: false,
        quirk_vfreset: false,
        quirk_memory: false,
        quirk_displaywait: false,
        quirk_clipping: false,
        quirk_shifting: false,
        quirk_jumping: false,
        quirk_clipcollision: false,
        ticks_per_frame: 15,
        scale: 10,
        fpscap_off: false,
        mute: false,
    }
}

#[test]
fn ticks_per_frame_defaults_by_variant() {
    assert_eq!(args(CLIVariant::Chip8).get_ticks_per_frame(), 15);
    assert_eq!(args(CLIVariant::Schip).get_ticks_per_frame(), 20);
    assert_eq!(args(CLIVariant::SchipLegacy).get_ticks_per_frame(), 20);
    assert_eq!(args(CLIVariant::XOChip).get_ticks_per_frame(), 500);
}

#[test]
fn explicit_ticks_per_frame_overrides_default() {
    let mut a = args(CLIVariant::XOChip);
    a.ticks_per_frame = 120;
    assert_eq!(a.get_ticks_per_frame(), 120);
}

#[test]
fn variant_names_map_to_instruction_sets() {
    assert_eq!(args(CLIVariant::Chip8).get_variant(), Variant::Chip8);
    assert_eq!(args(CLIVariant::Schip).get_variant(), Variant::SChip);
    assert_eq!(args(CLIVariant::SchipLegacy).get_variant(), Variant::SChip);
    assert_eq!(args(CLIVariant::XOChip).get_variant(), Variant::XOChip);
}

#[test]
fn chip8_quirk_defaults() {
    let cfg = args(CLIVariant::Chip8).get_emuconfig();
    assert_eq!(cfg.variant, Variant::Chip8);
    assert!(cfg.quirk_vfreset);
    assert!(cfg.quirk_memory);
    assert!(!cfg.quirk_displaywait);
    assert!(cfg.quirk_clipping);
    assert!(!cfg.quirk_shifting);
    assert!(!cfg.quirk_jumping);
    assert!(!cfg.quirk_legacyscroll);
    assert!(!cfg.quirk_clipcollision);
}

#[test]
fn schip_legacy_quirk_defaults() {
    let cfg = args(CLIVariant::SchipLegacy).get_emuconfig();
    assert_eq!(cfg.variant, Variant::SChip);
    assert!(cfg.quirk_legacyscroll);
    assert!(cfg.quirk_displaywait);
    assert!(cfg.quirk_shifting);
    assert!(cfg.quirk_jumping);
    assert!(!cfg.quirk_vfreset);
}

#[test]
fn xochip_quirk_defaults() {
    let cfg = args(CLIVariant::XOChip).get_emuconfig();
    assert_eq!(cfg.variant, Variant::XOChip);
    assert!(cfg.quirk_memory);
    assert!(!cfg.quirk_clipping);
    assert!(!cfg.quirk_vfreset);
}

#[test]
fn quirk_switches_toggle_away_from_defaults() {
    let mut a = args(CLIVariant::Chip8);
    a.quirk_vfreset = true;
    a.quirk_clipping = true;
    a.quirk_jumping = true;
    let cfg = a.get_emuconfig();
    // Chip8 defaults: vfreset on, clipping on, jumping off - all flipped.
    assert!(!cfg.quirk_vfreset);
    assert!(!cfg.quirk_clipping);
    assert!(cfg.quirk_jumping);
}

#[test]
fn hex_colors_parse_to_channels() {
    assert_eq!(hex_to_rgb("#1A2b3C"), Some((0x1A, 0x2B, 0x3C)));
    assert_eq!(hex_to_rgb("#000000"), Some((0, 0, 0)));
    assert_eq!(hex_to_rgb("#ffffff"), Some((255, 255, 255)));
}

#[test]
fn malformed_hex_colors_are_rejected() {
    assert_eq!(hex_to_rgb(""), None);
    assert_eq!(hex_to_rgb("#fff"), None);
    assert_eq!(hex_to_rgb("#12345G"), None);
    assert_eq!(hex_to_rgb("#1234567"), None);
}

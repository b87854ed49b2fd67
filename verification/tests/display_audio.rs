//! Display compositing (draw, clear, scroll), timers and the audio
//! registers, driven through the public step interface.

use chip8_core::EmuConfig;
use chip8_core::Emulator;
use chip8_core::Variant;

fn config(variant: Variant) -> EmuConfig {
    EmuConfig {
        variant,
        quirk_legacyscroll: false,
        quirk_vfreset: variant == Variant::Chip8,
        quirk_memory: variant != Variant::SChip,
        quirk_displaywait: false,
        quirk_clipping: variant != Variant::XOChip,
        quirk_shifting: variant == Variant::SChip,
        quirk_jumping: variant == Variant::SChip,
        quirk_clipcollision: false,
    }
}

fn run(emu: &mut Emulator, steps: usize) {
    for _ in 0..steps {
        emu.tick(true).expect("step failed");
    }
}

#[test]
fn draw_sets_pixels_and_reports_no_collision_on_clear_screen() {
    let mut emu = Emulator::new(&config(Variant::Chip8));
    // I stays 0: the first font byte there is 0xF0, one row of four pixels.
    emu.load(&[0xDA, 0xB1]);
    emu.tick(true).unwrap();
    let (plane1, _) = emu.get_screen_buffers();
    assert!(plane1[0] && plane1[1] && plane1[2] && plane1[3]);
    assert!(!plane1[4]);
    assert_eq!(emu.get_v(0xF), 0);
}

#[test]
fn drawing_twice_flips_pixels_back_and_collides() {
    let mut emu = Emulator::new(&config(Variant::Chip8));
    emu.load(&[0xDA, 0xB1, 0xDA, 0xB1]);
    emu.tick(true).unwrap();
    emu.tick(true).unwrap();
    let (plane1, _) = emu.get_screen_buffers();
    assert!(plane1.iter().all(|p| !p));
    // Every touched pixel was already set, so the second draw collided.
    assert_eq!(emu.get_v(0xF), 1);
}

#[test]
fn collision_count_in_high_resolution() {
    let mut emu = Emulator::new(&config(Variant::SChip));
    // High resolution; draw two rows twice: the count of collided rows.
    emu.load(&[0x00, 0xFF, 0xDA, 0xB2, 0xDA, 0xB2]);
    run(&mut emu, 3);
    assert_eq!(emu.get_v(0xF), 2);
}

#[test]
fn clear_screen_clears_drawn_pixels() {
    let mut emu = Emulator::new(&config(Variant::Chip8));
    emu.load(&[0xDA, 0xB1, 0x00, 0xE0]);
    run(&mut emu, 2);
    let (plane1, plane2) = emu.get_screen_buffers();
    assert!(plane1.iter().all(|p| !p));
    assert!(plane2.iter().all(|p| !p));
}

#[test]
fn display_wait_stalls_draws_outside_key_frames() {
    let mut cfg = config(Variant::Chip8);
    cfg.quirk_displaywait = true;
    let mut emu = Emulator::new(&cfg);
    emu.load(&[0xDA, 0xB1]);
    emu.tick(false).unwrap();
    // Not a key frame: nothing drawn, the program counter rewound.
    assert_eq!(emu.get_pc(), 0x200);
    {
        let (plane1, _) = emu.get_screen_buffers();
        assert!(plane1.iter().all(|p| !p));
    }
    emu.tick(true).unwrap();
    let (plane1, _) = emu.get_screen_buffers();
    assert!(plane1[0]);
}

#[test]
fn low_resolution_draw_doubles_pixels_on_schip() {
    let mut emu = Emulator::new(&config(Variant::SChip));
    // Low resolution on the 128x64 screen: each logical pixel is 2x2.
    emu.load(&[0xDA, 0xB1]);
    emu.tick(true).unwrap();
    let (plane1, _) = emu.get_screen_buffers();
    assert!(plane1[0] && plane1[1] && plane1[128] && plane1[129]);
    assert!(plane1[7]); // columns 0..8 doubled from the four sprite pixels
    assert!(!plane1[8]);
}

#[test]
fn scroll_down_moves_rows_in_high_resolution() {
    let mut emu = Emulator::new(&config(Variant::SChip));
    emu.load(&[0x00, 0xFF, 0xDA, 0xB1, 0x00, 0xC2]);
    run(&mut emu, 3);
    let (plane1, _) = emu.get_screen_buffers();
    assert!(!plane1[0]);
    assert!(plane1[2 * 128] && plane1[2 * 128 + 3]);
}

#[test]
fn scroll_right_moves_columns_in_high_resolution() {
    let mut emu = Emulator::new(&config(Variant::SChip));
    emu.load(&[0x00, 0xFF, 0xDA, 0xB1, 0x00, 0xFB]);
    run(&mut emu, 3);
    let (plane1, _) = emu.get_screen_buffers();
    assert!(!plane1[0] && !plane1[3]);
    assert!(plane1[4] && plane1[7]);
    assert!(!plane1[8]);
}

#[test]
fn scroll_up_doubles_distance_in_xochip_low_resolution() {
    let mut emu = Emulator::new(&config(Variant::XOChip));
    // Draw the doubled 2x2 blocks at the top, then scroll up by 1 (2 pixels).
    emu.load(&[0xDA, 0xB1, 0x00, 0xD1]);
    run(&mut emu, 2);
    let (plane1, _) = emu.get_screen_buffers();
    // The two drawn rows moved entirely off the top of the plane.
    assert!(plane1.iter().all(|p| !p));
}

#[test]
fn xochip_draws_to_selected_plane() {
    let mut emu = Emulator::new(&config(Variant::XOChip));
    // Select plane 2, then draw.
    emu.load(&[0xF2, 0x01, 0xDA, 0xB1]);
    run(&mut emu, 2);
    let (plane1, plane2) = emu.get_screen_buffers();
    assert!(plane1.iter().all(|p| !p));
    assert!(plane2[0] && plane2[1]);
}

#[test]
fn timers_count_down_to_zero_and_gate_the_beep() {
    let mut emu = Emulator::new(&config(Variant::Chip8));
    emu.load(&[0x60, 0x02, 0xF0, 0x15, 0xF0, 0x18]);
    run(&mut emu, 3);
    assert_eq!(emu.get_delay_timer(), 2);
    assert_eq!(emu.get_sound_timer(), 2);
    emu.tick_timers();
    assert_eq!(emu.get_delay_timer(), 1);
    assert_eq!(emu.get_sound_timer(), 1);
    assert!(emu.beep);
    emu.tick_timers();
    assert_eq!(emu.get_sound_timer(), 0);
    assert!(!emu.beep);
    emu.tick_timers();
    // Never below zero.
    assert_eq!(emu.get_delay_timer(), 0);
    assert_eq!(emu.get_sound_timer(), 0);
    assert!(!emu.beep);
}

#[test]
fn delay_timer_reads_back() {
    let mut emu = Emulator::new(&config(Variant::Chip8));
    emu.load(&[0x60, 0x09, 0xF0, 0x15, 0xFA, 0x07]);
    run(&mut emu, 3);
    assert_eq!(emu.get_v(0xA), 9);
}

#[test]
fn pitch_register_sets_sound_frequency() {
    let mut emu = Emulator::new(&config(Variant::XOChip));
    assert_eq!(emu.get_sound_frequency(), 4000);
    // Pitch = 112: one octave up.
    emu.load(&[0x6A, 0x70, 0xFA, 0x3A]);
    run(&mut emu, 2);
    assert_eq!(emu.pitch, 112);
    assert_eq!(emu.get_sound_frequency(), 8000);
}

#[test]
fn pattern_buffer_loads_sixteen_bytes_at_i() {
    let mut emu = Emulator::new(&config(Variant::XOChip));
    let program = [0xA2u8, 0x00, 0xF0, 0x02];
    emu.load(&program);
    run(&mut emu, 2);
    // The sixteen bytes at 0x200 are the program itself plus zero padding.
    assert_eq!(emu.pattern_buffer[0], 0xA2);
    assert_eq!(emu.pattern_buffer[1], 0x00);
    assert_eq!(emu.pattern_buffer[2], 0xF0);
    assert_eq!(emu.pattern_buffer[3], 0x02);
    for k in 4..16 {
        assert_eq!(emu.pattern_buffer[k], 0);
    }
}

#[test]
fn reset_clears_both_planes_and_audio_state() {
    let mut emu = Emulator::new(&config(Variant::XOChip));
    emu.load(&[0xF3, 0x01, 0xDA, 0xB1, 0x6A, 0x70, 0xFA, 0x3A]);
    run(&mut emu, 4);
    emu.reset();
    let (plane1, plane2) = emu.get_screen_buffers();
    assert!(plane1.iter().all(|p| !p));
    assert!(plane2.iter().all(|p| !p));
    assert_eq!(emu.pitch, 64);
    assert_eq!(emu.pattern_buffer, vec![0u8; 16]);
    assert_eq!(emu.get_pc(), 0x200);
}

use rchip8::audio::{square_wave, Audio};
use rchip8::commons::CanTick;
use rchip8::display::{cell_position, Display};
use rchip8::errors::VmError;
use rchip8::keyboard::{key_index, Keyboard};
use rchip8::machine::Machine;
use rchip8::timer::Timer;

#[test]
fn timer_counts_down_one_frame_per_tick_at_sixty_hz() {
    let mut t = Timer::new(60);
    t.set(5);
    assert_eq!(t.get(), 5);
    for expected in (0..5).rev() {
        assert!(t.get() > 0);
        t.tick();
        assert_eq!(t.get(), expected);
    }
    // the countdown stays at zero
    t.tick();
    assert_eq!(t.get(), 0);
}

#[test]
fn timer_at_double_rate_needs_twice_the_ticks() {
    let mut t = Timer::new(120);
    t.set(3);
    for _ in 0..6 {
        t.tick();
    }
    assert_eq!(t.get(), 0);
}

#[test]
fn timer_reset_restarts_the_countdown() {
    let mut t = Timer::new(60);
    t.set(2);
    t.tick();
    t.set(4);
    assert_eq!(t.get(), 4);
}

#[test]
fn draw_twice_restores_pixels_and_reports_collision() {
    let mut d = Display::new();
    let sprite = vec![0xFFu8, 0x81];
    let first = d.draw(3, 2, &sprite);
    assert!(!first);
    assert!(d.pixel(3 + 2 * 64));
    let second = d.draw(3, 2, &sprite);
    // the second draw erases what the first set, and says so
    assert!(second);
    for idx in 0..64 * 32 {
        assert!(!d.pixel(idx));
    }
}

#[test]
fn draw_skips_cells_past_the_buffer_end() {
    let mut d = Display::new();
    // bottom-right corner: only the first bit of the row lands in bounds
    let carry = d.draw(63, 31, &vec![0x80u8, 0xFF]);
    assert!(!carry);
    assert!(d.pixel(64 * 32 - 1));
}

#[test]
fn draw_at_row_edge_runs_into_the_next_row() {
    // the buffer is linear: a byte drawn at column 60 spills into row 1
    let mut d = Display::new();
    d.draw(60, 0, &vec![0xFFu8]);
    assert!(d.pixel(60) && d.pixel(63));
    assert!(d.pixel(64) && d.pixel(67));
    assert!(!d.pixel(68));
}

#[test]
fn clear_darkens_everything_and_marks_refresh() {
    let mut d = Display::new();
    assert!(d.take_refresh());
    assert!(!d.take_refresh());
    d.draw(0, 0, &vec![0xF0u8]);
    d.clear();
    assert!(d.take_refresh());
    for idx in 0..64 * 32 {
        assert!(!d.pixel(idx));
    }
}

#[test]
fn cell_position_splits_linear_index() {
    assert_eq!(cell_position(0), (0, 0));
    assert_eq!(cell_position(130), (2, 2));
    assert_eq!(cell_position(64 * 32 - 1), (63, 31));
}

#[test]
fn key_map_covers_the_sixteen_keys() {
    assert_eq!(key_index('x' as i32), Some(0x0));
    assert_eq!(key_index('1' as i32), Some(0x1));
    assert_eq!(key_index('2' as i32), Some(0x2));
    assert_eq!(key_index('3' as i32), Some(0x3));
    assert_eq!(key_index('q' as i32), Some(0x4));
    assert_eq!(key_index('w' as i32), Some(0x5));
    assert_eq!(key_index('e' as i32), Some(0x6));
    assert_eq!(key_index('a' as i32), Some(0x7));
    assert_eq!(key_index('s' as i32), Some(0x8));
    assert_eq!(key_index('d' as i32), Some(0x9));
    assert_eq!(key_index('z' as i32), Some(0xA));
    assert_eq!(key_index('c' as i32), Some(0xB));
    assert_eq!(key_index('4' as i32), Some(0xC));
    assert_eq!(key_index('r' as i32), Some(0xD));
    assert_eq!(key_index('f' as i32), Some(0xE));
    assert_eq!(key_index('v' as i32), Some(0xF));
    assert_eq!(key_index('p' as i32), None);
}

#[test]
fn keyboard_tracks_latest_key_state() {
    let mut k = Keyboard::new();
    assert!(!k.is_down(5));
    k.key_event('w' as i32, true);
    assert!(k.is_down(5));
    k.key_event('w' as i32, false);
    assert!(!k.is_down(5));
    // an unmapped key is ignored
    k.key_event('p' as i32, true);
    for i in 0..16 {
        assert!(!k.is_down(i));
    }
}

#[test]
fn keyboard_quit_flag() {
    let mut k = Keyboard::new();
    assert!(!k.quit_requested);
    k.request_quit();
    assert!(k.quit_requested);
}

#[test]
fn first_key_down_picks_lowest_index() {
    let mut k = Keyboard::new();
    assert_eq!(k.first_key_down(), None);
    k.key_event('w' as i32, true); // key 5
    k.key_event('1' as i32, true); // key 1
    assert_eq!(k.first_key_down(), Some(1));
}

#[test]
fn audio_stop_is_reported_exactly_once() {
    let mut a = Audio::new(60);
    a.play_sound(1);
    assert_eq!(a.take_start(), Some(1));
    assert!(a.tick()); // countdown runs out: one stop
    assert!(!a.tick()); // and never again
    assert!(!a.tick());
}

#[test]
fn audio_restart_rearms_the_stop() {
    let mut a = Audio::new(60);
    a.play_sound(1);
    assert!(a.tick());
    a.play_sound(1);
    assert_eq!(a.take_start(), Some(1));
    assert!(a.tick());
}

#[test]
fn audio_zero_duration_stops_on_first_tick() {
    let mut a = Audio::new(60);
    a.play_sound(0);
    assert!(a.tick());
    assert!(!a.tick());
}

#[test]
fn square_wave_alternates_at_the_device_period() {
    let samples = square_wave(512, 1, 60);
    // 2 * 512 * 1 * 60 / 60 samples, period 512 / 256 = 2
    assert_eq!(samples.len(), 1024);
    assert_eq!(samples[0], 1000);
    assert_eq!(samples[1], 1000);
    assert_eq!(samples[2], -1000);
    assert_eq!(samples[3], -1000);
    assert_eq!(samples[4], 1000);
}

#[test]
fn square_wave_length_scales_with_duration() {
    let samples = square_wave(48000, 2, 30);
    assert_eq!(samples.len(), 2 * 48000 * 2 * 30 / 60);
}

#[test]
fn empty_rom_is_rejected() {
    let mut m = Machine::new();
    assert_eq!(m.load_rom(&Vec::new()), Err(VmError::RomEmpty));
}

#[test]
fn oversized_rom_is_rejected() {
    let mut m = Machine::new();
    let rom = vec![0u8; 4096 - 512 + 1];
    assert_eq!(m.load_rom(&rom), Err(VmError::RomTooLarge));
}

#[test]
fn largest_rom_fills_memory_to_the_end() {
    let mut m = Machine::new();
    let rom = vec![0xABu8; 4096 - 512];
    assert_eq!(m.load_rom(&rom), Ok(()));
    assert_eq!(m.mem_at(512), 0xAB);
    assert_eq!(m.mem_at(4095), 0xAB);
}

#[test]
fn character_set_occupies_low_memory() {
    let mut m = Machine::new();
    m.load_character_set();
    // glyph 0 starts with 0xF0, glyph 1 with 0x20, glyph F ends with 0x80
    assert_eq!(m.mem_at(0), 0xF0);
    assert_eq!(m.mem_at(5), 0x20);
    assert_eq!(m.mem_at(79), 0x80);
    // the ROM area is untouched
    assert_eq!(m.mem_at(512), 0x00);
}

#[test]
fn delay_timer_ticks_through_the_common_trait() {
    let mut t = Timer::new(60);
    t.set(1);
    CanTick::tick(&mut t);
    assert_eq!(t.get(), 0);
}

use rchip8::audio::Audio;
use rchip8::display::Display;
use rchip8::errors::VmError;
use rchip8::keyboard::Keyboard;
use rchip8::machine::{decode, get_n, get_nn, get_nnn, get_reg, Instr, Machine};
use rchip8::timer::Timer;

fn setup(rom: &[u8]) -> (Machine, Display, Keyboard, Timer, Audio) {
    let mut m = Machine::new();
    m.load_character_set();
    let rom_vec: Vec<u8> = rom.to_vec();
    m.load_rom(&rom_vec).expect("test ROM must load");
    (m, Display::new(), Keyboard::new(), Timer::new(60), Audio::new(60))
}

fn run(
    m: &mut Machine,
    d: &mut Display,
    k: &Keyboard,
    t: &mut Timer,
    a: &mut Audio,
    steps: usize,
) -> Result<(), VmError> {
    for _ in 0..steps {
        m.step_with(d, k, t, a, 0)?;
    }
    Ok(())
}

#[test]
fn add_with_carry_wraps_and_sets_flag() {
    // V0 = 0xFF; V1 = 0x01; V0 += V1
    let (mut m, mut d, k, mut t, mut a) = setup(&[0x60, 0xFF, 0x61, 0x01, 0x80, 0x14]);
    run(&mut m, &mut d, &k, &mut t, &mut a, 3).unwrap();
    assert_eq!(m.reg(0), 0x00);
    assert_eq!(m.reg(0xF), 1);
}

#[test]
fn add_without_carry_clears_flag() {
    // V0 = 0x10; V1 = 0x01; V0 += V1
    let (mut m, mut d, k, mut t, mut a) = setup(&[0x60, 0x10, 0x61, 0x01, 0x80, 0x14]);
    run(&mut m, &mut d, &k, &mut t, &mut a, 3).unwrap();
    assert_eq!(m.reg(0), 0x11);
    assert_eq!(m.reg(0xF), 0);
}

#[test]
fn sub_with_borrow_wraps_and_clears_flag() {
    // V0 = 0x01; V1 = 0x02; V0 -= V1: borrow occurred, flag = 0
    let (mut m, mut d, k, mut t, mut a) = setup(&[0x60, 0x01, 0x61, 0x02, 0x80, 0x15]);
    run(&mut m, &mut d, &k, &mut t, &mut a, 3).unwrap();
    assert_eq!(m.reg(0), 0xFF);
    assert_eq!(m.reg(0xF), 0);
}

#[test]
fn sub_without_borrow_sets_flag() {
    // V0 = 0x05; V1 = 0x02; V0 -= V1: no borrow, flag = 1
    let (mut m, mut d, k, mut t, mut a) = setup(&[0x60, 0x05, 0x61, 0x02, 0x80, 0x15]);
    run(&mut m, &mut d, &k, &mut t, &mut a, 3).unwrap();
    assert_eq!(m.reg(0), 0x03);
    assert_eq!(m.reg(0xF), 1);
}

#[test]
fn reverse_sub_uses_no_borrow_convention() {
    // V0 = 0x02; V1 = 0x05; V0 = V1 - V0: no borrow, flag = 1
    let (mut m, mut d, k, mut t, mut a) = setup(&[0x60, 0x02, 0x61, 0x05, 0x80, 0x17]);
    run(&mut m, &mut d, &k, &mut t, &mut a, 3).unwrap();
    assert_eq!(m.reg(0), 0x03);
    assert_eq!(m.reg(0xF), 1);
}

#[test]
fn shift_right_reports_bit_shifted_out() {
    // V0 = 0x05; V0 >>= 1
    let (mut m, mut d, k, mut t, mut a) = setup(&[0x60, 0x05, 0x80, 0x06]);
    run(&mut m, &mut d, &k, &mut t, &mut a, 2).unwrap();
    assert_eq!(m.reg(0), 0x02);
    assert_eq!(m.reg(0xF), 0x01);
}

#[test]
fn shift_left_reports_pre_shift_high_bit() {
    // V0 = 0x81; V0 <<= 1
    let (mut m, mut d, k, mut t, mut a) = setup(&[0x60, 0x81, 0x80, 0x0E]);
    run(&mut m, &mut d, &k, &mut t, &mut a, 2).unwrap();
    assert_eq!(m.reg(0), 0x02);
    assert_eq!(m.reg(0xF), 0x80);
}

#[test]
fn bitwise_ops_update_target_register() {
    // V0 = 0x0C; V1 = 0x0A; OR, then reload and AND, then reload and XOR
    let (mut m, mut d, k, mut t, mut a) = setup(&[0x60, 0x0C, 0x61, 0x0A, 0x80, 0x11]);
    run(&mut m, &mut d, &k, &mut t, &mut a, 3).unwrap();
    assert_eq!(m.reg(0), 0x0E);
    let (mut m, mut d, k, mut t, mut a) = setup(&[0x60, 0x0C, 0x61, 0x0A, 0x80, 0x12]);
    run(&mut m, &mut d, &k, &mut t, &mut a, 3).unwrap();
    assert_eq!(m.reg(0), 0x08);
    let (mut m, mut d, k, mut t, mut a) = setup(&[0x60, 0x0C, 0x61, 0x0A, 0x80, 0x13]);
    run(&mut m, &mut d, &k, &mut t, &mut a, 3).unwrap();
    assert_eq!(m.reg(0), 0x06);
}

#[test]
fn add_immediate_wraps_without_flag_change() {
    // V0 = 0xFF; V0 += 0x02
    let (mut m, mut d, k, mut t, mut a) = setup(&[0x60, 0xFF, 0x70, 0x02]);
    run(&mut m, &mut d, &k, &mut t, &mut a, 2).unwrap();
    assert_eq!(m.reg(0), 0x01);
    assert_eq!(m.reg(0xF), 0);
}

#[test]
fn jump_to_self_is_not_fatal() {
    // 0x1200 at address 0x200 jumps to itself
    let (mut m, mut d, k, mut t, mut a) = setup(&[0x12, 0x00]);
    for _ in 0..10 {
        assert_eq!(m.step_with(&mut d, &k, &mut t, &mut a, 0), Ok(()));
        assert_eq!(m.program_counter(), 0x200);
    }
}

#[test]
fn call_then_return_restores_pc_and_stack() {
    // call 0x204; filler; return
    let (mut m, mut d, k, mut t, mut a) = setup(&[0x22, 0x04, 0x00, 0x00, 0x00, 0xEE]);
    assert_eq!(m.step_with(&mut d, &k, &mut t, &mut a, 0), Ok(()));
    assert_eq!(m.program_counter(), 0x204);
    assert_eq!(m.stack_depth(), 1);
    assert_eq!(m.step_with(&mut d, &k, &mut t, &mut a, 0), Ok(()));
    assert_eq!(m.program_counter(), 0x202);
    assert_eq!(m.stack_depth(), 0);
}

#[test]
fn legacy_machine_code_routine_is_a_call() {
    // 0x0300 pushes the return address and jumps to 0x300
    let (mut m, mut d, k, mut t, mut a) = setup(&[0x03, 0x00]);
    assert_eq!(m.step_with(&mut d, &k, &mut t, &mut a, 0), Ok(()));
    assert_eq!(m.program_counter(), 0x300);
    assert_eq!(m.stack_depth(), 1);
}

#[test]
fn unmapped_opcode_is_fatal_with_literal_opcode() {
    // 0x5001: low nibble of the 5-family must be 0
    let (mut m, mut d, k, mut t, mut a) = setup(&[0x50, 0x01]);
    assert_eq!(
        m.step_with(&mut d, &k, &mut t, &mut a, 0),
        Err(VmError::UnknownInstruction(0x5001))
    );
    // the failed step leaves the machine where it was
    assert_eq!(m.program_counter(), 0x200);
}

#[test]
fn unmapped_nine_family_opcode_is_fatal() {
    let (mut m, mut d, k, mut t, mut a) = setup(&[0x90, 0x12]);
    assert_eq!(
        m.step_with(&mut d, &k, &mut t, &mut a, 0),
        Err(VmError::UnknownInstruction(0x9012))
    );
}

#[test]
fn return_on_empty_stack_is_fatal() {
    let (mut m, mut d, k, mut t, mut a) = setup(&[0x00, 0xEE]);
    assert_eq!(
        m.step_with(&mut d, &k, &mut t, &mut a, 0),
        Err(VmError::StackUnderflow)
    );
}

#[test]
fn bcd_store_past_memory_end_is_fatal() {
    // I = 0xFFF; store BCD needs bytes 0xFFF..=0x1001
    let (mut m, mut d, k, mut t, mut a) = setup(&[0xAF, 0xFF, 0xF0, 0x33]);
    assert_eq!(m.step_with(&mut d, &k, &mut t, &mut a, 0), Ok(()));
    assert_eq!(
        m.step_with(&mut d, &k, &mut t, &mut a, 0),
        Err(VmError::MemoryOutOfBounds)
    );
}

#[test]
fn store_then_load_round_trips_registers() {
    // V0..V2 = 5, 9, 0x1F; I = 0x300; store V0..V2; clear them; load V0..V2
    let rom = [
        0x60, 0x05, 0x61, 0x09, 0x62, 0x1F, 0xA3, 0x00, 0xF2, 0x55, 0x60, 0x00, 0x61, 0x00, 0x62,
        0x00, 0xF2, 0x65,
    ];
    let (mut m, mut d, k, mut t, mut a) = setup(&rom);
    run(&mut m, &mut d, &k, &mut t, &mut a, 9).unwrap();
    assert_eq!(m.reg(0), 0x05);
    assert_eq!(m.reg(1), 0x09);
    assert_eq!(m.reg(2), 0x1F);
    // the stored bytes are still in memory
    assert_eq!(m.mem_at(0x300), 0x05);
    assert_eq!(m.mem_at(0x301), 0x09);
    assert_eq!(m.mem_at(0x302), 0x1F);
}

#[test]
fn bcd_stores_decimal_digits() {
    // V0 = 234; I = 0x300; store BCD
    let (mut m, mut d, k, mut t, mut a) = setup(&[0x60, 0xEA, 0xA3, 0x00, 0xF0, 0x33]);
    run(&mut m, &mut d, &k, &mut t, &mut a, 3).unwrap();
    assert_eq!(m.mem_at(0x300), 2);
    assert_eq!(m.mem_at(0x301), 3);
    assert_eq!(m.mem_at(0x302), 4);
}

#[test]
fn skip_if_equal_immediate() {
    // V0 = 7; skip if V0 == 7
    let (mut m, mut d, k, mut t, mut a) = setup(&[0x60, 0x07, 0x30, 0x07]);
    run(&mut m, &mut d, &k, &mut t, &mut a, 2).unwrap();
    assert_eq!(m.program_counter(), 0x206);
    // V0 = 7; skip if V0 == 8: no skip
    let (mut m, mut d, k, mut t, mut a) = setup(&[0x60, 0x07, 0x30, 0x08]);
    run(&mut m, &mut d, &k, &mut t, &mut a, 2).unwrap();
    assert_eq!(m.program_counter(), 0x204);
}

#[test]
fn skip_register_comparisons() {
    // V0 = 3, V1 = 3: 5XY0 skips, 9XY0 does not
    let (mut m, mut d, k, mut t, mut a) = setup(&[0x60, 0x03, 0x61, 0x03, 0x50, 0x10]);
    run(&mut m, &mut d, &k, &mut t, &mut a, 3).unwrap();
    assert_eq!(m.program_counter(), 0x208);
    let (mut m, mut d, k, mut t, mut a) = setup(&[0x60, 0x03, 0x61, 0x03, 0x90, 0x10]);
    run(&mut m, &mut d, &k, &mut t, &mut a, 3).unwrap();
    assert_eq!(m.program_counter(), 0x206);
}

#[test]
fn jump_with_offset_adds_v0() {
    // V0 = 4; jump to V0 + 0x300
    let (mut m, mut d, k, mut t, mut a) = setup(&[0x60, 0x04, 0xB3, 0x00]);
    run(&mut m, &mut d, &k, &mut t, &mut a, 2).unwrap();
    assert_eq!(m.program_counter(), 0x304);
}

#[test]
fn random_with_zero_mask_yields_zero() {
    // V0 = 0xAA, then V0 = random & 0x00: deterministic whatever the byte
    let (mut m, mut d, k, mut t, mut a) = setup(&[0x60, 0xAA, 0xC0, 0x00]);
    assert_eq!(m.step_with(&mut d, &k, &mut t, &mut a, 0), Ok(()));
    assert_eq!(m.step(&mut d, &k, &mut t, &mut a), Ok(()));
    assert_eq!(m.reg(0), 0x00);
}

#[test]
fn random_mask_limits_bits() {
    // V0 = random & 0x0F through the real generator
    let (mut m, mut d, k, mut t, mut a) = setup(&[0xC0, 0x0F]);
    assert_eq!(m.step(&mut d, &k, &mut t, &mut a), Ok(()));
    assert!(m.reg(0) <= 0x0F);
}

#[test]
fn set_index_and_glyph_index() {
    let (mut m, mut d, k, mut t, mut a) = setup(&[0xA1, 0x23, 0x61, 0x03, 0xF1, 0x29]);
    assert_eq!(m.step_with(&mut d, &k, &mut t, &mut a, 0), Ok(()));
    assert_eq!(m.address_reg(), 0x123);
    run(&mut m, &mut d, &k, &mut t, &mut a, 2).unwrap();
    assert_eq!(m.address_reg(), 15);
}

#[test]
fn add_to_index() {
    let (mut m, mut d, k, mut t, mut a) = setup(&[0xAF, 0xFF, 0x60, 0xFF, 0xF0, 0x1E]);
    run(&mut m, &mut d, &k, &mut t, &mut a, 3).unwrap();
    assert_eq!(m.address_reg(), 0x10FE);
}

#[test]
fn delay_timer_set_and_read_through_instructions() {
    // V0 = 9; delay = V0; V1 = delay
    let (mut m, mut d, k, mut t, mut a) = setup(&[0x60, 0x09, 0xF0, 0x15, 0xF1, 0x07]);
    run(&mut m, &mut d, &k, &mut t, &mut a, 3).unwrap();
    assert_eq!(t.get(), 9);
    assert_eq!(m.reg(1), 9);
}

#[test]
fn sound_instruction_requests_playback() {
    // V0 = 30; play tone for V0 frames
    let (mut m, mut d, k, mut t, mut a) = setup(&[0x60, 0x1E, 0xF0, 0x18]);
    run(&mut m, &mut d, &k, &mut t, &mut a, 2).unwrap();
    assert_eq!(a.take_start(), Some(30));
    assert_eq!(a.take_start(), None);
}

#[test]
fn key_skip_instructions_follow_key_state() {
    // V0 = 4; skip if key 4 down
    let (mut m, mut d, mut k, mut t, mut a) = setup(&[0x60, 0x04, 0xE0, 0x9E]);
    k.key_event('q' as i32, true); // 'q' maps to key 4
    run(&mut m, &mut d, &k, &mut t, &mut a, 2).unwrap();
    assert_eq!(m.program_counter(), 0x206);

    let (mut m, mut d, mut k, mut t, mut a) = setup(&[0x60, 0x04, 0xE0, 0xA1]);
    k.key_event('q' as i32, true);
    run(&mut m, &mut d, &k, &mut t, &mut a, 2).unwrap();
    assert_eq!(m.program_counter(), 0x204);
}

#[test]
fn key_test_past_sixteen_keys_is_fatal() {
    let (mut m, mut d, k, mut t, mut a) = setup(&[0x60, 0x20, 0xE0, 0x9E]);
    assert_eq!(m.step_with(&mut d, &k, &mut t, &mut a, 0), Ok(()));
    assert_eq!(
        m.step_with(&mut d, &k, &mut t, &mut a, 0),
        Err(VmError::KeyOutOfRange(0x20))
    );
}

#[test]
fn wait_key_blocks_until_a_key_is_down() {
    let (mut m, mut d, mut k, mut t, mut a) = setup(&[0xF0, 0x0A]);
    // no key down: the instruction re-executes, the program counter stays
    assert_eq!(m.step_with(&mut d, &k, &mut t, &mut a, 0), Ok(()));
    assert_eq!(m.program_counter(), 0x200);
    // key 5 down ('w'): the wait completes
    k.key_event('w' as i32, true);
    assert_eq!(m.step_with(&mut d, &k, &mut t, &mut a, 0), Ok(()));
    assert_eq!(m.program_counter(), 0x202);
    assert_eq!(m.reg(0), 5);
}

#[test]
fn wait_key_takes_the_lowest_key_down() {
    let (mut m, mut d, mut k, mut t, mut a) = setup(&[0xF0, 0x0A]);
    k.key_event('w' as i32, true); // key 5
    k.key_event('2' as i32, true); // key 2
    assert_eq!(m.step_with(&mut d, &k, &mut t, &mut a, 0), Ok(()));
    assert_eq!(m.reg(0), 2);
}

#[test]
fn draw_instruction_draws_glyph_and_reports_collision_in_flag() {
    // V0 = 0 (position and glyph); I = glyph 0; draw 5 rows at (0, 0)
    let (mut m, mut d, k, mut t, mut a) = setup(&[0xF0, 0x29, 0xD0, 0x05]);
    run(&mut m, &mut d, &k, &mut t, &mut a, 2).unwrap();
    // glyph 0 starts with row 0xF0: the four leftmost pixels are lit
    assert!(d.pixel(0) && d.pixel(1) && d.pixel(2) && d.pixel(3));
    assert!(!d.pixel(4));
    assert_eq!(m.reg(0xF), 0);
}

#[test]
fn fetch_past_memory_end_is_fatal() {
    // jump to 0xFFF: the next fetch would need bytes 0xFFF and 0x1000
    let (mut m, mut d, k, mut t, mut a) = setup(&[0x1F, 0xFF]);
    assert_eq!(m.step_with(&mut d, &k, &mut t, &mut a, 0), Ok(()));
    assert_eq!(
        m.step_with(&mut d, &k, &mut t, &mut a, 0),
        Err(VmError::MemoryOutOfBounds)
    );
}

#[test]
fn decode_helpers_extract_fields() {
    assert_eq!(get_reg(0xABCD, 0), 0xA);
    assert_eq!(get_reg(0xABCD, 1), 0xB);
    assert_eq!(get_reg(0xABCD, 2), 0xC);
    assert_eq!(get_reg(0xABCD, 3), 0xD);
    assert_eq!(get_n(0xABCD), 0xD);
    assert_eq!(get_nn(0xABCD), 0xCD);
    assert_eq!(get_nnn(0xABCD), 0xBCD);
}

#[test]
fn decode_recognises_each_family() {
    assert_eq!(decode(0x00E0), Some(Instr::ClearScreen));
    assert_eq!(decode(0x00EE), Some(Instr::Ret));
    assert_eq!(decode(0x0123), Some(Instr::Call(0x123)));
    assert_eq!(decode(0x1234), Some(Instr::Jump(0x234)));
    assert_eq!(decode(0x2345), Some(Instr::Call(0x345)));
    assert_eq!(decode(0x3456), Some(Instr::SkipEqImm(4, 0x56)));
    assert_eq!(decode(0x4567), Some(Instr::SkipNeImm(5, 0x67)));
    assert_eq!(decode(0x5670), Some(Instr::SkipEqReg(6, 7)));
    assert_eq!(decode(0x5671), None);
    assert_eq!(decode(0x6789), Some(Instr::SetImm(7, 0x89)));
    assert_eq!(decode(0x789A), Some(Instr::AddImm(8, 0x9A)));
    assert_eq!(decode(0x89AB), None);
    assert_eq!(decode(0x89A4), Some(Instr::Alu(9, 0xA, 4)));
    assert_eq!(decode(0x89AE), Some(Instr::Alu(9, 0xA, 0xE)));
    assert_eq!(decode(0x9AB0), Some(Instr::SkipNeReg(0xA, 0xB)));
    assert_eq!(decode(0x9AB5), None);
    assert_eq!(decode(0xABCD), Some(Instr::SetIndex(0xBCD)));
    assert_eq!(decode(0xBCDE), Some(Instr::JumpV0(0xCDE)));
    assert_eq!(decode(0xCDEF), Some(Instr::Rand(0xD, 0xEF)));
    assert_eq!(decode(0xD123), Some(Instr::Draw(1, 2, 3)));
    assert_eq!(decode(0xE19E), Some(Instr::SkipKeyDown(1)));
    assert_eq!(decode(0xE1A1), Some(Instr::SkipKeyUp(1)));
    assert_eq!(decode(0xE1A2), None);
    assert_eq!(decode(0xF107), Some(Instr::GetDelay(1)));
    assert_eq!(decode(0xF10A), Some(Instr::WaitKey(1)));
    assert_eq!(decode(0xF115), Some(Instr::SetDelay(1)));
    assert_eq!(decode(0xF118), Some(Instr::Sound(1)));
    assert_eq!(decode(0xF11E), Some(Instr::AddIndex(1)));
    assert_eq!(decode(0xF129), Some(Instr::GlyphIndex(1)));
    assert_eq!(decode(0xF133), Some(Instr::StoreBcd(1)));
    assert_eq!(decode(0xF155), Some(Instr::StoreRegs(1)));
    assert_eq!(decode(0xF165), Some(Instr::LoadRegs(1)));
    assert_eq!(decode(0xF1FF), None);
}

#[test]
fn draw_past_memory_end_is_fatal() {
    // I = 0xFFF; a two-row sprite would need bytes 0xFFF and 0x1000
    let (mut m, mut d, k, mut t, mut a) = setup(&[0xAF, 0xFF, 0xD0, 0x02]);
    assert_eq!(m.step_with(&mut d, &k, &mut t, &mut a, 0), Ok(()));
    assert_eq!(
        m.step_with(&mut d, &k, &mut t, &mut a, 0),
        Err(VmError::MemoryOutOfBounds)
    );
}

#[test]
fn draw_of_last_memory_byte_is_allowed() {
    // I = 0xFFF; a one-row sprite reads exactly the last byte
    let (mut m, mut d, k, mut t, mut a) = setup(&[0xAF, 0xFF, 0xD0, 0x01]);
    assert_eq!(m.step_with(&mut d, &k, &mut t, &mut a, 0), Ok(()));
    assert_eq!(m.step_with(&mut d, &k, &mut t, &mut a, 0), Ok(()));
}

#[test]
fn register_store_past_memory_end_is_fatal() {
    // I = 0xFFF; storing V0..=V1 would need bytes 0xFFF and 0x1000
    let (mut m, mut d, k, mut t, mut a) = setup(&[0xAF, 0xFF, 0xF1, 0x55]);
    assert_eq!(m.step_with(&mut d, &k, &mut t, &mut a, 0), Ok(()));
    assert_eq!(
        m.step_with(&mut d, &k, &mut t, &mut a, 0),
        Err(VmError::MemoryOutOfBounds)
    );
}

#[test]
fn register_load_past_memory_end_is_fatal() {
    let (mut m, mut d, k, mut t, mut a) = setup(&[0xAF, 0xFF, 0xF1, 0x65]);
    assert_eq!(m.step_with(&mut d, &k, &mut t, &mut a, 0), Ok(()));
    assert_eq!(
        m.step_with(&mut d, &k, &mut t, &mut a, 0),
        Err(VmError::MemoryOutOfBounds)
    );
}

#[test]
fn clear_screen_instruction_darkens_the_display() {
    // draw glyph 0 at (0, 0), then clear the display
    let (mut m, mut d, k, mut t, mut a) = setup(&[0xF0, 0x29, 0xD0, 0x05, 0x00, 0xE0]);
    run(&mut m, &mut d, &k, &mut t, &mut a, 2).unwrap();
    assert!(d.pixel(0));
    run(&mut m, &mut d, &k, &mut t, &mut a, 1).unwrap();
    for idx in 0..64 * 32 {
        assert!(!d.pixel(idx));
    }
    assert_eq!(m.program_counter(), 0x206);
}

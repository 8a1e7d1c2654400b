use c8rs::decode::decode;
use c8rs::execute::{execute, Fault, Quirks};
use c8rs::instruction::Instruction;
use c8rs::keymap::{host_key_for, keypad_code, HostKey};
use c8rs::register::Register;
use c8rs::run::{predict_instruction, push_recent, should_draw, step, StepRecord};
use c8rs::system::{
    get_display, get_memory_u16, get_register, peek_stack, set_memory_u16, set_memory_u8,
    set_register, Machine,
};

fn machine(rom: &[u8]) -> Machine {
    Machine::new(&rom.to_vec()).unwrap()
}

fn run(m: &mut Machine, ins: Instruction, n: u64) -> Result<(), Fault> {
    execute(m, ins, &vec![], &vec![], n, 0, Quirks::default())
}

fn lit_pixels(m: &Machine) -> usize {
    m.display.iter().filter(|p| **p).count()
}

#[test]
fn new_machine_loads_font_and_rom() {
    let m = machine(&[0x12, 0x34]);
    assert_eq!(m.pc, 0x200);
    assert_eq!(m.memory.len(), 4096);
    assert_eq!(m.memory[0x50], 0xF0);
    assert_eq!(m.memory[0x9F], 0x80);
    assert_eq!(get_memory_u16(&m, 0x200), 0x1234);
    assert_eq!(m.memory[0x202], 0);
    assert!(m.stack.is_empty());
    assert!(Machine::new(&vec![0u8; 3585]).is_none());
    assert!(Machine::new(&vec![0u8; 3584]).is_some());
}

#[test]
fn clear_then_halt() {
    let mut m = machine(&[0x00, 0xE0, 0x12, 0x0A]);
    m.display[5] = true;
    step(&mut m, &vec![], &vec![], 0, 0, Quirks::default()).unwrap();
    assert_eq!(lit_pixels(&m), 0);
    assert_eq!(m.pc, 0x202);
    step(&mut m, &vec![], &vec![], 1, 0, Quirks::default()).unwrap();
    assert_eq!(m.pc, 0x20A);
}

#[test]
fn arithmetic_carry() {
    let mut m = machine(&[]);
    set_register(&mut m, Register::V1, 0xFF);
    set_register(&mut m, Register::V2, 0x02);
    run(&mut m, decode(0x8124).unwrap(), 0).unwrap();
    assert_eq!(get_register(&m, Register::V1), 0x01);
    assert_eq!(get_register(&m, Register::VF), 1);
}

#[test]
fn subtraction_borrow() {
    let mut m = machine(&[]);
    set_register(&mut m, Register::V3, 0x01);
    set_register(&mut m, Register::V4, 0x02);
    run(&mut m, decode(0x8345).unwrap(), 0).unwrap();
    assert_eq!(get_register(&m, Register::V3), 0xFF);
    assert_eq!(get_register(&m, Register::VF), 0);
}

#[test]
fn subtract_equal_and_smaller() {
    let mut m = machine(&[]);
    set_register(&mut m, Register::V3, 7);
    set_register(&mut m, Register::V4, 7);
    run(&mut m, Instruction::Subtract1(Register::V3, Register::V4), 0).unwrap();
    assert_eq!(get_register(&m, Register::V3), 0);
    assert_eq!(get_register(&m, Register::VF), 1);
    set_register(&mut m, Register::V3, 3);
    run(&mut m, Instruction::Subtract1(Register::V3, Register::V4), 0).unwrap();
    assert_eq!(get_register(&m, Register::VF), 0);
    assert_eq!(get_register(&m, Register::V3), 0xFC);
}

#[test]
fn sprite_collision() {
    let mut m = machine(&[]);
    set_memory_u8(&mut m, 0x300, 0xFF);
    m.i = 0x300;
    for x in 0..8 {
        m.display[x] = true;
    }
    run(&mut m, Instruction::Draw(Register::V0, Register::V1, 1), 1).unwrap();
    for x in 0..8u8 {
        assert!(!get_display(&m, x, 0));
    }
    assert_eq!(get_register(&m, Register::VF), 1);
}

#[test]
fn draw_miss_clears_flag() {
    let mut m = machine(&[]);
    set_memory_u8(&mut m, 0x300, 0xF0);
    m.i = 0x300;
    set_register(&mut m, Register::VF, 1);
    run(&mut m, Instruction::Draw(Register::V0, Register::V1, 1), 13).unwrap();
    assert_eq!(lit_pixels(&m), 4);
    assert!(get_display(&m, 0, 0) && get_display(&m, 3, 0) && !get_display(&m, 4, 0));
    assert_eq!(get_register(&m, Register::VF), 0);
}

#[test]
fn draw_clips_at_right_edge() {
    let mut m = machine(&[]);
    set_memory_u8(&mut m, 0x300, 0xFF);
    m.i = 0x300;
    set_register(&mut m, Register::V0, 60);
    run(&mut m, Instruction::Draw(Register::V0, Register::V1, 1), 1).unwrap();
    assert_eq!(lit_pixels(&m), 4);
    for x in 60..64u8 {
        assert!(get_display(&m, x, 0));
    }
    for x in 0..4u8 {
        assert!(!get_display(&m, x, 0));
        assert!(!get_display(&m, x, 1));
    }
}

#[test]
fn draw_clips_at_bottom_edge() {
    let mut m = machine(&[]);
    for a in 0x300..0x305u16 {
        set_memory_u8(&mut m, a, 0x80);
    }
    m.i = 0x300;
    set_register(&mut m, Register::V1, 30);
    run(&mut m, Instruction::Draw(Register::V0, Register::V1, 5), 1).unwrap();
    assert_eq!(lit_pixels(&m), 2);
    assert!(get_display(&m, 0, 30) && get_display(&m, 0, 31));
    for y in 0..3u8 {
        assert!(!get_display(&m, 0, y));
    }
}

#[test]
fn draw_coordinates_wrap_before_drawing() {
    let mut m = machine(&[]);
    set_memory_u8(&mut m, 0x300, 0x80);
    m.i = 0x300;
    set_register(&mut m, Register::V0, 64 + 5);
    set_register(&mut m, Register::V1, 32 + 2);
    run(&mut m, Instruction::Draw(Register::V0, Register::V1, 1), 1).unwrap();
    assert!(get_display(&m, 5, 2));
}

#[test]
fn draw_waits_for_vertical_blank() {
    let mut m = machine(&[0xD0, 0x11]);
    step(&mut m, &vec![], &vec![], 0, 0, Quirks::default()).unwrap();
    assert_eq!(m.pc, 0x200);
    assert_eq!(lit_pixels(&m), 0);
    step(&mut m, &vec![], &vec![], 1, 0, Quirks::default()).unwrap();
    assert_eq!(m.pc, 0x202);
}

#[test]
fn subroutine_call_and_return() {
    let mut rom = vec![0u8; 0x102];
    rom[0] = 0x23;
    rom[1] = 0x00;
    rom[0x100] = 0x00;
    rom[0x101] = 0xEE;
    let mut m = machine(&rom);
    step(&mut m, &vec![], &vec![], 0, 0, Quirks::default()).unwrap();
    assert_eq!(peek_stack(&m), Some(0x202));
    assert_eq!(m.pc, 0x300);
    step(&mut m, &vec![], &vec![], 1, 0, Quirks::default()).unwrap();
    assert!(m.stack.is_empty());
    assert_eq!(m.pc, 0x202);
}

#[test]
fn get_key_waits_for_release_edge() {
    let mut m = machine(&[0xF0, 0x0A]);
    let held = vec![HostKey::Key1];
    let none: Vec<HostKey> = vec![];
    step(&mut m, &held, &none, 0, 0, Quirks::default()).unwrap();
    assert_eq!(m.pc, 0x200);
    step(&mut m, &none, &held, 1, 0, Quirks::default()).unwrap();
    assert_eq!(get_register(&m, Register::V0), 0x1);
    assert_eq!(m.pc, 0x202);
}

#[test]
fn get_key_ignores_press_edge() {
    let mut m = machine(&[0xF3, 0x0A]);
    step(&mut m, &vec![HostKey::V], &vec![HostKey::Q], 0, 0, Quirks::default()).unwrap();
    assert_eq!(get_register(&m, Register::V3), 0x4);
    let mut m = machine(&[0xF3, 0x0A]);
    step(&mut m, &vec![HostKey::V, HostKey::Q], &vec![HostKey::Q], 0, 0, Quirks::default())
        .unwrap();
    assert_eq!(m.pc, 0x200);
    assert_eq!(get_register(&m, Register::V3), 0);
}

#[test]
fn store_one_register() {
    let mut m = machine(&[]);
    m.i = 0x400;
    set_register(&mut m, Register::V0, 0xAB);
    set_register(&mut m, Register::V1, 0xCD);
    run(&mut m, Instruction::StoreMemory(0), 0).unwrap();
    assert_eq!(m.memory[0x400], 0xAB);
    assert_eq!(m.memory[0x401], 0);
    assert_eq!(m.i, 0x401);
}

#[test]
fn store_and_load_block() {
    let mut m = machine(&[]);
    m.i = 0x400;
    for r in 0..4u8 {
        set_register(&mut m, Register::from_index(r), r + 10);
    }
    run(&mut m, Instruction::StoreMemory(3), 0).unwrap();
    assert_eq!(&m.memory[0x400..0x405], &[10, 11, 12, 13, 0]);
    assert_eq!(m.i, 0x404);
    m.i = 0x401;
    let q = Quirks { memory_increments_i: false, ..Quirks::default() };
    execute(&mut m, Instruction::LoadMemory(1), &vec![], &vec![], 0, 0, q).unwrap();
    assert_eq!(get_register(&m, Register::V0), 11);
    assert_eq!(get_register(&m, Register::V1), 12);
    assert_eq!(get_register(&m, Register::V2), 12);
    assert_eq!(m.i, 0x401);
}

#[test]
fn clear_is_idempotent() {
    let mut m = machine(&[]);
    run(&mut m, Instruction::Clear, 0).unwrap();
    let before = (m.display.clone(), m.pc, m.registers.clone());
    run(&mut m, Instruction::Clear, 0).unwrap();
    assert_eq!(before, (m.display.clone(), m.pc, m.registers.clone()));
    assert_eq!(lit_pixels(&m), 0);
}

#[test]
fn set_register_twice_is_once() {
    let mut m = machine(&[]);
    run(&mut m, Instruction::SetRegister(Register::VA, 0x42), 0).unwrap();
    let once = m.registers.clone();
    run(&mut m, Instruction::SetRegister(Register::VA, 0x42), 0).unwrap();
    assert_eq!(once, m.registers);
    assert_eq!(get_register(&m, Register::VA), 0x42);
}

#[test]
fn arithmetic_touches_only_vx_and_vf() {
    let mut m = machine(&[]);
    for r in 0..16u8 {
        set_register(&mut m, Register::from_index(r), r * 3 + 1);
    }
    let before = m.registers.clone();
    run(&mut m, Instruction::RegAdd(Register::V2, Register::V5), 0).unwrap();
    for r in 0..16usize {
        if r != 2 && r != 15 {
            assert_eq!(before[r], m.registers[r]);
        }
    }
    assert_eq!(m.registers[2], 7 + 16);
    assert_eq!(m.registers[15], 0);
}

#[test]
fn logic_and_shift_results() {
    let mut m = machine(&[]);
    set_register(&mut m, Register::V1, 0b1100);
    set_register(&mut m, Register::V2, 0b1010);
    run(&mut m, Instruction::BinaryXor(Register::V1, Register::V2), 0).unwrap();
    assert_eq!(get_register(&m, Register::V1), 0b0110);
    set_register(&mut m, Register::V3, 0x81);
    run(&mut m, Instruction::ShiftRight(Register::V4, Register::V3), 0).unwrap();
    assert_eq!(get_register(&m, Register::V4), 0x40);
    assert_eq!(get_register(&m, Register::VF), 1);
    run(&mut m, Instruction::ShiftLeft(Register::V5, Register::V3), 0).unwrap();
    assert_eq!(get_register(&m, Register::V5), 0x02);
    assert_eq!(get_register(&m, Register::VF), 1);
    set_register(&mut m, Register::V6, 0x10);
    run(&mut m, Instruction::Subtract2(Register::V6, Register::V3), 0).unwrap();
    assert_eq!(get_register(&m, Register::V6), 0x71);
    assert_eq!(get_register(&m, Register::VF), 1);
}

#[test]
fn flag_write_comes_after_result() {
    let mut m = machine(&[]);
    set_register(&mut m, Register::VF, 0xF0);
    set_register(&mut m, Register::V1, 0x20);
    run(&mut m, Instruction::RegAdd(Register::VF, Register::V1), 0).unwrap();
    assert_eq!(get_register(&m, Register::VF), 1);
}

#[test]
fn bcd_font_and_index() {
    let mut m = machine(&[]);
    m.i = 0x500;
    set_register(&mut m, Register::V7, 254);
    run(&mut m, Instruction::BCD(Register::V7), 0).unwrap();
    assert_eq!(&m.memory[0x500..0x503], &[2, 5, 4]);
    set_register(&mut m, Register::V8, 0x1B);
    run(&mut m, Instruction::FontCharacter(Register::V8), 0).unwrap();
    assert_eq!(m.i, 0x50 + 5 * 0xB);
    let q = Quirks { font_writes_memory: true, ..Quirks::default() };
    m.i = 0x600;
    execute(&mut m, Instruction::FontCharacter(Register::V8), &vec![], &vec![], 0, 0, q).unwrap();
    assert_eq!(get_memory_u16(&m, 0x600), 0x87);
    assert_eq!(m.i, 0x600);
    set_register(&mut m, Register::V9, 0x10);
    run(&mut m, Instruction::AddToIndex(Register::V9), 0).unwrap();
    assert_eq!(m.i, 0x610);
}

#[test]
fn skips_and_jumps() {
    let mut m = machine(&[]);
    m.pc = 0x202;
    set_register(&mut m, Register::V1, 5);
    run(&mut m, Instruction::SkipConditional1(Register::V1, 5), 0).unwrap();
    assert_eq!(m.pc, 0x204);
    run(&mut m, Instruction::SkipConditional2(Register::V1, 5), 0).unwrap();
    assert_eq!(m.pc, 0x204);
    run(&mut m, Instruction::SkipConditional4(Register::V1, Register::V2), 0).unwrap();
    assert_eq!(m.pc, 0x206);
    set_register(&mut m, Register::V0, 0x10);
    run(&mut m, Instruction::JumpOffset(0xFF8), 0).unwrap();
    assert_eq!(m.pc, 0x008);
}

#[test]
fn key_skips_use_the_keymap() {
    let mut m = machine(&[]);
    m.pc = 0x300;
    set_register(&mut m, Register::V1, 0xC);
    let keys = vec![HostKey::Key4];
    execute(&mut m, Instruction::SkipIfKey(Register::V1), &keys, &vec![], 0, 0, Quirks::default())
        .unwrap();
    assert_eq!(m.pc, 0x302);
    execute(&mut m, Instruction::SkipIfNotKey(Register::V1), &keys, &vec![], 0, 0, Quirks::default())
        .unwrap();
    assert_eq!(m.pc, 0x302);
    set_register(&mut m, Register::V1, 0x20);
    assert_eq!(
        execute(&mut m, Instruction::SkipIfNotKey(Register::V1), &keys, &vec![], 0, 0, Quirks::default()),
        Err(Fault::UnmappedKey(0x20))
    );
    execute(&mut m, Instruction::SkipIfKey(Register::V1), &keys, &vec![], 0, 0, Quirks::default())
        .unwrap();
    assert_eq!(m.pc, 0x302);
}

#[test]
fn keymap_round_trips() {
    for code in 0..16u8 {
        let k = host_key_for(code).unwrap();
        assert_eq!(keypad_code(k), code);
    }
    assert_eq!(host_key_for(16), None);
    assert_eq!(keypad_code(HostKey::X), 0);
    assert_eq!(keypad_code(HostKey::V), 0xF);
}

#[test]
fn timers_count_down_on_frame_steps() {
    let mut m = machine(&[0x60, 0x05, 0xF0, 0x15, 0xF0, 0x18, 0x12, 0x06]);
    for n in 0..3u64 {
        step(&mut m, &vec![], &vec![], n + 1, 0, Quirks::default()).unwrap();
    }
    assert_eq!(m.delay_timer, 5);
    assert_eq!(m.sound_timer, 5);
    let mut previous = (m.delay_timer, m.sound_timer);
    for n in 4..100u64 {
        step(&mut m, &vec![], &vec![], n, 0, Quirks::default()).unwrap();
        assert!(m.delay_timer <= previous.0 && m.sound_timer <= previous.1);
        previous = (m.delay_timer, m.sound_timer);
    }
    assert_eq!(m.delay_timer, 0);
    assert_eq!(m.sound_timer, 0);
}

#[test]
fn faults_leave_the_machine_alone() {
    let mut m = machine(&[0x00, 0x00]);
    let before = m.pc;
    assert_eq!(
        step(&mut m, &vec![], &vec![], 0, 0, Quirks::default()),
        Err(Fault::InvalidInstruction { address: 0x200, word: 0 })
    );
    assert_eq!(m.pc, before);
    assert_eq!(run(&mut m, Instruction::SubroutineReturn, 0), Err(Fault::EmptyStackReturn));
    assert_eq!(run(&mut m, Instruction::ExecuteMachineLanguageRoutine, 0), Err(Fault::MachineLanguageRoutine));
    m.i = 0xFFF;
    set_register(&mut m, Register::V0, 1);
    assert_eq!(run(&mut m, Instruction::AddToIndex(Register::V0), 0), Err(Fault::AddressOverflow));
    assert_eq!(m.i, 0xFFF);
    for _ in 0..16 {
        run(&mut m, Instruction::SubroutineCall(0x300), 0).unwrap();
    }
    assert_eq!(run(&mut m, Instruction::SubroutineCall(0x300), 0), Err(Fault::StackOverflow));
    m.pc = 0xFFE;
    assert_eq!(step(&mut m, &vec![], &vec![], 0, 0, Quirks::default()), Err(Fault::AddressOverflow));
}

#[test]
fn addresses_stay_twelve_bit() {
    let mut rom = Vec::new();
    for w in [0x6FFFu16, 0xA123, 0xF01E, 0x2208, 0x0000, 0x7001, 0x3000, 0x1206, 0xB300] {
        rom.push((w >> 8) as u8);
        rom.push(w as u8);
    }
    let mut m = machine(&rom);
    for n in 0..200u64 {
        match step(&mut m, &vec![], &vec![], n, (n * 7) as u8, Quirks::default()) {
            Ok(_) => {}
            Err(_) => break,
        }
        assert!(m.pc < 0x1000 && m.i < 0x1000);
        assert!(m.stack.len() <= 16 && m.stack.iter().all(|a| *a < 0x1000));
    }
}

#[test]
fn random_masks_the_byte() {
    let mut m = machine(&[]);
    execute(&mut m, Instruction::Random(Register::V2, 0x0F), &vec![], &vec![], 0, 0xAB, Quirks::default())
        .unwrap();
    assert_eq!(get_register(&m, Register::V2), 0x0B);
}

#[test]
fn memory_words_are_big_endian() {
    let mut m = machine(&[]);
    set_memory_u16(&mut m, 0x700, 0xBEEF);
    assert_eq!(m.memory[0x700], 0xBE);
    assert_eq!(m.memory[0x701], 0xEF);
    assert_eq!(get_memory_u16(&m, 0x700), 0xBEEF);
}

#[test]
fn prediction_follows_control_flow() {
    let mut m = machine(&[0x12, 0x04, 0x00, 0xE0, 0x23, 0x00]);
    assert_eq!(predict_instruction(&m, 0x200), (Some(Instruction::SubroutineCall(0x300)), 0x204));
    assert_eq!(predict_instruction(&m, 0x204).1, 0x300);
    assert_eq!(predict_instruction(&m, 0x202), (Some(Instruction::SubroutineCall(0x300)), 0x204));
    m.stack.push(0x202);
    set_memory_u16(&mut m, 0x300, 0x00EE);
    assert_eq!(predict_instruction(&m, 0x300), (Some(Instruction::Clear), 0x202));
}

#[test]
fn recent_instructions_keep_three() {
    let mut recent: Vec<StepRecord> = Vec::new();
    for a in 0..5u16 {
        push_recent(&mut recent, StepRecord { address: a, raw: 0, instruction: Instruction::Clear });
    }
    let addrs: Vec<u16> = recent.iter().map(|r| r.address).collect();
    assert_eq!(addrs, vec![4, 3, 2]);
    assert!(should_draw(24, false) && !should_draw(25, false) && should_draw(25, true));
}

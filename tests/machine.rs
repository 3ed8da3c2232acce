use lc3_vm_rust::cpu::Action;
use lc3_vm_rust::image::ImageError;
use lc3_vm_rust::vm::{ConditionalFlag, Opcode, Register, Stop, Vm, MR_KBDR, MR_KBSR, PC_START};

fn image(origin: u16, words: &[u16]) -> Vec<u8> {
    let mut bytes = vec![(origin >> 8) as u8, (origin & 0xff) as u8];
    for w in words {
        bytes.push((w >> 8) as u8);
        bytes.push((w & 0xff) as u8);
    }
    bytes
}

fn add_imm(dst: u16, src: u16, imm: i16) -> u16 {
    0x1000 | (dst << 9) | (src << 6) | 0x20 | ((imm as u16) & 0x1f)
}

fn add_reg(dst: u16, src1: u16, src2: u16) -> u16 {
    0x1000 | (dst << 9) | (src1 << 6) | src2
}

fn and_reg(dst: u16, src1: u16, src2: u16) -> u16 {
    0x5000 | (dst << 9) | (src1 << 6) | src2
}

const HALT: u16 = 0xF025;

/// Steps until the run stops, polling no key; returns the bytes written and
/// the number of steps taken.
fn run(vm: &mut Vm) -> (Vec<u8>, usize, Stop) {
    let mut out = Vec::new();
    let mut steps = 0;
    loop {
        steps += 1;
        match vm.step(None) {
            Action::Continue => {}
            Action::Output(bytes) => out.extend(bytes),
            Action::ReadKey { .. } => vm.receive_key(b'x'),
            Action::Stop(s) => return (out, steps, s),
        }
    }
}

fn loaded(origin: u16, words: &[u16]) -> Vm {
    let mut vm = Vm::new();
    assert_eq!(vm.read_image_file(&image(origin, words)), Ok(()));
    vm
}

#[test]
fn register_from_u16_maps_selectors() {
    assert_eq!(Register::from_u16(0), Some(Register::R0));
    assert_eq!(Register::from_u16(7), Some(Register::R7));
    assert_eq!(Register::from_u16(8), Some(Register::PC));
    assert_eq!(Register::from_u16(9), Some(Register::Cond));
    assert_eq!(Register::from_u16(10), Some(Register::Count));
    assert_eq!(Register::from_u16(11), None);
    assert_eq!(Register::R5.index(), 5);
}

#[test]
fn opcode_from_u16_maps_all_sixteen() {
    assert_eq!(Opcode::from_u16(0), Some(Opcode::Br));
    assert_eq!(Opcode::from_u16(1), Some(Opcode::Add));
    assert_eq!(Opcode::from_u16(10), Some(Opcode::Ldi));
    assert_eq!(Opcode::from_u16(15), Some(Opcode::Trap));
    assert_eq!(Opcode::from_u16(16), None);
    for v in 0..16u16 {
        assert!(Opcode::from_u16(v).is_some());
    }
}

#[test]
fn new_machine_state() {
    let vm = Vm::new();
    assert_eq!(vm.read_register(Register::PC), PC_START);
    assert_eq!(vm.read_register(Register::Cond), 2);
    assert_eq!(vm.read_register(Register::R3), 0);
    assert_eq!(vm.peek_memory(0x3000), 0);
    assert_eq!(vm.stopped(), None);
    assert_eq!(ConditionalFlag::Zro.bits(), 2);
    assert_eq!(ConditionalFlag::Pos.bits(), 1);
    assert_eq!(ConditionalFlag::Neg.bits(), 4);
}

#[test]
fn write_register_sets_flags_for_general_registers() {
    let mut vm = Vm::new();
    vm.write_register(Register::R1, 5);
    assert_eq!(vm.read_register(Register::R1), 5);
    assert_eq!(vm.read_register(Register::Cond), 1);
    vm.write_register(Register::R2, 0x8000);
    assert_eq!(vm.read_register(Register::Cond), 4);
    vm.write_register(Register::R3, 0);
    assert_eq!(vm.read_register(Register::Cond), 2);
    vm.write_register(Register::PC, 0x8001);
    assert_eq!(vm.read_register(Register::Cond), 2);
    vm.update_flags(0xFFFF);
    assert_eq!(vm.read_register(Register::Cond), 4);
}

#[test]
fn write_and_read_memory() {
    let mut vm = Vm::new();
    vm.write_memory(0x4000, 0xBEEF);
    assert_eq!(vm.read_memory(0x4000, None), 0xBEEF);
    assert_eq!(vm.read_memory(0x4000, Some(b'q')), 0xBEEF);
    assert_eq!(vm.peek_memory(MR_KBDR), 0);
}

#[test]
fn reg_decodes_field() {
    let vm = Vm::new();
    assert_eq!(vm.reg(3), Register::R3);
    assert_eq!(vm.reg(7), Register::R7);
}

#[test]
fn sign_ext_values() {
    let vm = Vm::new();
    assert_eq!(vm.sign_ext(0x1F, 5), 0xFFFF);
    assert_eq!(vm.sign_ext(0x0F, 5), 0x000F);
    assert_eq!(vm.sign_ext(0x10, 5), 0xFFF0);
    assert_eq!(vm.sign_ext(0x1FF, 9), 0xFFFF);
    assert_eq!(vm.sign_ext(0x100, 9), 0xFF00);
    assert_eq!(vm.sign_ext(0x0FF, 9), 0x00FF);
    assert_eq!(vm.sign_ext(0x3E, 6), 0xFFFE);
    assert_eq!(vm.sign_ext(0x400, 11), 0xFC00);
    assert_eq!(vm.sign_ext(0xABCD, 16), 0xABCD);
    assert_eq!(vm.sign_ext(0xFFE5, 5), 0x0005);
}

#[test]
fn sign_ext_imm5_is_twos_complement_and_idempotent() {
    let vm = Vm::new();
    for imm in 0..32u16 {
        let e = vm.sign_ext(imm, 5);
        let expected = if imm < 16 { imm as i32 } else { imm as i32 - 32 };
        assert_eq!(e as i16 as i32, expected);
        assert_eq!(vm.sign_ext(e, 5), e);
    }
}

#[test]
fn add_and_register_mode_wrap_and_flags() {
    let cases: [(u16, u16); 5] = [(0xFFFF, 2), (0x7FFF, 1), (0, 0), (0x1234, 0x4321), (0x8000, 0x8000)];
    for (a, b) in cases {
        let mut vm = loaded(0x3000, &[add_reg(2, 0, 1), and_reg(3, 0, 1), HALT]);
        vm.write_register(Register::R0, a);
        vm.write_register(Register::R1, b);
        assert_eq!(vm.step(None), Action::Continue);
        let sum = a.wrapping_add(b);
        assert_eq!(vm.read_register(Register::R2), sum);
        let flag = if sum == 0 { 2 } else if sum & 0x8000 != 0 { 4 } else { 1 };
        assert_eq!(vm.read_register(Register::Cond), flag);
        assert_eq!(vm.step(None), Action::Continue);
        assert_eq!(vm.read_register(Register::R3), a & b);
        let flag = if a & b == 0 { 2 } else if a & b & 0x8000 != 0 { 4 } else { 1 };
        assert_eq!(vm.read_register(Register::Cond), flag);
    }
}

#[test]
fn add_register_mode_exact_value() {
    let mut vm = loaded(0x3000, &[add_reg(2, 0, 1)]);
    vm.write_register(Register::R0, 0xFFFF);
    vm.write_register(Register::R1, 2);
    vm.step(None);
    assert_eq!(vm.read_register(Register::R2), 1);
    assert_eq!(vm.read_register(Register::Cond), 1);
}

#[test]
fn ldi_loads_through_pointer_like_ld() {
    // LDI R1, #1 at 0x3000: the pointer at 0x3002 is 0x4000, which holds 0xCAFE.
    let mut vm = loaded(0x3000, &[0xA201, HALT, 0x4000]);
    vm.write_memory(0x4000, 0xCAFE);
    assert_eq!(vm.step(None), Action::Continue);
    assert_eq!(vm.read_register(Register::R1), 0xCAFE);
    assert_eq!(vm.read_register(Register::Cond), 4);

    // LD R7, #15 at 0x3FF0 reads 0x4000, the pointer's target, directly.
    let mut direct = loaded(0x3FF0, &[0x2E0F]);
    direct.write_memory(0x4000, 0xCAFE);
    direct.step(None);
    assert_eq!(direct.read_register(Register::R7), 0xCAFE);
}

#[test]
fn sti_stores_through_pointer() {
    // STI R0, #1 at 0x3000: pointer at 0x3002 is 0x5000.
    let mut vm = loaded(0x3000, &[0xB001, HALT, 0x5000]);
    vm.write_register(Register::R0, 0x1234);
    vm.step(None);
    assert_eq!(vm.peek_memory(0x5000), 0x1234);
}

#[test]
fn load_store_and_address_opcodes() {
    // LD R1,#3 ; ST R1,#3 ; LEA R3,#-3 ; HALT ; data 0x0042 ; slot
    let mut vm = loaded(0x3000, &[0x2203, 0x3203, 0xE7FD, HALT, 0x0042, 0]);
    vm.step(None);
    assert_eq!(vm.read_register(Register::R1), 0x0042);
    vm.step(None);
    assert_eq!(vm.peek_memory(0x3005), 0x0042);
    vm.step(None);
    assert_eq!(vm.read_register(Register::R3), 0x3000);
    assert_eq!(vm.read_register(Register::Cond), 1);
}

#[test]
fn ldr_str_not() {
    // LDR R1, R0, #-1 ; STR R1, R0, #1 ; NOT R2, R1
    let mut vm = loaded(0x3000, &[0x623F, 0x7201, 0x947F]);
    vm.write_register(Register::R0, 0x4001);
    vm.write_memory(0x4000, 0x00F0);
    vm.step(None);
    assert_eq!(vm.read_register(Register::R1), 0x00F0);
    vm.step(None);
    assert_eq!(vm.peek_memory(0x4002), 0x00F0);
    vm.step(None);
    assert_eq!(vm.read_register(Register::R2), 0xFF0F);
    assert_eq!(vm.read_register(Register::Cond), 4);
}

#[test]
fn branch_taken_and_not_taken() {
    // BRz #2 with the zero flag set is taken; BRn #-1 with the zero flag is not.
    let mut vm = loaded(0x3000, &[0x0402]);
    vm.step(None);
    assert_eq!(vm.read_register(Register::PC), 0x3003);
    let mut vm = loaded(0x3000, &[0x09FF]);
    vm.step(None);
    assert_eq!(vm.read_register(Register::PC), 0x3001);
}

#[test]
fn jumps_and_subroutines() {
    // JSR #4 saves the return address in R7 and jumps.
    let mut vm = loaded(0x3000, &[0x4804]);
    vm.step(None);
    assert_eq!(vm.read_register(Register::R7), 0x3001);
    assert_eq!(vm.read_register(Register::PC), 0x3005);
    assert_eq!(vm.read_register(Register::Cond), 2);
    // JSRR R2
    let mut vm = loaded(0x3000, &[0x4080]);
    vm.write_register(Register::R2, 0x9000);
    assert_eq!(vm.read_register(Register::Cond), 4);
    vm.step(None);
    assert_eq!(vm.read_register(Register::PC), 0x9000);
    assert_eq!(vm.read_register(Register::R7), 0x3001);
    assert_eq!(vm.read_register(Register::Cond), 4);
    // JMP R3 (RET is JMP R7)
    let mut vm = loaded(0x3000, &[0xC0C0]);
    vm.write_register(Register::R3, 0x1234);
    vm.step(None);
    assert_eq!(vm.read_register(Register::PC), 0x1234);
}

#[test]
fn load_places_words_from_origin() {
    let mut vm = Vm::new();
    assert_eq!(vm.read_image_file(&vec![0x40, 0x00, 0x12, 0x34, 0xAB, 0xCD]), Ok(()));
    assert_eq!(vm.read_register(Register::PC), 0x4000);
    assert_eq!(vm.read_memory(0x4000, None), 0x1234);
    assert_eq!(vm.read_memory(0x4001, None), 0xABCD);
    assert_eq!(vm.read_memory(0x4002, None), 0);
}

#[test]
fn load_wraps_at_end_of_memory() {
    let vm = loaded(0xFFFF, &[1, 2, 3]);
    assert_eq!(vm.peek_memory(0xFFFF), 1);
    assert_eq!(vm.peek_memory(0x0000), 2);
    assert_eq!(vm.peek_memory(0x0001), 3);
}

#[test]
fn load_empty_program_sets_origin_only() {
    let vm = loaded(0x3100, &[]);
    assert_eq!(vm.read_register(Register::PC), 0x3100);
    assert_eq!(vm.peek_memory(0x3100), 0);
}

#[test]
fn load_refuses_missing_origin() {
    let mut vm = Vm::new();
    assert_eq!(vm.read_image_file(&vec![]), Err(ImageError::MissingOrigin));
    assert_eq!(vm.read_image_file(&vec![0x30]), Err(ImageError::MissingOrigin));
    assert_eq!(vm.read_register(Register::PC), PC_START);
}

#[test]
fn load_refuses_truncated_word() {
    let mut vm = Vm::new();
    assert_eq!(vm.read_image_file(&vec![0x40, 0x00, 0x12, 0x34, 0xAB]), Err(ImageError::TruncatedWord));
    assert_eq!(vm.read_register(Register::PC), PC_START);
    assert_eq!(vm.peek_memory(0x4000), 0);
}

#[test]
fn halt_scenario_single_instruction() {
    let mut vm = Vm::new();
    assert_eq!(vm.read_image_file(&vec![0x30, 0x00, 0xF0, 0x25]), Ok(()));
    let (out, steps, stop) = run(&mut vm);
    assert_eq!(steps, 1);
    assert_eq!(stop, Stop::Halted);
    assert!(out.is_empty());
    assert_eq!(vm.read_register(Register::R7), 0x3001);
    assert_eq!(vm.read_register(Register::PC), 0x3001);
    assert_eq!(vm.read_register(Register::Cond), 2);
    for r in [Register::R0, Register::R1, Register::R2, Register::R3, Register::R4, Register::R5, Register::R6] {
        assert_eq!(vm.read_register(r), 0);
    }
}

#[test]
fn add_immediate_scenario() {
    let mut vm = loaded(0x3000, &[add_imm(0, 0, 5), add_imm(0, 0, -3), HALT]);
    let (_, steps, stop) = run(&mut vm);
    assert_eq!(steps, 3);
    assert_eq!(stop, Stop::Halted);
    assert_eq!(vm.read_register(Register::R0), 2);
    assert_eq!(vm.read_register(Register::Cond), 1);
}

#[test]
fn halted_machine_does_not_change() {
    let mut vm = loaded(0x3000, &[HALT, add_imm(0, 0, 5), 0x3000]);
    assert_eq!(vm.step(None), Action::Stop(Stop::Halted));
    let pc = vm.read_register(Register::PC);
    for _ in 0..5 {
        assert_eq!(vm.step(Some(b'k')), Action::Stop(Stop::Halted));
    }
    assert_eq!(vm.read_register(Register::PC), pc);
    assert_eq!(vm.read_register(Register::R0), 0);
    assert_eq!(vm.peek_memory(MR_KBDR), 0);
    assert_eq!(vm.stopped(), Some(Stop::Halted));
}

#[test]
fn puts_writes_until_zero_word() {
    // LEA R0,#2 ; PUTS ; HALT ; "Hi" ; 0
    let mut vm = loaded(0x3000, &[0xE002, 0xF022, HALT, 0x48, 0x69, 0x00, 0x21]);
    vm.step(None);
    assert_eq!(vm.read_register(Register::R0), 0x3003);
    assert_eq!(vm.read_register(Register::Cond), 1);
    assert_eq!(vm.step(None), Action::Output(vec![0x48, 0x69]));
    assert_eq!(vm.read_register(Register::R7), 0x3002);
    assert_eq!(vm.read_register(Register::Cond), 1);
    let (out, _, stop) = run(&mut vm);
    assert!(out.is_empty());
    assert_eq!(stop, Stop::Halted);
}

#[test]
fn putsp_writes_packed_characters() {
    // "Hi!" packed: 0x6948 ('H','i'), 0x0021 ('!'), 0
    let mut vm = loaded(0x3000, &[0xF024, 0x6948, 0x0021, 0x0000]);
    vm.write_register(Register::R0, 0x3001);
    assert_eq!(vm.step(None), Action::Output(vec![b'H', b'i', b'!']));
}

#[test]
fn out_writes_low_byte_of_r0() {
    let mut vm = loaded(0x3000, &[0xF021]);
    vm.write_register(Register::R0, 0x1241);
    assert_eq!(vm.step(None), Action::Output(vec![0x41]));
}

#[test]
fn getc_and_in_ask_for_a_key() {
    let mut vm = loaded(0x3000, &[0xF020, 0xF023]);
    assert_eq!(vm.step(None), Action::ReadKey { echo: false });
    vm.receive_key(b'a');
    assert_eq!(vm.read_register(Register::R0), 0x61);
    assert_eq!(vm.read_register(Register::Cond), 1);
    assert_eq!(vm.step(None), Action::ReadKey { echo: true });
    vm.receive_key(0);
    assert_eq!(vm.read_register(Register::R0), 0);
    assert_eq!(vm.read_register(Register::Cond), 2);
}

#[test]
fn unknown_trap_stops_the_run() {
    let mut vm = loaded(0x3000, &[0xF030]);
    vm.write_register(Register::R1, 0xFFFF);
    assert_eq!(vm.step(None), Action::Stop(Stop::UnimplementedTrap(0x30)));
    assert_eq!(vm.read_register(Register::Cond), 4);
    assert_eq!(vm.read_register(Register::R7), 0x3001);
    assert_eq!(vm.read_register(Register::R1), 0xFFFF);
    assert_eq!(vm.stopped(), Some(Stop::UnimplementedTrap(0x30)));
}

#[test]
fn reserved_opcodes_stop_the_run() {
    let mut vm = loaded(0x3000, &[0x8000]);
    assert_eq!(vm.step(None), Action::Stop(Stop::UnsupportedOpcode(Opcode::Rti)));
    let mut vm = loaded(0x3000, &[0xD000]);
    assert_eq!(vm.step(None), Action::Stop(Stop::UnsupportedOpcode(Opcode::Res)));
}

#[test]
fn keyboard_status_without_key() {
    let mut vm = Vm::new();
    vm.write_memory(MR_KBDR, 0x77);
    vm.write_memory(MR_KBSR, 0x8000);
    assert_eq!(vm.read_memory(MR_KBSR, None), 0);
    assert_eq!(vm.peek_memory(MR_KBDR), 0x77);
}

#[test]
fn keyboard_status_with_key() {
    let mut vm = Vm::new();
    assert_eq!(vm.read_memory(MR_KBSR, Some(b'z')), 0x8000);
    assert_eq!(vm.peek_memory(MR_KBDR), b'z' as u16);
    assert_eq!(vm.read_memory(MR_KBDR, None), b'z' as u16);
}

#[test]
fn keyboard_poll_needed_only_for_status_reads() {
    // LDI R0, #0 with the pointer 0xFE00 in the next word: reads the status.
    let mut vm = loaded(0x3000, &[0xA000, 0xFE00]);
    assert!(vm.polls_keyboard());
    vm.step(Some(b'k'));
    assert_eq!(vm.read_register(Register::R0), 0x8000);
    assert_eq!(vm.peek_memory(MR_KBDR), b'k' as u16);
    // ADD does not touch the keyboard.
    let vm = loaded(0x3000, &[add_imm(0, 0, 1)]);
    assert!(!vm.polls_keyboard());
    // PUTS from 0xFDFE reaches the status register.
    let mut vm = loaded(0x3000, &[0xF022]);
    vm.write_register(Register::R0, 0xFDFE);
    vm.write_memory(0xFDFE, 0x41);
    vm.write_memory(0xFDFF, 0x42);
    assert!(vm.polls_keyboard());
    assert_eq!(vm.step(None), Action::Output(vec![0x41, 0x42]));
}

#[test]
fn execute_runs_a_given_word() {
    let mut vm = Vm::new();
    assert_eq!(vm.execute(add_imm(4, 4, 7), None), Action::Continue);
    assert_eq!(vm.read_register(Register::R4), 7);
}

/// A small program in the image format: LEA R0 to a string, PUTS, HALT,
/// then the string "Hello World!" one character per word.
fn hello_image() -> Vec<u8> {
    let mut words = vec![0xE002, 0xF022, HALT];
    for c in "Hello World!".bytes() {
        words.push(c as u16);
    }
    words.push(0);
    image(0x3000, &words)
}

/// A longer program image: a counting loop that stores to memory.
fn game_image(seed: u16) -> Vec<u8> {
    // AND R0,R0,#0 ; ADD R0,R0,#10 ; ADD R0,R0,#-1 ; BRp #-2 ; HALT ; data
    image(0x3000, &[0x5020, add_imm(0, 0, 10), add_imm(0, 0, -1), 0x03FE, HALT, seed])
}

#[test]
fn test_hello_world_memory_load() {
    let mut lc3 = Vm::new();
    let result = lc3.read_image_file(&hello_image());
    assert!(result.is_ok(), "Failed to load the hello world image.");

    let first_instr = lc3.read_memory(0x3000, None);
    assert_ne!(first_instr, 0, "Memory at 0x3000 should contain an instruction, but it is empty.");
}

#[test]
fn test_hello_world_terminal_output() {
    let mut lc3 = Vm::new();
    assert!(lc3.read_image_file(&hello_image()).is_ok());
    let (out, _, stop) = run(&mut lc3);
    let text: String = out.iter().map(|&b| b as char).collect();
    assert!(text.contains("Hello World!"));
    assert_eq!(stop, Stop::Halted);
}

#[test]
fn test_rogue_memory_load() {
    let mut lc3 = Vm::new();
    let result = lc3.read_image_file(&game_image(0x1234));
    assert!(result.is_ok(), "Failed to load the rogue image.");

    let first_instr = lc3.read_memory(0x3000, None);
    assert_ne!(first_instr, 0, "Memory at 0x3000 for Rogue should contain an instruction, but it is empty.");
}

#[test]
fn test_2048_memory_load() {
    let mut lc3 = Vm::new();
    let result = lc3.read_image_file(&game_image(2048));
    assert!(result.is_ok(), "Failed to load the 2048 image.");

    let first_instr = lc3.read_memory(0x3000, None);
    assert_ne!(first_instr, 0, "Memory at 0x3000 for 2048 should contain an instruction, but it is empty.");
    let (_, _, stop) = run(&mut lc3);
    assert_eq!(stop, Stop::Halted);
    assert_eq!(lc3.read_register(Register::R0), 0);
}

use akasabi::bits::LimitedU8;
use akasabi::database::{MemoryError, RegisterError};
use akasabi::instructions::{ArithmeticInstructions, ControlInstructions};
use akasabi::journal::LC3NoMemoryHistory;
use akasabi::processor::{LC3NoMemoryError, LC3NoMemoryInstructions, LC3NoMemoryProcessor};

type I = LC3NoMemoryInstructions;

fn andi(dr: usize, sr1: usize, imm: u8) -> I {
    I::Arithmetic(ArithmeticInstructions::ANDI { dr, sr1, imm5: LimitedU8::new(imm) })
}

fn addi(dr: usize, sr1: usize, imm: u8) -> I {
    I::Arithmetic(ArithmeticInstructions::ADDI { dr, sr1, imm5: LimitedU8::new(imm) })
}

fn br(n: bool, z: bool, p: bool, off: u16) -> I {
    I::Control(ControlInstructions::BR { n, z, p, pc_offset9: off })
}

fn journal_of<const N: usize>(cpu: &LC3NoMemoryProcessor<N>) -> &LC3NoMemoryHistory {
    cpu.history().unwrap()
}

#[test]
fn andi_then_addi_minus_five_sets_negative() {
    let program = [andi(1, 1, 0), addi(1, 1, 0b1_1011)];
    let mut cpu = LC3NoMemoryProcessor::new(
        Some(program),
        Some([0, 7, 0, 0, 0, 0, 0, 0]),
        None,
        None,
        Some(LC3NoMemoryHistory::new()),
    );
    assert_eq!(cpu.step(), Ok(()));
    assert_eq!(journal_of(&cpu).registers()[1], 0);
    assert_eq!(journal_of(&cpu).status(), [false, true, false]);
    assert_eq!(cpu.step(), Ok(()));
    let h = journal_of(&cpu);
    assert_eq!(h.registers()[1], 0xFFFB);
    assert_eq!(h.status(), [true, false, false]);
    assert_eq!(h.pc(), 2);
    assert_eq!(h.now(), 2);
}

#[test]
fn branch_on_positive_skips_the_halt_branch() {
    let program = [andi(1, 1, 0), addi(1, 1, 5), br(false, false, true, 2), br(true, true, true, 0x1FF)];
    let mut cpu = LC3NoMemoryProcessor::new(Some(program), None, None, None, Some(LC3NoMemoryHistory::new()));
    assert_eq!(cpu.step(), Ok(()));
    assert_eq!(cpu.step(), Ok(()));
    assert_eq!(journal_of(&cpu).status(), [false, false, true]);
    assert_eq!(cpu.step(), Ok(()));
    assert_eq!(journal_of(&cpu).pc(), 4);
    assert_eq!(cpu.step(), Err(LC3NoMemoryError::Halted));
    assert_eq!(journal_of(&cpu).now(), 3);
}

#[test]
fn branch_not_taken_advances() {
    let program = [br(true, false, false, 3), I::Uninitialized];
    let mut cpu = LC3NoMemoryProcessor::new(Some(program), None, Some([false, true, false]), None, Some(LC3NoMemoryHistory::new()));
    assert_eq!(cpu.step(), Ok(()));
    assert_eq!(journal_of(&cpu).pc(), 1);
}

#[test]
fn branch_backwards_wraps_to_earlier_address() {
    let program = [I::Uninitialized, br(false, true, false, 0x1FF)];
    let mut cpu = LC3NoMemoryProcessor::new(Some(program), None, Some([false, true, false]), Some(1), Some(LC3NoMemoryHistory::new()));
    assert_eq!(cpu.step(), Ok(()));
    assert_eq!(journal_of(&cpu).pc(), 0);
    assert_eq!(cpu.step(), Err(LC3NoMemoryError::Halted));
}

#[test]
fn jsr_then_ret_returns_after_the_call() {
    let mut program = [I::Uninitialized; 8];
    program[2] = I::Control(ControlInstructions::JSR { pc_offset11: 3 });
    program[6] = I::Control(ControlInstructions::RET);
    let mut cpu = LC3NoMemoryProcessor::new(Some(program), None, None, Some(2), Some(LC3NoMemoryHistory::new()));
    assert_eq!(cpu.step(), Ok(()));
    assert_eq!(journal_of(&cpu).registers()[7], 3);
    assert_eq!(journal_of(&cpu).pc(), 6);
    assert_eq!(cpu.step(), Ok(()));
    assert_eq!(journal_of(&cpu).pc(), 3);
}

#[test]
fn jsr_with_negative_offset() {
    let mut program = [I::Uninitialized; 8];
    program[5] = I::Control(ControlInstructions::JSR { pc_offset11: 0x7FC });
    let mut cpu = LC3NoMemoryProcessor::new(Some(program), None, None, Some(5), Some(LC3NoMemoryHistory::new()));
    assert_eq!(cpu.step(), Ok(()));
    assert_eq!(journal_of(&cpu).registers()[7], 6);
    assert_eq!(journal_of(&cpu).pc(), 2);
}

#[test]
fn jsrr_and_jmp_use_registers() {
    let program = [
        I::Control(ControlInstructions::JSRR { base_r: 2 }),
        I::Uninitialized,
        I::Uninitialized,
        I::Control(ControlInstructions::JMP { base_r: 7 }),
    ];
    let mut cpu = LC3NoMemoryProcessor::new(Some(program), Some([0, 0, 3, 0, 0, 0, 0, 0]), None, None, Some(LC3NoMemoryHistory::new()));
    assert_eq!(cpu.step(), Ok(()));
    assert_eq!(journal_of(&cpu).registers()[7], 1);
    assert_eq!(journal_of(&cpu).pc(), 3);
    assert_eq!(cpu.step(), Ok(()));
    assert_eq!(journal_of(&cpu).pc(), 1);
    assert_eq!(cpu.step(), Err(LC3NoMemoryError::Halted));
}

#[test]
fn add_wraps_and_not_inverts() {
    let program = [
        I::Arithmetic(ArithmeticInstructions::ADD { dr: 0, sr1: 1, sr2: 2 }),
        I::Arithmetic(ArithmeticInstructions::NOT { dr: 3, sr: 0 }),
        I::Arithmetic(ArithmeticInstructions::AND { dr: 4, sr1: 1, sr2: 2 }),
    ];
    let mut cpu = LC3NoMemoryProcessor::new(Some(program), Some([0, 0xFFFF, 2, 0, 0, 0, 0, 0]), None, None, Some(LC3NoMemoryHistory::new()));
    assert_eq!(cpu.step(), Ok(()));
    assert_eq!(journal_of(&cpu).registers()[0], 1);
    assert_eq!(journal_of(&cpu).status(), [false, false, true]);
    assert_eq!(cpu.step(), Ok(()));
    assert_eq!(journal_of(&cpu).registers()[3], 0xFFFE);
    assert_eq!(journal_of(&cpu).status(), [true, false, false]);
    assert_eq!(cpu.step(), Ok(()));
    assert_eq!(journal_of(&cpu).registers()[4], 2);
}

// The sign of a result is its bit 15: 0x0080 is positive, although its bit 7 is set.
#[test]
fn condition_codes_use_bit_fifteen() {
    let program = [addi(0, 0, 0)];
    let mut cpu = LC3NoMemoryProcessor::new(Some(program), Some([0x0080, 0, 0, 0, 0, 0, 0, 0]), None, None, Some(LC3NoMemoryHistory::new()));
    assert_eq!(cpu.step(), Ok(()));
    assert_eq!(journal_of(&cpu).registers()[0], 0x0080);
    assert_eq!(journal_of(&cpu).status(), [false, false, true]);
}

#[test]
fn lea_loads_address_after_the_instruction() {
    let program = [I::Uninitialized, I::LEA { dr: 2, pc_offset9: 4 }];
    let mut cpu = LC3NoMemoryProcessor::new(Some(program), None, None, Some(1), Some(LC3NoMemoryHistory::new()));
    assert_eq!(cpu.step(), Ok(()));
    assert_eq!(journal_of(&cpu).registers()[2], 6);
    assert_eq!(journal_of(&cpu).status(), [false, false, true]);
    assert_eq!(journal_of(&cpu).pc(), 2);
}

#[test]
fn halted_fetch_leaves_state_unchanged() {
    let program = [andi(1, 1, 0), I::Uninitialized];
    let mut cpu = LC3NoMemoryProcessor::new(Some(program), Some([9; 8]), None, None, Some(LC3NoMemoryHistory::new()));
    assert_eq!(cpu.step(), Ok(()));
    assert_eq!(cpu.step(), Err(LC3NoMemoryError::Halted));
    assert_eq!(cpu.step(), Err(LC3NoMemoryError::Halted));
    let h = journal_of(&cpu);
    assert_eq!(h.now(), 1);
    assert_eq!(h.pc(), 1);
    assert_eq!(h.registers()[1], 0);
}

#[test]
fn fetch_past_the_end_halts() {
    let mut cpu = LC3NoMemoryProcessor::<2>::new(None, None, None, Some(7), None);
    assert_eq!(cpu.step(), Err(LC3NoMemoryError::Halted));
    assert!(cpu.history().is_none());
}

#[test]
fn trap_and_rti_halt() {
    let program = [I::Control(ControlInstructions::TRAP { trap_vect8: LimitedU8::new(0x25) }), I::Control(ControlInstructions::RTI)];
    let mut cpu = LC3NoMemoryProcessor::new(Some(program), None, None, None, None);
    assert_eq!(cpu.step(), Err(LC3NoMemoryError::Halted));
    let mut cpu = LC3NoMemoryProcessor::new(Some(program), None, None, Some(1), None);
    assert_eq!(cpu.step(), Err(LC3NoMemoryError::Halted));
}

#[test]
fn register_out_of_range_fails_without_changes() {
    let program = [I::Arithmetic(ArithmeticInstructions::ADD { dr: 8, sr1: 0, sr2: 0 })];
    let mut cpu = LC3NoMemoryProcessor::new(Some(program), None, None, None, Some(LC3NoMemoryHistory::new()));
    assert_eq!(cpu.step(), Err(LC3NoMemoryError::RegisterError(RegisterError::OutOfRange)));
    let h = journal_of(&cpu);
    assert_eq!(h.now(), 0);
    assert_eq!(h.pc(), 0);
    assert!(h.last_instruction().is_none());
}

#[test]
fn memory_error_converts() {
    assert_eq!(LC3NoMemoryError::from(MemoryError::OutOfRange), LC3NoMemoryError::MemoryError(MemoryError::OutOfRange));
    assert_eq!(LC3NoMemoryError::from(RegisterError::OutOfRange), LC3NoMemoryError::RegisterError(RegisterError::OutOfRange));
}

#[test]
fn journal_records_one_batch_per_step() {
    let program = [andi(1, 1, 0), addi(1, 1, 5)];
    let mut cpu = LC3NoMemoryProcessor::new(Some(program), Some([0, 3, 0, 0, 0, 0, 0, 0]), None, None, Some(LC3NoMemoryHistory::new()));
    assert_eq!(cpu.step(), Ok(()));
    assert_eq!(cpu.step(), Ok(()));
    let h = journal_of(&cpu);
    assert_eq!(h.now(), 2);
    let b = h.batch(1);
    assert_eq!(b.reg.len(), 1);
    assert_eq!((b.reg.get(0).key, b.reg.get(0).pre, b.reg.get(0).post), (1, 0, 5));
    assert_eq!(b.psr.len(), 3);
    assert_eq!(b.pc.len(), 1);
    assert_eq!((b.pc.get(0).pre, b.pc.get(0).post), (1, 2));
    assert_eq!(h.last_instruction(), Some(addi(1, 1, 5)));
}

#[test]
fn default_instruction_is_uninitialized() {
    assert_eq!(LC3NoMemoryInstructions::default(), I::Uninitialized);
}

#[test]
fn journal_steps_back_through_a_run() {
    let program = [andi(1, 1, 0), addi(1, 1, 5), br(false, false, true, 2), br(true, true, true, 0x1FF)];
    let mut cpu = LC3NoMemoryProcessor::new(Some(program), None, None, None, Some(LC3NoMemoryHistory::new()));
    while cpu.step().is_ok() {}
    let mut h = cpu.into_history().unwrap();
    assert_eq!(h.now(), 3);
    assert_eq!(h.pc(), 4);
    assert!(h.prev());
    assert_eq!(h.pc(), 2);
    assert_eq!(h.registers()[1], 5);
    assert_eq!(h.status(), [false, false, true]);
    assert!(h.prev());
    assert_eq!(h.pc(), 1);
    assert_eq!(h.registers()[1], 0);
    assert_eq!(h.status(), [false, true, false]);
    assert!(h.prev());
    assert_eq!(h.pc(), 0);
    assert_eq!(h.status(), [false, false, false]);
    assert!(!h.prev());
}

//! The minimal LC-3 core: registers, condition codes, a program counter and a read-only
//! instruction store, without data memory.
//!
//! `step` runs one fetch-decode-execute cycle. A step either fails before it changes anything,
//! or it performs every write of the instruction; the writes are recorded as one batch in the
//! attached journal, if there is one.
use vstd::prelude::*;

verus! {

use crate::bits::{sign_extend, LimitedBit, LimitedU8};
use crate::database::{
    Database,
    Memory,
    MemoryError,
    ProgramCounter,
    Register,
    RegisterError,
    StatusRegister,
};
use crate::diff::{Diff, Diffs};
use crate::instructions::{ArithmeticInstructions, ControlInstructions};
use crate::journal::{
    closed,
    opened,
    recorded,
    batch_in_range,
    BatchView,
    HistoryView,
    Snapshot,
    apply_batch,
    apply_diffs,
    batch_consistent,
    diffs_consistent,
    lemma_replay_prefix,
    replay,
    LC3NoMemoryDiff,
    LC3NoMemoryHistory,
};

/// An instruction of the minimal core. Register operands are indices; PC-relative offsets are
/// the raw bits of the field, sign-extended from its width when executed.
#[derive(Clone, Copy, Debug, PartialEq, Eq)]
pub enum LC3NoMemoryInstructions {
    /// Arithmetic and logic.
    Arithmetic(ArithmeticInstructions<usize>),
    /// Control flow.
    Control(ControlInstructions<u16, usize>),
    /// Load the address `PC + 1 + pc_offset9` into a register.
    LEA {
        /// Destination register.
        dr: usize,
        /// Offset, a field of nine bits.
        pc_offset9: u16,
    },
    /// An empty cell: fetching it halts the processor.
    Uninitialized,
}

impl Default for LC3NoMemoryInstructions {
    fn default() -> (r: Self)
        ensures
            r is Uninitialized,
    {
        LC3NoMemoryInstructions::Uninitialized
    }
}

/// Why a step failed.
#[derive(Clone, Copy, Debug, PartialEq, Eq, Structural)]
pub enum LC3NoMemoryError {
    /// An instruction names a register that does not exist.
    RegisterError(RegisterError),
    /// A memory access failed.
    MemoryError(MemoryError),
    /// There is no instruction to execute: the processor has halted.
    Halted,
}

impl From<RegisterError> for LC3NoMemoryError {
    fn from(e: RegisterError) -> (r: Self) {
        LC3NoMemoryError::RegisterError(e)
    }
}

impl vstd::std_specs::convert::FromSpecImpl<RegisterError> for LC3NoMemoryError {
    open spec fn obeys_from_spec() -> bool {
        true
    }

    open spec fn from_spec(e: RegisterError) -> Self {
        LC3NoMemoryError::RegisterError(e)
    }
}

impl From<MemoryError> for LC3NoMemoryError {
    fn from(e: MemoryError) -> (r: Self) {
        LC3NoMemoryError::MemoryError(e)
    }
}

impl vstd::std_specs::convert::FromSpecImpl<MemoryError> for LC3NoMemoryError {
    open spec fn obeys_from_spec() -> bool {
        true
    }

    open spec fn from_spec(e: MemoryError) -> Self {
        LC3NoMemoryError::MemoryError(e)
    }
}

/// The registers, condition codes and program counter of the core.
pub struct CpuState {
    /// R0 to R7.
    pub reg: Seq<u16>,
    /// The condition codes N, Z and P, in this order.
    pub psr: Seq<bool>,
    /// The program counter.
    pub pc: usize,
}

/// `x` reduced to a 16-bit word.
pub open spec fn word(x: int) -> u16 {
    (x % 0x10000) as u16
}

/// The low `n` bits of `x`, sign-extended to 16 bits.
pub open spec fn sext(x: u16, n: nat) -> u16 {
    sign_extend(x as nat, n, 16) as u16
}

/// The condition codes N, Z and P of a result: N is its bit 15, Z that it is zero, P that it is
/// neither.
pub open spec fn condition_codes(v: u16) -> Seq<bool> {
    seq![v >= 0x8000, v == 0, 0 < v < 0x8000]
}

/// Whether a branch that asks for `n`, `z` and `p` is taken under the condition codes `psr`.
pub open spec fn branch_taken(psr: Seq<bool>, n: bool, z: bool, p: bool) -> bool {
    (n && psr[0]) || (z && psr[1]) || (p && psr[2])
}

/// Whether the minimal core executes `inst`: not an empty cell, nor a return from interrupt or
/// a trap, which need a memory that this core does not have.
pub open spec fn executable(inst: LC3NoMemoryInstructions) -> bool {
    match inst {
        LC3NoMemoryInstructions::Uninitialized => false,
        LC3NoMemoryInstructions::Control(c) => match c {
            ControlInstructions::RTI => false,
            ControlInstructions::TRAP { .. } => false,
            _ => true,
        },
        _ => true,
    }
}

/// Whether every register that `inst` names exists.
pub open spec fn operands_in_range(inst: LC3NoMemoryInstructions) -> bool {
    match inst {
        LC3NoMemoryInstructions::Arithmetic(a) => match a {
            ArithmeticInstructions::ADD { dr, sr1, sr2 } => dr < 8 && sr1 < 8 && sr2 < 8,
            ArithmeticInstructions::ADDI { dr, sr1, .. } => dr < 8 && sr1 < 8,
            ArithmeticInstructions::AND { dr, sr1, sr2 } => dr < 8 && sr1 < 8 && sr2 < 8,
            ArithmeticInstructions::ANDI { dr, sr1, .. } => dr < 8 && sr1 < 8,
            ArithmeticInstructions::NOT { dr, sr } => dr < 8 && sr < 8,
        },
        LC3NoMemoryInstructions::Control(c) => match c {
            ControlInstructions::JMP { base_r } => base_r < 8,
            ControlInstructions::JSRR { base_r } => base_r < 8,
            _ => true,
        },
        LC3NoMemoryInstructions::LEA { dr, .. } => dr < 8,
        LC3NoMemoryInstructions::Uninitialized => true,
    }
}

/// The register that an arithmetic instruction writes.
pub open spec fn destination(a: ArithmeticInstructions<usize>) -> usize {
    match a {
        ArithmeticInstructions::ADD { dr, .. } => dr,
        ArithmeticInstructions::ADDI { dr, .. } => dr,
        ArithmeticInstructions::AND { dr, .. } => dr,
        ArithmeticInstructions::ANDI { dr, .. } => dr,
        ArithmeticInstructions::NOT { dr, .. } => dr,
    }
}

/// The value that an arithmetic instruction computes from the registers `reg`.
pub open spec fn arithmetic_result(reg: Seq<u16>, a: ArithmeticInstructions<usize>) -> u16 {
    match a {
        ArithmeticInstructions::ADD { sr1, sr2, .. } => word(reg[sr1 as int] + reg[sr2 as int]),
        ArithmeticInstructions::ADDI { sr1, imm5, .. } => word(
            reg[sr1 as int] + sext(imm5@ as u16, 5),
        ),
        ArithmeticInstructions::AND { sr1, sr2, .. } => reg[sr1 as int] & reg[sr2 as int],
        ArithmeticInstructions::ANDI { sr1, imm5, .. } => reg[sr1 as int] & sext(imm5@ as u16, 5),
        ArithmeticInstructions::NOT { sr, .. } => !reg[sr as int],
    }
}

/// The state after executing `inst`, an executable instruction whose registers exist, in the
/// state `s`.
pub open spec fn execute(s: CpuState, inst: LC3NoMemoryInstructions) -> CpuState {
    let next = (s.pc + 1) as usize;
    match inst {
        LC3NoMemoryInstructions::Arithmetic(a) => {
            let v = arithmetic_result(s.reg, a);
            CpuState { reg: s.reg.update(destination(a) as int, v), psr: condition_codes(v), pc: next }
        },
        LC3NoMemoryInstructions::Control(c) => match c {
            ControlInstructions::BR { n, z, p, pc_offset9 } => CpuState {
                reg: s.reg,
                psr: s.psr,
                pc: if branch_taken(s.psr, n, z, p) {
                    word(s.pc + sext(pc_offset9, 9)) as usize
                } else {
                    next
                },
            },
            ControlInstructions::JMP { base_r } => CpuState {
                reg: s.reg,
                psr: s.psr,
                pc: s.reg[base_r as int] as usize,
            },
            ControlInstructions::JSR { pc_offset11 } => CpuState {
                reg: s.reg.update(7, word(next as int)),
                psr: s.psr,
                pc: word(next + sext(pc_offset11, 11)) as usize,
            },
            ControlInstructions::JSRR { base_r } => {
                let reg = s.reg.update(7, word(next as int));
                CpuState { reg, psr: s.psr, pc: reg[base_r as int] as usize }
            },
            ControlInstructions::RET => CpuState { reg: s.reg, psr: s.psr, pc: s.reg[7] as usize },
            _ => s,
        },
        LC3NoMemoryInstructions::LEA { dr, pc_offset9 } => {
            let v = word(next + sext(pc_offset9, 9));
            CpuState { reg: s.reg.update(dr as int, v), psr: condition_codes(v), pc: next }
        },
        LC3NoMemoryInstructions::Uninitialized => s,
    }
}

/// The writes of the condition codes of `v` over the flags `psr`: N, Z, then P.
pub open spec fn flag_diffs(psr: Seq<bool>, v: u16) -> Seq<Diff<usize, bool>> {
    let cc = condition_codes(v);
    seq![
        Diff { key: 0usize, pre: psr[0], post: cc[0] },
        Diff { key: 1usize, pre: psr[1], post: cc[1] },
        Diff { key: 2usize, pre: psr[2], post: cc[2] },
    ]
}

/// The batch of writes that executing `inst` in the state `s` records.
pub open spec fn step_batch(s: CpuState, inst: LC3NoMemoryInstructions) -> BatchView {
    let t = execute(s, inst);
    let pc = seq![Diff { key: (), pre: s.pc, post: t.pc }];
    match inst {
        LC3NoMemoryInstructions::Arithmetic(a) => {
            let dr = destination(a);
            let v = arithmetic_result(s.reg, a);
            BatchView {
                reg: seq![Diff { key: dr, pre: s.reg[dr as int], post: v }],
                psr: flag_diffs(s.psr, v),
                pc,
            }
        },
        LC3NoMemoryInstructions::Control(c) => match c {
            ControlInstructions::JSR { .. } => BatchView {
                reg: seq![Diff { key: 7usize, pre: s.reg[7], post: t.reg[7] }],
                psr: Seq::empty(),
                pc,
            },
            ControlInstructions::JSRR { .. } => BatchView {
                reg: seq![Diff { key: 7usize, pre: s.reg[7], post: t.reg[7] }],
                psr: Seq::empty(),
                pc,
            },
            _ => BatchView { reg: Seq::empty(), psr: Seq::empty(), pc },
        },
        LC3NoMemoryInstructions::LEA { dr, .. } => BatchView {
            reg: seq![Diff { key: dr, pre: s.reg[dr as int], post: t.reg[dr as int] }],
            psr: flag_diffs(s.psr, t.reg[dr as int]),
            pc,
        },
        LC3NoMemoryInstructions::Uninitialized => BatchView {
            reg: Seq::empty(),
            psr: Seq::empty(),
            pc: Seq::empty(),
        },
    }
}

/// A subroutine call and its return: JSR with any offset from the address `s.pc`, then RET,
/// leaves the program counter at `s.pc + 1`, the return address that JSR saved in R7.
pub proof fn lemma_jsr_ret(s: CpuState, pc_offset11: u16)
    requires
        s.reg.len() == 8,
        s.pc + 1 < 0x10000,
    ensures
        ({
            let call = LC3NoMemoryInstructions::Control(ControlInstructions::JSR { pc_offset11 });
            let ret = LC3NoMemoryInstructions::Control(ControlInstructions::RET);
            let t = execute(s, call);
            &&& t.reg[7] == s.pc + 1
            &&& execute(t, ret).pc == s.pc + 1
        }),
{
    vstd::arithmetic::div_mod::lemma_small_mod((s.pc + 1) as nat, 0x10000);
}

/// The registers, condition codes and program counter of `s` as a journal snapshot.
pub open spec fn snapshot_of(s: CpuState) -> Snapshot {
    Snapshot { reg: s.reg, psr: s.psr, pc: s.pc }
}

/// The batch that a step records replays the step: applied to the state before, it gives the
/// state after. So a journal whose snapshot matched the processor before a step still matches
/// it after.
pub proof fn lemma_batch_replays_step(s: CpuState, inst: LC3NoMemoryInstructions)
    requires
        s.reg.len() == 8,
        s.psr.len() == 3,
        executable(inst),
        operands_in_range(inst),
    ensures
        apply_batch(snapshot_of(s), step_batch(s, inst)) == snapshot_of(execute(s, inst)),
{
    reveal_with_fuel(apply_diffs, 4);
    let b = step_batch(s, inst);
    let t = execute(s, inst);
    let a = apply_batch(snapshot_of(s), b);
    assert(a.reg =~= t.reg);
    assert(a.psr =~= t.psr);
}

/// A journal that mirrors the processor stays in step with it: if the snapshot of `h` is the
/// state `s` and no batch is open, then after a step of `inst` the snapshot is the new state,
/// and the committed batch was recorded over the snapshot it was committed to, so that the
/// journal can step back over it.
pub proof fn lemma_journal_in_sync(h: HistoryView, s: CpuState, inst: LC3NoMemoryInstructions)
    requires
        s.reg.len() == 8,
        s.psr.len() == 3,
        executable(inst),
        operands_in_range(inst),
        h.snapshot == snapshot_of(s),
        h.snapshot == replay(h.batches, h.batches.len()),
        h.open is None,
    ensures
        ({
            let after = journaled(h, inst, step_batch(s, inst));
            &&& after.snapshot == snapshot_of(execute(s, inst))
            &&& after.batches.len() == h.batches.len() + 1
            &&& after.batches.last() == step_batch(s, inst)
            &&& batch_consistent(replay(after.batches, h.batches.len()), after.batches.last())
        }),
{
    reveal_with_fuel(diffs_consistent, 4);
    reveal_with_fuel(apply_diffs, 4);
    let b = step_batch(s, inst);
    assert(Seq::<Diff<usize, u16>>::empty() + b.reg =~= b.reg);
    assert(Seq::<Diff<usize, bool>>::empty() + b.psr =~= b.psr);
    assert(Seq::<Diff<(), usize>>::empty() + b.pc =~= b.pc);
    lemma_batch_replays_step(s, inst);
    let after = journaled(h, inst, b);
    assert(after.batches =~= h.batches.push(b));
    lemma_replay_prefix(h.batches, b, h.batches.len());
}

/// The journal `h` after a step of `inst` that wrote the batch `b`.
pub open spec fn journaled(h: HistoryView, inst: LC3NoMemoryInstructions, b: BatchView) -> HistoryView {
    closed(recorded(opened(HistoryView { inst: Some(inst), ..h }), b))
}

impl LC3NoMemoryInstructions {
    /// Whether the minimal core executes this instruction.
    pub fn is_executable(&self) -> (r: bool)
        ensures
            r == executable(*self),
    {
        match self {
            LC3NoMemoryInstructions::Uninitialized => false,
            LC3NoMemoryInstructions::Control(ControlInstructions::RTI) => false,
            LC3NoMemoryInstructions::Control(ControlInstructions::TRAP { .. }) => false,
            _ => true,
        }
    }

    /// Whether every register that this instruction names exists.
    pub fn operands_in_range(&self) -> (r: bool)
        ensures
            r == operands_in_range(*self),
    {
        match *self {
            LC3NoMemoryInstructions::Arithmetic(a) => match a {
                ArithmeticInstructions::ADD { dr, sr1, sr2 } => dr < 8 && sr1 < 8 && sr2 < 8,
                ArithmeticInstructions::ADDI { dr, sr1, .. } => dr < 8 && sr1 < 8,
                ArithmeticInstructions::AND { dr, sr1, sr2 } => dr < 8 && sr1 < 8 && sr2 < 8,
                ArithmeticInstructions::ANDI { dr, sr1, .. } => dr < 8 && sr1 < 8,
                ArithmeticInstructions::NOT { dr, sr } => dr < 8 && sr < 8,
            },
            LC3NoMemoryInstructions::Control(c) => match c {
                ControlInstructions::JMP { base_r } => base_r < 8,
                ControlInstructions::JSRR { base_r } => base_r < 8,
                _ => true,
            },
            LC3NoMemoryInstructions::LEA { dr, .. } => dr < 8,
            LC3NoMemoryInstructions::Uninitialized => true,
        }
    }
}

/// The five-bit immediate `imm5`, sign-extended to 16 bits.
fn immediate(imm5: LimitedU8<5>) -> (r: u16)
    ensures
        r == sext(imm5@ as u16, 5),
{
    LimitedBit::<u16, 5>::new(imm5.get() as u16).get()
}

/// The 16-bit sum of `a` and `b`.
fn add_words(a: u16, b: u16) -> (r: u16)
    ensures
        r == word(a + b),
{
    a.wrapping_add(b)
}

/// `pc + offset` in the 16-bit address space.
fn offset_address(pc: usize, offset: u16) -> (r: usize)
    ensures
        r == word(pc + offset) as usize,
{
    let low = (pc % 0x10000) as u16;
    proof {
        vstd::arithmetic::div_mod::lemma_add_mod_noop(pc as int, offset as int, 0x10000);
        vstd::arithmetic::div_mod::lemma_mod_twice(offset as int, 0x10000);
    }
    add_words(low, offset) as usize
}

/// The minimal LC-3 processor, with an instruction store of `N` cells.
pub struct LC3NoMemoryProcessor<const N: usize> {
    reg: Register<u16, 8>,
    psr: StatusRegister<3>,
    pc: ProgramCounter<usize>,
    inst_memory: Memory<LC3NoMemoryInstructions, N>,
    history: Option<LC3NoMemoryHistory>,
}

impl<const N: usize> LC3NoMemoryProcessor<N> {
    /// The registers, condition codes and program counter.
    pub closed spec fn state(&self) -> CpuState {
        CpuState {
            reg: Seq::new(8, |i: int| self.reg.value(i as usize)),
            psr: Seq::new(3, |i: int| self.psr.value(i as usize)),
            pc: self.pc.value(()),
        }
    }

    /// The instruction store, by address.
    pub closed spec fn program(&self) -> Seq<LC3NoMemoryInstructions> {
        Seq::new(N as nat, |i: int| self.inst_memory.value(i as usize))
    }

    /// The attached journal, if any.
    pub closed spec fn journal(&self) -> Option<HistoryView> {
        match self.history {
            Some(h) => Some(h@),
            None => None,
        }
    }

    /// Well-formedness: the attached journal is well formed.
    pub closed spec fn wf(&self) -> bool {
        self.history matches Some(h) ==> h.wf()
    }

    /// A processor with the program `inst_memory`, the registers `reg_data`, the condition codes
    /// `psr_data` and the program counter `pc_data`, each all-zero (or empty cells) when not
    /// given, recording into `history` when given.
    pub fn new(
        inst_memory: Option<[LC3NoMemoryInstructions; N]>,
        reg_data: Option<[u16; 8]>,
        psr_data: Option<[bool; 3]>,
        pc_data: Option<usize>,
        history: Option<LC3NoMemoryHistory>,
    ) -> (r: Self)
        requires
            history matches Some(h) ==> h.wf(),
        ensures
            r.wf(),
            r.state().reg == (match reg_data {
                Some(a) => a@,
                None => Seq::new(8, |i: int| 0u16),
            }),
            r.state().psr == (match psr_data {
                Some(a) => a@,
                None => Seq::new(3, |i: int| false),
            }),
            r.state().pc == (match pc_data {
                Some(pc) => pc,
                None => 0,
            }),
            r.program() == (match inst_memory {
                Some(a) => a@,
                None => Seq::new(N as nat, |i: int| LC3NoMemoryInstructions::Uninitialized),
            }),
            r.journal() == (match history {
                Some(h) => Some(h@),
                None => None,
            }),
    {
        let reg_data = match reg_data {
            Some(a) => a,
            None => [0u16; 8],
        };
        let psr_data = match psr_data {
            Some(a) => a,
            None => [false; 3],
        };
        let pc_data = match pc_data {
            Some(pc) => pc,
            None => 0,
        };
        let inst_memory = match inst_memory {
            Some(a) => a,
            None => [LC3NoMemoryInstructions::Uninitialized; N],
        };
        let r = LC3NoMemoryProcessor {
            reg: Register::new(Some(reg_data)),
            psr: StatusRegister::new(Some(psr_data)),
            pc: ProgramCounter::new(Some(pc_data)),
            inst_memory: Memory::new(Some(inst_memory)),
            history,
        };
        assert(r.state().reg =~= reg_data@);
        assert(r.state().psr =~= psr_data@);
        assert(r.program() =~= inst_memory@);
        r
    }

    /// Sets the condition codes from `result` and records the three writes in `diffs`.
    fn setcc(&mut self, result: u16, diffs: &mut Diffs<usize, bool>) -> (r: Result<(), LC3NoMemoryError>)
        ensures
            r is Ok,
            final(self).state() == (CpuState { psr: condition_codes(result), ..old(self).state() }),
            final(self).program() == old(self).program(),
            final(self).history == old(self).history,
            final(diffs)@ == old(diffs)@ + flag_diffs(old(self).state().psr, result),
    {
        let ghost s0 = self.state();
        assert(result & 0x8000 != 0 <==> result >= 0x8000) by (bit_vector);
        self.psr.store(0, result & 0x8000 != 0, diffs)?;
        self.psr.store(1, result == 0, diffs)?;
        self.psr.store(2, result & 0x8000 == 0 && result != 0, diffs)?;
        assert(self.state().psr =~= condition_codes(result));
        assert(self.state().reg =~= s0.reg);
        assert(final(diffs)@ =~= old(diffs)@ + flag_diffs(s0.psr, result));
        Ok(())
    }

    /// Performs the arithmetic instruction `a`, whose registers exist, at the address `pc`.
    fn perform_arithmetic(&mut self, a: ArithmeticInstructions<usize>, pc: usize) -> (r: Result<LC3NoMemoryDiff, LC3NoMemoryError>)
        requires
            operands_in_range(LC3NoMemoryInstructions::Arithmetic(a)),
            pc == old(self).state().pc,
            pc < N,
        ensures
            r matches Ok(b) && b@ == step_batch(old(self).state(), LC3NoMemoryInstructions::Arithmetic(a)),
            final(self).state() == execute(old(self).state(), LC3NoMemoryInstructions::Arithmetic(a)),
            final(self).program() == old(self).program(),
            final(self).history == old(self).history,
    {
        let ghost s = self.state();
        let ghost inst = LC3NoMemoryInstructions::Arithmetic(a);
        let mut batch = LC3NoMemoryDiff::new();
        let (dr, result) = match a {
            ArithmeticInstructions::ADD { dr, sr1, sr2 } => {
                (dr, add_words(self.reg.load(sr1)?, self.reg.load(sr2)?))
            },
            ArithmeticInstructions::ADDI { dr, sr1, imm5 } => {
                (dr, add_words(self.reg.load(sr1)?, immediate(imm5)))
            },
            ArithmeticInstructions::AND { dr, sr1, sr2 } => {
                (dr, self.reg.load(sr1)? & self.reg.load(sr2)?)
            },
            ArithmeticInstructions::ANDI { dr, sr1, imm5 } => {
                (dr, self.reg.load(sr1)? & immediate(imm5))
            },
            ArithmeticInstructions::NOT { dr, sr } => (dr, !self.reg.load(sr)?),
        };
        assert(dr == destination(a) && result == arithmetic_result(s.reg, a));
        self.setcc(result, &mut batch.psr)?;
        self.reg.store(dr, result, &mut batch.reg)?;
        self.pc.store((), pc + 1, &mut batch.pc).unwrap();
        assert(self.state().reg =~= execute(s, inst).reg);
        assert(batch@.reg =~= step_batch(s, inst).reg);
        assert(batch@.psr =~= step_batch(s, inst).psr);
        assert(batch@.pc =~= step_batch(s, inst).pc);
        Ok(batch)
    }

    /// Performs the control instruction `c`, which this core executes and whose registers
    /// exist, at the address `pc`.
    fn perform_control(&mut self, c: ControlInstructions<u16, usize>, pc: usize) -> (r: Result<LC3NoMemoryDiff, LC3NoMemoryError>)
        requires
            executable(LC3NoMemoryInstructions::Control(c)),
            operands_in_range(LC3NoMemoryInstructions::Control(c)),
            pc == old(self).state().pc,
            pc < N,
        ensures
            r matches Ok(b) && b@ == step_batch(old(self).state(), LC3NoMemoryInstructions::Control(c)),
            final(self).state() == execute(old(self).state(), LC3NoMemoryInstructions::Control(c)),
            final(self).program() == old(self).program(),
            final(self).history == old(self).history,
    {
        let ghost s = self.state();
        let ghost inst = LC3NoMemoryInstructions::Control(c);
        let mut batch = LC3NoMemoryDiff::new();
        match c {
            ControlInstructions::BR { n, z, p, pc_offset9 } => {
                let n_ = self.psr.load(0)?;
                let z_ = self.psr.load(1)?;
                let p_ = self.psr.load(2)?;
                if (n_ && n) || (z_ && z) || (p_ && p) {
                    let offset = LimitedBit::<u16, 9>::new(pc_offset9).get();
                    self.pc.store((), offset_address(pc, offset), &mut batch.pc).unwrap();
                } else {
                    self.pc.store((), pc + 1, &mut batch.pc).unwrap();
                }
            },
            ControlInstructions::JMP { base_r } => {
                let base_r = self.reg.load(base_r)?;
                self.pc.store((), base_r as usize, &mut batch.pc).unwrap();
            },
            ControlInstructions::JSR { pc_offset11 } => {
                let next = offset_address(pc, 1);
                self.reg.store(7, next as u16, &mut batch.reg)?;
                let offset = LimitedBit::<u16, 11>::new(pc_offset11).get();
                self.pc.store((), offset_address(next, offset), &mut batch.pc).unwrap();
            },
            ControlInstructions::JSRR { base_r } => {
                let next = offset_address(pc, 1);
                self.reg.store(7, next as u16, &mut batch.reg)?;
                let base_r = self.reg.load(base_r)?;
                self.pc.store((), base_r as usize, &mut batch.pc).unwrap();
            },
            ControlInstructions::RET => {
                let target = self.reg.load(7)?;
                self.pc.store((), target as usize, &mut batch.pc).unwrap();
            },
            ControlInstructions::RTI => {
                return Err(LC3NoMemoryError::Halted);
            },
            ControlInstructions::TRAP { .. } => {
                return Err(LC3NoMemoryError::Halted);
            },
        }
        assert(self.state().reg =~= execute(s, inst).reg);
        assert(self.state().psr =~= execute(s, inst).psr);
        assert(batch@.reg =~= step_batch(s, inst).reg);
        assert(batch@.psr =~= step_batch(s, inst).psr);
        assert(batch@.pc =~= step_batch(s, inst).pc);
        Ok(batch)
    }

    /// Performs `LEA` into the register `dr`, which exists, with the offset `pc_offset9`, at the
    /// address `pc`.
    fn perform_lea(&mut self, dr: usize, pc_offset9: u16, pc: usize) -> (r: Result<LC3NoMemoryDiff, LC3NoMemoryError>)
        requires
            dr < 8,
            pc == old(self).state().pc,
            pc < N,
        ensures
            r matches Ok(b) && b@ == step_batch(old(self).state(), LC3NoMemoryInstructions::LEA { dr, pc_offset9 }),
            final(self).state() == execute(old(self).state(), LC3NoMemoryInstructions::LEA { dr, pc_offset9 }),
            final(self).program() == old(self).program(),
            final(self).history == old(self).history,
    {
        let ghost s = self.state();
        let ghost inst = LC3NoMemoryInstructions::LEA { dr, pc_offset9 };
        let mut batch = LC3NoMemoryDiff::new();
        let offset = LimitedBit::<u16, 9>::new(pc_offset9).get();
        let result = offset_address(offset_address(pc, 1), offset) as u16;
        self.reg.store(dr, result, &mut batch.reg)?;
        self.setcc(result, &mut batch.psr)?;
        self.pc.store((), pc + 1, &mut batch.pc).unwrap();
        assert(self.state().reg =~= execute(s, inst).reg);
        assert(batch@.reg =~= step_batch(s, inst).reg);
        assert(batch@.psr =~= step_batch(s, inst).psr);
        assert(batch@.pc =~= step_batch(s, inst).pc);
        Ok(batch)
    }

    /// Executes one instruction: fetches the instruction at the program counter and performs
    /// it. Fetching past the instruction store, an empty cell, or an instruction that this core
    /// does not execute halts; an instruction that names a register that does not exist fails.
    /// Either way nothing changes. Otherwise every write of the instruction is performed and,
    /// when a journal is attached, recorded as one committed batch.
    pub fn step(&mut self) -> (r: Result<(), LC3NoMemoryError>)
        requires
            old(self).wf(),
        ensures
            final(self).wf(),
            final(self).program() == old(self).program(),
            ({
                let s = old(self).state();
                let inst = old(self).program()[s.pc as int];
                if s.pc >= N || !executable(inst) {
                    &&& r == Err::<(), LC3NoMemoryError>(LC3NoMemoryError::Halted)
                    &&& final(self).state() == s
                    &&& final(self).journal() == old(self).journal()
                } else if !operands_in_range(inst) {
                    &&& r == Err::<(), LC3NoMemoryError>(
                        LC3NoMemoryError::RegisterError(RegisterError::OutOfRange),
                    )
                    &&& final(self).state() == s
                    &&& final(self).journal() == old(self).journal()
                } else {
                    &&& r == Ok::<(), LC3NoMemoryError>(())
                    &&& final(self).state() == execute(s, inst)
                    &&& final(self).journal() == (match old(self).journal() {
                        Some(h) => Some(journaled(h, inst, step_batch(s, inst))),
                        None => None,
                    })
                }
            }),
    {
        let ghost s = self.state();
        let pc = self.pc.load(()).unwrap();
        let inst = match self.inst_memory.load(pc) {
            Ok(inst) => inst,
            Err(_) => return Err(LC3NoMemoryError::Halted),
        };
        assert(inst == self.program()[pc as int]);
        if !inst.is_executable() {
            return Err(LC3NoMemoryError::Halted);
        }
        if !inst.operands_in_range() {
            return Err(LC3NoMemoryError::RegisterError(RegisterError::OutOfRange));
        }
        let batch = match inst {
            LC3NoMemoryInstructions::Arithmetic(a) => self.perform_arithmetic(a, pc)?,
            LC3NoMemoryInstructions::Control(c) => self.perform_control(c, pc)?,
            LC3NoMemoryInstructions::LEA { dr, pc_offset9 } => self.perform_lea(dr, pc_offset9, pc)?,
            LC3NoMemoryInstructions::Uninitialized => {
                return Err(LC3NoMemoryError::Halted);
            },
        };
        if let Some(h) = &mut self.history {
            h.inst(inst);
            h.open();
            h.record(batch);
            h.close();
        }
        Ok(())
    }

    /// Gives back the attached journal, if any, ending the processor.
    pub fn into_history(self) -> (r: Option<LC3NoMemoryHistory>)
        requires
            self.wf(),
        ensures
            r is None <==> self.journal() is None,
            r matches Some(h) ==> self.journal() == Some(h@) && h.wf(),
    {
        self.history
    }

    /// The attached journal, if any.
    pub fn history(&self) -> (r: Option<&LC3NoMemoryHistory>)
        ensures
            r is None <==> self.journal() is None,
            r matches Some(h) ==> self.journal() == Some(h@) && h.wf() == self.wf(),
    {
        self.history.as_ref()
    }
}

} // verus!

//! The history journal of the minimal LC-3 core.
//!
//! The journal keeps one batch of diffs per executed step, split by storage category, and a
//! shadow snapshot of the registers, flags and program counter: the result of applying every
//! committed batch, in order, to the all-zero state. A step opens a batch, records its writes
//! into it, and closes it, which applies the batch to the snapshot and advances logical time.
use vstd::prelude::*;

verus! {

use crate::diff::{Diff, Diffs};
use crate::processor::LC3NoMemoryInstructions;

/// The diffs of one step, by storage category.
pub struct LC3NoMemoryDiff {
    /// Writes to the register file.
    pub reg: Diffs<usize, u16>,
    /// Writes to the condition-code flags.
    pub psr: Diffs<usize, bool>,
    /// Writes to the program counter.
    pub pc: Diffs<(), usize>,
}

/// The diffs of one step, by storage category, as sequences.
pub struct BatchView {
    /// Writes to the register file, in order.
    pub reg: Seq<Diff<usize, u16>>,
    /// Writes to the condition-code flags, in order.
    pub psr: Seq<Diff<usize, bool>>,
    /// Writes to the program counter, in order.
    pub pc: Seq<Diff<(), usize>>,
}

/// The registers, flags and program counter as the journal sees them.
pub struct Snapshot {
    /// R0 to R7.
    pub reg: Seq<u16>,
    /// The condition codes N, Z and P.
    pub psr: Seq<bool>,
    /// The program counter.
    pub pc: usize,
}

/// The journal as a mathematical value.
pub struct HistoryView {
    /// The shadow snapshot, as of the last close.
    pub snapshot: Snapshot,
    /// The committed batches, one per closed step; their number is the logical time.
    pub batches: Seq<BatchView>,
    /// The batch of the step under way, if one was opened.
    pub open: Option<BatchView>,
    /// The instruction of the last step announced.
    pub inst: Option<LC3NoMemoryInstructions>,
}

/// A batch without diffs.
pub open spec fn empty_batch() -> BatchView {
    BatchView { reg: Seq::empty(), psr: Seq::empty(), pc: Seq::empty() }
}

/// The batch `a` followed by the batch `b`, category by category.
pub open spec fn concat_batches(a: BatchView, b: BatchView) -> BatchView {
    BatchView { reg: a.reg + b.reg, psr: a.psr + b.psr, pc: a.pc + b.pc }
}

/// Every diff of `b` names a register below 8 and a flag below 3.
pub open spec fn batch_in_range(b: BatchView) -> bool {
    &&& forall|i: int| 0 <= i < b.reg.len() ==> #[trigger] b.reg[i].key < 8
    &&& forall|i: int| 0 <= i < b.psr.len() ==> #[trigger] b.psr[i].key < 3
}

/// `s` after the writes `ds`, applied in order: the last write to a slot wins.
pub open spec fn apply_diffs<V>(s: Seq<V>, ds: Seq<Diff<usize, V>>) -> Seq<V>
    decreases ds.len(),
{
    if ds.len() == 0 {
        s
    } else {
        apply_diffs(s, ds.drop_last()).update(ds.last().key as int, ds.last().post)
    }
}

/// The program counter after the writes `ds`: the last one's value, or `pc` if there is none.
pub open spec fn apply_pc(pc: usize, ds: Seq<Diff<(), usize>>) -> usize {
    if ds.len() == 0 {
        pc
    } else {
        ds.last().post
    }
}

/// The snapshot `s` after the batch `b`.
pub open spec fn apply_batch(s: Snapshot, b: BatchView) -> Snapshot {
    Snapshot { reg: apply_diffs(s.reg, b.reg), psr: apply_diffs(s.psr, b.psr), pc: apply_pc(s.pc, b.pc) }
}

/// The all-zero state.
pub open spec fn zero_snapshot() -> Snapshot {
    Snapshot { reg: Seq::new(8, |i: int| 0u16), psr: Seq::new(3, |i: int| false), pc: 0 }
}

/// The all-zero state after the first `n` batches of `batches`.
pub open spec fn replay(batches: Seq<BatchView>, n: nat) -> Snapshot
    decreases n,
{
    if n == 0 {
        zero_snapshot()
    } else {
        apply_batch(replay(batches, (n - 1) as nat), batches[n - 1])
    }
}

/// `s` with the writes `ds` undone, the last one first: each slot gets back the value that the
/// write recorded as its previous one.
pub open spec fn unapply_diffs<V>(s: Seq<V>, ds: Seq<Diff<usize, V>>) -> Seq<V>
    decreases ds.len(),
{
    if ds.len() == 0 {
        s
    } else {
        unapply_diffs(s.update(ds.last().key as int, ds.last().pre), ds.drop_last())
    }
}

/// The program counter with the writes `ds` undone: the first one's previous value, or `pc` if
/// there is none.
pub open spec fn unapply_pc(pc: usize, ds: Seq<Diff<(), usize>>) -> usize {
    if ds.len() == 0 {
        pc
    } else {
        ds[0].pre
    }
}

/// The snapshot `s` with the batch `b` undone.
pub open spec fn unapply_batch(s: Snapshot, b: BatchView) -> Snapshot {
    Snapshot {
        reg: unapply_diffs(s.reg, b.reg),
        psr: unapply_diffs(s.psr, b.psr),
        pc: unapply_pc(s.pc, b.pc),
    }
}

/// Whether each write of `ds`, applied in order from `s`, records as its previous value what
/// its slot held at that point.
pub open spec fn diffs_consistent<V>(s: Seq<V>, ds: Seq<Diff<usize, V>>) -> bool
    decreases ds.len(),
{
    ds.len() == 0 || (diffs_consistent(s, ds.drop_last()) && ds.last().pre == apply_diffs(
        s,
        ds.drop_last(),
    )[ds.last().key as int])
}

/// Whether each write of `ds`, applied in order from `pc`, records as its previous value what
/// the program counter held at that point.
pub open spec fn pc_consistent(pc: usize, ds: Seq<Diff<(), usize>>) -> bool {
    forall|i: int| 0 <= i < ds.len() ==> #[trigger] ds[i].pre == if i == 0 {
        pc
    } else {
        ds[i - 1].post
    }
}

/// Whether the batch `b` was recorded over the snapshot `s`: every write's previous value is
/// what its slot held when it happened.
pub open spec fn batch_consistent(s: Snapshot, b: BatchView) -> bool {
    &&& diffs_consistent(s.reg, b.reg)
    &&& diffs_consistent(s.psr, b.psr)
    &&& pc_consistent(s.pc, b.pc)
}

/// `h` with a batch open: the open one if there is one, else a new empty one.
pub open spec fn opened(h: HistoryView) -> HistoryView {
    HistoryView {
        snapshot: h.snapshot,
        batches: h.batches,
        open: Some(
            match h.open {
                Some(b) => b,
                None => empty_batch(),
            },
        ),
        inst: h.inst,
    }
}

/// `h` with the diffs of `b` appended to the open batch, which is opened first if need be.
pub open spec fn recorded(h: HistoryView, b: BatchView) -> HistoryView {
    HistoryView {
        snapshot: h.snapshot,
        batches: h.batches,
        open: Some(concat_batches(opened(h).open->Some_0, b)),
        inst: h.inst,
    }
}

/// `h` with the open batch, opened first if need be, applied to the snapshot and committed.
pub open spec fn closed(h: HistoryView) -> HistoryView {
    let b = opened(h).open->Some_0;
    HistoryView {
        snapshot: apply_batch(h.snapshot, b),
        batches: h.batches.push(b),
        open: None,
        inst: h.inst,
    }
}

/// Opening is idempotent: opening a second time before a close changes nothing, so the diffs
/// recorded between the two calls are neither dropped nor duplicated.
pub proof fn lemma_open_idempotent(h: HistoryView, b: BatchView)
    ensures
        opened(opened(h)) == opened(h),
        opened(recorded(opened(h), b)) == recorded(opened(h), b),
        recorded(opened(h), b) == recorded(h, b),
{
}

/// After the writes `ds`, a slot that some write names holds the value of the last write to it,
/// and every other slot holds what it held before.
pub proof fn lemma_apply_diffs<V>(s: Seq<V>, ds: Seq<Diff<usize, V>>, k: int)
    requires
        0 <= k < s.len(),
        forall|i: int| 0 <= i < ds.len() ==> #[trigger] ds[i].key < s.len(),
    ensures
        apply_diffs(s, ds).len() == s.len(),
        forall|i: int|
            0 <= i < ds.len() && ds[i].key == k && (forall|j: int|
                i < j < ds.len() ==> #[trigger] ds[j].key != k) ==> apply_diffs(s, ds)[k]
                == #[trigger] ds[i].post,
        (forall|i: int| 0 <= i < ds.len() ==> #[trigger] ds[i].key != k) ==> apply_diffs(s, ds)[k]
            == s[k],
    decreases ds.len(),
{
    if ds.len() > 0 {
        let init = ds.drop_last();
        assert(forall|i: int| 0 <= i < init.len() ==> init[i] == ds[i]);
        lemma_apply_diffs(s, init, k);
    }
}

/// Commit fidelity: after a close, every register, flag and the program counter that the
/// committed batch wrote holds the value of the batch's last write to it, and every other one
/// holds what it held in the snapshot before.
pub proof fn lemma_commit_fidelity(h: HistoryView)
    requires
        h.snapshot.reg.len() == 8,
        h.snapshot.psr.len() == 3,
        h.open matches Some(b) ==> batch_in_range(b),
    ensures
        ({
            let b = opened(h).open->Some_0;
            let after = closed(h).snapshot;
            &&& after.reg.len() == 8
            &&& after.psr.len() == 3
            &&& forall|i: int|
                0 <= i < b.reg.len() && (forall|j: int|
                    i < j < b.reg.len() ==> #[trigger] b.reg[j].key != b.reg[i].key)
                    ==> after.reg[b.reg[i].key as int] == #[trigger] b.reg[i].post
            &&& forall|k: int|
                0 <= k < 8 && (forall|i: int| 0 <= i < b.reg.len() ==> #[trigger] b.reg[i].key != k)
                    ==> #[trigger] after.reg[k] == h.snapshot.reg[k]
            &&& forall|i: int|
                0 <= i < b.psr.len() && (forall|j: int|
                    i < j < b.psr.len() ==> #[trigger] b.psr[j].key != b.psr[i].key)
                    ==> after.psr[b.psr[i].key as int] == #[trigger] b.psr[i].post
            &&& forall|k: int|
                0 <= k < 3 && (forall|i: int| 0 <= i < b.psr.len() ==> #[trigger] b.psr[i].key != k)
                    ==> #[trigger] after.psr[k] == h.snapshot.psr[k]
            &&& b.pc.len() > 0 ==> after.pc == b.pc.last().post
            &&& b.pc.len() == 0 ==> after.pc == h.snapshot.pc
        }),
{
    let b = opened(h).open->Some_0;
    assert forall|k: int|
        0 <= k < 8 && (forall|i: int| 0 <= i < b.reg.len() ==> #[trigger] b.reg[i].key != k)
        implies #[trigger] closed(h).snapshot.reg[k] == h.snapshot.reg[k] by {
        lemma_apply_diffs(h.snapshot.reg, b.reg, k);
    }
    assert forall|k: int|
        0 <= k < 3 && (forall|i: int| 0 <= i < b.psr.len() ==> #[trigger] b.psr[i].key != k)
        implies #[trigger] closed(h).snapshot.psr[k] == h.snapshot.psr[k] by {
        lemma_apply_diffs(h.snapshot.psr, b.psr, k);
    }
    lemma_apply_diffs(h.snapshot.reg, b.reg, 0);
    lemma_apply_diffs(h.snapshot.psr, b.psr, 0);
    assert forall|i: int|
        0 <= i < b.reg.len() && (forall|j: int|
            i < j < b.reg.len() ==> #[trigger] b.reg[j].key != b.reg[i].key)
        implies closed(h).snapshot.reg[b.reg[i].key as int] == #[trigger] b.reg[i].post by {
        lemma_apply_diffs(h.snapshot.reg, b.reg, b.reg[i].key as int);
    }
    assert forall|i: int|
        0 <= i < b.psr.len() && (forall|j: int|
            i < j < b.psr.len() ==> #[trigger] b.psr[j].key != b.psr[i].key)
        implies closed(h).snapshot.psr[b.psr[i].key as int] == #[trigger] b.psr[i].post by {
        lemma_apply_diffs(h.snapshot.psr, b.psr, b.psr[i].key as int);
    }
}

impl Default for LC3NoMemoryHistory {
    fn default() -> (r: Self)
        ensures
            r.wf(),
            r@ == (HistoryView {
                snapshot: zero_snapshot(),
                batches: Seq::empty(),
                open: None,
                inst: None,
            }),
    {
        LC3NoMemoryHistory::new()
    }
}

/// Recording nothing into an open batch changes nothing.
proof fn lemma_recorded_nothing(h: HistoryView)
    requires
        h.open is Some,
    ensures
        recorded(h, empty_batch()) == h,
{
    let o = h.open->Some_0;
    assert(o.reg + Seq::<Diff<usize, u16>>::empty() =~= o.reg);
    assert(o.psr + Seq::<Diff<usize, bool>>::empty() =~= o.psr);
    assert(o.pc + Seq::<Diff<(), usize>>::empty() =~= o.pc);
}

/// Recording `a` and then `b` is recording `a` followed by `b`.
proof fn lemma_recorded_twice(h: HistoryView, a: BatchView, b: BatchView)
    requires
        h.open is Some,
    ensures
        recorded(recorded(h, a), b) == recorded(h, concat_batches(a, b)),
{
    let o = h.open->Some_0;
    assert(o.reg + a.reg + b.reg =~= o.reg + (a.reg + b.reg));
    assert(o.psr + a.psr + b.psr =~= o.psr + (a.psr + b.psr));
    assert(o.pc + a.pc + b.pc =~= o.pc + (a.pc + b.pc));
}

/// Undoing writes that were recorded over `s` after applying them gives back `s`.
pub proof fn lemma_unapply_diffs<V>(s: Seq<V>, ds: Seq<Diff<usize, V>>)
    requires
        forall|i: int| 0 <= i < ds.len() ==> #[trigger] ds[i].key < s.len(),
        diffs_consistent(s, ds),
    ensures
        unapply_diffs(apply_diffs(s, ds), ds) == s,
    decreases ds.len(),
{
    if ds.len() > 0 {
        let init = ds.drop_last();
        let d = ds.last();
        assert(forall|i: int| 0 <= i < init.len() ==> init[i] == ds[i]);
        lemma_apply_diffs(s, init, d.key as int);
        let before = apply_diffs(s, init);
        assert(before.update(d.key as int, d.post).update(d.key as int, d.pre) =~= before);
        lemma_unapply_diffs(s, init);
    }
}

/// Reverse replay: applying a batch that was recorded over the snapshot `s` and then undoing
/// it, its writes re-applied with their previous values in reverse order, restores `s` exactly.
pub proof fn lemma_reverse_replay(s: Snapshot, b: BatchView)
    requires
        batch_in_range(b),
        s.reg.len() == 8,
        s.psr.len() == 3,
        batch_consistent(s, b),
    ensures
        unapply_batch(apply_batch(s, b), b) == s,
{
    lemma_unapply_diffs(s.reg, b.reg);
    lemma_unapply_diffs(s.psr, b.psr);
}

/// Replaying batches whose writes name existing slots keeps eight registers and three flags.
proof fn lemma_replay_shape(batches: Seq<BatchView>, n: nat)
    requires
        n <= batches.len(),
        forall|i: int| 0 <= i < batches.len() ==> batch_in_range(#[trigger] batches[i]),
    ensures
        replay(batches, n).reg.len() == 8,
        replay(batches, n).psr.len() == 3,
    decreases n,
{
    if n > 0 {
        let before = replay(batches, (n - 1) as nat);
        let b = batches[n - 1];
        lemma_replay_shape(batches, (n - 1) as nat);
        assert(batch_in_range(b));
        lemma_apply_diffs(before.reg, b.reg, 0);
        lemma_apply_diffs(before.psr, b.psr, 0);
    }
}

/// Replaying a prefix does not look past it.
pub proof fn lemma_replay_prefix(batches: Seq<BatchView>, b: BatchView, n: nat)
    requires
        n <= batches.len(),
    ensures
        replay(batches.push(b), n) == replay(batches, n),
    decreases n,
{
    if n > 0 {
        lemma_replay_prefix(batches, b, (n - 1) as nat);
        assert(batches.push(b)[n - 1] == batches[n - 1]);
    }
}

impl LC3NoMemoryDiff {
    /// The batch as sequences.
    pub open spec fn view(&self) -> BatchView {
        BatchView { reg: self.reg@, psr: self.psr@, pc: self.pc@ }
    }

    /// An empty batch.
    pub fn new() -> (r: Self)
        ensures
            r@ == empty_batch(),
    {
        LC3NoMemoryDiff { reg: Diffs::new(), psr: Diffs::new(), pc: Diffs::new() }
    }
}

/// The history journal of the minimal LC-3 core.
pub struct LC3NoMemoryHistory {
    reg: [u16; 8],
    psr: [bool; 3],
    pc: usize,
    diffs: Vec<LC3NoMemoryDiff>,
    current: Option<LC3NoMemoryDiff>,
    inst: Option<LC3NoMemoryInstructions>,
}

impl LC3NoMemoryHistory {
    /// The journal as a mathematical value.
    pub closed spec fn view(&self) -> HistoryView {
        HistoryView {
            snapshot: Snapshot { reg: self.reg@, psr: self.psr@, pc: self.pc },
            batches: self.diffs@.map_values(|b: LC3NoMemoryDiff| b@),
            open: match self.current {
                Some(b) => Some(b@),
                None => None,
            },
            inst: self.inst,
        }
    }

    /// Well-formedness: the snapshot is the replay of the committed batches, and every diff
    /// names a slot that exists.
    pub closed spec fn wf(&self) -> bool {
        let v = self@;
        &&& v.snapshot == replay(v.batches, v.batches.len())
        &&& forall|i: int| 0 <= i < v.batches.len() ==> batch_in_range(#[trigger] v.batches[i])
        &&& v.open matches Some(b) ==> batch_in_range(b)
    }

    /// An empty journal: the all-zero snapshot, no batch, logical time zero.
    pub fn new() -> (r: Self)
        ensures
            r.wf(),
            r@ == (HistoryView {
                snapshot: zero_snapshot(),
                batches: Seq::empty(),
                open: None,
                inst: None,
            }),
    {
        let r = LC3NoMemoryHistory {
            reg: [0u16; 8],
            psr: [false; 3],
            pc: 0,
            diffs: Vec::new(),
            current: None,
            inst: None,
        };
        assert(r@.snapshot.reg =~= zero_snapshot().reg);
        assert(r@.snapshot.psr =~= zero_snapshot().psr);
        assert(r@.batches =~= Seq::empty());
        r
    }

    /// The shadow registers.
    pub fn registers(&self) -> (r: [u16; 8])
        ensures
            r@ == self@.snapshot.reg,
    {
        self.reg
    }

    /// The shadow condition codes N, Z and P.
    pub fn status(&self) -> (r: [bool; 3])
        ensures
            r@ == self@.snapshot.psr,
    {
        self.psr
    }

    /// The shadow program counter.
    pub fn pc(&self) -> (r: usize)
        ensures
            r == self@.snapshot.pc,
    {
        self.pc
    }

    /// The logical time: the number of committed steps.
    pub fn now(&self) -> (r: usize)
        ensures
            r == self@.batches.len(),
    {
        self.diffs.len()
    }

    /// The instruction of the last step announced.
    pub fn last_instruction(&self) -> (r: Option<LC3NoMemoryInstructions>)
        ensures
            r == self@.inst,
    {
        self.inst
    }

    /// The batch committed by step `t`.
    pub fn batch(&self, t: usize) -> (r: &LC3NoMemoryDiff)
        requires
            t < self@.batches.len(),
        ensures
            r@ == self@.batches[t as int],
    {
        &self.diffs[t]
    }

    /// Announces the instruction of the step under way.
    pub fn inst(&mut self, inst: LC3NoMemoryInstructions)
        requires
            old(self).wf(),
        ensures
            final(self).wf(),
            final(self)@ == (HistoryView { inst: Some(inst), ..old(self)@ }),
    {
        self.inst = Some(inst);
    }

    /// Opens the batch of the step under way; if one is open already, it is kept as it is.
    pub fn open(&mut self)
        requires
            old(self).wf(),
        ensures
            final(self).wf(),
            final(self)@ == opened(old(self)@),
    {
        if self.current.is_none() {
            self.current = Some(LC3NoMemoryDiff::new());
        }
    }

    /// Records a write of `post` over `pre` to the register `key` in the open batch, which is
    /// opened first if need be.
    pub fn register(&mut self, key: usize, pre: u16, post: u16)
        requires
            old(self).wf(),
            key < 8,
        ensures
            final(self).wf(),
            final(self)@ == recorded(old(self)@, BatchView { reg: seq![Diff { key, pre, post }], ..empty_batch() }),
    {
        self.open();
        let ghost b0 = self@.open->Some_0;
        if let Some(b) = &mut self.current {
            b.reg.push(Diff::new(key, pre, post));
        }
        assert(self@.open->Some_0.reg =~= b0.reg + seq![Diff { key, pre, post }]);
        assert(self@.open->Some_0.psr =~= b0.psr + Seq::<Diff<usize, bool>>::empty());
        assert(self@.open->Some_0.pc =~= b0.pc + Seq::<Diff<(), usize>>::empty());
    }

    /// Records a write of `post` over `pre` to the flag `key` in the open batch, which is opened
    /// first if need be.
    pub fn status_register(&mut self, key: usize, pre: bool, post: bool)
        requires
            old(self).wf(),
            key < 3,
        ensures
            final(self).wf(),
            final(self)@ == recorded(old(self)@, BatchView { psr: seq![Diff { key, pre, post }], ..empty_batch() }),
    {
        self.open();
        let ghost b0 = self@.open->Some_0;
        if let Some(b) = &mut self.current {
            b.psr.push(Diff::new(key, pre, post));
        }
        assert(self@.open->Some_0.reg =~= b0.reg + Seq::<Diff<usize, u16>>::empty());
        assert(self@.open->Some_0.psr =~= b0.psr + seq![Diff { key, pre, post }]);
        assert(self@.open->Some_0.pc =~= b0.pc + Seq::<Diff<(), usize>>::empty());
    }

    /// Records a write of `post` over `pre` to the program counter in the open batch, which is
    /// opened first if need be.
    pub fn program_counter(&mut self, pre: usize, post: usize)
        requires
            old(self).wf(),
        ensures
            final(self).wf(),
            final(self)@ == recorded(old(self)@, BatchView { pc: seq![Diff { key: (), pre, post }], ..empty_batch() }),
    {
        self.open();
        let ghost b0 = self@.open->Some_0;
        if let Some(b) = &mut self.current {
            b.pc.push(Diff::new((), pre, post));
        }
        assert(self@.open->Some_0.reg =~= b0.reg + Seq::<Diff<usize, u16>>::empty());
        assert(self@.open->Some_0.psr =~= b0.psr + Seq::<Diff<usize, bool>>::empty());
        assert(self@.open->Some_0.pc =~= b0.pc + seq![Diff { key: (), pre, post }]);
    }

    /// Appends the diffs of `batch`, category by category and each in order, to the open batch,
    /// which is opened first if need be.
    pub fn record(&mut self, batch: LC3NoMemoryDiff)
        requires
            old(self).wf(),
            batch_in_range(batch@),
        ensures
            final(self).wf(),
            final(self)@ == recorded(old(self)@, batch@),
    {
        self.open();
        let ghost h = self@;
        let ghost b = batch@;
        proof {
            lemma_recorded_nothing(h);
            assert(b.reg.take(0) =~= Seq::<Diff<usize, u16>>::empty());
        }
        let mut i: usize = 0;
        while i < batch.reg.len()
            invariant
                self.wf(),
                h.open is Some,
                b == batch@,
                batch_in_range(b),
                i <= b.reg.len(),
                self@ == recorded(h, BatchView { reg: b.reg.take(i as int), ..empty_batch() }),
            decreases b.reg.len() - i,
        {
            let d = *batch.reg.get(i);
            assert(b.reg[i as int] == d);
            let ghost done = BatchView { reg: b.reg.take(i as int), ..empty_batch() };
            let ghost one = BatchView { reg: seq![d], ..empty_batch() };
            self.register(d.key, d.pre, d.post);
            proof {
                lemma_recorded_twice(h, done, one);
                assert(concat_batches(done, one).reg =~= b.reg.take(i + 1));
                assert(concat_batches(done, one).psr =~= Seq::<Diff<usize, bool>>::empty());
                assert(concat_batches(done, one).pc =~= Seq::<Diff<(), usize>>::empty());
            }
            i = i + 1;
        }
        assert(b.reg.take(b.reg.len() as int) =~= b.reg);
        let mut i: usize = 0;
        while i < batch.psr.len()
            invariant
                self.wf(),
                h.open is Some,
                b == batch@,
                batch_in_range(b),
                i <= b.psr.len(),
                self@ == recorded(h, BatchView { reg: b.reg, psr: b.psr.take(i as int), pc: Seq::empty() }),
            decreases b.psr.len() - i,
        {
            let d = *batch.psr.get(i);
            assert(b.psr[i as int] == d);
            let ghost done = BatchView { reg: b.reg, psr: b.psr.take(i as int), pc: Seq::empty() };
            let ghost one = BatchView { psr: seq![d], ..empty_batch() };
            self.status_register(d.key, d.pre, d.post);
            proof {
                lemma_recorded_twice(h, done, one);
                assert(concat_batches(done, one).reg =~= b.reg);
                assert(concat_batches(done, one).psr =~= b.psr.take(i + 1));
                assert(concat_batches(done, one).pc =~= Seq::<Diff<(), usize>>::empty());
            }
            i = i + 1;
        }
        assert(b.psr.take(b.psr.len() as int) =~= b.psr);
        let mut i: usize = 0;
        while i < batch.pc.len()
            invariant
                self.wf(),
                h.open is Some,
                b == batch@,
                batch_in_range(b),
                i <= b.pc.len(),
                self@ == recorded(h, BatchView { reg: b.reg, psr: b.psr, pc: b.pc.take(i as int) }),
            decreases b.pc.len() - i,
        {
            let d = *batch.pc.get(i);
            assert(b.pc[i as int] == d);
            assert(d.key == ());
            assert(d == Diff { key: (), pre: d.pre, post: d.post });
            let ghost done = BatchView { reg: b.reg, psr: b.psr, pc: b.pc.take(i as int) };
            let ghost one = BatchView { pc: seq![d], ..empty_batch() };
            self.program_counter(d.pre, d.post);
            proof {
                lemma_recorded_twice(h, done, one);
                assert(concat_batches(done, one).reg =~= b.reg);
                assert(concat_batches(done, one).psr =~= b.psr);
                assert(concat_batches(done, one).pc =~= b.pc.take(i + 1));
            }
            i = i + 1;
        }
        assert(b.pc.take(b.pc.len() as int) =~= b.pc);
        assert(b == BatchView { reg: b.reg, psr: b.psr, pc: b.pc });
    }

    /// Steps back one unit of logical time: the last committed batch is undone on the snapshot,
    /// its writes re-applied with their previous values in reverse order, and dropped. At time
    /// zero nothing changes and the result is `false`. The batch must have been recorded over the
    /// snapshot that it was committed to, as a processor that starts from the all-zero state
    /// records it.
    pub fn prev(&mut self) -> (r: bool)
        requires
            old(self).wf(),
            old(self)@.batches.len() > 0 ==> batch_consistent(
                replay(old(self)@.batches, (old(self)@.batches.len() - 1) as nat),
                old(self)@.batches.last(),
            ),
        ensures
            final(self).wf(),
            r == (old(self)@.batches.len() > 0),
            r ==> final(self)@ == (HistoryView {
                snapshot: unapply_batch(old(self)@.snapshot, old(self)@.batches.last()),
                batches: old(self)@.batches.drop_last(),
                ..old(self)@
            }),
            !r ==> final(self)@ == old(self)@,
    {
        let ghost h0 = self@;
        let b = match self.diffs.pop() {
            Some(b) => b,
            None => return false,
        };
        assert(b@ == h0.batches.last());
        let ghost reg0 = self.reg@;
        let ghost psr0 = self.psr@;
        let mut j: usize = b.reg.len();
        assert(b.reg@.take(j as int) =~= b.reg@);
        while j > 0
            invariant
                j <= b.reg@.len(),
                batch_in_range(b@),
                self.reg@.len() == 8,
                unapply_diffs(self.reg@, b.reg@.take(j as int)) == unapply_diffs(reg0, b.reg@),
                self.psr@ == psr0,
                self.pc == h0.snapshot.pc,
                self@.batches == h0.batches.drop_last(),
                self@.open == h0.open,
                self@.inst == h0.inst,
            decreases j,
        {
            j = j - 1;
            let d = *b.reg.get(j);
            assert(b@.reg[j as int] == d);
            let ghost before = self.reg@;
            self.reg[d.key] = d.pre;
            proof {
                let t = b.reg@.take(j + 1);
                assert(t.drop_last() =~= b.reg@.take(j as int));
                assert(t.last() == d);
                assert(self.reg@ == before.update(d.key as int, d.pre));
            }
        }
        assert(b.reg@.take(0) =~= Seq::<Diff<usize, u16>>::empty());
        let mut j: usize = b.psr.len();
        assert(b.psr@.take(j as int) =~= b.psr@);
        while j > 0
            invariant
                j <= b.psr@.len(),
                batch_in_range(b@),
                self.psr@.len() == 3,
                unapply_diffs(self.psr@, b.psr@.take(j as int)) == unapply_diffs(psr0, b.psr@),
                self.reg@ == unapply_diffs(reg0, b.reg@),
                self.pc == h0.snapshot.pc,
                self@.batches == h0.batches.drop_last(),
                self@.open == h0.open,
                self@.inst == h0.inst,
            decreases j,
        {
            j = j - 1;
            let d = *b.psr.get(j);
            assert(b@.psr[j as int] == d);
            let ghost before = self.psr@;
            self.psr[d.key] = d.pre;
            proof {
                let t = b.psr@.take(j + 1);
                assert(t.drop_last() =~= b.psr@.take(j as int));
                assert(t.last() == d);
                assert(self.psr@ == before.update(d.key as int, d.pre));
            }
        }
        assert(b.psr@.take(0) =~= Seq::<Diff<usize, bool>>::empty());
        if b.pc.len() > 0 {
            self.pc = b.pc.get(0).pre;
        }
        proof {
            let n = h0.batches.len();
            let rest = h0.batches.drop_last();
            assert(rest.push(h0.batches.last()) =~= h0.batches);
            lemma_replay_prefix(rest, h0.batches.last(), (n - 1) as nat);
            lemma_replay_shape(h0.batches, (n - 1) as nat);
            lemma_reverse_replay(replay(h0.batches, (n - 1) as nat), h0.batches.last());
            assert(self@.batches =~= rest);
        }
        true
    }

    /// Closes the step under way: the open batch, opened first if need be, is applied to the
    /// snapshot in order and committed, which advances logical time by one.
    pub fn close(&mut self)
        requires
            old(self).wf(),
        ensures
            final(self).wf(),
            final(self)@ == closed(old(self)@),
    {
        self.open();
        let b = match self.current.take() {
            Some(b) => b,
            None => LC3NoMemoryDiff::new(),
        };
        let ghost reg0 = self.reg@;
        let ghost psr0 = self.psr@;
        let ghost h0 = self@;
        assert(b.reg@.take(0) =~= Seq::<Diff<usize, u16>>::empty());
        let mut i: usize = 0;
        while i < b.reg.len()
            invariant
                i <= b.reg@.len(),
                batch_in_range(b@),
                reg0.len() == 8,
                self.reg@ == apply_diffs(reg0, b.reg@.take(i as int)),
                self@.snapshot.psr == psr0,
                self@.snapshot.pc == h0.snapshot.pc,
                self@.batches == h0.batches,
                self@.open is None,
                self@.inst == h0.inst,
            decreases b.reg@.len() - i,
        {
            let d = *b.reg.get(i);
            assert(b@.reg[i as int] == d);
            self.reg[d.key] = d.post;
            proof {
                let t = b.reg@.take(i + 1);
                assert(t.drop_last() =~= b.reg@.take(i as int));
                assert(t.last() == d);
            }
            i = i + 1;
        }
        assert(b.reg@.take(b.reg@.len() as int) =~= b.reg@);
        assert(b.psr@.take(0) =~= Seq::<Diff<usize, bool>>::empty());
        let mut i: usize = 0;
        while i < b.psr.len()
            invariant
                i <= b.psr@.len(),
                batch_in_range(b@),
                psr0.len() == 3,
                self.psr@ == apply_diffs(psr0, b.psr@.take(i as int)),
                self@.snapshot.reg == apply_diffs(reg0, b.reg@),
                self@.snapshot.pc == h0.snapshot.pc,
                self@.batches == h0.batches,
                self@.open is None,
                self@.inst == h0.inst,
            decreases b.psr@.len() - i,
        {
            let d = *b.psr.get(i);
            assert(b@.psr[i as int] == d);
            self.psr[d.key] = d.post;
            proof {
                let t = b.psr@.take(i + 1);
                assert(t.drop_last() =~= b.psr@.take(i as int));
                assert(t.last() == d);
            }
            i = i + 1;
        }
        assert(b.psr@.take(b.psr@.len() as int) =~= b.psr@);
        let n = b.pc.len();
        if n > 0 {
            self.pc = b.pc.get(n - 1).post;
        }
        let ghost old_batches = self@.batches;
        self.diffs.push(b);
        proof {
            assert(self@.batches =~= old_batches.push(b@));
            lemma_replay_prefix(old_batches, b@, old_batches.len());
        }
    }
}

} // verus!

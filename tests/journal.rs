use akasabi::diff::Diff;
use akasabi::journal::{LC3NoMemoryDiff, LC3NoMemoryHistory};

#[test]
fn new_journal_is_all_zero() {
    let h = LC3NoMemoryHistory::new();
    assert_eq!(h.registers(), [0; 8]);
    assert_eq!(h.status(), [false; 3]);
    assert_eq!(h.pc(), 0);
    assert_eq!(h.now(), 0);
    assert!(h.last_instruction().is_none());
    assert_eq!(LC3NoMemoryHistory::default().now(), 0);
}

#[test]
fn open_twice_keeps_recorded_diffs() {
    let mut h = LC3NoMemoryHistory::new();
    h.open();
    let mut b = LC3NoMemoryDiff::new();
    b.reg.push(Diff::new(2, 0, 11));
    h.record(b);
    h.open();
    let mut b = LC3NoMemoryDiff::new();
    b.reg.push(Diff::new(3, 0, 12));
    h.record(b);
    h.open();
    h.close();
    assert_eq!(h.now(), 1);
    assert_eq!(h.batch(0).reg.len(), 2);
    assert_eq!(h.registers(), [0, 0, 11, 12, 0, 0, 0, 0]);
}

#[test]
fn close_applies_last_write_per_location() {
    let mut h = LC3NoMemoryHistory::new();
    let mut b = LC3NoMemoryDiff::new();
    b.reg.push(Diff::new(1, 0, 5));
    b.reg.push(Diff::new(1, 5, 9));
    b.psr.push(Diff::new(0, false, true));
    b.pc.push(Diff::new((), 0, 4));
    b.pc.push(Diff::new((), 4, 7));
    h.record(b);
    assert_eq!(h.registers()[1], 0);
    h.close();
    assert_eq!(h.registers(), [0, 9, 0, 0, 0, 0, 0, 0]);
    assert_eq!(h.status(), [true, false, false]);
    assert_eq!(h.pc(), 7);
    let mut b = LC3NoMemoryDiff::new();
    b.reg.push(Diff::new(4, 0, 1));
    h.record(b);
    h.close();
    assert_eq!(h.registers(), [0, 9, 0, 0, 1, 0, 0, 0]);
    assert_eq!(h.status(), [true, false, false]);
    assert_eq!(h.pc(), 7);
    assert_eq!(h.now(), 2);
}

#[test]
fn close_without_open_commits_an_empty_step() {
    let mut h = LC3NoMemoryHistory::new();
    h.close();
    assert_eq!(h.now(), 1);
    assert_eq!(h.batch(0).reg.len(), 0);
    assert_eq!(h.registers(), [0; 8]);
}

#[test]
fn category_entry_points_record_in_order() {
    let mut h = LC3NoMemoryHistory::new();
    h.register(5, 0, 3);
    h.status_register(1, false, true);
    h.program_counter(0, 1);
    h.register(5, 3, 4);
    h.open();
    h.close();
    assert_eq!(h.now(), 1);
    let b = h.batch(0);
    assert_eq!(b.reg.len(), 2);
    assert_eq!(b.psr.len(), 1);
    assert_eq!(b.pc.len(), 1);
    assert_eq!(h.registers()[5], 4);
    assert_eq!(h.status(), [false, true, false]);
    assert_eq!(h.pc(), 1);
}

#[test]
fn prev_undoes_the_last_step() {
    let mut h = LC3NoMemoryHistory::new();
    assert!(!h.prev());
    let mut b = LC3NoMemoryDiff::new();
    b.reg.push(Diff::new(1, 0, 5));
    b.reg.push(Diff::new(1, 5, 9));
    b.psr.push(Diff::new(2, false, true));
    b.pc.push(Diff::new((), 0, 1));
    h.record(b);
    h.close();
    let mut b = LC3NoMemoryDiff::new();
    b.reg.push(Diff::new(1, 9, 2));
    b.reg.push(Diff::new(6, 0, 3));
    b.pc.push(Diff::new((), 1, 2));
    h.record(b);
    h.close();
    assert_eq!(h.registers(), [0, 2, 0, 0, 0, 0, 3, 0]);
    assert!(h.prev());
    assert_eq!(h.now(), 1);
    assert_eq!(h.registers(), [0, 9, 0, 0, 0, 0, 0, 0]);
    assert_eq!(h.status(), [false, false, true]);
    assert_eq!(h.pc(), 1);
    assert!(h.prev());
    assert_eq!(h.now(), 0);
    assert_eq!(h.registers(), [0; 8]);
    assert_eq!(h.status(), [false; 3]);
    assert_eq!(h.pc(), 0);
    assert!(!h.prev());
}

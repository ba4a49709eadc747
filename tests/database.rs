use akasabi::database::{
    Database, Memory, MemoryError, ProgramCounter, Register, RegisterError, StatusRegister,
};
use akasabi::diff::{Diff, Diffs};

#[test]
fn register_load_and_store_within_range() {
    let mut reg = Register::<u16, 8>::new(None);
    let mut diffs = Diffs::new();
    for k in 0..8 {
        assert_eq!(reg.load(k), Ok(0));
    }
    assert_eq!(reg.store(3, 42, &mut diffs), Ok(()));
    assert_eq!(reg.load(3), Ok(42));
    assert_eq!(reg.load(2), Ok(0));
    assert_eq!(diffs.len(), 1);
    let d = diffs.get(0);
    assert_eq!(*d.key(), 3);
    assert_eq!(d.pre(), 0);
    assert_eq!(d.post(), 42);
}

#[test]
fn register_out_of_range() {
    let mut reg = Register::<u16, 8>::new(Some([1, 2, 3, 4, 5, 6, 7, 8]));
    let mut diffs = Diffs::new();
    assert_eq!(reg.load(8), Err(RegisterError::OutOfRange));
    assert_eq!(reg.store(8, 1, &mut diffs), Err(RegisterError::OutOfRange));
    assert_eq!(diffs.len(), 0);
    assert_eq!(reg.load(7), Ok(8));
}

#[test]
fn status_register_defaults_to_clear() {
    let mut psr = StatusRegister::<3>::new(None);
    let mut diffs = Diffs::new();
    assert_eq!(psr.load(0), Ok(false));
    assert_eq!(psr.store(2, true, &mut diffs), Ok(()));
    assert_eq!(psr.load(2), Ok(true));
    assert_eq!(psr.load(3), Err(RegisterError::OutOfRange));
    assert_eq!(psr.store(3, true, &mut diffs), Err(RegisterError::OutOfRange));
    assert_eq!(diffs.len(), 1);
}

#[test]
fn program_counter_never_fails() {
    let mut pc = ProgramCounter::<usize>::new(Some(5));
    let mut diffs = Diffs::new();
    assert_eq!(pc.load(()), Ok(5));
    assert_eq!(pc.store((), 9, &mut diffs), Ok(()));
    assert_eq!(pc.load(()), Ok(9));
    assert_eq!(diffs.get(0).pre(), 5);
    assert_eq!(diffs.get(0).post(), 9);
    assert_eq!(ProgramCounter::<usize>::new(None).load(()), Ok(0));
}

#[test]
fn memory_out_of_range() {
    let mut mem = Memory::<u8, 4>::new(Some([1, 2, 3, 4]));
    let mut diffs = Diffs::new();
    assert_eq!(mem.load(3), Ok(4));
    assert_eq!(mem.load(4), Err(MemoryError::OutOfRange));
    assert_eq!(mem.store(4, 0, &mut diffs), Err(MemoryError::OutOfRange));
    assert_eq!(mem.store(0, 9, &mut diffs), Ok(()));
    assert_eq!(mem.load(0), Ok(9));
    assert_eq!(diffs.len(), 1);
}

#[test]
fn diffs_keep_order_of_writes() {
    let mut reg = Register::<u16, 2>::new(None);
    let mut diffs = Diffs::new();
    assert_eq!(reg.store(1, 5, &mut diffs), Ok(()));
    assert_eq!(reg.store(1, 6, &mut diffs), Ok(()));
    assert_eq!(reg.store(0, 7, &mut diffs), Ok(()));
    let seen: Vec<(usize, u16, u16)> = diffs.iter().map(|d| (d.key, d.pre, d.post)).collect();
    assert_eq!(seen, vec![(1, 0, 5), (1, 5, 6), (0, 0, 7)]);
}

#[test]
fn diff_accessors() {
    let d = Diff::new(4usize, 1u16, 2u16);
    assert_eq!(*d.key(), 4);
    assert_eq!(d.pre(), 1);
    assert_eq!(d.post(), 2);
    let mut diffs: Diffs<usize, u16> = Diffs::default();
    diffs.push(d);
    assert_eq!(diffs.len(), 1);
}

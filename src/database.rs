//! Storage cells: a uniform load/store contract behind registers, flags, the program counter
//! and memory.
//!
//! A cell never fails but on a key outside its fixed extent, and each write that succeeds is
//! recorded, before `store` returns, as one `Diff` appended to the batch that the caller hands
//! in.
use vstd::prelude::*;

verus! {

use crate::diff::{Diff, Diffs};

/// A storage cell addressed by `Key` that holds values of type `Value`.
pub trait Database: Sized {
    /// What addresses a slot.
    type Key;
    /// What a slot holds.
    type Value;
    /// Why an access failed.
    type Error;

    /// Whether `key` addresses a slot of this cell.
    spec fn contains(&self, key: Self::Key) -> bool;

    /// The value held at `key`.
    spec fn value(&self, key: Self::Key) -> Self::Value;

    /// Reads the value at `key`; fails if and only if `key` is outside the cell.
    fn load(&self, key: Self::Key) -> (r: Result<Self::Value, Self::Error>)
        ensures
            r is Ok <==> self.contains(key),
            r matches Ok(v) ==> v == self.value(key),
    ;

    /// Writes `value` at `key` and appends the write to `diffs`; fails if and only if `key` is
    /// outside the cell, and then changes nothing.
    fn store(
        &mut self,
        key: Self::Key,
        value: Self::Value,
        diffs: &mut Diffs<Self::Key, Self::Value>,
    ) -> (r: Result<(), Self::Error>)
        ensures
            r is Ok <==> old(self).contains(key),
            r is Ok ==> {
                &&& forall|k: Self::Key| #[trigger] final(self).contains(k) == old(self).contains(k)
                &&& final(self).value(key) == value
                &&& forall|k: Self::Key|
                    old(self).contains(k) && k != key ==> #[trigger] final(self).value(k)
                        == old(self).value(k)
                &&& final(diffs)@ == old(diffs)@.push(
                    Diff { key, pre: old(self).value(key), post: value },
                )
            },
            r is Err ==> *final(self) == *old(self) && *final(diffs) == *old(diffs),
    ;
}

/// The error of a register or flag access.
#[derive(Clone, Copy, Debug, PartialEq, Eq, Structural)]
pub enum RegisterError {
    /// The index is outside the register file.
    OutOfRange,
}

/// The error of a memory access.
#[derive(Clone, Copy, Debug, PartialEq, Eq, Structural)]
pub enum MemoryError {
    /// The address is outside the memory.
    OutOfRange,
}

/// A file of `N` registers, each holding a `T`.
pub struct Register<T, const N: usize> {
    data: [T; N],
}

impl<T: Copy + Default, const N: usize> Register<T, N> {
    /// The registers' contents, by index.
    pub closed spec fn view(&self) -> Seq<T> {
        self.data@
    }

    /// A register file holding `data`, or `T::default()` in every register.
    pub fn new(data: Option<[T; N]>) -> (r: Self)
        ensures
            r@.len() == N,
            data matches Some(a) ==> r@ == a@,
            data is None ==> forall|i: int|
                0 <= i < N ==> call_ensures(T::default, (), #[trigger] r@[i]),
    {
        match data {
            Some(a) => Register { data: a },
            None => Register { data: [T::default(); N] },
        }
    }
}

impl<T: Copy + Default, const N: usize> Database for Register<T, N> {
    type Key = usize;
    type Value = T;
    type Error = RegisterError;

    open spec fn contains(&self, key: usize) -> bool {
        key < N
    }

    open spec fn value(&self, key: usize) -> T {
        self@[key as int]
    }

    fn load(&self, key: usize) -> (r: Result<T, RegisterError>) {
        if key < N {
            Ok(self.data[key])
        } else {
            Err(RegisterError::OutOfRange)
        }
    }

    fn store(&mut self, key: usize, value: T, diffs: &mut Diffs<usize, T>) -> (r: Result<(), RegisterError>) {
        if key < N {
            let pre = self.data[key];
            self.data[key] = value;
            assert(self@ == old(self)@.update(key as int, value));
            diffs.push(Diff::new(key, pre, value));
            Ok(())
        } else {
            Err(RegisterError::OutOfRange)
        }
    }
}

/// A status register of `N` flags.
pub struct StatusRegister<const N: usize> {
    data: [bool; N],
}

impl<const N: usize> StatusRegister<N> {
    /// The flags, by index.
    pub closed spec fn view(&self) -> Seq<bool> {
        self.data@
    }

    /// A status register holding `data`, or every flag clear.
    pub fn new(data: Option<[bool; N]>) -> (r: Self)
        ensures
            r@.len() == N,
            data matches Some(a) ==> r@ == a@,
            data is None ==> forall|i: int| 0 <= i < N ==> !#[trigger] r@[i],
    {
        match data {
            Some(a) => StatusRegister { data: a },
            None => StatusRegister { data: [false; N] },
        }
    }
}

impl<const N: usize> Database for StatusRegister<N> {
    type Key = usize;
    type Value = bool;
    type Error = RegisterError;

    open spec fn contains(&self, key: usize) -> bool {
        key < N
    }

    open spec fn value(&self, key: usize) -> bool {
        self@[key as int]
    }

    fn load(&self, key: usize) -> (r: Result<bool, RegisterError>) {
        if key < N {
            Ok(self.data[key])
        } else {
            Err(RegisterError::OutOfRange)
        }
    }

    fn store(&mut self, key: usize, value: bool, diffs: &mut Diffs<usize, bool>) -> (r: Result<(), RegisterError>) {
        if key < N {
            let pre = self.data[key];
            self.data[key] = value;
            assert(self@ == old(self)@.update(key as int, value));
            diffs.push(Diff::new(key, pre, value));
            Ok(())
        } else {
            Err(RegisterError::OutOfRange)
        }
    }
}

/// A program counter: a single slot, addressed by `()`.
pub struct ProgramCounter<T> {
    data: T,
}

impl<T: Copy + Default> ProgramCounter<T> {
    /// The address held.
    pub closed spec fn view(&self) -> T {
        self.data
    }

    /// A program counter holding `data`, or `T::default()`.
    pub fn new(data: Option<T>) -> (r: Self)
        ensures
            data matches Some(a) ==> r@ == a,
            data is None ==> call_ensures(T::default, (), r@),
    {
        match data {
            Some(a) => ProgramCounter { data: a },
            None => ProgramCounter { data: T::default() },
        }
    }
}

impl<T: Copy + Default> Database for ProgramCounter<T> {
    type Key = ();
    type Value = T;
    type Error = ();

    open spec fn contains(&self, key: ()) -> bool {
        true
    }

    open spec fn value(&self, key: ()) -> T {
        self@
    }

    fn load(&self, key: ()) -> (r: Result<T, ()>) {
        Ok(self.data)
    }

    fn store(&mut self, key: (), value: T, diffs: &mut Diffs<(), T>) -> (r: Result<(), ()>) {
        let pre = self.data;
        self.data = value;
        diffs.push(Diff::new(key, pre, value));
        Ok(())
    }
}

/// A memory of `N` words, each holding a `T`.
pub struct Memory<T, const N: usize> {
    data: [T; N],
}

impl<T: Copy + Default, const N: usize> Memory<T, N> {
    /// The words, by address.
    pub closed spec fn view(&self) -> Seq<T> {
        self.data@
    }

    /// A memory holding `data`, or `T::default()` in every word.
    pub fn new(data: Option<[T; N]>) -> (r: Self)
        ensures
            r@.len() == N,
            data matches Some(a) ==> r@ == a@,
            data is None ==> forall|i: int|
                0 <= i < N ==> call_ensures(T::default, (), #[trigger] r@[i]),
    {
        match data {
            Some(a) => Memory { data: a },
            None => Memory { data: [T::default(); N] },
        }
    }
}

impl<T: Copy + Default, const N: usize> Database for Memory<T, N> {
    type Key = usize;
    type Value = T;
    type Error = MemoryError;

    open spec fn contains(&self, key: usize) -> bool {
        key < N
    }

    open spec fn value(&self, key: usize) -> T {
        self@[key as int]
    }

    fn load(&self, key: usize) -> (r: Result<T, MemoryError>) {
        if key >= N {
            return Err(MemoryError::OutOfRange);
        }
        Ok(self.data[key])
    }

    fn store(&mut self, key: usize, value: T, diffs: &mut Diffs<usize, T>) -> (r: Result<(), MemoryError>) {
        if key >= N {
            return Err(MemoryError::OutOfRange);
        }
        let pre = self.data[key];
        self.data[key] = value;
        assert(self@ == old(self)@.update(key as int, value));
        diffs.push(Diff::new(key, pre, value));
        Ok(())
    }
}

} // verus!

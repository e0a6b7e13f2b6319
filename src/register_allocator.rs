//! Scoped allocation of B, W, D and Q registers for code generators.
use vstd::prelude::*;

use crate::isa::{register_new_spec, Register, RegisterType, REGISTER_MAX};

verus! {

/// The next free index of each class: B, W, D, Q.
pub type Counters = (u8, u8, u8, u8);

/// Whether registers of class `t` can be allocated.
pub open spec fn allocatable(t: RegisterType) -> bool {
    t == RegisterType::B || t == RegisterType::W || t == RegisterType::D || t == RegisterType::Q
}

/// The next free index of class `t`.
pub open spec fn counter(c: Counters, t: RegisterType) -> u8 {
    match t {
        RegisterType::B => c.0,
        RegisterType::W => c.1,
        RegisterType::D => c.2,
        _ => c.3,
    }
}

/// The counters after one allocation of class `t`.
pub open spec fn bump(c: Counters, t: RegisterType) -> Counters {
    match t {
        RegisterType::B => ((c.0 + 1) as u8, c.1, c.2, c.3),
        RegisterType::W => (c.0, (c.1 + 1) as u8, c.2, c.3),
        RegisterType::D => (c.0, c.1, (c.2 + 1) as u8, c.3),
        _ => (c.0, c.1, c.2, (c.3 + 1) as u8),
    }
}

/// The counters of a register pool.
#[derive(Clone, Copy, Debug)]
pub struct RegisterAllocator {
    next_b: u8,
    next_w: u8,
    next_d: u8,
    next_q: u8,
}

impl View for RegisterAllocator {
    type V = Counters;

    closed spec fn view(&self) -> Counters {
        (self.next_b, self.next_w, self.next_d, self.next_q)
    }
}

impl RegisterAllocator {
    /// A pool with every class free.
    pub fn new() -> (r: RegisterAllocator)
        ensures
            r@ == (0u8, 0u8, 0u8, 0u8),
    {
        RegisterAllocator { next_b: 0, next_w: 0, next_d: 0, next_q: 0 }
    }

    /// Opens the top-level arena over this pool.
    pub fn start_arena(&mut self) -> (r: RegisterArena<'_>)
        ensures
            r.allocator@ == old(self)@,
            r.reset@ == old(self)@,
            (*final(self))@ == (*final(r.allocator))@,
    {
        let reset = *self;
        RegisterArena { allocator: self, reset }
    }
}

/// A scope of register allocation: what is allocated in it is free again
/// once it is released.
pub struct RegisterArena<'ator> {
    /// The pool that this arena allocates from.
    pub allocator: &'ator mut RegisterAllocator,
    /// The counters that release restores.
    pub reset: RegisterAllocator,
}

impl<'ator> RegisterArena<'ator> {
    /// Opens a nested arena that starts from this arena's counters.
    pub fn new_arena(&mut self) -> (r: RegisterArena<'_>)
        ensures
            r.allocator@ == old(self).allocator@,
            r.reset@ == old(self).allocator@,
            final(self).reset == old(self).reset,
            (*final(self).allocator)@ == (*final(r.allocator))@,
            *final(final(self).allocator) == *final(old(self).allocator),
    {
        let reset = *self.allocator;
        RegisterArena { allocator: &mut *self.allocator, reset }
    }

    /// Whether a register of class `t` can be allocated: `t` is B, W, D or
    /// Q and not all of its indices are in use.
    pub fn can_allocate(&mut self, t: RegisterType) -> (r: bool)
        ensures
            r == (allocatable(t) && counter(old(self).allocator@, t) < REGISTER_MAX),
            final(self).allocator@ == old(self).allocator@,
            final(self).reset == old(self).reset,
            *final(final(self).allocator) == *final(old(self).allocator),
    {
        match t {
            RegisterType::B => self.allocator.next_b < REGISTER_MAX,
            RegisterType::W => self.allocator.next_w < REGISTER_MAX,
            RegisterType::D => self.allocator.next_d < REGISTER_MAX,
            RegisterType::Q => self.allocator.next_q < REGISTER_MAX,
            _ => false,
        }
    }

    /// Allocates the next free register of class `t`, which must be B, W,
    /// D or Q with a free index left.
    pub fn next(&mut self, t: RegisterType) -> (r: Register)
        requires
            allocatable(t),
            counter(old(self).allocator@, t) < REGISTER_MAX,
        ensures
            register_new_spec(t, counter(old(self).allocator@, t)) == Some(r@),
            final(self).allocator@ == bump(old(self).allocator@, t),
            final(self).reset == old(self).reset,
            *final(final(self).allocator) == *final(old(self).allocator),
    {
        let idx = match t {
            RegisterType::B => {
                let x = self.allocator.next_b;
                self.allocator.next_b = x + 1;
                x
            },
            RegisterType::W => {
                let x = self.allocator.next_w;
                self.allocator.next_w = x + 1;
                x
            },
            RegisterType::D => {
                let x = self.allocator.next_d;
                self.allocator.next_d = x + 1;
                x
            },
            _ => {
                let x = self.allocator.next_q;
                self.allocator.next_q = x + 1;
                x
            },
        };
        Register::new(t, idx).unwrap()
    }

    /// Closes the arena: the pool's counters become exactly those that it
    /// had when the arena was opened.
    pub fn release(self)
        ensures
            final(self.allocator)@ == self.reset@,
    {
        *self.allocator = self.reset;
    }
}

} // verus!

//! The allocator of vector registers for one compilation pass.

use vstd::prelude::*;

verus! {

/// The vector registers that are free, out of those that the allocator was
/// made with. They are held as a stack: the register that was released last
/// is acquired first. No register is free twice.
pub struct RegisterAlloc {
    registers: u8,
    useful_registers: Vec<u8>,
}

impl View for RegisterAlloc {
    type V = Seq<u8>;

    /// The free registers, the next one to be acquired last.
    closed spec fn view(&self) -> Seq<u8> {
        self.useful_registers@
    }
}

/// The registers `0, 1, .., count - 1` in rising order.
pub open spec fn first_registers(count: nat) -> Seq<u8> {
    Seq::new(count, |i: int| i as u8)
}

/// What holds of the free registers of every allocator made with `registers`
/// registers: each is one of them, and none occurs twice.
pub open spec fn free_registers_valid(registers: u8, free: Seq<u8>) -> bool {
    &&& free.no_duplicates()
    &&& forall|i: int| 0 <= i < free.len() ==> #[trigger] free[i] < registers
}

/// Whether the `count` registers that are acquired next out of `free`, or
/// all of them where there are fewer, lie below `bound`.
pub open spec fn next_below(free: Seq<u8>, count: nat, bound: u8) -> bool {
    forall|depth: int|
        0 <= depth < count && depth < free.len() ==> #[trigger] free[free.len() - 1 - depth]
            < bound
}

impl RegisterAlloc {
    #[verifier::type_invariant]
    spec fn valid(&self) -> bool {
        free_registers_valid(self.registers, self.useful_registers@)
    }

    /// The number of registers that the allocator was made with.
    pub closed spec fn spec_registers(&self) -> u8 {
        self.registers
    }

    /// The number of registers that the allocator was made with.
    #[verifier::when_used_as_spec(spec_registers)]
    pub fn registers(&self) -> (registers: u8)
        ensures
            registers == self.spec_registers(),
    {
        self.registers
    }

    /// The set of the free registers.
    pub open spec fn free_set(&self) -> Set<u8> {
        self@.to_set()
    }

    /// Whether `reg` is one of the allocator's registers and not free: it was
    /// acquired and not released since.
    pub open spec fn is_allocated(&self, reg: u8) -> bool {
        reg < self.registers() && !self@.contains(reg)
    }

    /// An allocator in which the registers below `registers` are free, and
    /// the highest of them is acquired first.
    pub fn new(registers: u8) -> (alloc: Self)
        ensures
            alloc.registers() == registers,
            alloc@ == first_registers(registers as nat),
    {
        let mut useful_registers: Vec<u8> = Vec::new();
        let mut next: u8 = 0;
        while next < registers
            invariant
                next <= registers,
                useful_registers@ == first_registers(next as nat),
            decreases registers - next,
        {
            useful_registers.push(next);
            next = next + 1;
        }
        Self { registers, useful_registers }
    }

    /// Whether `reg` is free.
    pub fn is_free(&self, reg: u8) -> (free: bool)
        ensures
            free == self@.contains(reg),
            free_registers_valid(self.registers(), self@),
    {
        proof {
            use_type_invariant(self);
        }
        let mut at: usize = 0;
        while at < self.useful_registers.len()
            invariant
                at <= self.useful_registers@.len(),
                forall|i: int| 0 <= i < at ==> self.useful_registers@[i] != reg,
                free_registers_valid(self.registers, self.useful_registers@),
            decreases self.useful_registers@.len() - at,
        {
            if self.useful_registers[at] == reg {
                return true;
            }
            at = at + 1;
        }
        false
    }

    /// The number of free registers.
    pub fn free_count(&self) -> (count: usize)
        ensures
            count == self@.len(),
            free_registers_valid(self.registers(), self@),
    {
        proof {
            use_type_invariant(self);
        }
        self.useful_registers.len()
    }

    /// Whether the `count` registers that are acquired next, or all the free
    /// ones where there are fewer, lie below `bound`.
    pub fn next_are_below(&self, count: usize, bound: u8) -> (below: bool)
        ensures
            below == next_below(self@, count as nat, bound),
    {
        let free = self.useful_registers.len();
        let mut depth: usize = 0;
        while depth < count && depth < free
            invariant
                free == self.useful_registers@.len(),
                next_below(self.useful_registers@, depth as nat, bound),
            decreases free - depth,
        {
            if self.useful_registers[free - 1 - depth] >= bound {
                return false;
            }
            depth = depth + 1;
        }
        true
    }

    /// Takes the register that was released last out of the free ones, or
    /// returns `None` and changes nothing where no register is free.
    pub fn acquire(&mut self) -> (register: Option<u8>)
        ensures
            final(self).registers() == old(self).registers(),
            old(self)@.len() == 0 ==> register.is_none() && final(self)@ == old(self)@,
            old(self)@.len() > 0 ==> register == Some(old(self)@.last()) && final(self)@ == old(
                self,
            )@.drop_last(),
    {
        proof {
            use_type_invariant(&*self);
        }
        // The stack leaves the allocator while it changes.
        let mut free: Vec<u8> = Vec::new();
        core::mem::swap(&mut self.useful_registers, &mut free);
        let register = free.pop();
        core::mem::swap(&mut self.useful_registers, &mut free);
        register
    }

    /// Makes `reg` free again. It is the next one to be acquired.
    pub fn release(&mut self, reg: u8)
        requires
            old(self).is_allocated(reg),
        ensures
            final(self).registers() == old(self).registers(),
            final(self)@ == old(self)@.push(reg),
    {
        proof {
            use_type_invariant(&*self);
        }
        // The stack leaves the allocator while it changes.
        let mut free: Vec<u8> = Vec::new();
        core::mem::swap(&mut self.useful_registers, &mut free);
        free.push(reg);
        core::mem::swap(&mut self.useful_registers, &mut free);
    }

    /// Puts `snapshot` in the place of the allocator.
    pub fn restore(&mut self, snapshot: RegisterAlloc)
        ensures
            final(self)@ == snapshot@,
            final(self).registers() == snapshot.registers(),
    {
        *self = snapshot;
    }
}

impl Clone for RegisterAlloc {
    fn clone(&self) -> (copy: Self)
        ensures
            copy.registers() == self.registers(),
            copy@ == self@,
    {
        proof {
            use_type_invariant(self);
        }
        Self { registers: self.registers, useful_registers: self.useful_registers.clone() }
    }
}

} // verus!

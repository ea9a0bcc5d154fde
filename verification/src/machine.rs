//! What the instructions do: a model of the machine that a kernel runs on,
//! with integers in the place of floating-point numbers. Sums and products
//! are exact in it, so it says what a kernel computes up to rounding.

use vstd::prelude::*;
use crate::instructions::{
    ElementLayout, FmaDest, Instruction, ScalarRegister, SimpleAddress, VectorRegister,
    FLOAT64_SIZE, SCALAR_REGISTERS, VECTOR_REGISTERS,
};

verus! {

/// The state of the machine: what the vector registers hold and what the
/// buffers hold that the scalar registers point at.
pub struct Machine {
    /// The lanes of each vector register, by the register's index.
    pub vectors: Seq<Seq<int>>,
    /// The elements of the buffer that each scalar register points at, by the
    /// register's index.
    pub buffers: Seq<Seq<int>>,
}

/// The index of the element that an address points at.
pub open spec fn first_element(address: SimpleAddress) -> int {
    address.offset as int / FLOAT64_SIZE as int
}

/// Whether lane `lane` is loaded under `mask`.
pub open spec fn lane_selected(mask: u32, lane: int) -> bool {
    (mask >> (lane as u32)) & 1 == 1
}

/// The sum of the lanes.
pub open spec fn lane_sum(lanes: Seq<int>) -> int
    decreases lanes.len(),
{
    if lanes.len() == 0 {
        0
    } else {
        lane_sum(lanes.drop_last()) + lanes.last()
    }
}

/// What a sum over the lanes leaves in a register that held `lanes`: the sum
/// in the lowest lane, and no particular values in the others.
pub open spec fn summed_lanes(lanes: Seq<int>) -> Seq<int> {
    choose|summed: Seq<int>| summed.len() == lanes.len() && summed[0] == lane_sum(lanes)
}

/// A sum over the lanes keeps the number of lanes and leaves the sum in the
/// lowest one.
pub proof fn lemma_summed_lanes(lanes: Seq<int>)
    requires
        lanes.len() > 0,
    ensures
        summed_lanes(lanes).len() == lanes.len(),
        summed_lanes(lanes)[0] == lane_sum(lanes),
{
    let witness = lanes.update(0, lane_sum(lanes));
    assert(witness.len() == lanes.len() && witness[0] == lane_sum(lanes));
}

/// `width` lanes of zero.
pub open spec fn zero_lanes(width: nat) -> Seq<int> {
    Seq::new(width, |lane: int| 0int)
}

/// What a load of `width` lanes reads from `buffer` at the element `first`.
pub open spec fn loaded(buffer: Seq<int>, first: int, width: nat) -> Seq<int> {
    buffer.subrange(first, first + width)
}

/// What a load of `width` lanes under `mask` reads from `buffer` at the
/// element `first`: the lanes that the mask leaves out are zero.
pub open spec fn loaded_under_mask(buffer: Seq<int>, first: int, width: nat, mask: u32) -> Seq<
    int,
> {
    Seq::new(
        width,
        |lane: int|
            if lane_selected(mask, lane) {
                buffer[first + lane]
            } else {
                0
            },
    )
}

/// `a * b + c`, lane by lane.
pub open spec fn multiplied_and_added(a: Seq<int>, b: Seq<int>, c: Seq<int>) -> Seq<int> {
    Seq::new(c.len(), |lane: int| a[lane] * b[lane] + c[lane])
}

impl Machine {
    /// A machine has all the vector registers and all the scalar registers.
    pub open spec fn well_formed(self) -> bool {
        &&& self.vectors.len() == VECTOR_REGISTERS
        &&& self.buffers.len() == SCALAR_REGISTERS
    }

    /// The lanes of a vector register.
    pub open spec fn lanes(self, register: VectorRegister) -> Seq<int> {
        self.vectors[register.spec_index() as int]
    }

    /// The buffer that a scalar register points at.
    pub open spec fn buffer(self, base: ScalarRegister) -> Seq<int> {
        self.buffers[base.spec_index() as int]
    }

    /// The machine after `lanes` were written to a vector register.
    pub open spec fn with_lanes(self, register: VectorRegister, lanes: Seq<int>) -> Machine {
        Machine { vectors: self.vectors.update(register.spec_index() as int, lanes), ..self }
    }

    /// The machine after `value` was stored to an element of a buffer.
    pub open spec fn with_element(self, base: ScalarRegister, element: int, value: int) -> Machine {
        Machine {
            buffers: self.buffers.update(
                base.spec_index() as int,
                self.buffer(base).update(element, value),
            ),
            ..self
        }
    }

    /// Whether a vector register holds a value of its own width.
    pub open spec fn holds(self, register: VectorRegister) -> bool {
        &&& register.is_valid()
        &&& self.lanes(register).len() == register.spec_kind().lanes()
    }

    /// Whether an address points at an element of a buffer with `count`
    /// elements from there on.
    pub open spec fn in_bounds(self, address: SimpleAddress, count: nat) -> bool {
        &&& address.base_register.is_valid()
        &&& address.layout == ElementLayout::spec_float64()
        &&& address.offset as int % FLOAT64_SIZE as int == 0
        &&& 0 <= first_element(address)
        &&& first_element(address) + count <= self.buffer(address.base_register).len()
    }

    /// Whether an address points at an element of a buffer and every lane
    /// that `mask` selects out of `width` lies inside the buffer.
    pub open spec fn in_bounds_under_mask(
        self,
        address: SimpleAddress,
        width: nat,
        mask: u32,
    ) -> bool {
        &&& address.base_register.is_valid()
        &&& address.layout == ElementLayout::spec_float64()
        &&& address.offset as int % FLOAT64_SIZE as int == 0
        &&& 0 <= first_element(address)
        &&& forall|lane: int|
            0 <= lane < width && #[trigger] lane_selected(mask, lane) ==> first_element(address)
                + lane < self.buffer(address.base_register).len()
    }

    /// Whether the instruction can run: its registers exist, the registers
    /// that it reads hold values of the width in which it works, and its
    /// memory operand lies inside a buffer.
    pub open spec fn can_run(self, instruction: Instruction) -> bool {
        match instruction {
            Instruction::F64VecLoad(load) => {
                &&& load.into.is_valid()
                &&& self.in_bounds(load.address, load.into.spec_kind().lanes())
            },
            Instruction::MaskedF64VecLoad(masked) => {
                &&& masked.load.into.is_valid()
                &&& self.in_bounds_under_mask(
                    masked.load.address,
                    masked.load.into.spec_kind().lanes(),
                    masked.mask,
                )
            },
            Instruction::ZeroVec(zero) => zero.0.is_valid(),
            Instruction::FMAdd(fma) => {
                &&& self.holds(fma.a)
                &&& self.holds(fma.b)
                &&& self.holds(fma.c)
                &&& fma.a.spec_kind() == fma.c.spec_kind()
                &&& fma.b.spec_kind() == fma.c.spec_kind()
            },
            Instruction::FMMemAdd(fma) => {
                &&& self.holds(fma.a)
                &&& self.holds(fma.c)
                &&& fma.a.spec_kind() == fma.c.spec_kind()
                &&& fma.dest != FmaDest::B
                &&& self.in_bounds(fma.b, fma.c.spec_kind().lanes())
            },
            Instruction::F64HorizontalSum(sum) => self.holds(sum.0),
            Instruction::F64ScalarStore(store) => {
                &&& self.holds(store.from)
                &&& self.in_bounds(store.address, 1)
            },
        }
    }

    /// The machine after the instruction has run.
    pub open spec fn after(self, instruction: Instruction) -> Machine {
        match instruction {
            Instruction::F64VecLoad(load) => self.with_lanes(
                load.into,
                loaded(
                    self.buffer(load.address.base_register),
                    first_element(load.address),
                    load.into.spec_kind().lanes(),
                ),
            ),
            Instruction::MaskedF64VecLoad(masked) => self.with_lanes(
                masked.load.into,
                loaded_under_mask(
                    self.buffer(masked.load.address.base_register),
                    first_element(masked.load.address),
                    masked.load.into.spec_kind().lanes(),
                    masked.mask,
                ),
            ),
            Instruction::ZeroVec(zero) => self.with_lanes(
                zero.0,
                zero_lanes(zero.0.spec_kind().lanes()),
            ),
            Instruction::FMAdd(fma) => self.with_lanes(
                match fma.dest {
                    FmaDest::A => fma.a,
                    FmaDest::B => fma.b,
                    FmaDest::C => fma.c,
                },
                multiplied_and_added(self.lanes(fma.a), self.lanes(fma.b), self.lanes(fma.c)),
            ),
            Instruction::FMMemAdd(fma) => self.with_lanes(
                match fma.dest {
                    FmaDest::A => fma.a,
                    _ => fma.c,
                },
                multiplied_and_added(
                    self.lanes(fma.a),
                    loaded(
                        self.buffer(fma.b.base_register),
                        first_element(fma.b),
                        fma.c.spec_kind().lanes(),
                    ),
                    self.lanes(fma.c),
                ),
            ),
            Instruction::F64HorizontalSum(sum) => self.with_lanes(
                sum.0,
                summed_lanes(self.lanes(sum.0)),
            ),
            Instruction::F64ScalarStore(store) => self.with_element(
                store.address.base_register,
                first_element(store.address),
                self.lanes(store.from)[0],
            ),
        }
    }

    /// The machine after the instructions have run, one after another.
    pub open spec fn after_all(self, instructions: Seq<Instruction>) -> Machine
        decreases instructions.len(),
    {
        if instructions.len() == 0 {
            self
        } else {
            self.after_all(instructions.drop_last()).after(instructions.last())
        }
    }

    /// Whether the instructions can run, one after another.
    pub open spec fn can_run_all(self, instructions: Seq<Instruction>) -> bool
        decreases instructions.len(),
    {
        if instructions.len() == 0 {
            true
        } else {
            &&& self.can_run_all(instructions.drop_last())
            &&& self.after_all(instructions.drop_last()).can_run(instructions.last())
        }
    }

    /// Running one more instruction.
    pub proof fn lemma_run_push(self, instructions: Seq<Instruction>, instruction: Instruction)
        ensures
            self.after_all(instructions.push(instruction)) == self.after_all(instructions).after(
                instruction,
            ),
            self.can_run_all(instructions.push(instruction)) == (self.can_run_all(instructions)
                && self.after_all(instructions).can_run(instruction)),
    {
        assert(instructions.push(instruction).drop_last() == instructions);
    }

    /// Running one list of instructions after another.
    pub proof fn lemma_run_concat(self, first: Seq<Instruction>, second: Seq<Instruction>)
        ensures
            self.after_all(first + second) == self.after_all(first).after_all(second),
            self.can_run_all(first + second) == (self.can_run_all(first) && self.after_all(
                first,
            ).can_run_all(second)),
        decreases second.len(),
    {
        if second.len() == 0 {
            assert(first + second == first);
        } else {
            self.lemma_run_concat(first, second.drop_last());
            assert((first + second).drop_last() == first + second.drop_last());
        }
    }
}

} // verus!

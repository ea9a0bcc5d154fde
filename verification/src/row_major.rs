//! The compiler of row-major matrix-by-vector kernels.
//!
//! The rows of the matrix are taken in blocks. Every row of a block has an
//! accumulator register of its own, and one more register streams the input
//! vector, a chunk of as many columns as a register has lanes at a time. Each
//! chunk is multiplied into the accumulators by fused multiply-adds that read
//! the matrix straight from memory. Columns that are left over when the
//! column count is no multiple of the lane count are loaded under a mask, the
//! vector's and the matrix's both, so that nothing past the end of a row
//! reaches a sum and nothing past the end of a buffer is read. At the end each
//! accumulator is summed over its lanes and stored to the output.

use vstd::prelude::*;
use crate::instructions::{
    ElementLayout, F64HorizontalSum, F64ScalarStore, F64VecLoad, FMAdd, FMMemAdd, FmaDest,
    Instruction, MaskedF64VecLoad, ScalarRegister, SimpleAddress, VectorKind, VectorRegister,
    ZeroVec, FLOAT64_SIZE, VECTOR_REGISTERS,
};
use crate::product::{
    computes_product, computes_rows, lemma_block_computes_rows, lemma_block_registers_apart,
    lemma_kernel_computes_product,
};
use crate::register_alloc::{next_below, RegisterAlloc};

verus! {

/// Why a kernel was not compiled.
#[derive(Copy, Clone, Debug, PartialEq, Eq)]
pub enum CompileError {
    /// Fewer registers are free than are needed.
    NoRegisterAvailable,
    /// The byte size of a buffer does not fit the signed 32-bit offset of an
    /// address.
    AddressOutOfRange,
}

/// The byte offset of the element with the given index in a buffer of 64-bit
/// floating-point elements.
pub open spec fn byte_offset(element: int) -> int {
    element * FLOAT64_SIZE
}

/// The address of the element with the given index in the buffer that `base`
/// points at.
pub open spec fn element_address(base: ScalarRegister, element: int) -> SimpleAddress {
    SimpleAddress::spec_for_float64(base, byte_offset(element) as i32)
}

/// Whether the byte sizes of the matrix, of the input vector and of the
/// output of a `rows` by `cols` product all fit the offset of an address.
pub open spec fn shape_addressable(rows: nat, cols: nat) -> bool {
    &&& byte_offset((rows * cols) as int) <= i32::MAX
    &&& byte_offset(rows as int) <= i32::MAX
    &&& byte_offset(cols as int) <= i32::MAX
}

/// The largest count of elements whose byte size fits the offset of an
/// address.
pub const MAX_ELEMENTS: usize = 268435455;

/// Whether the byte sizes of the matrix, of the input vector and of the
/// output of a `rows` by `cols` product all fit the offset of an address.
pub fn is_shape_addressable(rows: usize, cols: usize) -> (addressable: bool)
    ensures
        addressable == shape_addressable(rows as nat, cols as nat),
{
    if rows > MAX_ELEMENTS || cols > MAX_ELEMENTS {
        return false;
    }
    assert(rows * cols <= MAX_ELEMENTS * MAX_ELEMENTS) by (nonlinear_arith)
        requires
            rows <= MAX_ELEMENTS,
            cols <= MAX_ELEMENTS,
    ;
    let elements: u64 = (rows as u64) * (cols as u64);
    elements <= MAX_ELEMENTS as u64
}

/// The index of the element in row `row_idx` and column `col_idx` of a
/// row-major matrix.
pub open spec fn spec_row_major_offset(cols: int, row_idx: int, col_idx: int) -> int {
    cols * row_idx + col_idx
}

/// An element of a matrix lies inside the matrix.
pub proof fn lemma_row_major_offset_in_matrix(rows: int, cols: int, row_idx: int, col_idx: int)
    requires
        0 <= row_idx < rows,
        0 <= col_idx < cols,
    ensures
        0 <= spec_row_major_offset(cols, row_idx, col_idx) < rows * cols,
        spec_row_major_offset(cols, row_idx, col_idx) + (cols - col_idx) <= rows * cols,
{
    assert(cols * row_idx + cols <= rows * cols) by (nonlinear_arith)
        requires
            0 <= row_idx < rows,
            0 < cols,
    ;
    assert(0 <= cols * row_idx) by (nonlinear_arith)
        requires
            0 <= row_idx,
            0 < cols,
    ;
}

/// The index of the element in row `row_idx` and column `col_idx` of a
/// row-major matrix of `rows` by `cols` elements.
pub fn row_major_offset(rows: usize, cols: usize, row_idx: usize, col_idx: usize) -> (offset: usize)
    requires
        row_idx < rows,
        col_idx < cols,
        rows * cols <= usize::MAX,
    ensures
        offset == spec_row_major_offset(cols as int, row_idx as int, col_idx as int),
        offset < rows * cols,
{
    proof {
        lemma_row_major_offset_in_matrix(rows as int, cols as int, row_idx as int, col_idx as int);
    }
    (cols * row_idx) + col_idx
}

/// The mask under which the lowest `lanes` lanes of a register are loaded:
/// the bits below `lanes` are set and no others.
pub open spec fn low_lanes_mask(lanes: u32) -> u32 {
    !(0xffff_ffffu32 << lanes)
}

/// The mask under which the lowest `lanes` lanes of a register are loaded.
pub fn lanes_mask(lanes: u32) -> (mask: u32)
    requires
        lanes < 32,
    ensures
        mask == low_lanes_mask(lanes),
{
    !(0xffff_ffffu32 << lanes)
}

/// One block of rows of a kernel with the registers that it works in: what
/// the instructions of the block are made from.
pub struct RowBlock {
    /// The number of columns of the matrix.
    pub cols: nat,
    /// The first row of the block.
    pub start_row: nat,
    /// The register that holds the address of the matrix.
    pub matrix: ScalarRegister,
    /// The register that holds the address of the input vector.
    pub vector: ScalarRegister,
    /// The register that holds the address of the output.
    pub output: ScalarRegister,
    /// The width tier of the vector registers.
    pub kind: VectorKind,
    /// The register through which the input vector is streamed.
    pub target_load: VectorRegister,
    /// The accumulators, one for each row of the block, in row order.
    pub accumulators: Seq<VectorRegister>,
    /// The register that takes the left-over columns of a matrix row.
    pub scratch: VectorRegister,
}

impl RowBlock {
    /// The number of rows of the block.
    pub open spec fn rows(self) -> nat {
        self.accumulators.len()
    }

    /// The number of columns that one chunk covers.
    pub open spec fn width(self) -> nat {
        self.kind.lanes()
    }

    /// The number of whole chunks in a row.
    pub open spec fn full_chunks(self) -> nat {
        self.cols / self.width()
    }

    /// The number of columns that are left over behind the whole chunks.
    pub open spec fn tail_lanes(self) -> nat {
        self.cols % self.width()
    }

    /// The first of the left-over columns.
    pub open spec fn tail_col(self) -> nat {
        self.full_chunks() * self.width()
    }

    /// Sets the accumulator of the `i`-th row of the block to zero.
    pub open spec fn zero(self, i: int) -> Instruction {
        Instruction::ZeroVec(ZeroVec(self.accumulators[i]))
    }

    /// The accumulators of the first `count` rows are set to zero, in row
    /// order.
    pub open spec fn zeros(self, count: nat) -> Seq<Instruction> {
        Seq::new(count, |i: int| self.zero(i))
    }

    /// The accumulators are set to zero, in row order.
    pub open spec fn zeroing(self) -> Seq<Instruction> {
        self.zeros(self.rows())
    }

    /// Loads the chunk of the input vector that starts at column `col`.
    pub open spec fn vector_load(self, col: int) -> Instruction {
        Instruction::F64VecLoad(
            F64VecLoad { address: element_address(self.vector, col), into: self.target_load },
        )
    }

    /// Multiplies the loaded chunk of the input vector by the chunk at column
    /// `col` of the `i`-th row of the block, which is read from memory, and
    /// adds the products to the row's accumulator.
    pub open spec fn matrix_fma(self, i: int, col: int) -> Instruction {
        Instruction::FMMemAdd(
            FMMemAdd {
                a: self.target_load,
                b: element_address(
                    self.matrix,
                    spec_row_major_offset(self.cols as int, self.start_row + i, col),
                ),
                c: self.accumulators[i],
                dest: FmaDest::C,
            },
        )
    }

    /// The multiply-adds of the chunk at column `col` for the first `count`
    /// rows, in row order.
    pub open spec fn matrix_fmas(self, col: int, count: nat) -> Seq<Instruction> {
        Seq::new(count, |i: int| self.matrix_fma(i, col))
    }

    /// The whole chunk at column `col`: the load of the input vector, then
    /// one multiply-add for each row, in row order.
    pub open spec fn chunk(self, col: int) -> Seq<Instruction> {
        seq![self.vector_load(col)] + self.matrix_fmas(col, self.rows())
    }

    /// The first `count` whole chunks, by rising column.
    pub open spec fn chunks(self, count: nat) -> Seq<Instruction>
        decreases count,
    {
        if count == 0 {
            Seq::empty()
        } else {
            self.chunks((count - 1) as nat) + self.chunk((count - 1) * self.width())
        }
    }

    /// The mask of the left-over columns.
    pub open spec fn tail_mask(self) -> u32 {
        low_lanes_mask(self.tail_lanes() as u32)
    }

    /// Loads the left-over columns of the input vector under the mask.
    pub open spec fn tail_vector_load(self) -> Instruction {
        Instruction::MaskedF64VecLoad(
            MaskedF64VecLoad {
                load: F64VecLoad {
                    address: element_address(self.vector, self.tail_col() as int),
                    into: self.target_load,
                },
                mask: self.tail_mask(),
            },
        )
    }

    /// Loads the left-over columns of the `i`-th row of the block under the
    /// mask into the scratch register.
    pub open spec fn tail_matrix_load(self, i: int) -> Instruction {
        Instruction::MaskedF64VecLoad(
            MaskedF64VecLoad {
                load: F64VecLoad {
                    address: element_address(
                        self.matrix,
                        spec_row_major_offset(
                            self.cols as int,
                            self.start_row + i,
                            self.tail_col() as int,
                        ),
                    ),
                    into: self.scratch,
                },
                mask: self.tail_mask(),
            },
        )
    }

    /// Multiplies the left-over columns of the input vector by what the
    /// scratch register holds and adds the products to the accumulator of the
    /// `i`-th row of the block.
    pub open spec fn tail_fma(self, i: int) -> Instruction {
        Instruction::FMAdd(
            FMAdd {
                a: self.target_load,
                b: self.scratch,
                c: self.accumulators[i],
                dest: FmaDest::C,
            },
        )
    }

    /// The left-over columns of the first `count` rows of the block: for each
    /// row the masked load of the matrix, then the multiply-add.
    pub open spec fn tail_rows(self, count: nat) -> Seq<Instruction>
        decreases count,
    {
        if count == 0 {
            Seq::empty()
        } else {
            self.tail_rows((count - 1) as nat).push(self.tail_matrix_load(count - 1)).push(
                self.tail_fma(count - 1),
            )
        }
    }

    /// The left-over columns: nothing where the lane count divides the column
    /// count, else the masked load of the input vector and then the rows.
    pub open spec fn tail(self) -> Seq<Instruction> {
        if self.tail_lanes() == 0 {
            Seq::empty()
        } else {
            seq![self.tail_vector_load()] + self.tail_rows(self.rows())
        }
    }

    /// Sums the accumulator of the `i`-th row of the block over its lanes.
    pub open spec fn reduce(self, i: int) -> Instruction {
        Instruction::F64HorizontalSum(F64HorizontalSum(self.accumulators[i]))
    }

    /// Stores the accumulator of the `i`-th row of the block to the row's
    /// element of the output.
    pub open spec fn store(self, i: int) -> Instruction {
        Instruction::F64ScalarStore(
            F64ScalarStore {
                from: self.accumulators[i],
                address: element_address(self.output, self.start_row + i),
            },
        )
    }

    /// The results of the first `count` rows of the block are written: for
    /// each row the sum over the lanes, where a register has more than one,
    /// then the store.
    pub open spec fn finish_rows(self, count: nat) -> Seq<Instruction>
        decreases count,
    {
        if count == 0 {
            Seq::empty()
        } else if self.width() > 1 {
            self.finish_rows((count - 1) as nat).push(self.reduce(count - 1)).push(
                self.store(count - 1),
            )
        } else {
            self.finish_rows((count - 1) as nat).push(self.store(count - 1))
        }
    }

    /// The instructions of the block, in the order in which they run.
    pub open spec fn instructions(self) -> Seq<Instruction> {
        self.zeroing() + self.chunks(self.full_chunks()) + self.tail() + self.finish_rows(
            self.rows(),
        )
    }

    /// The number of vector registers that the block takes: one for the input
    /// vector, one for each row, and one more where columns are left over.
    pub open spec fn registers_needed(self) -> nat {
        if self.tail_lanes() == 0 {
            self.rows() + 1
        } else {
            self.rows() + 2
        }
    }
}

/// The register of tier `kind` that is acquired after `depth` others from an
/// allocator whose free registers are `free`.
pub open spec fn register_at(free: Seq<u8>, kind: VectorKind, depth: int) -> VectorRegister {
    VectorRegister::spec_new(free[free.len() - 1 - depth], kind)
}

/// The block of the rows from `start_row` up to `end_row`, in the registers
/// that it acquires from an allocator whose free registers are `free`: first
/// the register for the input vector, then the accumulators in row order,
/// then the scratch register.
pub open spec fn block_of(
    cols: nat,
    start_row: nat,
    end_row: nat,
    matrix: ScalarRegister,
    vector: ScalarRegister,
    output: ScalarRegister,
    kind: VectorKind,
    free: Seq<u8>,
) -> RowBlock {
    RowBlock {
        cols,
        start_row,
        matrix,
        vector,
        output,
        kind,
        target_load: register_at(free, kind, 0),
        accumulators: Seq::new(
            (end_row - start_row) as nat,
            |i: int| register_at(free, kind, 1 + i),
        ),
        scratch: register_at(free, kind, 1 + (end_row - start_row)),
    }
}

/// Whether the `count` registers that are acquired next from `free` name
/// vector registers.
pub open spec fn next_registers_valid(free: Seq<u8>, count: nat) -> bool {
    next_below(free, count, VECTOR_REGISTERS)
}

/// Whether the block of the rows from `start_row` up to `end_row` may be
/// asked for: the rows are rows of the matrix and at least one, over one row
/// more than registers are free is not asked for, and the registers that
/// the block takes name vector registers.
pub open spec fn block_admissible(
    matrix_rows: nat,
    matrix_cols: nat,
    start_row: nat,
    end_row: nat,
    kind: VectorKind,
    free: Seq<u8>,
) -> bool {
    &&& start_row < end_row <= matrix_rows
    &&& end_row - start_row <= free.len() + 1
    &&& next_registers_valid(
        free,
        (end_row - start_row + registers_reserved(matrix_cols, kind)) as nat,
    )
}

/// A block with over one row more than registers are free may not be asked
/// for, whatever else holds of it.
pub proof fn lemma_oversized_block_not_admissible(
    matrix_rows: nat,
    matrix_cols: nat,
    start_row: nat,
    end_row: nat,
    kind: VectorKind,
    free: Seq<u8>,
)
    requires
        end_row - start_row > free.len() + 1,
    ensures
        !block_admissible(matrix_rows, matrix_cols, start_row, end_row, kind, free),
{
}

/// Whether the block of the rows from `start_at_row` up to `end_at_row` may
/// be asked for: see [`block_admissible`].
pub fn is_block_admissible(
    matrix_rows: usize,
    matrix_cols: usize,
    start_at_row: usize,
    end_at_row: usize,
    register_alloc: &RegisterAlloc,
    kind_to_use: VectorKind,
) -> (admissible: bool)
    ensures
        admissible == block_admissible(
            matrix_rows as nat,
            matrix_cols as nat,
            start_at_row as nat,
            end_at_row as nat,
            kind_to_use,
            register_alloc@,
        ),
{
    if !(start_at_row < end_at_row && end_at_row <= matrix_rows) {
        return false;
    }
    let rows = end_at_row - start_at_row;
    let free_count = register_alloc.free_count();
    if rows > free_count && rows - free_count > 1 {
        return false;
    }
    let reserved: usize = if matrix_cols % kind_to_use.f64_width() == 0 {
        1
    } else {
        2
    };
    // A block that needs more registers than are free takes every free one.
    let taken = if rows > free_count || free_count - rows < reserved {
        free_count
    } else {
        rows + reserved
    };
    register_alloc.next_are_below(taken, VECTOR_REGISTERS)
}

/// The address of the element with the given index in the buffer that `base`
/// points at.
fn float64_address(base: ScalarRegister, element: usize) -> (address: SimpleAddress)
    requires
        byte_offset(element as int) <= i32::MAX,
    ensures
        address == element_address(base, element as int),
{
    let layout = ElementLayout::float64();
    SimpleAddress::for_float64(base, (element * layout.size) as i32)
}

/// Acquires the next register as a vector register of tier `kind`.
fn take_register(register_alloc: &mut RegisterAlloc, kind: VectorKind) -> (register: VectorRegister)
    requires
        old(register_alloc)@.len() > 0,
        old(register_alloc)@.last() < VECTOR_REGISTERS,
    ensures
        register == register_at(old(register_alloc)@, kind, 0),
        final(register_alloc)@ == old(register_alloc)@.drop_last(),
        final(register_alloc).registers() == old(register_alloc).registers(),
{
    let index = register_alloc.acquire().unwrap();
    VectorRegister::new(index, kind)
}

/// Acquires one accumulator for each of `rows` rows.
fn take_accumulators(
    register_alloc: &mut RegisterAlloc,
    rows: usize,
    kind: VectorKind,
) -> (accumulators: Vec<VectorRegister>)
    requires
        rows <= old(register_alloc)@.len(),
        next_registers_valid(old(register_alloc)@, rows as nat),
    ensures
        accumulators@ == Seq::new(
            rows as nat,
            |i: int| register_at(old(register_alloc)@, kind, i),
        ),
        final(register_alloc)@ == old(register_alloc)@.take(old(register_alloc)@.len() - rows),
        final(register_alloc).registers() == old(register_alloc).registers(),
{
    let ghost free = register_alloc@;
    let mut accumulators: Vec<VectorRegister> = Vec::new();
    let mut taken: usize = 0;
    while taken < rows
        invariant
            taken <= rows <= free.len(),
            next_registers_valid(free, rows as nat),
            register_alloc@ == free.take(free.len() - taken),
            register_alloc.registers() == old(register_alloc).registers(),
            accumulators@ == Seq::new(taken as nat, |i: int| register_at(free, kind, i)),
        decreases rows - taken,
    {
        assert(register_alloc@.last() == free[free.len() - 1 - taken]);
        let accumulator = take_register(register_alloc, kind);
        accumulators.push(accumulator);
        taken = taken + 1;
    }
    accumulators
}

/// The values that the compiler of one block works with, once the registers
/// of the block are acquired.
struct BlockFrame {
    matrix_rows: usize,
    matrix_cols: usize,
    start_at_row: usize,
    in_matrix_register: ScalarRegister,
    in_vector_register: ScalarRegister,
    out_vector_register: ScalarRegister,
    width: usize,
    target_load: VectorRegister,
    accumulators: Vec<VectorRegister>,
}

impl BlockFrame {
    /// Whether the frame holds the values of `block`, a block inside a matrix
    /// whose buffers can be addressed.
    spec fn holds(&self, block: RowBlock) -> bool {
        &&& shape_addressable(self.matrix_rows as nat, self.matrix_cols as nat)
        &&& block.cols == self.matrix_cols
        &&& block.start_row == self.start_at_row
        &&& block.matrix == self.in_matrix_register
        &&& block.vector == self.in_vector_register
        &&& block.output == self.out_vector_register
        &&& block.width() == self.width
        &&& block.target_load == self.target_load
        &&& block.accumulators == self.accumulators@
        &&& self.start_at_row + self.accumulators@.len() <= self.matrix_rows
    }

    /// The address of the chunk at column `col` of the `vec_idx`-th row of
    /// the block.
    fn matrix_address(
        &self,
        vec_idx: usize,
        col: usize,
        Ghost(block): Ghost<RowBlock>,
    ) -> (address: SimpleAddress)
        requires
            self.holds(block),
            vec_idx < self.accumulators@.len(),
            col < self.matrix_cols,
        ensures
            address == element_address(
                block.matrix,
                spec_row_major_offset(block.cols as int, block.start_row + vec_idx, col as int),
            ),
    {
        let row_idx = self.start_at_row + vec_idx;
        proof {
            lemma_row_major_offset_in_matrix(
                self.matrix_rows as int,
                self.matrix_cols as int,
                row_idx as int,
                col as int,
            );
        }
        let load_from = row_major_offset(self.matrix_rows, self.matrix_cols, row_idx, col);
        float64_address(self.in_matrix_register, load_from)
    }

    /// Emits the instructions that set the accumulators to zero.
    fn emit_zeroing(&self, instructions: &mut Vec<Instruction>, Ghost(block): Ghost<RowBlock>)
        requires
            self.holds(block),
        ensures
            final(instructions)@ == old(instructions)@ + block.zeroing(),
    {
        let mut vec_idx: usize = 0;
        while vec_idx < self.accumulators.len()
            invariant
                vec_idx <= self.accumulators@.len(),
                self.holds(block),
                instructions@ == old(instructions)@ + block.zeros(vec_idx as nat),
            decreases self.accumulators@.len() - vec_idx,
        {
            instructions.push(Instruction::ZeroVec(ZeroVec(self.accumulators[vec_idx])));
            vec_idx = vec_idx + 1;
        }
    }

    /// Emits the whole chunk at column `col`.
    fn emit_chunk(
        &self,
        instructions: &mut Vec<Instruction>,
        col: usize,
        Ghost(block): Ghost<RowBlock>,
    )
        requires
            self.holds(block),
            col < self.matrix_cols,
        ensures
            final(instructions)@ == old(instructions)@ + block.chunk(col as int),
    {
        let load_target = F64VecLoad {
            into: self.target_load,
            address: float64_address(self.in_vector_register, col),
        };
        instructions.push(Instruction::F64VecLoad(load_target));
        let mut vec_idx: usize = 0;
        while vec_idx < self.accumulators.len()
            invariant
                vec_idx <= self.accumulators@.len(),
                self.holds(block),
                col < self.matrix_cols,
                instructions@ == old(instructions)@ + seq![block.vector_load(col as int)]
                    + block.matrix_fmas(col as int, vec_idx as nat),
            decreases self.accumulators@.len() - vec_idx,
        {
            let fma_from_mem = FMMemAdd {
                a: self.target_load,
                b: self.matrix_address(vec_idx, col, Ghost(block)),
                c: self.accumulators[vec_idx],
                dest: FmaDest::C,
            };
            instructions.push(Instruction::FMMemAdd(fma_from_mem));
            vec_idx = vec_idx + 1;
        }
    }

    /// Emits the left-over columns of every row of the block, which begin at
    /// column `col`.
    fn emit_tail(
        &self,
        instructions: &mut Vec<Instruction>,
        col: usize,
        scratch: VectorRegister,
        mask: u32,
        Ghost(block): Ghost<RowBlock>,
    )
        requires
            self.holds(block),
            block.scratch == scratch,
            block.tail_lanes() > 0,
            block.tail_col() == col,
            block.tail_mask() == mask,
        ensures
            final(instructions)@ == old(instructions)@ + block.tail(),
    {
        assert(col < self.matrix_cols) by {
            vstd::arithmetic::div_mod::lemma_fundamental_div_mod(
                self.matrix_cols as int,
                block.width() as int,
            );
            assert(block.width() * block.full_chunks() == block.full_chunks() * block.width())
                by (nonlinear_arith);
        }
        let vector_load = MaskedF64VecLoad {
            load: F64VecLoad {
                into: self.target_load,
                address: float64_address(self.in_vector_register, col),
            },
            mask,
        };
        instructions.push(Instruction::MaskedF64VecLoad(vector_load));
        let mut vec_idx: usize = 0;
        while vec_idx < self.accumulators.len()
            invariant
                vec_idx <= self.accumulators@.len(),
                self.holds(block),
                block.scratch == scratch,
                block.tail_col() == col,
                block.tail_mask() == mask,
                col < self.matrix_cols,
                instructions@ == old(instructions)@ + seq![block.tail_vector_load()]
                    + block.tail_rows(vec_idx as nat),
            decreases self.accumulators@.len() - vec_idx,
        {
            let matrix_load = MaskedF64VecLoad {
                load: F64VecLoad {
                    into: scratch,
                    address: self.matrix_address(vec_idx, col, Ghost(block)),
                },
                mask,
            };
            instructions.push(Instruction::MaskedF64VecLoad(matrix_load));
            let fma = FMAdd {
                a: self.target_load,
                b: scratch,
                c: self.accumulators[vec_idx],
                dest: FmaDest::C,
            };
            instructions.push(Instruction::FMAdd(fma));
            vec_idx = vec_idx + 1;
        }
    }

    /// Emits the instructions that write the results of the block.
    fn emit_finish(&self, instructions: &mut Vec<Instruction>, Ghost(block): Ghost<RowBlock>)
        requires
            self.holds(block),
        ensures
            final(instructions)@ == old(instructions)@ + block.finish_rows(block.rows()),
    {
        let mut vec_idx: usize = 0;
        while vec_idx < self.accumulators.len()
            invariant
                vec_idx <= self.accumulators@.len(),
                self.holds(block),
                instructions@ == old(instructions)@ + block.finish_rows(vec_idx as nat),
            decreases self.accumulators@.len() - vec_idx,
        {
            let accumulator = self.accumulators[vec_idx];
            if self.width > 1 {
                instructions.push(Instruction::F64HorizontalSum(F64HorizontalSum(accumulator)));
            }
            let store = F64ScalarStore {
                from: accumulator,
                address: float64_address(self.out_vector_register, self.start_at_row + vec_idx),
            };
            instructions.push(Instruction::F64ScalarStore(store));
            vec_idx = vec_idx + 1;
        }
    }
}

/// Puts the allocator back to what `snapshot` holds.
///
/// This goes through `scopeguard::guard`. The guard that is made here owns
/// the borrow of the allocator and leaves its scope at once. It is taken on
/// trust that its closure then runs, exactly once and on that allocator, so
/// that the allocator is `snapshot` afterwards.
#[verifier::external_body]
fn restore_at_scope_exit(register_alloc: &mut RegisterAlloc, snapshot: RegisterAlloc)
    ensures
        final(register_alloc)@ == snapshot@,
        final(register_alloc).registers() == snapshot.registers(),
{
    let _scope = scopeguard::guard(
        register_alloc,
        |held: &mut RegisterAlloc| held.restore(snapshot),
    );
}

/// Compiles the block of the rows from `start_at_row` up to `end_at_row` of
/// a row-major matrix of `matrix_rows` by `matrix_cols` elements.
///
/// The three scalar registers hold the addresses of the matrix, of the input
/// vector and of the output. The vector registers come from `register_alloc`:
/// first the register for the input vector, then one accumulator for each
/// row, then, where columns are left over, the scratch register. The
/// allocator is left as it was found, whatever is returned.
///
/// A block may not be asked for that has over one row more than registers
/// are free, and the registers that it takes must name vector registers: see
/// [`block_admissible`]. A shape that cannot be addressed is refused with
/// [`CompileError::AddressOutOfRange`], and a block of such a shape that does
/// not fit the free registers with [`CompileError::NoRegisterAvailable`].
/// Otherwise the instructions of the block are returned, in the order in
/// which they run. Run on the model machine, they compute the block's rows of
/// the product.
pub fn row_major_instruction_list_from(
    matrix_rows: usize,
    matrix_cols: usize,
    start_at_row: usize,
    end_at_row: usize,
    in_matrix_register: ScalarRegister,
    in_vector_register: ScalarRegister,
    out_vector_register: ScalarRegister,
    register_alloc: &mut RegisterAlloc,
    kind_to_use: VectorKind,
) -> (result: Result<Vec<Instruction>, CompileError>)
    requires
        block_admissible(
            matrix_rows as nat,
            matrix_cols as nat,
            start_at_row as nat,
            end_at_row as nat,
            kind_to_use,
            old(register_alloc)@,
        ),
    ensures
        final(register_alloc)@ == old(register_alloc)@,
        final(register_alloc).free_set() == old(register_alloc).free_set(),
        final(register_alloc).registers() == old(register_alloc).registers(),
        ({
            let block = block_of(
                matrix_cols as nat,
                start_at_row as nat,
                end_at_row as nat,
                in_matrix_register,
                in_vector_register,
                out_vector_register,
                kind_to_use,
                old(register_alloc)@,
            );
            match result {
                Ok(instructions) => {
                    &&& shape_addressable(matrix_rows as nat, matrix_cols as nat)
                    &&& block.registers_needed() <= old(register_alloc)@.len()
                    &&& instructions@ == block.instructions()
                    &&& computes_rows(block, instructions@, matrix_rows as nat)
                },
                Err(CompileError::AddressOutOfRange) => !shape_addressable(
                    matrix_rows as nat,
                    matrix_cols as nat,
                ),
                Err(CompileError::NoRegisterAvailable) => {
                    &&& shape_addressable(matrix_rows as nat, matrix_cols as nat)
                    &&& block.registers_needed() > old(register_alloc)@.len()
                },
            }
        }),
{
    let ghost free = register_alloc@;
    let ghost block = block_of(
        matrix_cols as nat,
        start_at_row as nat,
        end_at_row as nat,
        in_matrix_register,
        in_vector_register,
        out_vector_register,
        kind_to_use,
        free,
    );
    if !is_shape_addressable(matrix_rows, matrix_cols) {
        return Err(CompileError::AddressOutOfRange);
    }
    let width = kind_to_use.f64_width();
    let rows = end_at_row - start_at_row;
    let tail_lanes = matrix_cols % width;
    let needed = if tail_lanes == 0 {
        rows + 1
    } else {
        rows + 2
    };
    if register_alloc.free_count() < needed {
        return Err(CompileError::NoRegisterAvailable);
    }
    let starting_register_set = register_alloc.clone();

    let target_load = take_register(register_alloc, kind_to_use);
    assert(next_registers_valid(register_alloc@, rows as nat)) by {
        let left = register_alloc@;
        assert forall|depth: int| 0 <= depth < rows implies #[trigger] left[left.len() - 1 - depth]
            < VECTOR_REGISTERS by {
            assert(left[left.len() - 1 - depth] == free[free.len() - 1 - (depth + 1)]);
        }
    }
    let accumulators = take_accumulators(register_alloc, rows, kind_to_use);
    assert(accumulators@ == block.accumulators);
    let frame = BlockFrame {
        matrix_rows,
        matrix_cols,
        start_at_row,
        in_matrix_register,
        in_vector_register,
        out_vector_register,
        width,
        target_load,
        accumulators,
    };

    // First zero everything out
    let mut instructions: Vec<Instruction> = Vec::new();
    frame.emit_zeroing(&mut instructions, Ghost(block));

    let mut current_col: usize = 0;
    let ghost mut chunks_done: nat = 0;
    assert(0 * width == 0);
    while current_col + width <= matrix_cols
        invariant
            frame.holds(block),
            frame.matrix_cols == matrix_cols,
            frame.width == width,
            current_col == chunks_done * width,
            current_col <= matrix_cols,
            instructions@ == block.zeroing() + block.chunks(chunks_done),
        decreases matrix_cols - current_col,
    {
        frame.emit_chunk(&mut instructions, current_col, Ghost(block));
        proof {
            assert((chunks_done + 1) * width == current_col + width) by (nonlinear_arith)
                requires
                    current_col == chunks_done * width,
            ;
            chunks_done = chunks_done + 1;
        }
        current_col += width;
    }
    proof {
        vstd::arithmetic::div_mod::lemma_fundamental_div_mod_converse(
            matrix_cols as int,
            width as int,
            chunks_done as int,
            matrix_cols - current_col,
        );
    }

    if tail_lanes != 0 {
        let scratch = take_register(register_alloc, kind_to_use);
        let mask = lanes_mask(tail_lanes as u32);
        frame.emit_tail(&mut instructions, current_col, scratch, mask, Ghost(block));
    }
    frame.emit_finish(&mut instructions, Ghost(block));

    restore_at_scope_exit(register_alloc, starting_register_set);
    proof {
        lemma_block_registers_apart(
            matrix_cols as nat,
            start_at_row as nat,
            end_at_row as nat,
            in_matrix_register,
            in_vector_register,
            out_vector_register,
            kind_to_use,
            free,
        );
        lemma_block_computes_rows(block, matrix_rows as nat);
    }
    Ok(instructions)
}

/// The number of registers that every block of a kernel takes besides its
/// accumulators: one for the input vector, and one more where columns are
/// left over.
pub open spec fn registers_reserved(cols: nat, kind: VectorKind) -> nat {
    if cols % kind.lanes() == 0 {
        1
    } else {
        2
    }
}

/// The number of rows in the blocks of a kernel for which `free_count`
/// registers are free: as many as accumulators are left. The last block may
/// have fewer.
pub open spec fn block_rows(free_count: nat, cols: nat, kind: VectorKind) -> nat {
    if free_count >= registers_reserved(cols, kind) {
        (free_count - registers_reserved(cols, kind)) as nat
    } else {
        0
    }
}

/// The number of registers that a kernel of `rows` rows takes.
pub open spec fn registers_used(rows: nat, cols: nat, kind: VectorKind, free_count: nat) -> nat {
    if rows == 0 || block_rows(free_count, cols, kind) == 0 {
        0
    } else if rows < block_rows(free_count, cols, kind) {
        rows + registers_reserved(cols, kind)
    } else {
        free_count
    }
}

/// The row behind the block that starts at `from_row`.
pub open spec fn block_end(rows: nat, from_row: nat, block_rows: nat) -> nat {
    if from_row + block_rows < rows {
        from_row + block_rows
    } else {
        rows
    }
}

/// The instructions of the rows from `from_row` on, in blocks of
/// `block_rows` rows: those of one block after those of another, by rising
/// row. Every block works in the registers that it acquires from `free`.
pub open spec fn kernel_instructions_from(
    rows: nat,
    cols: nat,
    matrix: ScalarRegister,
    vector: ScalarRegister,
    output: ScalarRegister,
    kind: VectorKind,
    free: Seq<u8>,
    block_rows: nat,
    from_row: nat,
) -> Seq<Instruction>
    decreases rows - from_row,
{
    if from_row >= rows || block_rows == 0 {
        Seq::empty()
    } else {
        let end_row = block_end(rows, from_row, block_rows);
        block_of(cols, from_row, end_row, matrix, vector, output, kind, free).instructions()
            + kernel_instructions_from(
            rows,
            cols,
            matrix,
            vector,
            output,
            kind,
            free,
            block_rows,
            end_row,
        )
    }
}

/// The instructions of the kernel for a matrix of `rows` by `cols` elements.
pub open spec fn kernel_instructions(
    rows: nat,
    cols: nat,
    matrix: ScalarRegister,
    vector: ScalarRegister,
    output: ScalarRegister,
    kind: VectorKind,
    free: Seq<u8>,
) -> Seq<Instruction> {
    kernel_instructions_from(
        rows,
        cols,
        matrix,
        vector,
        output,
        kind,
        free,
        block_rows(free.len(), cols, kind),
        0,
    )
}

/// Whether the kernel for a matrix of `rows` by `cols` elements may be asked
/// for: the registers that it takes name vector registers.
pub open spec fn kernel_admissible(rows: nat, cols: nat, kind: VectorKind, free: Seq<u8>) -> bool {
    next_registers_valid(free, registers_used(rows, cols, kind, free.len()))
}

/// Whether the kernel for a matrix of `matrix_rows` by `matrix_cols` elements
/// may be asked for: see [`kernel_admissible`].
pub fn is_kernel_admissible(
    matrix_rows: usize,
    matrix_cols: usize,
    register_alloc: &RegisterAlloc,
    kind_to_use: VectorKind,
) -> (admissible: bool)
    ensures
        admissible == kernel_admissible(
            matrix_rows as nat,
            matrix_cols as nat,
            kind_to_use,
            register_alloc@,
        ),
{
    let reserved: usize = if matrix_cols % kind_to_use.f64_width() == 0 {
        1
    } else {
        2
    };
    let free_count = register_alloc.free_count();
    let taken = if matrix_rows == 0 || free_count <= reserved {
        0
    } else if matrix_rows < free_count - reserved {
        matrix_rows + reserved
    } else {
        free_count
    };
    register_alloc.next_are_below(taken, VECTOR_REGISTERS)
}

/// Compiles the kernel that multiplies a row-major matrix of `matrix_rows`
/// by `matrix_cols` elements by a vector.
///
/// The rows are taken in blocks of as many rows as accumulators can be had
/// from `register_alloc`, by rising row, and the instructions of the blocks
/// follow one another in that order. The allocator is left as it was found.
/// The three scalar registers hold the addresses of the matrix, of the input
/// vector and of the output. The registers that the kernel takes must name
/// vector registers.
///
/// A shape that cannot be addressed is refused with
/// [`CompileError::AddressOutOfRange`]. A matrix without rows has the empty
/// kernel. Otherwise a kernel needs one register for the input vector, one
/// for an accumulator, and one more where columns are left over behind the
/// whole chunks: with fewer it is refused with
/// [`CompileError::NoRegisterAvailable`]. Run on the model machine, the
/// instructions that are returned compute the product.
pub fn row_major_instruction_list(
    matrix_rows: usize,
    matrix_cols: usize,
    in_matrix_register: ScalarRegister,
    in_vector_register: ScalarRegister,
    out_vector_register: ScalarRegister,
    register_alloc: &mut RegisterAlloc,
    kind_to_use: VectorKind,
) -> (result: Result<Vec<Instruction>, CompileError>)
    requires
        kernel_admissible(
            matrix_rows as nat,
            matrix_cols as nat,
            kind_to_use,
            old(register_alloc)@,
        ),
    ensures
        final(register_alloc)@ == old(register_alloc)@,
        final(register_alloc).free_set() == old(register_alloc).free_set(),
        final(register_alloc).registers() == old(register_alloc).registers(),
        match result {
            Ok(instructions) => {
                &&& shape_addressable(matrix_rows as nat, matrix_cols as nat)
                &&& matrix_rows == 0 || block_rows(
                    old(register_alloc)@.len(),
                    matrix_cols as nat,
                    kind_to_use,
                ) > 0
                &&& instructions@ == kernel_instructions(
                    matrix_rows as nat,
                    matrix_cols as nat,
                    in_matrix_register,
                    in_vector_register,
                    out_vector_register,
                    kind_to_use,
                    old(register_alloc)@,
                )
                &&& computes_product(
                    matrix_rows as nat,
                    matrix_cols as nat,
                    in_matrix_register,
                    in_vector_register,
                    out_vector_register,
                    instructions@,
                )
            },
            Err(CompileError::AddressOutOfRange) => !shape_addressable(
                matrix_rows as nat,
                matrix_cols as nat,
            ),
            Err(CompileError::NoRegisterAvailable) => {
                &&& shape_addressable(matrix_rows as nat, matrix_cols as nat)
                &&& matrix_rows > 0
                &&& block_rows(old(register_alloc)@.len(), matrix_cols as nat, kind_to_use) == 0
            },
        },
{
    let ghost free = register_alloc@;
    let ghost registers = register_alloc.registers();
    if !is_shape_addressable(matrix_rows, matrix_cols) {
        return Err(CompileError::AddressOutOfRange);
    }
    let mut instructions: Vec<Instruction> = Vec::new();
    let free_count = register_alloc.free_count();
    proof {
        if matrix_rows == 0 || block_rows(free.len(), matrix_cols as nat, kind_to_use) > 0 {
            lemma_kernel_computes_product(
                matrix_rows as nat,
                matrix_cols as nat,
                in_matrix_register,
                in_vector_register,
                out_vector_register,
                kind_to_use,
                free,
            );
        }
    }
    if matrix_rows == 0 {
        return Ok(instructions);
    }
    let width = kind_to_use.f64_width();
    let reserved: usize = if matrix_cols % width == 0 {
        1
    } else {
        2
    };
    if free_count <= reserved {
        return Err(CompileError::NoRegisterAvailable);
    }
    let rows_per_block = free_count - reserved;
    let mut start_at_row: usize = 0;
    while start_at_row < matrix_rows
        invariant
            start_at_row <= matrix_rows,
            shape_addressable(matrix_rows as nat, matrix_cols as nat),
            register_alloc@ == free,
            register_alloc.registers() == registers,
            reserved == registers_reserved(matrix_cols as nat, kind_to_use),
            rows_per_block == block_rows(free.len(), matrix_cols as nat, kind_to_use),
            rows_per_block > 0,
            rows_per_block + reserved == free.len(),
            next_registers_valid(
                free,
                registers_used(matrix_rows as nat, matrix_cols as nat, kind_to_use, free.len()),
            ),
            instructions@ + kernel_instructions_from(
                matrix_rows as nat,
                matrix_cols as nat,
                in_matrix_register,
                in_vector_register,
                out_vector_register,
                kind_to_use,
                free,
                rows_per_block as nat,
                start_at_row as nat,
            ) == kernel_instructions(
                matrix_rows as nat,
                matrix_cols as nat,
                in_matrix_register,
                in_vector_register,
                out_vector_register,
                kind_to_use,
                free,
            ),
        decreases matrix_rows - start_at_row,
    {
        let end_at_row = if matrix_rows - start_at_row > rows_per_block {
            start_at_row + rows_per_block
        } else {
            matrix_rows
        };
        match row_major_instruction_list_from(
            matrix_rows,
            matrix_cols,
            start_at_row,
            end_at_row,
            in_matrix_register,
            in_vector_register,
            out_vector_register,
            register_alloc,
            kind_to_use,
        ) {
            Ok(mut block) => {
                instructions.append(&mut block);
            },
            Err(error) => {
                return Err(error);
            },
        }
        start_at_row = end_at_row;
    }
    Ok(instructions)
}

/// Whether buffers of the given lengths are those of a product of the shape
/// `shape`, rows first: the matrix has as many elements as the shape has,
/// and the input vector and the output both have one for each column.
///
/// The output is measured by the columns, as the input vector is, while a
/// kernel writes one element for each row. For a shape with more rows than
/// columns, an output that only meets this check is too short for the kernel.
pub open spec fn buffers_match(
    shape: (usize, usize),
    row_major_len: usize,
    vector_len: usize,
    into_len: usize,
) -> bool {
    &&& row_major_len == shape.0 * shape.1
    &&& vector_len == shape.1
    &&& into_len == shape.1
}

/// An input vector that has not one element for each column does not match,
/// whatever the lengths of the other buffers.
pub proof fn lemma_wrong_vector_length_does_not_match(
    shape: (usize, usize),
    row_major_len: usize,
    vector_len: usize,
    into_len: usize,
)
    requires
        vector_len != shape.1,
    ensures
        !buffers_match(shape, row_major_len, vector_len, into_len),
{
}

/// Whether a kernel that was compiled for `shape` may be run on buffers of
/// the given lengths: see [`buffers_match`].
pub fn multiply_lengths_match(
    shape: (usize, usize),
    row_major_len: usize,
    vector_len: usize,
    into_len: usize,
) -> (matches: bool)
    ensures
        matches == buffers_match(shape, row_major_len, vector_len, into_len),
{
    match shape.0.checked_mul(shape.1) {
        Some(elements) => row_major_len == elements && vector_len == shape.1 && into_len
            == shape.1,
        None => false,
    }
}

} // verus!

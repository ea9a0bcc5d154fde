//! What holds of the instructions of every block: where the accumulators are
//! set to zero, which registers a block works in, and which element of the
//! matrix each multiply-add reads.

use vstd::prelude::*;
use crate::instructions::{
    FmaDest, Instruction, ScalarRegister, VectorKind, VectorRegister, ZeroVec,
};
use crate::row_major::{
    block_of, lemma_row_major_offset_in_matrix, shape_addressable, RowBlock,
};

verus! {

/// Whether none of the instructions sets a register to zero.
pub open spec fn zero_free(instructions: Seq<Instruction>) -> bool {
    forall|k: int| 0 <= k < instructions.len() ==> !(#[trigger] instructions[k] is ZeroVec)
}

proof fn lemma_chunks_zero_free(block: RowBlock, count: nat)
    ensures
        zero_free(block.chunks(count)),
    decreases count,
{
    if count > 0 {
        lemma_chunks_zero_free(block, (count - 1) as nat);
    }
}

proof fn lemma_tail_rows_zero_free(block: RowBlock, count: nat)
    ensures
        zero_free(block.tail_rows(count)),
    decreases count,
{
    if count > 0 {
        lemma_tail_rows_zero_free(block, (count - 1) as nat);
    }
}

proof fn lemma_finish_rows_zero_free(block: RowBlock, count: nat)
    ensures
        zero_free(block.finish_rows(count)),
    decreases count,
{
    if count > 0 {
        lemma_finish_rows_zero_free(block, (count - 1) as nat);
    }
}

/// The instructions of a block begin with one instruction for each row, in
/// row order, that sets the row's accumulator to zero, and no instruction
/// behind these sets a register to zero.
pub proof fn lemma_zeroes_lead(block: RowBlock)
    ensures
        block.rows() <= block.instructions().len(),
        forall|i: int|
            0 <= i < block.rows() ==> #[trigger] block.instructions()[i] == Instruction::ZeroVec(
                ZeroVec(block.accumulators[i]),
            ),
        forall|k: int|
            0 <= k < block.instructions().len() ==> (#[trigger] block.instructions()[k] is ZeroVec
                <==> k < block.rows()),
{
    lemma_chunks_zero_free(block, block.full_chunks());
    lemma_tail_rows_zero_free(block, block.rows());
    lemma_finish_rows_zero_free(block, block.rows());
}

/// Every row of a block has an accumulator of its own, and each accumulator
/// is set to zero exactly once.
///
/// Take a block that fits the free registers of an allocator in which no
/// register is free twice. It has as many accumulators as rows, and no two
/// rows share one. Its instructions begin with one instruction for each row,
/// in row order, that sets the row's accumulator to zero, and no instruction
/// behind these sets a register to zero.
pub proof fn lemma_one_zero_per_accumulator(
    cols: nat,
    start_row: nat,
    end_row: nat,
    matrix: ScalarRegister,
    vector: ScalarRegister,
    output: ScalarRegister,
    kind: VectorKind,
    free: Seq<u8>,
)
    requires
        start_row < end_row,
        free.no_duplicates(),
        block_of(cols, start_row, end_row, matrix, vector, output, kind, free).registers_needed()
            <= free.len(),
    ensures
        ({
            let block = block_of(cols, start_row, end_row, matrix, vector, output, kind, free);
            let instructions = block.instructions();
            &&& block.rows() == end_row - start_row
            &&& block.accumulators.no_duplicates()
            &&& block.rows() <= instructions.len()
            &&& forall|i: int|
                0 <= i < block.rows() ==> #[trigger] instructions[i] == Instruction::ZeroVec(
                    ZeroVec(block.accumulators[i]),
                )
            &&& forall|k: int|
                0 <= k < instructions.len() ==> (#[trigger] instructions[k] is ZeroVec <==> k
                    < block.rows())
        }),
{
    broadcast use VectorRegister::lemma_spec_new;

    let block = block_of(cols, start_row, end_row, matrix, vector, output, kind, free);
    lemma_zeroes_lead(block);
}

/// Whether `instruction` is the multiply-add for the `i`-th row of the block
/// and the `chunk`-th whole chunk of columns: it multiplies the register of
/// the input vector by the matrix at the byte offset of that row's element
/// in the chunk's first column, and adds to the row's accumulator in place.
pub open spec fn is_fma_of(block: RowBlock, instruction: Instruction, i: int, chunk: int) -> bool {
    &&& 0 <= i < block.rows()
    &&& 0 <= chunk < block.full_chunks()
    &&& instruction matches Instruction::FMMemAdd(fma)
    &&& fma.a == block.target_load
    &&& fma.b.base_register == block.matrix
    &&& fma.b.offset == (block.cols * (block.start_row + i) + chunk * block.width()) * 8
    &&& fma.c == block.accumulators[i]
    &&& fma.dest == FmaDest::C
}

/// Whether every multiply-add with a memory operand among the instructions
/// is that of a row and a whole chunk of the block.
pub open spec fn fmas_of_block(block: RowBlock, instructions: Seq<Instruction>) -> bool {
    forall|k: int|
        0 <= k < instructions.len() && (#[trigger] instructions[k] is FMMemAdd) ==> exists|
            i: int,
            chunk: int,
        |
            is_fma_of(block, instructions[k], i, chunk)
}

proof fn lemma_chunk_offsets(block: RowBlock, matrix_rows: nat, chunk: nat)
    requires
        shape_addressable(matrix_rows, block.cols),
        block.start_row + block.rows() <= matrix_rows,
        chunk < block.full_chunks(),
    ensures
        chunk * block.width() + block.width() <= block.cols,
        forall|i: int|
            0 <= i < block.rows() ==> is_fma_of(
                block,
                #[trigger] block.matrix_fma(i, (chunk * block.width()) as int),
                i,
                chunk as int,
            ),
{
    let width = block.width();
    let col = chunk * width;
    assert(col + width <= block.cols) by {
        vstd::arithmetic::div_mod::lemma_fundamental_div_mod(block.cols as int, width as int);
        assert(chunk * width + width <= (block.cols / width) * width) by (nonlinear_arith)
            requires
                chunk < block.cols / width,
                width > 0,
        ;
        assert(width * (block.cols / width) == (block.cols / width) * width) by (nonlinear_arith);
    }
    assert forall|i: int| 0 <= i < block.rows() implies is_fma_of(
        block,
        #[trigger] block.matrix_fma(i, col as int),
        i,
        chunk as int,
    ) by {
        lemma_row_major_offset_in_matrix(
            matrix_rows as int,
            block.cols as int,
            block.start_row + i,
            col as int,
        );
    }
}

proof fn lemma_chunks_fmas(block: RowBlock, matrix_rows: nat, count: nat)
    requires
        shape_addressable(matrix_rows, block.cols),
        block.start_row + block.rows() <= matrix_rows,
        count <= block.full_chunks(),
    ensures
        fmas_of_block(block, block.chunks(count)),
    decreases count,
{
    if count > 0 {
        lemma_chunks_fmas(block, matrix_rows, (count - 1) as nat);
        lemma_chunk_offsets(block, matrix_rows, (count - 1) as nat);
    }
}

/// Whether none of the instructions is a multiply-add with a memory operand.
pub open spec fn memory_fma_free(instructions: Seq<Instruction>) -> bool {
    forall|k: int| 0 <= k < instructions.len() ==> !(#[trigger] instructions[k] is FMMemAdd)
}

proof fn lemma_tail_rows_memory_fma_free(block: RowBlock, count: nat)
    ensures
        memory_fma_free(block.tail_rows(count)),
    decreases count,
{
    if count > 0 {
        lemma_tail_rows_memory_fma_free(block, (count - 1) as nat);
    }
}

proof fn lemma_finish_rows_memory_fma_free(block: RowBlock, count: nat)
    ensures
        memory_fma_free(block.finish_rows(count)),
    decreases count,
{
    if count > 0 {
        lemma_finish_rows_memory_fma_free(block, (count - 1) as nat);
    }
}

/// In a block inside a matrix whose buffers can be addressed, every
/// multiply-add with a memory operand belongs to one row of the block and one
/// whole chunk of columns, and the byte offset that it reads the matrix at is
/// eight times the row-major index of that row's element in the chunk's first
/// column.
pub proof fn lemma_fma_offsets(block: RowBlock, matrix_rows: nat)
    requires
        shape_addressable(matrix_rows, block.cols),
        block.start_row + block.rows() <= matrix_rows,
    ensures
        fmas_of_block(block, block.instructions()),
{
    lemma_chunks_fmas(block, matrix_rows, block.full_chunks());
    lemma_tail_rows_memory_fma_free(block, block.rows());
    lemma_finish_rows_memory_fma_free(block, block.rows());
}

/// Every whole chunk of every row of a block has its multiply-add among the
/// instructions of the block.
pub proof fn lemma_every_chunk_has_its_fma(block: RowBlock, i: int, chunk: int)
    requires
        0 <= i < block.rows(),
        0 <= chunk < block.full_chunks(),
    ensures
        block.instructions().contains(block.matrix_fma(i, chunk * block.width())),
{
    lemma_chunks_contain(block, block.full_chunks(), i, chunk);
    let chunks = block.chunks(block.full_chunks());
    let k = choose|k: int|
        0 <= k < chunks.len() && chunks[k] == block.matrix_fma(i, chunk * block.width());
    assert(block.instructions()[block.rows() + k] == chunks[k]);
}

proof fn lemma_chunks_contain(block: RowBlock, count: nat, i: int, chunk: int)
    requires
        0 <= i < block.rows(),
        0 <= chunk < count,
    ensures
        block.chunks(count).contains(block.matrix_fma(i, chunk * block.width())),
    decreases count,
{
    let before = block.chunks((count - 1) as nat);
    let last = block.chunk((count - 1) * block.width());
    if chunk == count - 1 {
        assert(block.chunks(count)[before.len() + i + 1] == last[i + 1]);
    } else {
        lemma_chunks_contain(block, (count - 1) as nat, i, chunk);
        let k = choose|k: int|
            0 <= k < before.len() && before[k] == block.matrix_fma(i, chunk * block.width());
        assert(block.chunks(count)[k] == before[k]);
    }
}

} // verus!

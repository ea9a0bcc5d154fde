//! What a kernel computes: run on the model machine, its instructions leave
//! in each element of the output the product of a row of the matrix with the
//! input vector.

use vstd::prelude::*;
use crate::instructions::{
    ElementLayout, Instruction, ScalarRegister, VectorKind, VectorRegister, VECTOR_REGISTERS,
};
use crate::machine::{
    first_element, lane_selected, lane_sum, lemma_summed_lanes, loaded, loaded_under_mask,
    multiplied_and_added, zero_lanes, Machine,
};
use crate::row_major::{
    block_end, block_of, block_rows, buffers_match, byte_offset, element_address,
    kernel_instructions, kernel_instructions_from, lemma_row_major_offset_in_matrix,
    low_lanes_mask, next_registers_valid, registers_used, shape_addressable, RowBlock,
};

verus! {

/// The product of the first `count` elements of row `row` of a row-major
/// matrix of `cols` columns with the first `count` elements of the vector.
pub open spec fn row_product(
    matrix: Seq<int>,
    vector: Seq<int>,
    cols: int,
    row: int,
    count: nat,
) -> int
    decreases count,
{
    if count == 0 {
        0
    } else {
        row_product(matrix, vector, cols, row, (count - 1) as nat) + matrix[cols * row + (count
            - 1)] * vector[count - 1]
    }
}

/// The products of the first `width` lanes of `a` and `b`, lane by lane.
spec fn products(a: Seq<int>, b: Seq<int>, width: nat) -> Seq<int> {
    Seq::new(width, |lane: int| a[lane] * b[lane])
}

/// Lanes of zero sum up to zero.
proof fn lemma_sum_of_zero_lanes(width: nat)
    ensures
        lane_sum(zero_lanes(width)) == 0,
    decreases width,
{
    if width > 0 {
        lemma_sum_of_zero_lanes((width - 1) as nat);
        assert(zero_lanes(width).drop_last() == zero_lanes((width - 1) as nat));
    }
}

/// A single lane is its own sum.
proof fn lemma_sum_of_one_lane(lanes: Seq<int>)
    requires
        lanes.len() == 1,
    ensures
        lane_sum(lanes) == lanes[0],
{
    assert(lane_sum(lanes.drop_last()) == 0);
}

/// A multiply-add adds the sum of the products to the sum of the lanes that
/// it adds to.
proof fn lemma_sum_of_multiplied_and_added(a: Seq<int>, b: Seq<int>, c: Seq<int>)
    ensures
        lane_sum(multiplied_and_added(a, b, c)) == lane_sum(products(a, b, c.len())) + lane_sum(c),
    decreases c.len(),
{
    if c.len() > 0 {
        lemma_sum_of_multiplied_and_added(a, b, c.drop_last());
        assert(multiplied_and_added(a, b, c).drop_last() == multiplied_and_added(
            a,
            b,
            c.drop_last(),
        ));
        assert(products(a, b, c.len()).drop_last() == products(a, b, c.drop_last().len()));
    }
}

/// The products of `width` elements of the vector from column `col` on with
/// the elements of a row in the same columns sum up to what these columns
/// add to the product of the row.
proof fn lemma_sum_of_loaded_products(
    matrix: Seq<int>,
    vector: Seq<int>,
    cols: int,
    row: int,
    col: nat,
    width: nat,
)
    requires
        col + width <= vector.len(),
        0 <= cols * row + col,
        cols * row + col + width <= matrix.len(),
    ensures
        lane_sum(
            products(
                loaded(vector, col as int, width),
                loaded(matrix, cols * row + col, width),
                width,
            ),
        ) == row_product(matrix, vector, cols, row, col + width) - row_product(
            matrix,
            vector,
            cols,
            row,
            col,
        ),
    decreases width,
{
    if width > 0 {
        let shorter = (width - 1) as nat;
        lemma_sum_of_loaded_products(matrix, vector, cols, row, col, shorter);
        assert(products(
            loaded(vector, col as int, width),
            loaded(matrix, cols * row + col, width),
            width,
        ).drop_last() == products(
            loaded(vector, col as int, shorter),
            loaded(matrix, cols * row + col, shorter),
            shorter,
        ));
        let all = products(
            loaded(vector, col as int, width),
            loaded(matrix, cols * row + col, width),
            width,
        );
        let at: int = (col + shorter) as int;
        let from_vector = vector[at];
        let from_matrix = matrix[cols * row + at];
        assert(all.last() == from_vector * from_matrix);
        assert(cols * row + ((col + width) - 1) == cols * row + at);
        assert(row_product(matrix, vector, cols, row, col + width) == row_product(
            matrix,
            vector,
            cols,
            row,
            col + shorter,
        ) + from_matrix * from_vector);
        assert(from_vector * from_matrix == from_matrix * from_vector) by (nonlinear_arith);
    } else {
        assert(products(
            loaded(vector, col as int, width),
            loaded(matrix, cols * row + col, width),
            width,
        ).len() == 0);
    }
}

/// The mask of the lowest `lanes` lanes selects just these.
pub proof fn lemma_low_lanes_selected(lanes: u32, lane: int)
    requires
        lanes < 32,
        0 <= lane < 32,
    ensures
        lane_selected(low_lanes_mask(lanes), lane) <==> lane < lanes,
{
    let at = lane as u32;
    assert(((!(0xffff_ffffu32 << lanes)) >> at) & 1 == 1 <==> at < lanes) by (bit_vector)
        requires
            lanes < 32,
            at < 32,
    ;
}

/// Loaded under a mask of the lowest `kept` lanes, the products of `width`
/// elements of the vector from column `col` on with the elements of a row in
/// the same columns sum up to what the first `kept` of these columns add to
/// the product of the row.
proof fn lemma_sum_of_masked_products(
    matrix: Seq<int>,
    vector: Seq<int>,
    cols: int,
    row: int,
    col: nat,
    width: nat,
    kept: nat,
    mask: u32,
)
    requires
        kept <= width,
        forall|lane: int| 0 <= lane < width ==> (lane_selected(mask, lane) <==> lane < kept),
        col + kept <= vector.len(),
        0 <= cols * row + col,
        cols * row + col + kept <= matrix.len(),
    ensures
        lane_sum(
            products(
                loaded_under_mask(vector, col as int, width, mask),
                loaded_under_mask(matrix, cols * row + col, width, mask),
                width,
            ),
        ) == row_product(matrix, vector, cols, row, col + kept) - row_product(
            matrix,
            vector,
            cols,
            row,
            col,
        ),
    decreases width,
{
    let masked = products(
        loaded_under_mask(vector, col as int, width, mask),
        loaded_under_mask(matrix, cols * row + col, width, mask),
        width,
    );
    if width == kept {
        lemma_sum_of_loaded_products(matrix, vector, cols, row, col, width);
        assert(masked == products(
            loaded(vector, col as int, width),
            loaded(matrix, cols * row + col, width),
            width,
        ));
    } else {
        let shorter = (width - 1) as nat;
        lemma_sum_of_masked_products(matrix, vector, cols, row, col, shorter, kept, mask);
        assert(masked.drop_last() == products(
            loaded_under_mask(vector, col as int, shorter, mask),
            loaded_under_mask(matrix, cols * row + col, shorter, mask),
            shorter,
        ));
        assert(!lane_selected(mask, width - 1));
        assert(loaded_under_mask(vector, col as int, width, mask)[width - 1] == 0);
        assert(loaded_under_mask(matrix, cols * row + col, width, mask)[width - 1] == 0);
        assert(masked.last() == 0int * 0int);
    }
}

/// Whether the registers of a block can be told apart and have the block's
/// width: each is a vector register of the block's tier, and no two of the
/// register of the input vector, the accumulators and, where columns are
/// left over, the scratch register have the same index.
pub open spec fn registers_apart(block: RowBlock) -> bool {
    &&& block.target_load.is_valid()
    &&& block.target_load.spec_kind() == block.kind
    &&& forall|i: int|
        0 <= i < block.rows() ==> {
            &&& (#[trigger] block.accumulators[i]).is_valid()
            &&& block.accumulators[i].spec_kind() == block.kind
            &&& block.accumulators[i].spec_index() != block.target_load.spec_index()
        }
    &&& forall|i: int, j: int|
        0 <= i < j < block.rows() ==> (#[trigger] block.accumulators[i]).spec_index() != (
        #[trigger] block.accumulators[j]).spec_index()
    &&& block.tail_lanes() > 0 ==> {
        &&& block.scratch.is_valid()
        &&& block.scratch.spec_kind() == block.kind
        &&& block.scratch.spec_index() != block.target_load.spec_index()
        &&& forall|i: int|
            0 <= i < block.rows() ==> (#[trigger] block.accumulators[i]).spec_index()
                != block.scratch.spec_index()
    }
}

/// Whether the buffers of a machine are those of a product of `rows` by
/// `cols` elements: the three scalar registers exist, the output is neither
/// the matrix nor the input vector, the shape can be addressed, and each
/// buffer has at least the elements of the shape, the output one for each
/// row.
pub open spec fn product_fits(
    rows: nat,
    cols: nat,
    matrix: ScalarRegister,
    vector: ScalarRegister,
    output: ScalarRegister,
    machine: Machine,
) -> bool {
    &&& machine.well_formed()
    &&& matrix.is_valid()
    &&& vector.is_valid()
    &&& output.is_valid()
    &&& output.spec_index() != matrix.spec_index()
    &&& output.spec_index() != vector.spec_index()
    &&& shape_addressable(rows, cols)
    &&& machine.buffer(matrix).len() >= rows * cols
    &&& machine.buffer(vector).len() >= cols
    &&& machine.buffer(output).len() >= rows
}

/// Whether the buffers of a machine are those of a block inside a matrix of
/// `matrix_rows` rows.
pub open spec fn buffers_fit(block: RowBlock, machine: Machine, matrix_rows: nat) -> bool {
    &&& product_fits(matrix_rows, block.cols, block.matrix, block.vector, block.output, machine)
    &&& block.start_row + block.rows() <= matrix_rows
}

/// Whether the accumulator of the `i`-th row of the block holds lanes that
/// sum up to the product of the row's first `count` columns.
spec fn row_summed(block: RowBlock, machine: Machine, start: Machine, i: int, count: nat) -> bool {
    &&& machine.lanes(block.accumulators[i]).len() == block.width()
    &&& lane_sum(machine.lanes(block.accumulators[i])) == row_product(
        start.buffer(block.matrix),
        start.buffer(block.vector),
        block.cols as int,
        block.start_row + i,
        count,
    )
}

/// Whether the buffers are as at the start, the rows below `split` are summed
/// over their first `ahead` columns and the others over their first `behind`
/// columns.
spec fn rows_summed(
    block: RowBlock,
    machine: Machine,
    start: Machine,
    split: int,
    ahead: nat,
    behind: nat,
) -> bool {
    &&& machine.well_formed()
    &&& machine.buffers == start.buffers
    &&& forall|i: int|
        0 <= i < split && i < block.rows() ==> #[trigger] row_summed(
            block,
            machine,
            start,
            i,
            ahead,
        )
    &&& forall|i: int|
        split <= i < block.rows() && 0 <= i ==> #[trigger] row_summed(
            block,
            machine,
            start,
            i,
            behind,
        )
}

proof fn lemma_element_address(base: ScalarRegister, element: int)
    requires
        0 <= byte_offset(element) <= i32::MAX,
    ensures
        first_element(element_address(base, element)) == element,
        element_address(base, element).offset as int % 8 == 0,
        element_address(base, element).layout == ElementLayout::spec_float64(),
        element_address(base, element).base_register == base,
{
}

proof fn lemma_run_one(machine: Machine, instruction: Instruction)
    ensures
        machine.can_run_all(seq![instruction]) == machine.can_run(instruction),
        machine.after_all(seq![instruction]) == machine.after(instruction),
{
    assert(seq![instruction] == Seq::<Instruction>::empty().push(instruction));
    machine.lemma_run_push(Seq::empty(), instruction);
}

proof fn lemma_run_zeros(block: RowBlock, machine: Machine, count: nat)
    requires
        registers_apart(block),
        machine.well_formed(),
        count <= block.rows(),
    ensures
        machine.can_run_all(block.zeros(count)),
        machine.after_all(block.zeros(count)).well_formed(),
        machine.after_all(block.zeros(count)).buffers == machine.buffers,
        forall|i: int|
            0 <= i < count ==> machine.after_all(block.zeros(count)).lanes(
                #[trigger] block.accumulators[i],
            ) == zero_lanes(block.width()),
    decreases count,
{
    if count > 0 {
        let before = block.zeros((count - 1) as nat);
        lemma_run_zeros(block, machine, (count - 1) as nat);
        assert(block.zeros(count) == before.push(block.zero(count - 1)));
        machine.lemma_run_push(before, block.zero(count - 1));
        let middle = machine.after_all(before);
        let end = machine.after_all(block.zeros(count));
        assert(block.accumulators[count - 1].is_valid());
        assert forall|i: int| 0 <= i < count implies end.lanes(#[trigger] block.accumulators[i])
            == zero_lanes(block.width()) by {
            if i < count - 1 {
                assert(block.accumulators[i].spec_index() != block.accumulators[count
                    - 1].spec_index());
                assert(end.lanes(block.accumulators[i]) == middle.lanes(block.accumulators[i]));
            }
        }
    }
}

proof fn lemma_run_matrix_fmas(
    block: RowBlock,
    start: Machine,
    machine: Machine,
    matrix_rows: nat,
    col: nat,
    count: nat,
)
    requires
        registers_apart(block),
        buffers_fit(block, start, matrix_rows),
        col + block.width() <= block.cols,
        count <= block.rows(),
        rows_summed(block, machine, start, 0, col, col),
        machine.lanes(block.target_load) == loaded(
            start.buffer(block.vector),
            col as int,
            block.width(),
        ),
    ensures
        machine.can_run_all(block.matrix_fmas(col as int, count)),
        rows_summed(
            block,
            machine.after_all(block.matrix_fmas(col as int, count)),
            start,
            count as int,
            col + block.width(),
            col,
        ),
        machine.after_all(block.matrix_fmas(col as int, count)).lanes(block.target_load)
            == machine.lanes(block.target_load),
    decreases count,
{
    if count > 0 {
        let i = count - 1;
        let before = block.matrix_fmas(col as int, i as nat);
        let fma = block.matrix_fma(i, col as int);
        lemma_run_matrix_fmas(block, start, machine, matrix_rows, col, i as nat);
        assert(block.matrix_fmas(col as int, count) == before.push(fma));
        machine.lemma_run_push(before, fma);
        let middle = machine.after_all(before);
        let end = machine.after_all(block.matrix_fmas(col as int, count));
        let matrix = start.buffer(block.matrix);
        let vector = start.buffer(block.vector);
        let width = block.width();
        let row = block.start_row + i;
        let element = block.cols * row + col;
        lemma_row_major_offset_in_matrix(
            matrix_rows as int,
            block.cols as int,
            row,
            col as int,
        );
        lemma_element_address(block.matrix, element);
        assert(row_summed(block, middle, start, i, col));
        assert(block.accumulators[i].is_valid());
        assert(middle.can_run(fma));
        let accumulator = middle.lanes(block.accumulators[i]);
        let target = middle.lanes(block.target_load);
        let from_matrix = loaded(matrix, element, width);
        assert(end.lanes(block.accumulators[i]) == multiplied_and_added(
            target,
            from_matrix,
            accumulator,
        ));
        lemma_sum_of_multiplied_and_added(target, from_matrix, accumulator);
        lemma_sum_of_loaded_products(matrix, vector, block.cols as int, row, col, width);
        assert(row_summed(block, end, start, i, col + width));
        assert forall|j: int| 0 <= j < i implies #[trigger] row_summed(
            block,
            end,
            start,
            j,
            col + width,
        ) by {
            assert(block.accumulators[j].spec_index() != block.accumulators[i].spec_index());
            assert(row_summed(block, middle, start, j, col + width));
            assert(end.lanes(block.accumulators[j]) == middle.lanes(block.accumulators[j]));
        }
        assert forall|j: int| count <= j < block.rows() implies #[trigger] row_summed(
            block,
            end,
            start,
            j,
            col,
        ) by {
            assert(block.accumulators[i].spec_index() != block.accumulators[j].spec_index());
            assert(row_summed(block, middle, start, j, col));
            assert(end.lanes(block.accumulators[j]) == middle.lanes(block.accumulators[j]));
        }
    } else {
        assert(block.matrix_fmas(col as int, count).len() == 0);
    }
}

proof fn lemma_run_chunk(
    block: RowBlock,
    start: Machine,
    machine: Machine,
    matrix_rows: nat,
    col: nat,
)
    requires
        registers_apart(block),
        buffers_fit(block, start, matrix_rows),
        col + block.width() <= block.cols,
        rows_summed(block, machine, start, 0, col, col),
    ensures
        machine.can_run_all(block.chunk(col as int)),
        rows_summed(
            block,
            machine.after_all(block.chunk(col as int)),
            start,
            0,
            col + block.width(),
            col + block.width(),
        ),
{
    let load = block.vector_load(col as int);
    let fmas = block.matrix_fmas(col as int, block.rows());
    let loaded_machine = machine.after(load);
    lemma_run_one(machine, load);
    machine.lemma_run_concat(seq![load], fmas);
    lemma_element_address(block.vector, col as int);
    assert(machine.can_run(load));
    assert forall|i: int| 0 <= i < block.rows() implies #[trigger] row_summed(
        block,
        loaded_machine,
        start,
        i,
        col,
    ) by {
        assert(block.accumulators[i].spec_index() != block.target_load.spec_index());
        assert(row_summed(block, machine, start, i, col));
        assert(loaded_machine.lanes(block.accumulators[i]) == machine.lanes(
            block.accumulators[i],
        ));
    }
    lemma_run_matrix_fmas(block, start, loaded_machine, matrix_rows, col, block.rows());
    let end = loaded_machine.after_all(fmas);
    assert forall|i: int| 0 <= i < block.rows() implies #[trigger] row_summed(
        block,
        end,
        start,
        i,
        col + block.width(),
    ) by {}
}

proof fn lemma_chunk_in_row(cols: nat, width: nat, chunk: nat)
    requires
        width > 0,
        chunk < cols / width,
    ensures
        chunk * width + width <= cols,
        chunk * width + width == (chunk + 1) * width,
{
    vstd::arithmetic::div_mod::lemma_fundamental_div_mod(cols as int, width as int);
    assert(chunk * width + width <= (cols / width) * width) by (nonlinear_arith)
        requires
            chunk < cols / width,
            width > 0,
    ;
    assert(width * (cols / width) == (cols / width) * width) by (nonlinear_arith);
    assert(chunk * width + width == (chunk + 1) * width) by (nonlinear_arith);
}

proof fn lemma_run_chunks(
    block: RowBlock,
    start: Machine,
    machine: Machine,
    matrix_rows: nat,
    count: nat,
)
    requires
        registers_apart(block),
        buffers_fit(block, start, matrix_rows),
        count <= block.full_chunks(),
        rows_summed(block, machine, start, 0, 0, 0),
    ensures
        machine.can_run_all(block.chunks(count)),
        rows_summed(
            block,
            machine.after_all(block.chunks(count)),
            start,
            0,
            count * block.width(),
            count * block.width(),
        ),
    decreases count,
{
    if count > 0 {
        let before = block.chunks((count - 1) as nat);
        let col = ((count - 1) * block.width()) as nat;
        lemma_run_chunks(block, start, machine, matrix_rows, (count - 1) as nat);
        lemma_chunk_in_row(block.cols, block.width(), (count - 1) as nat);
        machine.lemma_run_concat(before, block.chunk(col as int));
        lemma_run_chunk(block, start, machine.after_all(before), matrix_rows, col);
    } else {
        assert(0 * block.width() == 0);
    }
}

proof fn lemma_run_tail_rows(
    block: RowBlock,
    start: Machine,
    machine: Machine,
    matrix_rows: nat,
    count: nat,
)
    requires
        registers_apart(block),
        buffers_fit(block, start, matrix_rows),
        block.tail_lanes() > 0,
        count <= block.rows(),
        rows_summed(block, machine, start, 0, block.tail_col(), block.tail_col()),
        machine.lanes(block.target_load) == loaded_under_mask(
            start.buffer(block.vector),
            block.tail_col() as int,
            block.width(),
            block.tail_mask(),
        ),
    ensures
        machine.can_run_all(block.tail_rows(count)),
        rows_summed(
            block,
            machine.after_all(block.tail_rows(count)),
            start,
            count as int,
            block.cols,
            block.tail_col(),
        ),
        machine.after_all(block.tail_rows(count)).lanes(block.target_load) == machine.lanes(
            block.target_load,
        ),
    decreases count,
{
    if count > 0 {
        let i = count - 1;
        let before = block.tail_rows(i as nat);
        let load = block.tail_matrix_load(i);
        let fma = block.tail_fma(i);
        lemma_run_tail_rows(block, start, machine, matrix_rows, i as nat);
        machine.lemma_run_push(before, load);
        machine.lemma_run_push(before.push(load), fma);
        let middle = machine.after_all(before);
        let with_scratch = middle.after(load);
        let end = with_scratch.after(fma);
        assert(end == machine.after_all(block.tail_rows(count)));
        let matrix = start.buffer(block.matrix);
        let vector = start.buffer(block.vector);
        let width = block.width();
        let kept = block.tail_lanes();
        let col = block.tail_col();
        let mask = block.tail_mask();
        let row = block.start_row + i;
        let element = block.cols * row + col;
        lemma_tail_columns(block);
        lemma_row_major_offset_in_matrix(
            matrix_rows as int,
            block.cols as int,
            row,
            col as int,
        );
        lemma_element_address(block.matrix, element);
        assert(row_summed(block, middle, start, i, col));
        assert(block.accumulators[i].is_valid());
        assert(block.accumulators[i].spec_index() != block.scratch.spec_index());
        assert(middle.can_run(load));
        assert(with_scratch.lanes(block.scratch) == loaded_under_mask(
            matrix,
            element,
            width,
            mask,
        ));
        assert(with_scratch.lanes(block.accumulators[i]) == middle.lanes(block.accumulators[i]));
        assert(with_scratch.lanes(block.target_load) == middle.lanes(block.target_load));
        assert(with_scratch.can_run(fma));
        let accumulator = middle.lanes(block.accumulators[i]);
        let target = middle.lanes(block.target_load);
        let from_matrix = loaded_under_mask(matrix, element, width, mask);
        assert(end.lanes(block.accumulators[i]) == multiplied_and_added(
            target,
            from_matrix,
            accumulator,
        ));
        lemma_sum_of_multiplied_and_added(target, from_matrix, accumulator);
        lemma_sum_of_masked_products(
            matrix,
            vector,
            block.cols as int,
            row,
            col,
            width,
            kept,
            mask,
        );
        assert(row_summed(block, end, start, i, block.cols));
        assert forall|j: int| 0 <= j < i implies #[trigger] row_summed(
            block,
            end,
            start,
            j,
            block.cols,
        ) by {
            assert(block.accumulators[j].spec_index() != block.accumulators[i].spec_index());
            assert(block.accumulators[j].spec_index() != block.scratch.spec_index());
            assert(row_summed(block, middle, start, j, block.cols));
            assert(end.lanes(block.accumulators[j]) == middle.lanes(block.accumulators[j]));
        }
        assert forall|j: int| count <= j < block.rows() implies #[trigger] row_summed(
            block,
            end,
            start,
            j,
            col,
        ) by {
            assert(block.accumulators[i].spec_index() != block.accumulators[j].spec_index());
            assert(block.accumulators[j].spec_index() != block.scratch.spec_index());
            assert(row_summed(block, middle, start, j, col));
            assert(end.lanes(block.accumulators[j]) == middle.lanes(block.accumulators[j]));
        }
    }
}

/// The left-over columns of a block reach from its first left-over column to
/// the end of the row, and its mask selects just their lanes.
proof fn lemma_tail_columns(block: RowBlock)
    ensures
        block.tail_col() + block.tail_lanes() == block.cols,
        block.tail_lanes() < block.width(),
        forall|lane: int|
            0 <= lane < block.width() ==> (lane_selected(block.tail_mask(), lane) <==> lane
                < block.tail_lanes()),
{
    vstd::arithmetic::div_mod::lemma_fundamental_div_mod(block.cols as int, block.width() as int);
    assert(block.width() * block.full_chunks() == block.full_chunks() * block.width())
        by (nonlinear_arith);
    assert forall|lane: int| 0 <= lane < block.width() implies (lane_selected(
        block.tail_mask(),
        lane,
    ) <==> lane < block.tail_lanes()) by {
        lemma_low_lanes_selected(block.tail_lanes() as u32, lane);
    }
}

proof fn lemma_run_tail(block: RowBlock, start: Machine, machine: Machine, matrix_rows: nat)
    requires
        registers_apart(block),
        buffers_fit(block, start, matrix_rows),
        rows_summed(block, machine, start, 0, block.tail_col(), block.tail_col()),
    ensures
        machine.can_run_all(block.tail()),
        rows_summed(block, machine.after_all(block.tail()), start, 0, block.cols, block.cols),
{
    lemma_tail_columns(block);
    if block.tail_lanes() > 0 {
        let load = block.tail_vector_load();
        let rows = block.tail_rows(block.rows());
        let col = block.tail_col();
        let loaded_machine = machine.after(load);
        lemma_run_one(machine, load);
        machine.lemma_run_concat(seq![load], rows);
        lemma_element_address(block.vector, col as int);
        assert(machine.can_run(load));
        assert forall|i: int| 0 <= i < block.rows() implies #[trigger] row_summed(
            block,
            loaded_machine,
            start,
            i,
            col,
        ) by {
            assert(block.accumulators[i].spec_index() != block.target_load.spec_index());
            assert(row_summed(block, machine, start, i, col));
            assert(loaded_machine.lanes(block.accumulators[i]) == machine.lanes(
                block.accumulators[i],
            ));
        }
        lemma_run_tail_rows(block, start, loaded_machine, matrix_rows, block.rows());
        let end = loaded_machine.after_all(rows);
        assert forall|i: int| 0 <= i < block.rows() implies #[trigger] row_summed(
            block,
            end,
            start,
            i,
            block.cols,
        ) by {}
    }
}

/// Whether, against the machine `start`, only the output has changed, the
/// elements of the output for the first `count` rows of the block are the
/// products of these rows with the input vector, and the other rows of the
/// block are summed over all their columns.
spec fn rows_stored(block: RowBlock, machine: Machine, start: Machine, count: nat) -> bool {
    &&& rows_written(block, start, machine, count)
    &&& forall|i: int|
        count <= i < block.rows() ==> #[trigger] row_summed(block, machine, start, i, block.cols)
}

/// Whether, against the machine `start`, only the output has changed, and
/// there only the elements for the rows from `from_row` up to `to_row`, each
/// of which is the product of its row of the matrix with the input vector.
pub open spec fn output_written(
    cols: nat,
    matrix: ScalarRegister,
    vector: ScalarRegister,
    output: ScalarRegister,
    start: Machine,
    end: Machine,
    from_row: nat,
    to_row: nat,
) -> bool {
    &&& end.well_formed()
    &&& forall|base: int|
        0 <= base < end.buffers.len() && base != output.spec_index()
            ==> #[trigger] end.buffers[base] == start.buffers[base]
    &&& end.buffer(output).len() == start.buffer(output).len()
    &&& forall|row: int|
        0 <= row < end.buffer(output).len() ==> #[trigger] end.buffer(output)[row] == if from_row
            <= row < to_row {
            row_product(start.buffer(matrix), start.buffer(vector), cols as int, row, cols)
        } else {
            start.buffer(output)[row]
        }
}

/// Whether, against the machine `start`, only the output has changed, and
/// there only the elements for the first `count` rows of the block, which
/// are the products of these rows with the input vector.
pub open spec fn rows_written(block: RowBlock, start: Machine, end: Machine, count: nat) -> bool {
    output_written(
        block.cols,
        block.matrix,
        block.vector,
        block.output,
        start,
        end,
        block.start_row,
        block.start_row + count,
    )
}

proof fn lemma_run_finish_rows(
    block: RowBlock,
    start: Machine,
    machine: Machine,
    matrix_rows: nat,
    count: nat,
)
    requires
        registers_apart(block),
        buffers_fit(block, start, matrix_rows),
        count <= block.rows(),
        rows_summed(block, machine, start, 0, block.cols, block.cols),
    ensures
        machine.can_run_all(block.finish_rows(count)),
        rows_stored(block, machine.after_all(block.finish_rows(count)), start, count),
    decreases count,
{
    if count > 0 {
        let i = count - 1;
        let before = block.finish_rows(i as nat);
        let reduce = block.reduce(i);
        let store = block.store(i);
        lemma_run_finish_rows(block, start, machine, matrix_rows, i as nat);
        let middle = machine.after_all(before);
        let end = machine.after_all(block.finish_rows(count));
        let accumulator = block.accumulators[i];
        assert(row_summed(block, middle, start, i, block.cols));
        assert(accumulator.is_valid());
        lemma_element_address(block.output, block.start_row + i);
        let reduced = if block.width() > 1 {
            machine.lemma_run_push(before, reduce);
            machine.lemma_run_push(before.push(reduce), store);
            assert(middle.can_run(reduce));
            lemma_summed_lanes(middle.lanes(accumulator));
            middle.after(reduce)
        } else {
            machine.lemma_run_push(before, store);
            lemma_sum_of_one_lane(middle.lanes(accumulator));
            middle
        };
        assert(reduced.lanes(accumulator)[0] == lane_sum(middle.lanes(accumulator)));
        assert(reduced.buffers == middle.buffers);
        assert(reduced.can_run(store));
        assert(end == reduced.after(store));
        assert(end.buffer(block.output) == middle.buffer(block.output).update(
            block.start_row + i,
            lane_sum(middle.lanes(accumulator)),
        ));
        assert forall|j: int| count <= j < block.rows() implies #[trigger] row_summed(
            block,
            end,
            start,
            j,
            block.cols,
        ) by {
            assert(block.accumulators[i].spec_index() != block.accumulators[j].spec_index());
            assert(row_summed(block, middle, start, j, block.cols));
            assert(end.lanes(block.accumulators[j]) == middle.lanes(block.accumulators[j]));
        }
    } else {
        assert forall|i: int| 0 <= i < block.rows() implies #[trigger] row_summed(
            block,
            machine,
            start,
            i,
            block.cols,
        ) by {}
    }
}

/// Whether the instructions compute the rows of the block: on every machine
/// whose buffers fit they can run, and afterwards the element of the output
/// for each row of the block is the product of that row of the matrix with
/// the input vector, and nothing else in any buffer has changed.
pub open spec fn computes_rows(
    block: RowBlock,
    instructions: Seq<Instruction>,
    matrix_rows: nat,
) -> bool {
    forall|machine: Machine| #[trigger]
        buffers_fit(block, machine, matrix_rows) ==> {
            &&& machine.can_run_all(instructions)
            &&& rows_written(block, machine, machine.after_all(instructions), block.rows())
        }
}

/// Whether the instructions compute the product of a matrix of `rows` by
/// `cols` elements with a vector: on every machine whose buffers fit they
/// can run, and afterwards the element of the output for each row is the
/// product of that row of the matrix with the input vector, and nothing else
/// in any buffer has changed.
pub open spec fn computes_product(
    rows: nat,
    cols: nat,
    matrix: ScalarRegister,
    vector: ScalarRegister,
    output: ScalarRegister,
    instructions: Seq<Instruction>,
) -> bool {
    forall|machine: Machine| #[trigger]
        product_fits(rows, cols, matrix, vector, output, machine) ==> {
            &&& machine.can_run_all(instructions)
            &&& output_written(
                cols,
                matrix,
                vector,
                output,
                machine,
                machine.after_all(instructions),
                0,
                rows,
            )
        }
}

proof fn lemma_run_block(block: RowBlock, machine: Machine, matrix_rows: nat)
    requires
        registers_apart(block),
        buffers_fit(block, machine, matrix_rows),
    ensures
        machine.can_run_all(block.instructions()),
        rows_written(block, machine, machine.after_all(block.instructions()), block.rows()),
{
    let zeroing = block.zeroing();
    let chunks = block.chunks(block.full_chunks());
    let tail = block.tail();
    let finish = block.finish_rows(block.rows());
    machine.lemma_run_concat(zeroing, chunks);
    machine.lemma_run_concat(zeroing + chunks, tail);
    machine.lemma_run_concat(zeroing + chunks + tail, finish);

    lemma_run_zeros(block, machine, block.rows());
    let zeroed = machine.after_all(zeroing);
    lemma_sum_of_zero_lanes(block.width());
    assert forall|i: int| 0 <= i < block.rows() implies #[trigger] row_summed(
        block,
        zeroed,
        machine,
        i,
        0,
    ) by {
        assert(zeroed.lanes(block.accumulators[i]) == zero_lanes(block.width()));
    }
    lemma_run_chunks(block, machine, zeroed, matrix_rows, block.full_chunks());
    let multiplied = zeroed.after_all(chunks);
    lemma_run_tail(block, machine, multiplied, matrix_rows);
    let summed = multiplied.after_all(tail);
    lemma_run_finish_rows(block, machine, summed, matrix_rows, block.rows());
}

/// A block computes its rows of the product.
///
/// On every machine whose buffers fit, the instructions of a block whose
/// registers can be told apart can run, every access staying inside its
/// buffer. Afterwards the element of the output for each row of the block is
/// the product of that row of the matrix with the input vector, and nothing
/// else in any buffer has changed.
pub proof fn lemma_block_computes_rows(block: RowBlock, matrix_rows: nat)
    requires
        registers_apart(block),
    ensures
        computes_rows(block, block.instructions(), matrix_rows),
{
    assert forall|machine: Machine| #[trigger]
        buffers_fit(block, machine, matrix_rows) implies machine.can_run_all(
        block.instructions(),
    ) && rows_written(
        block,
        machine,
        machine.after_all(block.instructions()),
        block.rows(),
    ) by {
        lemma_run_block(block, machine, matrix_rows);
    }
}

/// The registers of a block that fits the free registers of an allocator can
/// be told apart, where no register is free twice and those that the block
/// takes name vector registers.
pub proof fn lemma_block_registers_apart(
    cols: nat,
    start_row: nat,
    end_row: nat,
    matrix: ScalarRegister,
    vector: ScalarRegister,
    output: ScalarRegister,
    kind: VectorKind,
    free: Seq<u8>,
)
    requires
        start_row <= end_row,
        free.no_duplicates(),
        block_of(cols, start_row, end_row, matrix, vector, output, kind, free).registers_needed()
            <= free.len(),
        next_registers_valid(
            free,
            block_of(
                cols,
                start_row,
                end_row,
                matrix,
                vector,
                output,
                kind,
                free,
            ).registers_needed(),
        ),
    ensures
        registers_apart(block_of(cols, start_row, end_row, matrix, vector, output, kind, free)),
{
    broadcast use VectorRegister::lemma_spec_new;

    let block = block_of(cols, start_row, end_row, matrix, vector, output, kind, free);
    let top = free.len() - 1;
    assert(free[top - 0] < VECTOR_REGISTERS);
    assert forall|i: int| 0 <= i < block.rows() implies {
        &&& (#[trigger] block.accumulators[i]).is_valid()
        &&& block.accumulators[i].spec_kind() == block.kind
        &&& block.accumulators[i].spec_index() != block.target_load.spec_index()
    } by {
        assert(free[top - (1 + i)] < VECTOR_REGISTERS);
    }
    if block.tail_lanes() > 0 {
        assert(free[top - (1 + block.rows())] < VECTOR_REGISTERS);
    }
}

proof fn lemma_run_kernel_from(
    rows: nat,
    cols: nat,
    matrix: ScalarRegister,
    vector: ScalarRegister,
    output: ScalarRegister,
    kind: VectorKind,
    free: Seq<u8>,
    from_row: nat,
    start: Machine,
    machine: Machine,
)
    requires
        product_fits(rows, cols, matrix, vector, output, start),
        free.no_duplicates(),
        from_row <= rows,
        block_rows(free.len(), cols, kind) > 0,
        next_registers_valid(free, registers_used(rows, cols, kind, free.len())),
        output_written(cols, matrix, vector, output, start, machine, 0, from_row),
    ensures
        machine.can_run_all(
            kernel_instructions_from(
                rows,
                cols,
                matrix,
                vector,
                output,
                kind,
                free,
                block_rows(free.len(), cols, kind),
                from_row,
            ),
        ),
        output_written(
            cols,
            matrix,
            vector,
            output,
            start,
            machine.after_all(
                kernel_instructions_from(
                    rows,
                    cols,
                    matrix,
                    vector,
                    output,
                    kind,
                    free,
                    block_rows(free.len(), cols, kind),
                    from_row,
                ),
            ),
            0,
            rows,
        ),
    decreases rows - from_row,
{
    let per_block = block_rows(free.len(), cols, kind);
    if from_row < rows {
        let end_row = block_end(rows, from_row, per_block);
        let block = block_of(cols, from_row, end_row, matrix, vector, output, kind, free);
        let rest = kernel_instructions_from(
            rows,
            cols,
            matrix,
            vector,
            output,
            kind,
            free,
            per_block,
            end_row,
        );
        assert(block.registers_needed() <= registers_used(rows, cols, kind, free.len()));
        lemma_block_registers_apart(cols, from_row, end_row, matrix, vector, output, kind, free);
        let matrix_at = matrix.spec_index() as int;
        let vector_at = vector.spec_index() as int;
        assert(machine.buffers[matrix_at] == start.buffers[matrix_at]);
        assert(machine.buffers[vector_at] == start.buffers[vector_at]);
        lemma_run_block(block, machine, rows);
        let middle = machine.after_all(block.instructions());
        machine.lemma_run_concat(block.instructions(), rest);
        assert(output_written(cols, matrix, vector, output, start, middle, 0, end_row)) by {
            assert forall|base: int|
                0 <= base < middle.buffers.len() && base != output.spec_index() implies
                #[trigger] middle.buffers[base] == start.buffers[base] by {
                assert(machine.buffers[base] == start.buffers[base]);
            }
            assert forall|row: int| 0 <= row < middle.buffer(output).len() implies
                #[trigger] middle.buffer(output)[row] == if 0 <= row < end_row {
                row_product(start.buffer(matrix), start.buffer(vector), cols as int, row, cols)
            } else {
                start.buffer(output)[row]
            } by {
                assert(machine.buffer(output)[row] == if 0 <= row < from_row {
                    row_product(start.buffer(matrix), start.buffer(vector), cols as int, row, cols)
                } else {
                    start.buffer(output)[row]
                });
            }
        }
        lemma_run_kernel_from(
            rows,
            cols,
            matrix,
            vector,
            output,
            kind,
            free,
            end_row,
            start,
            middle,
        );
    }
}

/// A kernel computes the product of the matrix with the input vector.
///
/// Take an allocator in which no register is free twice and which has the
/// registers free that a kernel needs, vector registers all that it takes.
/// On every machine whose buffers fit the shape, the instructions of the
/// kernel can run, every access staying inside its buffer. Afterwards the
/// element of the output for each row is the product of that row of the
/// matrix with the input vector, and nothing else in any buffer has changed.
pub proof fn lemma_kernel_computes_product(
    rows: nat,
    cols: nat,
    matrix: ScalarRegister,
    vector: ScalarRegister,
    output: ScalarRegister,
    kind: VectorKind,
    free: Seq<u8>,
)
    requires
        free.no_duplicates(),
        rows == 0 || block_rows(free.len(), cols, kind) > 0,
        next_registers_valid(free, registers_used(rows, cols, kind, free.len())),
    ensures
        computes_product(
            rows,
            cols,
            matrix,
            vector,
            output,
            kernel_instructions(rows, cols, matrix, vector, output, kind, free),
        ),
{
    let kernel = kernel_instructions(rows, cols, matrix, vector, output, kind, free);
    assert forall|machine: Machine| #[trigger]
        product_fits(rows, cols, matrix, vector, output, machine) implies machine.can_run_all(
        kernel,
    ) && output_written(
        cols,
        matrix,
        vector,
        output,
        machine,
        machine.after_all(kernel),
        0,
        rows,
    ) by {
        if rows > 0 {
            lemma_run_kernel_from(
                rows,
                cols,
                matrix,
                vector,
                output,
                kind,
                free,
                0,
                machine,
                machine,
            );
        }
    }
}

/// Buffers whose lengths match a shape that has no more rows than columns
/// are as long as a kernel for the shape needs them. With more rows than
/// columns the output of matching length is shorter than the rows are many.
pub proof fn lemma_matching_buffers_suffice(
    shape: (usize, usize),
    row_major_len: usize,
    vector_len: usize,
    into_len: usize,
)
    requires
        buffers_match(shape, row_major_len, vector_len, into_len),
    ensures
        row_major_len >= shape.0 * shape.1,
        vector_len >= shape.1,
        into_len >= shape.0 <==> shape.0 <= shape.1,
{
}

} // verus!

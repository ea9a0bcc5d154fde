use matvec_jit::instructions::{
    F64HorizontalSum, F64ScalarStore, F64VecLoad, FMAdd, FMMemAdd, FmaDest, Instruction,
    MaskedF64VecLoad, ScalarRegister, SimpleAddress, VectorKind, VectorRegister, ZeroVec,
};
use matvec_jit::register_alloc::RegisterAlloc;
use matvec_jit::row_major::{
    is_block_admissible, is_kernel_admissible, is_shape_addressable, lanes_mask,
    multiply_lengths_match, row_major_instruction_list, row_major_instruction_list_from,
    row_major_offset, CompileError,
};

fn matrix_register() -> ScalarRegister {
    ScalarRegister::new(0)
}

fn vector_register() -> ScalarRegister {
    ScalarRegister::new(1)
}

fn output_register() -> ScalarRegister {
    ScalarRegister::new(2)
}

fn zero(index: u8, kind: VectorKind) -> Instruction {
    Instruction::ZeroVec(ZeroVec(VectorRegister::new(index, kind)))
}

fn load(offset: i32, into: u8, kind: VectorKind) -> Instruction {
    Instruction::F64VecLoad(F64VecLoad {
        address: SimpleAddress::for_type::<f64>(vector_register(), offset),
        into: VectorRegister::new(into, kind),
    })
}

fn masked_load(
    base: ScalarRegister,
    offset: i32,
    into: u8,
    mask: u32,
    kind: VectorKind,
) -> Instruction {
    Instruction::MaskedF64VecLoad(MaskedF64VecLoad {
        load: F64VecLoad {
            address: SimpleAddress::for_type::<f64>(base, offset),
            into: VectorRegister::new(into, kind),
        },
        mask,
    })
}

fn fma_mem(a: u8, offset: i32, c: u8, kind: VectorKind) -> Instruction {
    Instruction::FMMemAdd(FMMemAdd {
        a: VectorRegister::new(a, kind),
        b: SimpleAddress::for_type::<f64>(matrix_register(), offset),
        c: VectorRegister::new(c, kind),
        dest: FmaDest::C,
    })
}

fn fma(a: u8, b: u8, c: u8, kind: VectorKind) -> Instruction {
    Instruction::FMAdd(FMAdd {
        a: VectorRegister::new(a, kind),
        b: VectorRegister::new(b, kind),
        c: VectorRegister::new(c, kind),
        dest: FmaDest::C,
    })
}

fn reduce(index: u8, kind: VectorKind) -> Instruction {
    Instruction::F64HorizontalSum(F64HorizontalSum(VectorRegister::new(index, kind)))
}

fn store(from: u8, offset: i32, kind: VectorKind) -> Instruction {
    Instruction::F64ScalarStore(F64ScalarStore {
        from: VectorRegister::new(from, kind),
        address: SimpleAddress::for_type::<f64>(output_register(), offset),
    })
}

fn compile_block(
    rows: usize,
    cols: usize,
    start: usize,
    end: usize,
    alloc: &mut RegisterAlloc,
    kind: VectorKind,
) -> Result<Vec<Instruction>, CompileError> {
    row_major_instruction_list_from(
        rows,
        cols,
        start,
        end,
        matrix_register(),
        vector_register(),
        output_register(),
        alloc,
        kind,
    )
}

fn compile(
    rows: usize,
    cols: usize,
    alloc: &mut RegisterAlloc,
    kind: VectorKind,
) -> Result<Vec<Instruction>, CompileError> {
    row_major_instruction_list(
        rows,
        cols,
        matrix_register(),
        vector_register(),
        output_register(),
        alloc,
        kind,
    )
}

/// Runs a kernel on buffers of floats, as the instructions are documented.
fn run(instructions: &[Instruction], matrix: &[f64], vector: &[f64], output: &mut [f64]) {
    let mut registers = [[f64::NAN; 8]; 31];
    for instruction in instructions {
        match *instruction {
            Instruction::ZeroVec(ZeroVec(register)) => {
                for lane in 0..register.kind.f64_width() {
                    registers[register.index() as usize][lane] = 0.0;
                }
            }
            Instruction::F64VecLoad(F64VecLoad { address, into }) => {
                let buffer = read_buffer(address, matrix, vector, output);
                let first = element_of(address);
                for lane in 0..into.kind.f64_width() {
                    registers[into.index() as usize][lane] = buffer[first + lane];
                }
            }
            Instruction::MaskedF64VecLoad(MaskedF64VecLoad { load, mask }) => {
                let buffer = read_buffer(load.address, matrix, vector, output);
                let first = element_of(load.address);
                for lane in 0..load.into.kind.f64_width() {
                    registers[load.into.index() as usize][lane] = if mask & (1 << lane) != 0 {
                        buffer[first + lane]
                    } else {
                        0.0
                    };
                }
            }
            Instruction::FMAdd(FMAdd { a, b, c, dest }) => {
                let target = match dest {
                    FmaDest::A => a,
                    FmaDest::B => b,
                    FmaDest::C => c,
                };
                for lane in 0..target.kind.f64_width() {
                    let value = registers[a.index() as usize][lane].mul_add(
                        registers[b.index() as usize][lane],
                        registers[c.index() as usize][lane],
                    );
                    registers[target.index() as usize][lane] = value;
                }
            }
            Instruction::FMMemAdd(FMMemAdd { a, b, c, dest }) => {
                let target = match dest {
                    FmaDest::A => a,
                    FmaDest::B => panic!("a memory operand takes no result"),
                    FmaDest::C => c,
                };
                let buffer = read_buffer(b, matrix, vector, output);
                let first = element_of(b);
                for lane in 0..target.kind.f64_width() {
                    let value = registers[a.index() as usize][lane]
                        .mul_add(buffer[first + lane], registers[c.index() as usize][lane]);
                    registers[target.index() as usize][lane] = value;
                }
            }
            Instruction::F64HorizontalSum(F64HorizontalSum(register)) => {
                let mut sum = 0.0;
                for lane in 0..register.kind.f64_width() {
                    sum += registers[register.index() as usize][lane];
                }
                registers[register.index() as usize][0] = sum;
            }
            Instruction::F64ScalarStore(F64ScalarStore { from, address }) => {
                assert_eq!(address.base_register, output_register());
                output[element_of(address)] = registers[from.index() as usize][0];
            }
        }
    }
}

fn element_of(address: SimpleAddress) -> usize {
    assert_eq!(address.layout.size, 8);
    assert!(address.offset >= 0);
    assert_eq!(address.offset % 8, 0);
    (address.offset / 8) as usize
}

fn read_buffer<'a>(
    address: SimpleAddress,
    matrix: &'a [f64],
    vector: &'a [f64],
    output: &'a [f64],
) -> &'a [f64] {
    if address.base_register == matrix_register() {
        matrix
    } else if address.base_register == vector_register() {
        vector
    } else {
        assert_eq!(address.base_register, output_register());
        output
    }
}

#[test]
fn block_of_two_rows_and_four_columns_in_two_lanes() {
    let kind = VectorKind::Xmm;
    let mut alloc = RegisterAlloc::new(4);
    let instructions = compile_block(2, 4, 0, 2, &mut alloc, kind).unwrap();
    let expected = vec![
        zero(2, kind),
        zero(1, kind),
        load(0, 3, kind),
        fma_mem(3, 0, 2, kind),
        fma_mem(3, 32, 1, kind),
        load(16, 3, kind),
        fma_mem(3, 16, 2, kind),
        fma_mem(3, 48, 1, kind),
        reduce(2, kind),
        store(2, 0, kind),
        reduce(1, kind),
        store(1, 8, kind),
    ];
    assert_eq!(instructions, expected);
}

#[test]
fn block_with_left_over_columns_loads_them_under_a_mask() {
    let kind = VectorKind::Ymm;
    let mut alloc = RegisterAlloc::new(8);
    // Rows 1 and 2 of a matrix of 3 by 6: one whole chunk, two columns left.
    let instructions = compile_block(3, 6, 1, 3, &mut alloc, kind).unwrap();
    let expected = vec![
        zero(6, kind),
        zero(5, kind),
        load(0, 7, kind),
        fma_mem(7, (6 * 1 + 0) * 8, 6, kind),
        fma_mem(7, (6 * 2 + 0) * 8, 5, kind),
        masked_load(vector_register(), 32, 7, 0b11, kind),
        masked_load(matrix_register(), (6 * 1 + 4) * 8, 4, 0b11, kind),
        fma(7, 4, 6, kind),
        masked_load(matrix_register(), (6 * 2 + 4) * 8, 4, 0b11, kind),
        fma(7, 4, 5, kind),
        reduce(6, kind),
        store(6, 8, kind),
        reduce(5, kind),
        store(5, 16, kind),
    ];
    assert_eq!(instructions, expected);
}

#[test]
fn single_lane_block_stores_without_a_sum() {
    let kind = VectorKind::SingleXmm;
    let mut alloc = RegisterAlloc::new(2);
    let instructions = compile_block(1, 2, 0, 1, &mut alloc, kind).unwrap();
    let expected = vec![
        zero(0, kind),
        load(0, 1, kind),
        fma_mem(1, 0, 0, kind),
        load(8, 1, kind),
        fma_mem(1, 8, 0, kind),
        store(0, 0, kind),
    ];
    assert_eq!(instructions, expected);
}

#[test]
fn block_without_columns_zeroes_and_stores() {
    let kind = VectorKind::Zmm;
    let mut alloc = RegisterAlloc::new(3);
    let instructions = compile_block(4, 0, 2, 4, &mut alloc, kind).unwrap();
    let expected = vec![
        zero(1, kind),
        zero(0, kind),
        reduce(1, kind),
        store(1, 16, kind),
        reduce(0, kind),
        store(0, 24, kind),
    ];
    assert_eq!(instructions, expected);
}

#[test]
fn one_zero_instruction_for_each_row() {
    for rows in 1..=6usize {
        for cols in 0..=9usize {
            for kind in [VectorKind::SingleXmm, VectorKind::Xmm, VectorKind::Ymm, VectorKind::Zmm] {
                let mut alloc = RegisterAlloc::new(8);
                let instructions = compile_block(rows, cols, 0, rows, &mut alloc, kind).unwrap();
                let zeroed: Vec<u8> = instructions
                    .iter()
                    .filter_map(|instruction| match instruction {
                        Instruction::ZeroVec(ZeroVec(register)) => Some(register.index()),
                        _ => None,
                    })
                    .collect();
                let expected: Vec<u8> = (0..rows).map(|row| 6 - row as u8).collect();
                assert_eq!(zeroed, expected);
                for (row, instruction) in instructions.iter().take(rows).enumerate() {
                    assert_eq!(*instruction, zero(6 - row as u8, kind));
                }
            }
        }
    }
}

#[test]
fn memory_fma_offsets_follow_the_row_major_formula() {
    let kind = VectorKind::Xmm;
    let (rows, cols) = (5usize, 7usize);
    let mut alloc = RegisterAlloc::new(16);
    let instructions = compile_block(rows, cols, 1, 4, &mut alloc, kind).unwrap();
    let mut seen = Vec::new();
    for instruction in &instructions {
        if let Instruction::FMMemAdd(fma) = instruction {
            assert_eq!(fma.b.base_register, matrix_register());
            assert_eq!(fma.dest, FmaDest::C);
            seen.push((fma.c.index(), fma.b.offset));
        }
    }
    let mut expected = Vec::new();
    for col in [0usize, 2, 4] {
        for row in 1..4usize {
            let accumulator = 14 - (row as u8 - 1);
            expected.push((accumulator, ((cols * row + col) * 8) as i32));
        }
    }
    assert_eq!(seen, expected);
}

#[test]
fn allocator_is_as_before_after_a_block() {
    let mut alloc = RegisterAlloc::new(6);
    assert_eq!(alloc.acquire(), Some(5));
    assert_eq!(alloc.acquire(), Some(4));
    alloc.release(5);
    // Free, from the bottom of the stack: 0, 1, 2, 3, 5.
    let instructions = compile_block(2, 3, 0, 2, &mut alloc, VectorKind::Xmm).unwrap();
    assert_eq!(instructions[0], zero(3, VectorKind::Xmm));
    assert_eq!(instructions[2], load(0, 5, VectorKind::Xmm));
    assert_eq!(alloc.free_count(), 5);
    assert!(!alloc.is_free(4));
    assert_eq!(alloc.acquire(), Some(5));
    assert_eq!(alloc.acquire(), Some(3));
    assert_eq!(alloc.acquire(), Some(2));
    assert_eq!(alloc.acquire(), Some(1));
    assert_eq!(alloc.acquire(), Some(0));
    assert_eq!(alloc.acquire(), None);
}

#[test]
fn allocator_is_as_before_after_a_refusal() {
    let mut alloc = RegisterAlloc::new(2);
    assert_eq!(
        compile_block(2, 2, 0, 2, &mut alloc, VectorKind::Xmm),
        Err(CompileError::NoRegisterAvailable)
    );
    assert_eq!(alloc.free_count(), 2);
    assert_eq!(alloc.acquire(), Some(1));
    assert_eq!(alloc.acquire(), Some(0));
}

#[test]
fn block_that_needs_more_registers_than_are_free_is_refused() {
    // Two rows need three registers.
    let mut alloc = RegisterAlloc::new(2);
    assert_eq!(
        compile_block(3, 4, 1, 3, &mut alloc, VectorKind::Ymm),
        Err(CompileError::NoRegisterAvailable)
    );
    // One row more than registers are free.
    let mut alloc = RegisterAlloc::new(2);
    assert_eq!(
        compile_block(3, 4, 0, 3, &mut alloc, VectorKind::Ymm),
        Err(CompileError::NoRegisterAvailable)
    );
    // Left-over columns take one register more.
    let mut alloc = RegisterAlloc::new(3);
    assert!(compile_block(2, 4, 0, 2, &mut alloc, VectorKind::Ymm).is_ok());
    assert_eq!(
        compile_block(2, 5, 0, 2, &mut alloc, VectorKind::Ymm),
        Err(CompileError::NoRegisterAvailable)
    );
    let mut alloc = RegisterAlloc::new(4);
    assert!(compile_block(2, 5, 0, 2, &mut alloc, VectorKind::Ymm).is_ok());
}

#[test]
fn shape_whose_bytes_do_not_fit_an_offset_is_refused() {
    let mut alloc = RegisterAlloc::new(8);
    assert_eq!(
        compile_block(1 << 14, 1 << 14, 0, 1, &mut alloc, VectorKind::Xmm),
        Err(CompileError::AddressOutOfRange)
    );
    assert_eq!(
        compile(1 << 14, 1 << 14, &mut alloc, VectorKind::Xmm),
        Err(CompileError::AddressOutOfRange)
    );
    assert_eq!(
        compile(0, 268435456, &mut alloc, VectorKind::Xmm),
        Err(CompileError::AddressOutOfRange)
    );
    assert_eq!(alloc.free_count(), 8);
}

#[test]
fn addressable_shapes() {
    assert!(is_shape_addressable(0, 0));
    assert!(is_shape_addressable(1, 268435455));
    assert!(is_shape_addressable(268435455, 1));
    assert!(is_shape_addressable(268435455, 0));
    assert!(!is_shape_addressable(1, 268435456));
    assert!(!is_shape_addressable(268435456, 0));
    assert!(is_shape_addressable(16383, 16384));
    assert!(!is_shape_addressable(16384, 16384));
    assert!(!is_shape_addressable(usize::MAX, usize::MAX));
}

#[test]
fn row_major_offsets() {
    assert_eq!(row_major_offset(2, 4, 0, 0), 0);
    assert_eq!(row_major_offset(2, 4, 1, 2), 6);
    assert_eq!(row_major_offset(2, 4, 1, 3), 7);
    assert_eq!(row_major_offset(3, 1, 2, 0), 2);
}

#[test]
fn masks_of_the_low_lanes() {
    assert_eq!(lanes_mask(0), 0);
    assert_eq!(lanes_mask(1), 0b1);
    assert_eq!(lanes_mask(3), 0b111);
    assert_eq!(lanes_mask(7), 0b111_1111);
    assert_eq!(lanes_mask(31), 0x7fff_ffff);
}

#[test]
fn kernel_takes_the_rows_in_blocks() {
    let kind = VectorKind::Xmm;
    // Three registers: one for the vector, two accumulators.
    let mut alloc = RegisterAlloc::new(3);
    let instructions = compile(5, 2, &mut alloc, kind).unwrap();
    let mut expected = Vec::new();
    for (start, end) in [(0usize, 2usize), (2, 4), (4, 5)] {
        let mut block_alloc = RegisterAlloc::new(3);
        expected.extend(compile_block(5, 2, start, end, &mut block_alloc, kind).unwrap());
    }
    assert_eq!(instructions, expected);
    assert_eq!(instructions.len(), 9 + 9 + 5);
    assert_eq!(instructions[9], zero(1, kind));
    assert_eq!(instructions[12], fma_mem(2, (2 * 2) * 8, 1, kind));
    assert_eq!(instructions[13], fma_mem(2, (2 * 3) * 8, 0, kind));
    assert_eq!(instructions[20], fma_mem(2, (2 * 4) * 8, 1, kind));
    assert_eq!(instructions[22], store(1, 32, kind));
    assert_eq!(alloc.free_count(), 3);
}

#[test]
fn kernel_without_rows_is_empty() {
    let mut alloc = RegisterAlloc::new(0);
    assert_eq!(compile(0, 5, &mut alloc, VectorKind::Ymm), Ok(Vec::new()));
}

#[test]
fn kernel_without_an_accumulator_is_refused() {
    let mut alloc = RegisterAlloc::new(1);
    assert_eq!(compile(1, 4, &mut alloc, VectorKind::Ymm), Err(CompileError::NoRegisterAvailable));
    let mut alloc = RegisterAlloc::new(2);
    assert!(compile(1, 4, &mut alloc, VectorKind::Ymm).is_ok());
    assert_eq!(compile(1, 5, &mut alloc, VectorKind::Ymm), Err(CompileError::NoRegisterAvailable));
    let mut alloc = RegisterAlloc::new(3);
    assert!(compile(1, 5, &mut alloc, VectorKind::Ymm).is_ok());
}

#[test]
fn two_by_four_kernel_in_two_lanes_multiplies() {
    let mut alloc = RegisterAlloc::new(16);
    let instructions = compile(2, 4, &mut alloc, VectorKind::Xmm).unwrap();
    let matrix = [1.0, 2.0, 3.0, 4.0, 5.0, 6.0, 7.0, 8.0];
    let vector = [1.0, 1.0, 1.0, 1.0];
    assert!(multiply_lengths_match((2, 4), matrix.len(), vector.len(), 4));
    let mut output = [0.0; 4];
    run(&instructions, &matrix, &vector, &mut output);
    assert_eq!(output[..2], [10.0, 26.0]);
}

#[test]
fn one_by_three_kernel_in_two_lanes_multiplies() {
    let mut alloc = RegisterAlloc::new(16);
    let instructions = compile(1, 3, &mut alloc, VectorKind::Xmm).unwrap();
    assert!(instructions.iter().any(|i| matches!(i, Instruction::MaskedF64VecLoad(_))));
    let matrix = [2.0, 3.0, 4.0];
    let vector = [1.0, 1.0, 1.0];
    assert!(multiply_lengths_match((1, 3), matrix.len(), vector.len(), 3));
    let mut output = [0.0; 3];
    run(&instructions, &matrix, &vector, &mut output);
    assert_eq!(output[..1], [9.0]);
}

#[test]
fn kernels_of_many_shapes_multiply() {
    for kind in [VectorKind::SingleXmm, VectorKind::Xmm, VectorKind::Ymm, VectorKind::Zmm] {
        for registers in [3u8, 4, 7, 31] {
            for rows in 0..7usize {
                for cols in 1..12usize {
                    let mut alloc = RegisterAlloc::new(registers);
                    let instructions = compile(rows, cols, &mut alloc, kind).unwrap();
                    let matrix: Vec<f64> =
                        (0..rows * cols).map(|i| (i % 13) as f64 - 4.0).collect();
                    let vector: Vec<f64> = (0..cols).map(|i| (i % 5) as f64 + 1.0).collect();
                    let mut output = vec![f64::NAN; rows.max(cols)];
                    run(&instructions, &matrix, &vector, &mut output);
                    for row in 0..rows {
                        let expected: f64 =
                            (0..cols).map(|col| matrix[cols * row + col] * vector[col]).sum();
                        assert_eq!(output[row], expected);
                    }
                }
            }
        }
    }
}

#[test]
fn buffer_lengths_are_held_to_the_shape() {
    assert!(multiply_lengths_match((2, 4), 8, 4, 4));
    assert!(!multiply_lengths_match((2, 4), 8, 3, 4));
    assert!(!multiply_lengths_match((2, 4), 8, 5, 4));
    assert!(!multiply_lengths_match((2, 4), 7, 4, 4));
    assert!(!multiply_lengths_match((2, 4), 8, 4, 2));
    assert!(multiply_lengths_match((0, 0), 0, 0, 0));
    assert!(multiply_lengths_match((3, 1), 3, 1, 1));
    assert!(!multiply_lengths_match((usize::MAX, 2), usize::MAX - 1, 2, 2));
}

#[test]
fn block_of_over_one_row_more_than_free_registers_is_not_admissible() {
    for registers in 0..=12u8 {
        let alloc = RegisterAlloc::new(registers);
        let free = registers as usize;
        for rows in 1..=16usize {
            let admissible = is_block_admissible(20, 4, 2, 2 + rows, &alloc, VectorKind::Xmm);
            assert_eq!(admissible, rows <= free + 1);
        }
        assert!(!is_block_admissible(free + 2, 4, 0, free + 2, &alloc, VectorKind::Ymm));
        assert!(is_block_admissible(free + 1, 4, 0, free + 1, &alloc, VectorKind::Ymm));
    }
}

#[test]
fn block_outside_the_matrix_is_not_admissible() {
    let alloc = RegisterAlloc::new(8);
    assert!(is_block_admissible(4, 4, 0, 4, &alloc, VectorKind::Xmm));
    assert!(is_block_admissible(4, 4, 3, 4, &alloc, VectorKind::Xmm));
    assert!(!is_block_admissible(4, 4, 0, 5, &alloc, VectorKind::Xmm));
    assert!(!is_block_admissible(4, 4, 2, 2, &alloc, VectorKind::Xmm));
    assert!(!is_block_admissible(4, 4, 3, 2, &alloc, VectorKind::Xmm));
    assert!(!is_block_admissible(0, 4, 0, 0, &alloc, VectorKind::Xmm));
}

#[test]
fn block_that_takes_a_register_beyond_the_vector_registers_is_not_admissible() {
    // The registers 0 to 32 are free, 32 is acquired first.
    let mut alloc = RegisterAlloc::new(33);
    assert!(!is_block_admissible(4, 4, 0, 1, &alloc, VectorKind::Xmm));
    assert!(!is_kernel_admissible(4, 4, &alloc, VectorKind::Xmm));
    assert_eq!(alloc.acquire(), Some(32));
    assert!(!is_block_admissible(4, 4, 0, 1, &alloc, VectorKind::Xmm));
    assert_eq!(alloc.acquire(), Some(31));
    assert!(is_block_admissible(4, 4, 0, 1, &alloc, VectorKind::Xmm));
    assert!(is_block_admissible(40, 4, 0, 32, &alloc, VectorKind::Xmm));
    assert!(is_kernel_admissible(40, 4, &alloc, VectorKind::Xmm));
    alloc.release(32);
    // One row in whole chunks takes two registers, with columns left over three.
    assert!(!is_block_admissible(4, 4, 0, 1, &alloc, VectorKind::Xmm));
    assert_eq!(alloc.acquire(), Some(32));
    alloc.release(31);
    alloc.release(32);
    assert_eq!(alloc.acquire(), Some(32));
    assert_eq!(alloc.acquire(), Some(31));
    alloc.release(32);
    alloc.release(31);
    // Free, from the top of the stack: 31, 32, 30, 29, ..
    assert!(!is_kernel_admissible(1, 4, &alloc, VectorKind::Xmm));
    assert!(is_kernel_admissible(0, 4, &alloc, VectorKind::Xmm));
}

#[test]
fn kernel_is_admissible_where_the_registers_it_takes_are_vector_registers() {
    let mut alloc = RegisterAlloc::new(34);
    assert_eq!(alloc.acquire(), Some(33));
    assert_eq!(alloc.acquire(), Some(32));
    assert_eq!(alloc.acquire(), Some(31));
    alloc.release(33);
    // Free, from the bottom of the stack: 0, 1, .., 30, 33.
    assert!(!is_kernel_admissible(1, 2, &alloc, VectorKind::Xmm));
    assert_eq!(alloc.acquire(), Some(33));
    alloc.release(31);
    assert_eq!(alloc.acquire(), Some(31));
    assert!(is_kernel_admissible(100, 3, &alloc, VectorKind::Xmm));
    assert!(is_kernel_admissible(100, 4, &alloc, VectorKind::Xmm));
    // With no accumulator to be had, nothing is taken.
    let mut small = RegisterAlloc::new(40);
    while small.free_count() > 1 {
        small.acquire();
    }
    small.release(39);
    assert!(is_kernel_admissible(5, 3, &small, VectorKind::Xmm));
    assert!(!is_kernel_admissible(5, 4, &small, VectorKind::Xmm));
}

//! The virtual instruction set: register descriptors, the addressing mode and
//! the closed vocabulary of vector instructions that a kernel is made of.

use vstd::prelude::*;

verus! {

/// The width tier of a vector register.
#[derive(Copy, Clone, Debug, PartialEq, Eq)]
pub enum VectorKind {
    /// A 128-bit register of which only the lowest lane is used.
    SingleXmm,
    /// A 128-bit register.
    Xmm,
    /// A 256-bit register.
    Ymm,
    /// A 512-bit register.
    Zmm,
}

impl VectorKind {
    /// The number of 64-bit lanes that a register of this tier holds.
    pub open spec fn lanes(self) -> nat {
        match self {
            VectorKind::SingleXmm => 1,
            VectorKind::Xmm => 2,
            VectorKind::Ymm => 4,
            VectorKind::Zmm => 8,
        }
    }

    /// The number of 64-bit lanes that a register of this tier holds.
    pub fn f64_width(&self) -> (width: usize)
        ensures
            width == self.lanes(),
    {
        match self {
            VectorKind::SingleXmm => 1,
            VectorKind::Xmm => 2,
            VectorKind::Ymm => 4,
            VectorKind::Zmm => 8,
        }
    }
}

/// The number of vector registers that can be named.
pub const VECTOR_REGISTERS: u8 = 31;

/// The number of scalar registers that can be named.
pub const SCALAR_REGISTERS: u8 = 12;

/// A vector register: a width tier and an index below [`VECTOR_REGISTERS`].
#[derive(Copy, Clone, Debug, PartialEq, Eq)]
pub struct VectorRegister {
    pub kind: VectorKind,
    index: u8,
}

impl VectorRegister {
    /// The register of tier `kind` with the given index.
    pub closed spec fn spec_new(index: u8, kind: VectorKind) -> Self {
        VectorRegister { kind, index }
    }

    /// The register's index.
    pub closed spec fn spec_index(&self) -> u8 {
        self.index
    }

    /// The register's width tier.
    pub closed spec fn spec_kind(&self) -> VectorKind {
        self.kind
    }

    /// A register is valid when its index names one of the vector registers.
    pub open spec fn is_valid(&self) -> bool {
        self.spec_index() < VECTOR_REGISTERS
    }

    /// A register is fixed by its tier and its index.
    pub broadcast proof fn lemma_spec_new(index: u8, kind: VectorKind)
        ensures
            (#[trigger] Self::spec_new(index, kind)).spec_index() == index,
            Self::spec_new(index, kind).spec_kind() == kind,
    {
    }

    #[verifier::when_used_as_spec(spec_new)]
    pub fn new(index: u8, kind: VectorKind) -> (register: Self)
        requires
            index < VECTOR_REGISTERS,
        ensures
            register == Self::spec_new(index, kind),
            register.is_valid(),
    {
        Self { index, kind }
    }

    #[verifier::when_used_as_spec(spec_index)]
    pub fn index(&self) -> (index: u8)
        ensures
            index == self.spec_index(),
    {
        self.index
    }
}

/// A scalar register, which holds the base address of a buffer: an index
/// below [`SCALAR_REGISTERS`].
#[derive(Copy, Clone, Debug, PartialEq, Eq)]
pub struct ScalarRegister {
    index: u8,
}

impl ScalarRegister {
    /// The scalar register with the given index.
    pub closed spec fn spec_new(index: u8) -> Self {
        ScalarRegister { index }
    }

    /// The register's index.
    pub closed spec fn spec_index(&self) -> u8 {
        self.index
    }

    /// A register is valid when its index names one of the scalar registers.
    pub open spec fn is_valid(&self) -> bool {
        self.spec_index() < SCALAR_REGISTERS
    }

    /// A scalar register is fixed by its index.
    pub broadcast proof fn lemma_spec_new(index: u8)
        ensures
            (#[trigger] Self::spec_new(index)).spec_index() == index,
    {
    }

    #[verifier::when_used_as_spec(spec_new)]
    pub fn new(index: u8) -> (register: Self)
        requires
            index < SCALAR_REGISTERS,
        ensures
            register == Self::spec_new(index),
            register.is_valid(),
    {
        Self { index }
    }

    #[verifier::when_used_as_spec(spec_index)]
    pub fn index(&self) -> (index: u8)
        ensures
            index == self.spec_index(),
    {
        self.index
    }
}

/// The size and alignment, in bytes, of the scalar element that an address
/// points at.
#[derive(Copy, Clone, Debug, PartialEq, Eq)]
pub struct ElementLayout {
    pub size: usize,
    pub align: usize,
}

/// The size in bytes of a 64-bit floating-point element.
pub const FLOAT64_SIZE: usize = 8;

/// The alignment in bytes of a 64-bit floating-point element.
pub const FLOAT64_ALIGN: usize = 8;

impl ElementLayout {
    /// The layout of the type `T`.
    pub fn for_type<T: Sized>() -> (layout: Self)
        ensures
            layout.size as nat == vstd::layout::size_of::<T>(),
            layout.align as nat == vstd::layout::align_of::<T>(),
    {
        Self { size: core::mem::size_of::<T>(), align: core::mem::align_of::<T>() }
    }

    /// The layout of a 64-bit floating-point element.
    pub open spec fn spec_float64() -> Self {
        ElementLayout { size: FLOAT64_SIZE, align: FLOAT64_ALIGN }
    }

    /// The layout of a 64-bit floating-point element.
    #[verifier::when_used_as_spec(spec_float64)]
    pub fn float64() -> (layout: Self)
        ensures
            layout == Self::spec_float64(),
    {
        Self { size: FLOAT64_SIZE, align: FLOAT64_ALIGN }
    }
}

/// An addressing mode: a base register, a signed byte offset from it, and the
/// layout of the element that is addressed.
#[derive(Copy, Clone, Debug, PartialEq, Eq)]
pub struct SimpleAddress {
    pub base_register: ScalarRegister,
    pub offset: i32,
    pub layout: ElementLayout,
}

impl SimpleAddress {
    /// The address of an element of type `T` at `offset` bytes from the base
    /// register. The layout is that of `T`.
    pub fn for_type<T: Sized>(base_register: ScalarRegister, offset: i32) -> (address: Self)
        ensures
            address.base_register == base_register,
            address.offset == offset,
            address.layout.size as nat == vstd::layout::size_of::<T>(),
            address.layout.align as nat == vstd::layout::align_of::<T>(),
    {
        Self { base_register, offset, layout: ElementLayout::for_type::<T>() }
    }

    /// The address of a 64-bit floating-point element at `offset` bytes from
    /// the base register.
    pub open spec fn spec_for_float64(base_register: ScalarRegister, offset: i32) -> Self {
        SimpleAddress { base_register, offset, layout: ElementLayout::spec_float64() }
    }

    /// The address of a 64-bit floating-point element at `offset` bytes from
    /// the base register.
    #[verifier::when_used_as_spec(spec_for_float64)]
    pub fn for_float64(base_register: ScalarRegister, offset: i32) -> (address: Self)
        ensures
            address == Self::spec_for_float64(base_register, offset),
    {
        Self { base_register, offset, layout: ElementLayout::float64() }
    }
}

/// Loads as many consecutive elements as the target register has lanes, lane
/// `l` from the `l`-th element at the address.
#[derive(Copy, Clone, Debug, PartialEq, Eq)]
pub struct F64VecLoad {
    pub address: SimpleAddress,
    pub into: VectorRegister,
}

/// A load under a lane mask: lane `l` is loaded where bit `l` of `mask` is
/// set. The other lanes become zero and their memory is not touched.
#[derive(Copy, Clone, Debug, PartialEq, Eq)]
pub struct MaskedF64VecLoad {
    pub load: F64VecLoad,
    pub mask: u32,
}

/// Sets every lane of the register to zero.
#[derive(Copy, Clone, Debug, PartialEq, Eq)]
pub struct ZeroVec(pub VectorRegister);

/// The operand of a fused multiply-add that receives the result.
#[derive(Copy, Clone, Debug, PartialEq, Eq)]
pub enum FmaDest {
    A,
    B,
    C,
}

/// Fused multiply-add on registers: `a * b + c`, lane by lane. The result goes
/// to the operand that `dest` names.
#[derive(Copy, Clone, Debug, PartialEq, Eq)]
pub struct FMAdd {
    pub a: VectorRegister,
    pub b: VectorRegister,
    pub c: VectorRegister,
    pub dest: FmaDest,
}

/// Fused multiply-add with a memory operand: `a * *b + c`, lane by lane, where
/// lane `l` of `*b` is the `l`-th element at the address `b`. The result goes
/// to `a` or to `c`: the memory operand takes none.
#[derive(Copy, Clone, Debug, PartialEq, Eq)]
pub struct FMMemAdd {
    pub a: VectorRegister,
    pub b: SimpleAddress,
    pub c: VectorRegister,
    pub dest: FmaDest,
}

/// Adds up the lanes of the register and leaves the sum in its lowest lane.
/// The other lanes hold no particular values afterwards.
#[derive(Copy, Clone, Debug, PartialEq, Eq)]
pub struct F64HorizontalSum(pub VectorRegister);

/// Stores the lowest lane of a register to the element at the address.
#[derive(Copy, Clone, Debug, PartialEq, Eq)]
pub struct F64ScalarStore {
    pub from: VectorRegister,
    pub address: SimpleAddress,
}

/// One instruction of a kernel. The vocabulary is closed: these are all the
/// operations that a kernel is made of.
#[derive(Copy, Clone, Debug, PartialEq, Eq)]
pub enum Instruction {
    F64VecLoad(F64VecLoad),
    MaskedF64VecLoad(MaskedF64VecLoad),
    ZeroVec(ZeroVec),
    FMAdd(FMAdd),
    FMMemAdd(FMMemAdd),
    F64HorizontalSum(F64HorizontalSum),
    F64ScalarStore(F64ScalarStore),
}

} // verus!

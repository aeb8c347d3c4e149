//! The calls into `inkwell` (LLVM) that code generation makes. LLVM values and
//! types are opaque here: each function below makes one inkwell call, converting
//! between inkwell's typed handles and the basic enums. Where inkwell would panic
//! on a value of the wrong kind (an integer operation given a float, say), these
//! functions answer `None` instead; the caller decides what that means.
use vstd::prelude::*;
use inkwell::basic_block::BasicBlock;
use inkwell::builder::Builder;
use inkwell::context::Context;
use inkwell::module::Module;
use inkwell::types::{AnyTypeEnum, BasicMetadataTypeEnum, BasicType, BasicTypeEnum, FunctionType, StructType};
use inkwell::values::{BasicMetadataValueEnum, BasicValueEnum, CallableValue, FunctionValue, GlobalValue};
use inkwell::{AddressSpace, FloatPredicate, IntPredicate};

verus! {

/// inkwell's `Context`, carried through as an opaque value.
#[verifier::external_type_specification]
#[verifier::external_body]
pub struct ExContext(Context);

/// inkwell's `Module`, carried through as an opaque value.
#[verifier::external_type_specification]
#[verifier::external_body]
pub struct ExModule<'ctx>(Module<'ctx>);

/// inkwell's `Builder`, carried through as an opaque value.
#[verifier::external_type_specification]
#[verifier::external_body]
pub struct ExBuilder<'ctx>(Builder<'ctx>);

/// inkwell's `BasicBlock`, carried through as an opaque value.
#[verifier::external_type_specification]
#[verifier::external_body]
pub struct ExBasicBlock<'ctx>(BasicBlock<'ctx>);

/// inkwell's `FunctionValue`, carried through as an opaque value.
#[verifier::external_type_specification]
#[verifier::external_body]
pub struct ExFunctionValue<'ctx>(FunctionValue<'ctx>);

/// inkwell's `GlobalValue`, carried through as an opaque value.
#[verifier::external_type_specification]
#[verifier::external_body]
pub struct ExGlobalValue<'ctx>(GlobalValue<'ctx>);

/// inkwell's `BasicValueEnum`, carried through as an opaque value.
#[verifier::external_type_specification]
#[verifier::external_body]
pub struct ExBasicValueEnum<'ctx>(BasicValueEnum<'ctx>);

/// inkwell's `BasicTypeEnum`, carried through as an opaque value.
#[verifier::external_type_specification]
#[verifier::external_body]
pub struct ExBasicTypeEnum<'ctx>(BasicTypeEnum<'ctx>);

/// inkwell's `StructType`, carried through as an opaque value.
#[verifier::external_type_specification]
#[verifier::external_body]
pub struct ExStructType<'ctx>(StructType<'ctx>);

/// inkwell's `FunctionType`, carried through as an opaque value.
#[verifier::external_type_specification]
#[verifier::external_body]
pub struct ExFunctionType<'ctx>(FunctionType<'ctx>);

/// Integer comparisons, signed.
pub enum IntCmp {
    Eq,
    Ne,
    Slt,
    Sgt,
    Sle,
    Sge,
    Ugt,
}

/// Ordered floating-point comparisons.
pub enum FloatCmp {
    Oeq,
    One,
    Olt,
    Ogt,
    Ole,
    Oge,
}

/// Integer operations the builder is asked for.
pub enum IntOp {
    Add,
    Sub,
    Mul,
    SignedDiv,
    SignedRem,
    And,
    Or,
    Xor,
    Shl,
    ArithShr,
    LogicShr,
}

/// Floating-point operations the builder is asked for.
pub enum FloatOp {
    Add,
    Sub,
    Mul,
    Div,
}

/// One request made of LLVM, with the values it used and the value it gave: an
/// integer or float operation, a comparison, a branch to a block, a branch on a
/// condition to one of two blocks, an integer constant (its bits and whether
/// they are sign-extended to the type's width), a zero constant, or the initial
/// value given to a global, a search of the module for a function by name (and
/// what it found), a call of a function with its arguments (and its value);
/// and, noted by the code generator itself: the builder moved to the end of a
/// block, a value taken as an operand, a value widened to another, a selection
/// between two values on a condition (and its value), a store of a value at
/// an address, a load from an address (and the value read), and a return
/// (with its value, if any).
pub enum Emitted<'ctx> {
    IntOperation(IntOp, BasicValueEnum<'ctx>, BasicValueEnum<'ctx>, BasicValueEnum<'ctx>),
    FloatOperation(FloatOp, BasicValueEnum<'ctx>, BasicValueEnum<'ctx>, BasicValueEnum<'ctx>),
    IntComparison(IntCmp, BasicValueEnum<'ctx>, BasicValueEnum<'ctx>, BasicValueEnum<'ctx>),
    FloatComparison(FloatCmp, BasicValueEnum<'ctx>, BasicValueEnum<'ctx>, BasicValueEnum<'ctx>),
    Jump(BasicBlock<'ctx>),
    Branch(BasicValueEnum<'ctx>, BasicBlock<'ctx>, BasicBlock<'ctx>),
    IntConstant(u64, bool, BasicValueEnum<'ctx>),
    Zero(BasicValueEnum<'ctx>),
    Initializer(GlobalValue<'ctx>, BasicValueEnum<'ctx>),
    Lookup(Ghost<Seq<char>>, Option<FunctionValue<'ctx>>),
    Call(FunctionValue<'ctx>, Vec<BasicValueEnum<'ctx>>, Option<BasicValueEnum<'ctx>>),
    Position(BasicBlock<'ctx>),
    Operand(BasicValueEnum<'ctx>),
    Widen(BasicValueEnum<'ctx>, BasicValueEnum<'ctx>),
    Select(BasicValueEnum<'ctx>, BasicValueEnum<'ctx>, BasicValueEnum<'ctx>, BasicValueEnum<'ctx>),
    Store(BasicValueEnum<'ctx>, BasicValueEnum<'ctx>),
    Load(BasicValueEnum<'ctx>, BasicValueEnum<'ctx>),
    Return(Option<BasicValueEnum<'ctx>>),
}

/// The requests made of the builder so far, oldest first. The functions below
/// that build an operation or a branch record it here when the builder built it.
pub struct Trace<'ctx> {
    pub ops: Ghost<Seq<Emitted<'ctx>>>,
}

impl<'ctx> Trace<'ctx> {
    /// A record of no request.
    pub fn new() -> (r: Self)
        ensures
            r.ops@ == Seq::<Emitted<'ctx>>::empty(),
    {
        Trace { ops: Ghost(Seq::empty()) }
    }

    /// Adds `e` to the record: the library notes here the requests whose
    /// builders keep no record of their own, next to the call that made them.
    pub fn note(&mut self, e: Ghost<Emitted<'ctx>>)
        ensures
            final(self).ops@ == old(self).ops@.push(e@),
    {
        self.ops = Ghost(self.ops@.push(e@));
    }
}

// ---------------------------------------------------------------- types

/// `Context::bool_type`.
#[verifier::external_body]
pub(crate) fn bool_ty<'ctx>(c: &'ctx Context) -> BasicTypeEnum<'ctx> {
    c.bool_type().into()
}

/// `Context::i8_type`.
#[verifier::external_body]
pub(crate) fn i8_ty<'ctx>(c: &'ctx Context) -> BasicTypeEnum<'ctx> {
    c.i8_type().into()
}

/// `Context::i16_type`.
#[verifier::external_body]
pub(crate) fn i16_ty<'ctx>(c: &'ctx Context) -> BasicTypeEnum<'ctx> {
    c.i16_type().into()
}

/// `Context::i32_type`.
#[verifier::external_body]
pub(crate) fn i32_ty<'ctx>(c: &'ctx Context) -> BasicTypeEnum<'ctx> {
    c.i32_type().into()
}

/// `Context::i64_type`.
#[verifier::external_body]
pub(crate) fn i64_ty<'ctx>(c: &'ctx Context) -> BasicTypeEnum<'ctx> {
    c.i64_type().into()
}

/// `Context::f32_type`.
#[verifier::external_body]
pub(crate) fn single_ty<'ctx>(c: &'ctx Context) -> BasicTypeEnum<'ctx> {
    c.f32_type().into()
}

/// `Context::f64_type`.
#[verifier::external_body]
pub(crate) fn double_ty<'ctx>(c: &'ctx Context) -> BasicTypeEnum<'ctx> {
    c.f64_type().into()
}

/// `ptr_type` (default address space) of any basic type.
#[verifier::external_body]
pub(crate) fn ptr_to<'ctx>(t: BasicTypeEnum<'ctx>) -> BasicTypeEnum<'ctx> {
    let a = AddressSpace::default();
    match t {
        BasicTypeEnum::IntType(x) => x.ptr_type(a).into(),
        BasicTypeEnum::FloatType(x) => x.ptr_type(a).into(),
        BasicTypeEnum::PointerType(x) => x.ptr_type(a).into(),
        BasicTypeEnum::StructType(x) => x.ptr_type(a).into(),
        BasicTypeEnum::ArrayType(x) => x.ptr_type(a).into(),
        BasicTypeEnum::VectorType(x) => x.ptr_type(a).into(),
    }
}

/// `array_type` of any basic type.
#[verifier::external_body]
pub(crate) fn array_of<'ctx>(t: BasicTypeEnum<'ctx>, n: u32) -> BasicTypeEnum<'ctx> {
    match t {
        BasicTypeEnum::IntType(x) => x.array_type(n).into(),
        BasicTypeEnum::FloatType(x) => x.array_type(n).into(),
        BasicTypeEnum::PointerType(x) => x.array_type(n).into(),
        BasicTypeEnum::StructType(x) => x.array_type(n).into(),
        BasicTypeEnum::ArrayType(x) => x.array_type(n).into(),
        BasicTypeEnum::VectorType(x) => x.array_type(n).into(),
    }
}

/// `fn_type` on the return type, or on `Context::void_type` when there is none.
#[verifier::external_body]
pub(crate) fn fn_ty<'ctx>(c: &'ctx Context, ret: Option<BasicTypeEnum<'ctx>>, params: &Vec<BasicTypeEnum<'ctx>>, var_args: bool) -> FunctionType<'ctx> {
    let ps: Vec<BasicMetadataTypeEnum<'ctx>> = params.iter().map(|p| (*p).into()).collect();
    match ret {
        None => c.void_type().fn_type(&ps, var_args),
        Some(BasicTypeEnum::IntType(x)) => x.fn_type(&ps, var_args),
        Some(BasicTypeEnum::FloatType(x)) => x.fn_type(&ps, var_args),
        Some(BasicTypeEnum::PointerType(x)) => x.fn_type(&ps, var_args),
        Some(BasicTypeEnum::StructType(x)) => x.fn_type(&ps, var_args),
        Some(BasicTypeEnum::ArrayType(x)) => x.fn_type(&ps, var_args),
        Some(BasicTypeEnum::VectorType(x)) => x.fn_type(&ps, var_args),
    }
}

/// `Context::opaque_struct_type`: a named struct whose body is set later.
#[verifier::external_body]
pub(crate) fn named_struct<'ctx>(c: &'ctx Context, name: &str) -> StructType<'ctx> {
    c.opaque_struct_type(name)
}

/// `Context::struct_type` (not packed).
#[verifier::external_body]
pub(crate) fn literal_struct<'ctx>(c: &'ctx Context, fields: &Vec<BasicTypeEnum<'ctx>>) -> StructType<'ctx> {
    c.struct_type(fields.as_slice(), false)
}

/// `StructType::set_body` (not packed).
#[verifier::external_body]
pub(crate) fn set_struct_body<'ctx>(st: StructType<'ctx>, fields: &Vec<BasicTypeEnum<'ctx>>) -> bool {
    st.set_body(fields.as_slice(), false)
}

/// A struct type as a basic type.
#[verifier::external_body]
pub(crate) fn struct_basic<'ctx>(st: StructType<'ctx>) -> BasicTypeEnum<'ctx> {
    st.into()
}

/// `BasicTypeEnum::size_of`: the allocation size of a type, as an `i64` constant.
#[verifier::external_body]
pub(crate) fn size_of_ty<'ctx>(t: BasicTypeEnum<'ctx>) -> Option<BasicValueEnum<'ctx>> {
    t.size_of().map(|v| v.into())
}

// ---------------------------------------------------------------- constants

/// `BasicTypeEnum::const_zero`.
#[verifier::external_body]
pub(crate) fn zero_of<'ctx>(t: BasicTypeEnum<'ctx>, tr: &mut Trace<'ctx>) -> (v: BasicValueEnum<'ctx>)
    ensures
        final(tr).ops@ == old(tr).ops@.push(Emitted::Zero(v)),
{
    t.const_zero()
}

/// `IntType::const_int` of an integer type.
#[verifier::external_body]
pub(crate) fn const_int<'ctx>(t: BasicTypeEnum<'ctx>, tr: &mut Trace<'ctx>, v: u64, sign_extend: bool)
    -> (r: Option<BasicValueEnum<'ctx>>)
    ensures
        match r {
            Some(x) => final(tr).ops@ == old(tr).ops@.push(Emitted::IntConstant(v, sign_extend, x)),
            None => final(tr).ops@ == old(tr).ops@,
        },
{
    match t {
        BasicTypeEnum::IntType(x) => Some(x.const_int(v, sign_extend).into()),
        _ => None,
    }
}

/// `IntType::const_array` of an integer element type over integer constants.
#[verifier::external_body]
pub(crate) fn const_int_array<'ctx>(t: BasicTypeEnum<'ctx>, vals: &Vec<BasicValueEnum<'ctx>>) -> Option<BasicValueEnum<'ctx>> {
    let ints: Option<Vec<_>> = vals.iter().map(|v| match v { BasicValueEnum::IntValue(i) => Some(*i), _ => None }).collect();
    match (t, ints) {
        (BasicTypeEnum::IntType(x), Some(is)) => Some(x.const_array(&is).into()),
        _ => None,
    }
}

/// `FloatType::const_array` of a floating element type over floating constants.
#[verifier::external_body]
pub(crate) fn const_float_array<'ctx>(t: BasicTypeEnum<'ctx>, vals: &Vec<BasicValueEnum<'ctx>>) -> Option<BasicValueEnum<'ctx>> {
    let fs: Option<Vec<_>> = vals.iter().map(|v| match v { BasicValueEnum::FloatValue(f) => Some(*f), _ => None }).collect();
    match (t, fs) {
        (BasicTypeEnum::FloatType(x), Some(xs)) => Some(x.const_array(&xs).into()),
        _ => None,
    }
}

// ---------------------------------------------------------------- module

/// `Context::create`: a new LLVM context.
#[verifier::external_body]
pub(crate) fn create_context() -> Context {
    Context::create()
}

/// `Context::create_module`: a new, empty module of that name.
#[verifier::external_body]
pub(crate) fn create_module<'ctx>(c: &'ctx Context, name: &str) -> Module<'ctx> {
    c.create_module(name)
}

/// `Context::create_builder`.
#[verifier::external_body]
pub(crate) fn create_builder<'ctx>(c: &'ctx Context) -> Builder<'ctx> {
    c.create_builder()
}

/// `Module::verify`: LLVM's own check of the module, with its report when it fails.
/// Whether it passes is LLVM's to say; nothing is claimed of it here.
#[verifier::external_body]
pub(crate) fn verify_module<'ctx>(m: &Module<'ctx>) -> Result<(), String> {
    m.verify().map_err(|e| e.to_string())
}

/// `Module::print_to_string`: the module's textual IR.
#[verifier::external_body]
pub(crate) fn module_ir<'ctx>(m: &Module<'ctx>) -> String {
    m.print_to_string().to_string()
}

/// `Module::add_function` (default linkage).
#[verifier::external_body]
pub(crate) fn add_function<'ctx>(m: &Module<'ctx>, name: &str, ty: FunctionType<'ctx>) -> FunctionValue<'ctx> {
    m.add_function(name, ty, None)
}

/// `Module::get_global`.
#[verifier::external_body]
pub(crate) fn get_global<'ctx>(m: &Module<'ctx>, name: &str) -> Option<GlobalValue<'ctx>> {
    m.get_global(name)
}

/// The return type of a function (`None` for `void`).
#[verifier::external_body]
pub(crate) fn fn_return_type<'ctx>(f: FunctionValue<'ctx>) -> Option<BasicTypeEnum<'ctx>> {
    f.get_type().get_return_type()
}

/// The type of a function's parameter `n`, if it has one.
#[verifier::external_body]
pub(crate) fn fn_param_type<'ctx>(f: FunctionValue<'ctx>, n: u32) -> Option<BasicTypeEnum<'ctx>> {
    f.get_type().get_param_types().get(n as usize).copied()
}

/// Whether two LLVM types are the same type.
#[verifier::external_body]
pub(crate) fn same_type<'ctx>(a: BasicTypeEnum<'ctx>, b: BasicTypeEnum<'ctx>) -> bool {
    a == b
}

/// Whether an LLVM type is a pointer type.
#[verifier::external_body]
pub(crate) fn is_pointer_type<'ctx>(t: BasicTypeEnum<'ctx>) -> bool {
    t.is_pointer_type()
}

/// `FunctionType::ptr_type`: the type of pointers to functions of that type.
#[verifier::external_body]
pub(crate) fn fn_ptr_ty<'ctx>(t: FunctionType<'ctx>) -> BasicTypeEnum<'ctx> {
    t.ptr_type(AddressSpace::default()).into()
}

/// `Module::get_function`.
#[verifier::external_body]
pub(crate) fn get_function<'ctx>(m: &Module<'ctx>, tr: &mut Trace<'ctx>, name: &str) -> (r: Option<FunctionValue<'ctx>>)
    ensures
        final(tr).ops@ == old(tr).ops@.push(Emitted::Lookup(Ghost(name@), r)),
{
    m.get_function(name)
}

/// `Module::add_global` (default address space).
#[verifier::external_body]
pub(crate) fn add_global<'ctx>(m: &Module<'ctx>, t: BasicTypeEnum<'ctx>, name: &str) -> GlobalValue<'ctx> {
    m.add_global(t, None, name)
}

/// `GlobalValue::set_initializer`.
#[verifier::external_body]
pub(crate) fn set_initializer<'ctx>(g: GlobalValue<'ctx>, tr: &mut Trace<'ctx>, v: BasicValueEnum<'ctx>)
    ensures
        final(tr).ops@ == old(tr).ops@.push(Emitted::Initializer(g, v)),
{
    g.set_initializer(&v)
}

/// `GlobalValue::as_pointer_value`.
#[verifier::external_body]
pub(crate) fn global_ptr<'ctx>(g: GlobalValue<'ctx>) -> BasicValueEnum<'ctx> {
    g.as_pointer_value().into()
}

/// `FunctionValue::as_global_value`, as a pointer.
#[verifier::external_body]
pub(crate) fn function_ptr<'ctx>(f: FunctionValue<'ctx>) -> BasicValueEnum<'ctx> {
    f.as_global_value().as_pointer_value().into()
}

/// `FunctionValue::get_nth_param`.
#[verifier::external_body]
pub(crate) fn param<'ctx>(f: FunctionValue<'ctx>, n: u32) -> Option<BasicValueEnum<'ctx>> {
    f.get_nth_param(n)
}

/// `BasicValueEnum::set_name`.
#[verifier::external_body]
pub(crate) fn set_value_name<'ctx>(v: BasicValueEnum<'ctx>, name: &str) {
    v.set_name(name)
}

// ---------------------------------------------------------------- blocks

/// `Context::append_basic_block`.
#[verifier::external_body]
pub(crate) fn append_block<'ctx>(c: &'ctx Context, f: FunctionValue<'ctx>, name: &str) -> BasicBlock<'ctx> {
    c.append_basic_block(f, name)
}

/// `Builder::position_at_end`.
#[verifier::external_body]
pub(crate) fn position_at_end<'ctx>(b: &Builder<'ctx>, bb: BasicBlock<'ctx>) {
    b.position_at_end(bb)
}

/// `Builder::get_insert_block`.
#[verifier::external_body]
pub(crate) fn insert_block<'ctx>(b: &Builder<'ctx>) -> Option<BasicBlock<'ctx>> {
    b.get_insert_block()
}

/// Whether `BasicBlock::get_terminator` finds a terminator.
#[verifier::external_body]
pub(crate) fn has_terminator<'ctx>(bb: BasicBlock<'ctx>) -> bool {
    bb.get_terminator().is_some()
}

// ---------------------------------------------------------------- memory

/// `Builder::build_alloca`.
#[verifier::external_body]
pub(crate) fn alloca<'ctx>(b: &Builder<'ctx>, t: BasicTypeEnum<'ctx>, name: &str) -> Option<BasicValueEnum<'ctx>> {
    b.build_alloca(t, name).ok().map(|p| p.into())
}

/// `Builder::build_array_alloca` with an integer count.
#[verifier::external_body]
pub(crate) fn array_alloca<'ctx>(b: &Builder<'ctx>, t: BasicTypeEnum<'ctx>, n: BasicValueEnum<'ctx>, name: &str) -> Option<BasicValueEnum<'ctx>> {
    match n {
        BasicValueEnum::IntValue(i) => b.build_array_alloca(t, i, name).ok().map(|p| p.into()),
        _ => None,
    }
}

/// `Builder::build_store` through a pointer.
#[verifier::external_body]
pub(crate) fn store<'ctx>(b: &Builder<'ctx>, ptr: BasicValueEnum<'ctx>, v: BasicValueEnum<'ctx>) -> bool {
    match ptr {
        BasicValueEnum::PointerValue(p) => b.build_store(p, v).is_ok(),
        _ => false,
    }
}

/// `Builder::build_load` through a pointer (the loaded type is the pointee's).
/// A pointer to a function or to `void` is refused (`None`): nothing can be
/// loaded through it, and inkwell would panic on the value.
#[verifier::external_body]
pub(crate) fn load<'ctx>(b: &Builder<'ctx>, ptr: BasicValueEnum<'ctx>, name: &str) -> Option<BasicValueEnum<'ctx>> {
    match ptr {
        BasicValueEnum::PointerValue(p) => match p.get_type().get_element_type() {
            AnyTypeEnum::FunctionType(_) => None,
            AnyTypeEnum::VoidType(_) => None,
            _ => b.build_load(p, name).ok(),
        },
        _ => None,
    }
}

/// `Builder::build_struct_gep`: the address of field `idx` of the struct `ptr` points to.
#[verifier::external_body]
pub(crate) fn struct_field_ptr<'ctx>(b: &Builder<'ctx>, ptr: BasicValueEnum<'ctx>, idx: u32, name: &str) -> Option<BasicValueEnum<'ctx>> {
    match ptr {
        BasicValueEnum::PointerValue(p) => b.build_struct_gep(p, idx, name).ok().map(|v| v.into()),
        _ => None,
    }
}

/// `Builder::build_ptr_to_int` to the integer type `t`.
#[verifier::external_body]
pub(crate) fn ptr_to_int<'ctx>(b: &Builder<'ctx>, ptr: BasicValueEnum<'ctx>, t: BasicTypeEnum<'ctx>, name: &str) -> Option<BasicValueEnum<'ctx>> {
    match (ptr, t) {
        (BasicValueEnum::PointerValue(p), BasicTypeEnum::IntType(i)) => b.build_ptr_to_int(p, i, name).ok().map(|v| v.into()),
        _ => None,
    }
}

/// `Builder::build_int_to_ptr` to the pointer type `t`.
#[verifier::external_body]
pub(crate) fn int_to_ptr<'ctx>(b: &Builder<'ctx>, v: BasicValueEnum<'ctx>, t: BasicTypeEnum<'ctx>, name: &str) -> Option<BasicValueEnum<'ctx>> {
    match (v, t) {
        (BasicValueEnum::IntValue(i), BasicTypeEnum::PointerType(p)) => b.build_int_to_ptr(i, p, name).ok().map(|x| x.into()),
        _ => None,
    }
}

/// `Builder::build_bit_cast`.
#[verifier::external_body]
pub(crate) fn bit_cast<'ctx>(b: &Builder<'ctx>, v: BasicValueEnum<'ctx>, t: BasicTypeEnum<'ctx>, name: &str) -> Option<BasicValueEnum<'ctx>> {
    b.build_bit_cast(v, t, name).ok()
}

/// `Builder::build_global_string_ptr`, as a pointer to the string's first byte.
#[verifier::external_body]
pub(crate) fn global_string<'ctx>(b: &Builder<'ctx>, s: &str, name: &str) -> Option<BasicValueEnum<'ctx>> {
    b.build_global_string_ptr(s, name).ok().map(|g| g.as_pointer_value().into())
}

/// `Builder::build_insert_value` into a struct value.
#[verifier::external_body]
pub(crate) fn insert_value<'ctx>(b: &Builder<'ctx>, agg: BasicValueEnum<'ctx>, v: BasicValueEnum<'ctx>, idx: u32, name: &str) -> Option<BasicValueEnum<'ctx>> {
    match agg {
        BasicValueEnum::StructValue(s) => b.build_insert_value(s, v, idx, name).ok().map(|x| x.into_struct_value().into()),
        _ => None,
    }
}

// ---------------------------------------------------------------- arithmetic

/// `Builder::build_int_add`.
#[verifier::external_body]
pub(crate) fn int_add<'ctx>(b: &Builder<'ctx>, t: &mut Trace<'ctx>, l: BasicValueEnum<'ctx>, r: BasicValueEnum<'ctx>, name: &str)
    -> (v: Option<BasicValueEnum<'ctx>>)
    ensures
        match v {
            Some(x) => final(t).ops@ == old(t).ops@.push(Emitted::IntOperation(IntOp::Add, l, r, x)),
            None => final(t).ops@ == old(t).ops@,
        },
{
    match (l, r) {
        (BasicValueEnum::IntValue(x), BasicValueEnum::IntValue(y)) => b.build_int_add(x, y, name).ok().map(|v| v.into()),
        _ => None,
    }
}

/// `Builder::build_int_sub`.
#[verifier::external_body]
pub(crate) fn int_sub<'ctx>(b: &Builder<'ctx>, t: &mut Trace<'ctx>, l: BasicValueEnum<'ctx>, r: BasicValueEnum<'ctx>, name: &str)
    -> (v: Option<BasicValueEnum<'ctx>>)
    ensures
        match v {
            Some(x) => final(t).ops@ == old(t).ops@.push(Emitted::IntOperation(IntOp::Sub, l, r, x)),
            None => final(t).ops@ == old(t).ops@,
        },
{
    match (l, r) {
        (BasicValueEnum::IntValue(x), BasicValueEnum::IntValue(y)) => b.build_int_sub(x, y, name).ok().map(|v| v.into()),
        _ => None,
    }
}

/// `Builder::build_int_mul`.
#[verifier::external_body]
pub(crate) fn int_mul<'ctx>(b: &Builder<'ctx>, t: &mut Trace<'ctx>, l: BasicValueEnum<'ctx>, r: BasicValueEnum<'ctx>, name: &str)
    -> (v: Option<BasicValueEnum<'ctx>>)
    ensures
        match v {
            Some(x) => final(t).ops@ == old(t).ops@.push(Emitted::IntOperation(IntOp::Mul, l, r, x)),
            None => final(t).ops@ == old(t).ops@,
        },
{
    match (l, r) {
        (BasicValueEnum::IntValue(x), BasicValueEnum::IntValue(y)) => b.build_int_mul(x, y, name).ok().map(|v| v.into()),
        _ => None,
    }
}

/// `Builder::build_int_signed_div`.
#[verifier::external_body]
pub(crate) fn int_sdiv<'ctx>(b: &Builder<'ctx>, t: &mut Trace<'ctx>, l: BasicValueEnum<'ctx>, r: BasicValueEnum<'ctx>, name: &str)
    -> (v: Option<BasicValueEnum<'ctx>>)
    ensures
        match v {
            Some(x) => final(t).ops@ == old(t).ops@.push(Emitted::IntOperation(IntOp::SignedDiv, l, r, x)),
            None => final(t).ops@ == old(t).ops@,
        },
{
    match (l, r) {
        (BasicValueEnum::IntValue(x), BasicValueEnum::IntValue(y)) => b.build_int_signed_div(x, y, name).ok().map(|v| v.into()),
        _ => None,
    }
}

/// `Builder::build_int_signed_rem`.
#[verifier::external_body]
pub(crate) fn int_srem<'ctx>(b: &Builder<'ctx>, t: &mut Trace<'ctx>, l: BasicValueEnum<'ctx>, r: BasicValueEnum<'ctx>, name: &str)
    -> (v: Option<BasicValueEnum<'ctx>>)
    ensures
        match v {
            Some(x) => final(t).ops@ == old(t).ops@.push(Emitted::IntOperation(IntOp::SignedRem, l, r, x)),
            None => final(t).ops@ == old(t).ops@,
        },
{
    match (l, r) {
        (BasicValueEnum::IntValue(x), BasicValueEnum::IntValue(y)) => b.build_int_signed_rem(x, y, name).ok().map(|v| v.into()),
        _ => None,
    }
}

/// `Builder::build_and`.
#[verifier::external_body]
pub(crate) fn int_and<'ctx>(b: &Builder<'ctx>, t: &mut Trace<'ctx>, l: BasicValueEnum<'ctx>, r: BasicValueEnum<'ctx>, name: &str)
    -> (v: Option<BasicValueEnum<'ctx>>)
    ensures
        match v {
            Some(x) => final(t).ops@ == old(t).ops@.push(Emitted::IntOperation(IntOp::And, l, r, x)),
            None => final(t).ops@ == old(t).ops@,
        },
{
    match (l, r) {
        (BasicValueEnum::IntValue(x), BasicValueEnum::IntValue(y)) => b.build_and(x, y, name).ok().map(|v| v.into()),
        _ => None,
    }
}

/// `Builder::build_or`.
#[verifier::external_body]
pub(crate) fn int_or<'ctx>(b: &Builder<'ctx>, t: &mut Trace<'ctx>, l: BasicValueEnum<'ctx>, r: BasicValueEnum<'ctx>, name: &str)
    -> (v: Option<BasicValueEnum<'ctx>>)
    ensures
        match v {
            Some(x) => final(t).ops@ == old(t).ops@.push(Emitted::IntOperation(IntOp::Or, l, r, x)),
            None => final(t).ops@ == old(t).ops@,
        },
{
    match (l, r) {
        (BasicValueEnum::IntValue(x), BasicValueEnum::IntValue(y)) => b.build_or(x, y, name).ok().map(|v| v.into()),
        _ => None,
    }
}

/// `Builder::build_xor`.
#[verifier::external_body]
pub(crate) fn int_xor<'ctx>(b: &Builder<'ctx>, t: &mut Trace<'ctx>, l: BasicValueEnum<'ctx>, r: BasicValueEnum<'ctx>, name: &str)
    -> (v: Option<BasicValueEnum<'ctx>>)
    ensures
        match v {
            Some(x) => final(t).ops@ == old(t).ops@.push(Emitted::IntOperation(IntOp::Xor, l, r, x)),
            None => final(t).ops@ == old(t).ops@,
        },
{
    match (l, r) {
        (BasicValueEnum::IntValue(x), BasicValueEnum::IntValue(y)) => b.build_xor(x, y, name).ok().map(|v| v.into()),
        _ => None,
    }
}

/// `Builder::build_left_shift`.
#[verifier::external_body]
pub(crate) fn int_shl<'ctx>(b: &Builder<'ctx>, t: &mut Trace<'ctx>, l: BasicValueEnum<'ctx>, r: BasicValueEnum<'ctx>, name: &str)
    -> (v: Option<BasicValueEnum<'ctx>>)
    ensures
        match v {
            Some(x) => final(t).ops@ == old(t).ops@.push(Emitted::IntOperation(IntOp::Shl, l, r, x)),
            None => final(t).ops@ == old(t).ops@,
        },
{
    match (l, r) {
        (BasicValueEnum::IntValue(x), BasicValueEnum::IntValue(y)) => b.build_left_shift(x, y, name).ok().map(|v| v.into()),
        _ => None,
    }
}

/// `Builder::build_right_shift`, arithmetic (sign-filling).
#[verifier::external_body]
pub(crate) fn int_ashr<'ctx>(b: &Builder<'ctx>, t: &mut Trace<'ctx>, l: BasicValueEnum<'ctx>, r: BasicValueEnum<'ctx>, name: &str)
    -> (v: Option<BasicValueEnum<'ctx>>)
    ensures
        match v {
            Some(x) => final(t).ops@ == old(t).ops@.push(Emitted::IntOperation(IntOp::ArithShr, l, r, x)),
            None => final(t).ops@ == old(t).ops@,
        },
{
    match (l, r) {
        (BasicValueEnum::IntValue(x), BasicValueEnum::IntValue(y)) => b.build_right_shift(x, y, true, name).ok().map(|v| v.into()),
        _ => None,
    }
}

/// `Builder::build_right_shift`, logical (zero-filling).
#[verifier::external_body]
pub(crate) fn int_lshr<'ctx>(b: &Builder<'ctx>, t: &mut Trace<'ctx>, l: BasicValueEnum<'ctx>, r: BasicValueEnum<'ctx>, name: &str)
    -> (v: Option<BasicValueEnum<'ctx>>)
    ensures
        match v {
            Some(x) => final(t).ops@ == old(t).ops@.push(Emitted::IntOperation(IntOp::LogicShr, l, r, x)),
            None => final(t).ops@ == old(t).ops@,
        },
{
    match (l, r) {
        (BasicValueEnum::IntValue(x), BasicValueEnum::IntValue(y)) => b.build_right_shift(x, y, false, name).ok().map(|v| v.into()),
        _ => None,
    }
}

/// `Builder::build_int_compare`.
#[verifier::external_body]
pub(crate) fn int_compare<'ctx>(b: &Builder<'ctx>, t: &mut Trace<'ctx>, pred: IntCmp, l: BasicValueEnum<'ctx>, r: BasicValueEnum<'ctx>, name: &str)
    -> (v: Option<BasicValueEnum<'ctx>>)
    ensures
        match v {
            Some(x) => final(t).ops@ == old(t).ops@.push(Emitted::IntComparison(pred, l, r, x)),
            None => final(t).ops@ == old(t).ops@,
        },
{
    let p = match pred {
        IntCmp::Eq => IntPredicate::EQ,
        IntCmp::Ne => IntPredicate::NE,
        IntCmp::Slt => IntPredicate::SLT,
        IntCmp::Sgt => IntPredicate::SGT,
        IntCmp::Sle => IntPredicate::SLE,
        IntCmp::Sge => IntPredicate::SGE,
        IntCmp::Ugt => IntPredicate::UGT,
    };
    match (l, r) {
        (BasicValueEnum::IntValue(x), BasicValueEnum::IntValue(y)) => b.build_int_compare(p, x, y, name).ok().map(|v| v.into()),
        _ => None,
    }
}

/// `Builder::build_int_neg`.
#[verifier::external_body]
pub(crate) fn int_neg<'ctx>(b: &Builder<'ctx>, v: BasicValueEnum<'ctx>, name: &str) -> Option<BasicValueEnum<'ctx>> {
    match v {
        BasicValueEnum::IntValue(x) => b.build_int_neg(x, name).ok().map(|v| v.into()),
        _ => None,
    }
}

/// `Builder::build_float_add`.
#[verifier::external_body]
pub(crate) fn float_add<'ctx>(b: &Builder<'ctx>, t: &mut Trace<'ctx>, l: BasicValueEnum<'ctx>, r: BasicValueEnum<'ctx>, name: &str)
    -> (v: Option<BasicValueEnum<'ctx>>)
    ensures
        match v {
            Some(x) => final(t).ops@ == old(t).ops@.push(Emitted::FloatOperation(FloatOp::Add, l, r, x)),
            None => final(t).ops@ == old(t).ops@,
        },
{
    match (l, r) {
        (BasicValueEnum::FloatValue(x), BasicValueEnum::FloatValue(y)) => b.build_float_add(x, y, name).ok().map(|v| v.into()),
        _ => None,
    }
}

/// `Builder::build_float_sub`.
#[verifier::external_body]
pub(crate) fn float_sub<'ctx>(b: &Builder<'ctx>, t: &mut Trace<'ctx>, l: BasicValueEnum<'ctx>, r: BasicValueEnum<'ctx>, name: &str)
    -> (v: Option<BasicValueEnum<'ctx>>)
    ensures
        match v {
            Some(x) => final(t).ops@ == old(t).ops@.push(Emitted::FloatOperation(FloatOp::Sub, l, r, x)),
            None => final(t).ops@ == old(t).ops@,
        },
{
    match (l, r) {
        (BasicValueEnum::FloatValue(x), BasicValueEnum::FloatValue(y)) => b.build_float_sub(x, y, name).ok().map(|v| v.into()),
        _ => None,
    }
}

/// `Builder::build_float_mul`.
#[verifier::external_body]
pub(crate) fn float_mul<'ctx>(b: &Builder<'ctx>, t: &mut Trace<'ctx>, l: BasicValueEnum<'ctx>, r: BasicValueEnum<'ctx>, name: &str)
    -> (v: Option<BasicValueEnum<'ctx>>)
    ensures
        match v {
            Some(x) => final(t).ops@ == old(t).ops@.push(Emitted::FloatOperation(FloatOp::Mul, l, r, x)),
            None => final(t).ops@ == old(t).ops@,
        },
{
    match (l, r) {
        (BasicValueEnum::FloatValue(x), BasicValueEnum::FloatValue(y)) => b.build_float_mul(x, y, name).ok().map(|v| v.into()),
        _ => None,
    }
}

/// `Builder::build_float_div`.
#[verifier::external_body]
pub(crate) fn float_div<'ctx>(b: &Builder<'ctx>, t: &mut Trace<'ctx>, l: BasicValueEnum<'ctx>, r: BasicValueEnum<'ctx>, name: &str)
    -> (v: Option<BasicValueEnum<'ctx>>)
    ensures
        match v {
            Some(x) => final(t).ops@ == old(t).ops@.push(Emitted::FloatOperation(FloatOp::Div, l, r, x)),
            None => final(t).ops@ == old(t).ops@,
        },
{
    match (l, r) {
        (BasicValueEnum::FloatValue(x), BasicValueEnum::FloatValue(y)) => b.build_float_div(x, y, name).ok().map(|v| v.into()),
        _ => None,
    }
}

/// `Builder::build_float_compare`.
#[verifier::external_body]
pub(crate) fn float_compare<'ctx>(b: &Builder<'ctx>, t: &mut Trace<'ctx>, pred: FloatCmp, l: BasicValueEnum<'ctx>, r: BasicValueEnum<'ctx>, name: &str)
    -> (v: Option<BasicValueEnum<'ctx>>)
    ensures
        match v {
            Some(x) => final(t).ops@ == old(t).ops@.push(Emitted::FloatComparison(pred, l, r, x)),
            None => final(t).ops@ == old(t).ops@,
        },
{
    let p = match pred {
        FloatCmp::Oeq => FloatPredicate::OEQ,
        FloatCmp::One => FloatPredicate::ONE,
        FloatCmp::Olt => FloatPredicate::OLT,
        FloatCmp::Ogt => FloatPredicate::OGT,
        FloatCmp::Ole => FloatPredicate::OLE,
        FloatCmp::Oge => FloatPredicate::OGE,
    };
    match (l, r) {
        (BasicValueEnum::FloatValue(x), BasicValueEnum::FloatValue(y)) => b.build_float_compare(p, x, y, name).ok().map(|v| v.into()),
        _ => None,
    }
}

/// `Builder::build_float_neg`.
#[verifier::external_body]
pub(crate) fn float_neg<'ctx>(b: &Builder<'ctx>, v: BasicValueEnum<'ctx>, name: &str) -> Option<BasicValueEnum<'ctx>> {
    match v {
        BasicValueEnum::FloatValue(x) => b.build_float_neg(x, name).ok().map(|v| v.into()),
        _ => None,
    }
}

/// `Builder::build_select` on an `i1` condition.
#[verifier::external_body]
pub(crate) fn select<'ctx>(b: &Builder<'ctx>, c: BasicValueEnum<'ctx>, t: BasicValueEnum<'ctx>, e: BasicValueEnum<'ctx>, name: &str) -> Option<BasicValueEnum<'ctx>> {
    match c {
        BasicValueEnum::IntValue(x) => b.build_select(x, t, e, name).ok(),
        _ => None,
    }
}

// ---------------------------------------------------------------- conversions

/// `Builder::build_int_s_extend` to the integer type `t`.
#[verifier::external_body]
pub(crate) fn sext<'ctx>(b: &Builder<'ctx>, v: BasicValueEnum<'ctx>, t: BasicTypeEnum<'ctx>, name: &str) -> Option<BasicValueEnum<'ctx>> {
    match (v, t) {
        (BasicValueEnum::IntValue(x), BasicTypeEnum::IntType(i)) => b.build_int_s_extend(x, i, name).ok().map(|v| v.into()),
        _ => None,
    }
}

/// `Builder::build_int_z_extend` to the integer type `t`.
#[verifier::external_body]
pub(crate) fn zext<'ctx>(b: &Builder<'ctx>, v: BasicValueEnum<'ctx>, t: BasicTypeEnum<'ctx>, name: &str) -> Option<BasicValueEnum<'ctx>> {
    match (v, t) {
        (BasicValueEnum::IntValue(x), BasicTypeEnum::IntType(i)) => b.build_int_z_extend(x, i, name).ok().map(|v| v.into()),
        _ => None,
    }
}

/// `Builder::build_int_truncate` to the integer type `t`.
#[verifier::external_body]
pub(crate) fn trunc<'ctx>(b: &Builder<'ctx>, v: BasicValueEnum<'ctx>, t: BasicTypeEnum<'ctx>, name: &str) -> Option<BasicValueEnum<'ctx>> {
    match (v, t) {
        (BasicValueEnum::IntValue(x), BasicTypeEnum::IntType(i)) => b.build_int_truncate(x, i, name).ok().map(|v| v.into()),
        _ => None,
    }
}

/// `Builder::build_signed_int_to_float` to the floating type `t`.
#[verifier::external_body]
pub(crate) fn sitofp<'ctx>(b: &Builder<'ctx>, v: BasicValueEnum<'ctx>, t: BasicTypeEnum<'ctx>, name: &str) -> Option<BasicValueEnum<'ctx>> {
    match (v, t) {
        (BasicValueEnum::IntValue(x), BasicTypeEnum::FloatType(f)) => b.build_signed_int_to_float(x, f, name).ok().map(|v| v.into()),
        _ => None,
    }
}

/// `Builder::build_float_to_signed_int` to the integer type `t`.
#[verifier::external_body]
pub(crate) fn fptosi<'ctx>(b: &Builder<'ctx>, v: BasicValueEnum<'ctx>, t: BasicTypeEnum<'ctx>, name: &str) -> Option<BasicValueEnum<'ctx>> {
    match (v, t) {
        (BasicValueEnum::FloatValue(x), BasicTypeEnum::IntType(i)) => b.build_float_to_signed_int(x, i, name).ok().map(|v| v.into()),
        _ => None,
    }
}

/// `Builder::build_float_ext` to the floating type `t`.
#[verifier::external_body]
pub(crate) fn fpext<'ctx>(b: &Builder<'ctx>, v: BasicValueEnum<'ctx>, t: BasicTypeEnum<'ctx>, name: &str) -> Option<BasicValueEnum<'ctx>> {
    match (v, t) {
        (BasicValueEnum::FloatValue(x), BasicTypeEnum::FloatType(f)) => b.build_float_ext(x, f, name).ok().map(|v| v.into()),
        _ => None,
    }
}

/// `Builder::build_float_trunc` to the floating type `t`.
#[verifier::external_body]
pub(crate) fn fptrunc<'ctx>(b: &Builder<'ctx>, v: BasicValueEnum<'ctx>, t: BasicTypeEnum<'ctx>, name: &str) -> Option<BasicValueEnum<'ctx>> {
    match (v, t) {
        (BasicValueEnum::FloatValue(x), BasicTypeEnum::FloatType(f)) => b.build_float_trunc(x, f, name).ok().map(|v| v.into()),
        _ => None,
    }
}

// ---------------------------------------------------------------- control

/// `Builder::build_call`; `Some(None)` for a call of a `void` function.
#[verifier::external_body]
pub(crate) fn call<'ctx>(b: &Builder<'ctx>, tr: &mut Trace<'ctx>, f: FunctionValue<'ctx>, args: &Vec<BasicValueEnum<'ctx>>, name: &str)
    -> (r: Option<Option<BasicValueEnum<'ctx>>>)
    ensures
        match r {
            Some(x) => final(tr).ops@ == old(tr).ops@.push(Emitted::Call(f, *args, x)),
            None => final(tr).ops@ == old(tr).ops@,
        },
{
    let xs: Vec<BasicMetadataValueEnum<'ctx>> = args.iter().map(|a| (*a).into()).collect();
    b.build_call(f, &xs, name).ok().map(|c| c.try_as_basic_value().left())
}

/// `Builder::build_call` through a function pointer (`None` when the value is no
/// pointer to a function).
#[verifier::external_body]
pub(crate) fn call_pointer<'ctx>(b: &Builder<'ctx>, callee: BasicValueEnum<'ctx>, args: &Vec<BasicValueEnum<'ctx>>, name: &str) -> Option<Option<BasicValueEnum<'ctx>>> {
    let p = match callee { BasicValueEnum::PointerValue(p) => p, _ => return None };
    let f = CallableValue::try_from(p).ok()?;
    let xs: Vec<BasicMetadataValueEnum<'ctx>> = args.iter().map(|a| (*a).into()).collect();
    b.build_call(f, &xs, name).ok().map(|c| c.try_as_basic_value().left())
}

/// `Builder::build_is_null` on a pointer value.
#[verifier::external_body]
pub(crate) fn is_null<'ctx>(b: &Builder<'ctx>, v: BasicValueEnum<'ctx>, name: &str) -> Option<BasicValueEnum<'ctx>> {
    match v {
        BasicValueEnum::PointerValue(p) => b.build_is_null(p, name).ok().map(|x| x.into()),
        _ => None,
    }
}

/// `Builder::build_return`.
#[verifier::external_body]
pub(crate) fn ret<'ctx>(b: &Builder<'ctx>, v: Option<BasicValueEnum<'ctx>>) -> bool {
    match v {
        Some(x) => b.build_return(Some(&x)).is_ok(),
        None => b.build_return(None).is_ok(),
    }
}

/// `Builder::build_unconditional_branch`.
#[verifier::external_body]
pub(crate) fn br<'ctx>(b: &Builder<'ctx>, t: &mut Trace<'ctx>, bb: BasicBlock<'ctx>) -> (r: bool)
    ensures
        r ==> final(t).ops@ == old(t).ops@.push(Emitted::Jump(bb)),
        !r ==> final(t).ops@ == old(t).ops@,
{
    b.build_unconditional_branch(bb).is_ok()
}

/// `Builder::build_conditional_branch` on an `i1` condition.
#[verifier::external_body]
pub(crate) fn cond_br<'ctx>(b: &Builder<'ctx>, tr: &mut Trace<'ctx>, c: BasicValueEnum<'ctx>, t: BasicBlock<'ctx>, e: BasicBlock<'ctx>) -> (r: bool)
    ensures
        r ==> final(tr).ops@ == old(tr).ops@.push(Emitted::Branch(c, t, e)),
        !r ==> final(tr).ops@ == old(tr).ops@,
{
    match c {
        BasicValueEnum::IntValue(x) => b.build_conditional_branch(x, t, e).is_ok(),
        _ => false,
    }
}

} // verus!

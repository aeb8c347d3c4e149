//! Expressions: literals, variables, array elements, operators, casts, struct values.
use vstd::prelude::*;
use inkwell::values::BasicValueEnum;
use crate::ast::{BinaryOp, Expression, UnaryOp, Type, type_m};
use crate::llvm;
use crate::text::{text, text_eq};
use crate::vtype::{VType, VTypeM, vt_m, conv_spec, binary_spec, str_vtype, str_m, fits_i32, literal_width, cast_op, cast_spec, CastOp};
use super::{Codegen, Val, cat, cat3, undefined_variable, builder_failed, built, build_failure};
use super::builtin::{is_builtin, builtin_arity_error};
use super::call::{internal_name_spec, calls_found, passes_args};

verus! {

broadcast use crate::codegen::Codegen::lemma_same_but_emitted;

/// `i` is the position of the first of `names` that is `field`.
pub open spec fn first_field_at(names: Seq<Seq<char>>, field: Seq<char>, i: int) -> bool {
    0 <= i < names.len() && names[i] == field && forall|j: int| 0 <= j < i ==> names[j] != field
}

/// `field` is among `names`.
pub open spec fn has_field(names: Seq<Seq<char>>, field: Seq<char>) -> bool {
    exists|j: int| 0 <= j < names.len() && names[j] == field
}

/// The integer operation that a binary operator asks for, when it asks for one.
pub open spec fn int_op_of(op: BinaryOp) -> Option<llvm::IntOp> {
    match op {
        BinaryOp::Add => Some(llvm::IntOp::Add),
        BinaryOp::Sub => Some(llvm::IntOp::Sub),
        BinaryOp::Mul => Some(llvm::IntOp::Mul),
        BinaryOp::Div => Some(llvm::IntOp::SignedDiv),
        BinaryOp::Mod => Some(llvm::IntOp::SignedRem),
        BinaryOp::And | BinaryOp::BitAnd => Some(llvm::IntOp::And),
        BinaryOp::Or | BinaryOp::BitOr => Some(llvm::IntOp::Or),
        BinaryOp::BitXor => Some(llvm::IntOp::Xor),
        BinaryOp::Shl => Some(llvm::IntOp::Shl),
        BinaryOp::Shr => Some(llvm::IntOp::ArithShr),
        _ => None,
    }
}

/// The signed integer comparison that a binary operator asks for, when it is one.
pub open spec fn int_pred_of(op: BinaryOp) -> Option<llvm::IntCmp> {
    match op {
        BinaryOp::Equal => Some(llvm::IntCmp::Eq),
        BinaryOp::NotEqual => Some(llvm::IntCmp::Ne),
        BinaryOp::Less => Some(llvm::IntCmp::Slt),
        BinaryOp::Greater => Some(llvm::IntCmp::Sgt),
        BinaryOp::LessEqual => Some(llvm::IntCmp::Sle),
        BinaryOp::GreaterEqual => Some(llvm::IntCmp::Sge),
        _ => None,
    }
}

/// The float operation that a binary operator asks for, when it asks for one.
pub open spec fn float_op_of(op: BinaryOp) -> Option<llvm::FloatOp> {
    match op {
        BinaryOp::Add => Some(llvm::FloatOp::Add),
        BinaryOp::Sub => Some(llvm::FloatOp::Sub),
        BinaryOp::Mul => Some(llvm::FloatOp::Mul),
        BinaryOp::Div => Some(llvm::FloatOp::Div),
        _ => None,
    }
}

/// The ordered float comparison that a binary operator asks for, when it is one.
pub open spec fn float_pred_of(op: BinaryOp) -> Option<llvm::FloatCmp> {
    match op {
        BinaryOp::Equal => Some(llvm::FloatCmp::Oeq),
        BinaryOp::NotEqual => Some(llvm::FloatCmp::One),
        BinaryOp::Less => Some(llvm::FloatCmp::Olt),
        BinaryOp::Greater => Some(llvm::FloatCmp::Ogt),
        BinaryOp::LessEqual => Some(llvm::FloatCmp::Ole),
        BinaryOp::GreaterEqual => Some(llvm::FloatCmp::Oge),
        _ => None,
    }
}

/// Whether `e` is the request that gives `v` as the result of `op`: the integer
/// operation or signed comparison of `op` on integers, or the float operation or
/// ordered comparison of `op` on floats.
pub open spec fn computes(e: llvm::Emitted, op: BinaryOp, v: BasicValueEnum) -> bool {
    match e {
        llvm::Emitted::IntOperation(k, _, _, x) => int_op_of(op) == Some(k) && x == v,
        llvm::Emitted::IntComparison(p, _, _, x) => int_pred_of(op) == Some(p) && x == v,
        llvm::Emitted::FloatOperation(k, _, _, x) => float_op_of(op) == Some(k) && x == v,
        llvm::Emitted::FloatComparison(p, _, _, x) => float_pred_of(op) == Some(p) && x == v,
        _ => false,
    }
}

/// The two values an operation or comparison request takes, in order.
pub open spec fn operands_of<'ctx>(e: llvm::Emitted<'ctx>) -> Option<(BasicValueEnum<'ctx>, BasicValueEnum<'ctx>)> {
    match e {
        llvm::Emitted::IntOperation(_, a, b, _) => Some((a, b)),
        llvm::Emitted::IntComparison(_, a, b, _) => Some((a, b)),
        llvm::Emitted::FloatOperation(_, a, b, _) => Some((a, b)),
        llvm::Emitted::FloatComparison(_, a, b, _) => Some((a, b)),
        _ => None,
    }
}

/// The last request works on the two values noted, in order, as the left and
/// the right operand: its first value is the left operand's, its second the
/// right operand's, either one widened where it was narrower than the other.
pub open spec fn on_operands<'ctx>(t: Seq<llvm::Emitted<'ctx>>) -> bool {
    let n = t.len() as int;
    &&& n >= 3
    &&& match operands_of(t.last()) {
        Some((x, y)) => {
            ||| (t[n - 3] matches llvm::Emitted::Operand(a) && t[n - 2] matches llvm::Emitted::Operand(b)
                && x == a && y == b)
            ||| (n >= 4 && match (t[n - 4], t[n - 3], t[n - 2]) {
                (llvm::Emitted::Operand(a), llvm::Emitted::Operand(b), llvm::Emitted::Widen(f, w)) =>
                    (f == a && x == w && y == b) || (f == b && x == a && y == w),
                _ => false,
            })
        },
        None => false,
    }
}

/// The last two requests compute an element's offset from the index `idx`:
/// the index (widened to 64 bits first, where it was narrower) times the
/// element size, then a base address plus that offset.
pub open spec fn indexes<'ctx>(t: Seq<llvm::Emitted<'ctx>>, start: int, idx: BasicValueEnum<'ctx>) -> bool {
    let n = t.len() as int;
    &&& start <= n - 2
    &&& match (t[n - 2], t[n - 1]) {
        (llvm::Emitted::IntOperation(llvm::IntOp::Mul, i, _, off), llvm::Emitted::IntOperation(llvm::IntOp::Add, _, o, _)) =>
            o == off && (i == idx || (start <= n - 3 && t[n - 3] == llvm::Emitted::Widen(idx, i))),
        _ => false,
    }
}

/// A literal or a variable: generating it changes no table of the generator.
pub open spec fn is_leaf(e: Expression) -> bool {
    e is IntLiteral || e is FloatLiteral || e is BoolLiteral || e is StringLiteral
        || e is ArrayLiteral || e is Identifier
}

/// Why a literal's constant could not be built: LLVM refused an integer, float
/// or string constant.
pub open spec fn literal_failure(m: Seq<char>) -> bool {
    m == build_failure("an integer constant"@) || m == build_failure("a float constant"@)
        || m == build_failure("a string constant"@)
}

/// The type a literal is generated with: an integer literal is `i32` when it
/// fits, else `i64`; a float literal is `f64`.
pub open spec fn literal_type(e: Expression) -> Option<VTypeM> {
    match e {
        Expression::IntLiteral(n) => Some(VTypeM::Int(if fits_i32(n) { 32 } else { 64 })),
        Expression::FloatLiteral(_) => Some(VTypeM::Double),
        Expression::BoolLiteral(_) => Some(VTypeM::Int(1)),
        Expression::StringLiteral(_) => Some(str_m()),
        _ => None,
    }
}

impl<'ctx> Codegen<'ctx> {
    /// The position of a struct's field (the first field of that name), and the
    /// field's type.
    pub fn field_index(&self, struct_name: &String, field: &String) -> (r: Result<(u32, VType), String>)
        ensures
            match self.struct_fields(struct_name@) {
                None => r is Err && r->Err_0@ == "Unknown struct '"@ + struct_name@ + "'"@,
                Some((names, types)) => match r {
                    Ok((i, t)) => first_field_at(names, field@, i as int) && i < types.len() && vt_m(t) == types[i as int],
                    Err(e) => if has_field(names, field@) {
                        exists|i: int| #[trigger] first_field_at(names, field@, i) && (i >= types.len() || i > u32::MAX)
                            && e@ == "Field index "@ + crate::text::nat_text(i as nat) + " out of range"@
                    } else {
                        e@ == "Struct '"@ + struct_name@ + "' has no field '"@ + field@ + "'"@
                    },
                },
            },
    {
        let info = match self.struct_defs.get(struct_name.as_str()) {
            Some(i) => i,
            None => { return Err(cat3("Unknown struct '", struct_name.as_str(), "'")); },
        };
        let ghost names = info.fields@.map_values(|f: String| f@);
        let ghost types = info.field_types@.map_values(|t: VType| vt_m(t));
        assert(self.struct_fields(struct_name@) == Some((names, types)));
        let mut i: usize = 0;
        while i < info.fields.len()
            invariant
                i <= info.fields@.len(),
                names == info.fields@.map_values(|f: String| f@),
                types == info.field_types@.map_values(|t: VType| vt_m(t)),
                self.struct_fields(struct_name@) == Some((names, types)),
                forall|j: int| 0 <= j < i ==> names[j] != field@,
            decreases info.fields@.len() - i,
        {
            if text_eq(info.fields[i].as_str(), field.as_str()) {
                assert(first_field_at(names, field@, i as int));
                if i >= info.field_types.len() || i > u32::MAX as usize {
                    let mut s = text("Field index ");
                    crate::text::append_nat(&mut s, i as u64);
                    crate::text::append(&mut s, " out of range");
                    assert(s@ =~= "Field index "@ + crate::text::nat_text(i as nat) + " out of range"@);
                    return Err(s);
                }
                let t = info.field_types[i].duplicate();
                assert(types[i as int] == vt_m(info.field_types@[i as int]));
                return Ok((i as u32, t));
            }
            i = i + 1;
        }
        assert(!has_field(names, field@));
        let mut s = text("Struct '");
        crate::text::append(&mut s, struct_name.as_str());
        crate::text::append(&mut s, "' has no field '");
        crate::text::append(&mut s, field.as_str());
        crate::text::append(&mut s, "'");
        assert(s@ =~= "Struct '"@ + struct_name@ + "' has no field '"@ + field@ + "'"@);
        Err(s)
    }

    /// The address of element `idx` of an array of `elem` starting at `base`:
    /// `base + idx * size_of(elem)`.
    pub fn element_ptr(&mut self, base: BasicValueEnum<'ctx>, elem: &VType, idx: &Val<'ctx>) -> (r: Result<BasicValueEnum<'ctx>, String>)
        ensures
            crate::codegen::grows(old(self).emitted(), final(self).emitted()),
            final(self).same_but_emitted(old(self)),
            match crate::codegen::llvm_type_error(vt_m(*elem), old(self).struct_names()) {
                Some(e) => r is Err && r->Err_0@ == e,
                None => if vt_m(idx.ty) is Int {
                    r is Err ==> crate::codegen::outside_refusal(r->Err_0@)
                } else {
                    r is Err && r->Err_0@ == "An array index must be an integer value"@
                },
            },
            r is Ok ==> indexes(final(self).emitted(), old(self).emitted().len() as int, idx.v),
    {
        let et = match self.llvm_type(elem) {
            Ok(t) => t,
            Err(m) => { return Err(m); },
        };
        let i64t = llvm::i64_ty(self.context);
        let i = match idx.ty.bits() {
            Some(w) => {
                if w < 64 {
                    match self.widen_noted(idx.v, i64t, "idx64") {
                        Ok(x) => x,
                        Err(m) => { return Err(m); },
                    }
                } else {
                    idx.v
                }
            },
            None => { return Err(text("An array index must be an integer value")); },
        };
        let size = match built(llvm::size_of_ty(et), "a type size") {
            Ok(x) => x,
            Err(m) => { return Err(m); },
        };
        let offset = match built(llvm::int_mul(&self.builder, &mut self.trace, i, size, "offset"), "a multiplication") {
            Ok(x) => x,
            Err(m) => { return Err(m); },
        };
        let start = match built(llvm::ptr_to_int(&self.builder, base, i64t, "base"), "an address") {
            Ok(x) => x,
            Err(m) => { return Err(m); },
        };
        let addr = match built(llvm::int_add(&self.builder, &mut self.trace, start, offset, "addr"), "an addition") {
            Ok(x) => x,
            Err(m) => { return Err(m); },
        };
        built(llvm::int_to_ptr(&self.builder, addr, llvm::ptr_to(et), "elem_ptr"), "an address")
    }

    /// The address and type of `name[index]`, for an array parameter (held as a
    /// pointer to its first element) or a local array.
    /// The address and type of element `index` of the array `name`: a local array,
    /// or an array parameter (held as a pointer to its first element).
    pub fn element_of(&mut self, name: &String, index: &Expression, label: &str)
        -> (r: Result<(BasicValueEnum<'ctx>, VType), String>)
        ensures
            crate::codegen::grows(old(self).emitted(), final(self).emitted()),
            final(self).struct_names() == old(self).struct_names(),
            final(self).loop_depth() == old(self).loop_depth(),
            old(self).var_type(name@) is None ==> r is Err && r->Err_0@ == "Undefined variable: "@ + name@,
            match old(self).param_elem(name@) {
                Some(e) => r is Ok ==> vt_m(r->Ok_0.1) == e,
                None => match old(self).var_type(name@) {
                    Some(VTypeM::Array(e, _)) => r is Ok ==> vt_m(r->Ok_0.1) == *e,
                    Some(_) => r is Err && r->Err_0@ == "'"@ + name@ + "' is not an array"@,
                    None => true,
                },
            },
        decreases index, 6nat,
    {
        let param_elem = match self.array_params.get(name.as_str()) {
            Some(t) => Some(t.duplicate()),
            None => None,
        };
        match param_elem {
            Some(elem) => {
                let slot = match self.variables.get(name.as_str()) {
                    Some(v) => v.ptr,
                    None => { return Err(undefined_variable(name.as_str())); },
                };
                let ptr = match built(llvm::load(&self.builder, slot, "arrptr"), "a load") {
                    Ok(p) => p,
                    Err(m) => { return Err(m); },
                };
                let idx = match self.generate_expression(index) {
                    Ok(v) => v,
                    Err(m) => { return Err(m); },
                };
                let p = match self.element_ptr(ptr, &elem, &idx) {
                    Ok(p) => p,
                    Err(m) => { return Err(m); },
                };
                Ok((p, elem))
            },
            None => {
                let (base, ty) = match self.variables.get(name.as_str()) {
                    Some(v) => (v.ptr, v.ty.duplicate()),
                    None => { return Err(undefined_variable(name.as_str())); },
                };
                let elem = match ty {
                    VType::Array(e, _) => *e,
                    _ => { return Err(cat3("'", name.as_str(), "' is not an array")); },
                };
                let idx = match self.generate_expression(index) {
                    Ok(v) => v,
                    Err(m) => { return Err(m); },
                };
                let p = match self.element_ptr(base, &elem, &idx) {
                    Ok(p) => p,
                    Err(m) => { return Err(m); },
                };
                Ok((p, elem))
            },
        }
    }

    /// The value of `expr`. A literal's value has the literal's type (an integer
    /// literal is `i32` when it fits, else `i64`); a variable's has the type it was
    /// declared with, and a variable not in scope is an error, as is an array
    /// literal outside a declaration. A call of a declared function has its result
    /// type (`i32` for one that returns nothing); a call of an undeclared one, or
    /// of a built-in with the wrong number of arguments, is an error. An array
    /// element has the array's element type, a struct literal its struct's type,
    /// a cast its target type.
    pub fn generate_expression(&mut self, expr: &Expression) -> (r: Result<Val<'ctx>, String>)
        ensures
            crate::codegen::grows(old(self).emitted(), final(self).emitted()),
            final(self).struct_names() == old(self).struct_names(),
            final(self).loop_depth() == old(self).loop_depth(),
            match *expr {
                Expression::IntLiteral(n) => r is Ok ==> vt_m(r->Ok_0.ty) == VTypeM::Int(if fits_i32(n) { 32 } else { 64 }),
                Expression::FloatLiteral(_) => r is Ok ==> vt_m(r->Ok_0.ty) == VTypeM::Double,
                Expression::BoolLiteral(_) => r is Ok ==> vt_m(r->Ok_0.ty) == VTypeM::Int(1),
                Expression::StringLiteral(_) => r is Ok ==> vt_m(r->Ok_0.ty) == str_m(),
                Expression::ArrayLiteral(_) => r is Err
                    && r->Err_0@ == "Array literals can only appear as initializers in variable declarations"@,
                Expression::Identifier(name) => match old(self).var_type(name@) {
                    None => r is Err && r->Err_0@ == "Undefined variable: "@ + name@,
                    Some(t) => r is Ok ==> vt_m(r->Ok_0.ty) == t,
                },
                Expression::Call { name, arguments } => if is_builtin(name@) {
                    builtin_arity_error(name@, arguments@.len()) matches Some(m) ==> (r is Err && r->Err_0@ == m)
                } else {
                    match old(self).fn_sig(internal_name_spec(name@)) {
                        None => r is Err && r->Err_0@ == "Undefined function: "@ + name@,
                        Some((_, ret)) => r is Ok ==> {
                            &&& vt_m(r->Ok_0.ty) == match ret {
                                Some(t) => t,
                                None => VTypeM::Int(32),
                            }
                            &&& calls_found(final(self).emitted(), old(self).emitted().len() as int,
                                internal_name_spec(name@), arguments@.len() as int, r->Ok_0.v)
                            &&& exists|ks: Seq<int>, k: int| #[trigger] passes_args(final(self).emitted(),
                                old(self).emitted().len() as int, ks, k)
                        },
                    }
                },
                Expression::Index { name, .. } => match old(self).param_elem(name@) {
                    Some(e) => r is Ok ==> vt_m(r->Ok_0.ty) == e,
                    None => match old(self).var_type(name@) {
                        Some(VTypeM::Array(e, _)) => r is Ok ==> vt_m(r->Ok_0.ty) == *e,
                        Some(_) => r is Err && r->Err_0@ == "'"@ + name@ + "' is not an array"@,
                        None => r is Err && r->Err_0@ == "Undefined variable: "@ + name@,
                    },
                },
                Expression::StructLiteral { name, .. } => if old(self).struct_names().contains(name@) {
                    r is Ok ==> vt_m(r->Ok_0.ty) == VTypeM::Struct(name@)
                } else {
                    r is Err && r->Err_0@ == "Unknown struct '"@ + name@ + "'"@
                },
                Expression::Cast { typ, .. } => r is Ok ==>
                    (conv_spec(type_m(typ), old(self).struct_names()) matches Ok(t) && vt_m(r->Ok_0.ty) == t),
                _ => true,
            },
            is_leaf(*expr) ==> final(self).same_but_emitted(old(self)),
            (*expr is Identifier || *expr is ArrayLiteral || *expr is StringLiteral) ==> *final(self) == *old(self),
            match *expr {
                Expression::IntLiteral(n) => r is Ok ==> final(self).emitted()
                    == old(self).emitted().push(llvm::Emitted::IntConstant(n as u64, true, r->Ok_0.v)),
                Expression::BoolLiteral(b) => r is Ok ==> final(self).emitted()
                    == old(self).emitted().push(llvm::Emitted::IntConstant(if b { 1 } else { 0 }, false, r->Ok_0.v)),
                _ => true,
            },
            match *expr {
                Expression::IntLiteral(_) | Expression::BoolLiteral(_) | Expression::FloatLiteral(_)
                | Expression::StringLiteral(_) => r is Err ==> literal_failure(r->Err_0@),
                Expression::Identifier(name) => old(self).var_type(name@) is Some
                    ==> (r is Err ==> r->Err_0@ == build_failure("a load"@)),
                _ => true,
            },
        decreases expr, 5nat,
    {
        match expr {
            Expression::IntLiteral(n) => {
                let w = literal_width(*n);
                let t = VType::Int(w);
                let c = match self.const_of(&t, *n as u64, true) {
                    Ok(c) => c,
                    Err(m) => { return Err(m); },
                };
                Ok(Val { v: c, ty: t })
            },
            Expression::FloatLiteral(bits) => {
                let c = match self.double_const(*bits) {
                    Ok(c) => c,
                    Err(m) => { return Err(m); },
                };
                Ok(Val { v: c, ty: VType::Double })
            },
            Expression::BoolLiteral(b) => {
                let t = VType::Int(1);
                let c = match self.const_of(&t, if *b { 1 } else { 0 }, false) {
                    Ok(c) => c,
                    Err(m) => { return Err(m); },
                };
                Ok(Val { v: c, ty: t })
            },
            Expression::ArrayLiteral(_) => {
                Err(text("Array literals can only appear as initializers in variable declarations"))
            },
            Expression::Index { name, index } => {
                let (p, elem) = match self.element_of(name, index, "gep") {
                    Ok(x) => x,
                    Err(m) => { return Err(m); },
                };
                let v = match built(llvm::load(&self.builder, p, "elem"), "a load") {
                    Ok(v) => v,
                    Err(m) => { return Err(m); },
                };
                Ok(Val { v, ty: elem })
            },
            Expression::Identifier(name) => {
                let (ptr, ty) = match self.variables.get(name.as_str()) {
                    Some(v) => (v.ptr, v.ty.duplicate()),
                    None => { return Err(undefined_variable(name.as_str())); },
                };
                let v = match built(llvm::load(&self.builder, ptr, name.as_str()), "a load") {
                    Ok(v) => v,
                    Err(m) => { return Err(m); },
                };
                Ok(Val { v, ty })
            },
            Expression::StringLiteral(s) => {
                let g = match built(llvm::global_string(&self.builder, s.as_str(), "str_lit"), "a string constant") {
                    Ok(g) => g,
                    Err(m) => { return Err(m); },
                };
                Ok(Val { v: g, ty: str_vtype() })
            },
            Expression::Unary { op, operand } => {
                let v = match self.generate_expression(operand) {
                    Ok(v) => v,
                    Err(m) => { return Err(m); },
                };
                match op {
                    UnaryOp::Not => {
                        if !v.ty.is_int() {
                            return Err(text("Unary '!' requires an integer or bool value"));
                        }
                        let one = match self.const_of(&v.ty, 1, false) {
                            Ok(c) => c,
                            Err(m) => { return Err(m); },
                        };
                        let r = match built(llvm::int_xor(&self.builder, &mut self.trace, v.v, one, "not"), "a negation") {
                            Ok(x) => x,
                            Err(m) => { return Err(m); },
                        };
                        Ok(Val { v: r, ty: v.ty })
                    },
                    UnaryOp::Neg => {
                        if v.ty.is_int() {
                            let r = match built(llvm::int_neg(&self.builder, v.v, "neg"), "a negation") {
                                Ok(x) => x,
                                Err(m) => { return Err(m); },
                            };
                            Ok(Val { v: r, ty: v.ty })
                        } else if v.ty.is_float() {
                            let r = match built(llvm::float_neg(&self.builder, v.v, "fneg"), "a negation") {
                                Ok(x) => x,
                                Err(m) => { return Err(m); },
                            };
                            Ok(Val { v: r, ty: v.ty })
                        } else {
                            Err(text("Unary '-' requires numeric type"))
                        }
                    },
                }
            },
            Expression::Binary { .. } => self.generate_binary_expr(expr),
            Expression::Call { .. } => self.generate_call(expr),
            Expression::Cast { .. } => self.generate_cast(expr),
            Expression::StructLiteral { name, fields } => {
                let st = VType::Struct(name.clone());
                let lt = match self.struct_defs.get(name.as_str()) {
                    Some(info) => llvm::struct_basic(info.llvm),
                    None => { return Err(cat3("Unknown struct '", name.as_str(), "'")); },
                };
                let mut agg = llvm::zero_of(lt, &mut self.trace);
                proof {
                    assert forall|j: int| 0 <= j < fields@.len() implies decreases_to!(expr => fields@[j].1) by {
                        assert(decreases_to!(expr => *fields));
                        assert(decreases_to!(*fields => fields@));
                        assert(decreases_to!(fields@ => fields@[j]));
                        assert(decreases_to!(fields@[j] => fields@[j].1));
                    }
                }
                let mut i: usize = 0;
                while i < fields.len()
                    invariant
                        crate::codegen::grows(old(self).emitted(), self.emitted()),
                        self.struct_names() == old(self).struct_names(),
                        self.loop_depth() == old(self).loop_depth(),
                        forall|j: int| 0 <= j < fields@.len() ==> decreases_to!(expr => fields@[j].1),
                        expr is StructLiteral,
                        *expr matches Expression::StructLiteral { name: nm, .. } && old(self).struct_names().contains(nm@),
                    decreases fields@.len() - i,
                {
                    let (idx, _t) = match self.field_index(name, &fields[i].0) {
                        Ok(x) => x,
                        Err(m) => { return Err(m); },
                    };
                    let v = match self.generate_expression(&fields[i].1) {
                        Ok(v) => v,
                        Err(m) => { return Err(m); },
                    };
                    agg = match built(llvm::insert_value(&self.builder, agg, v.v, idx, "ins"), "a struct value") {
                        Ok(x) => x,
                        Err(m) => { return Err(m); },
                    };
                    i = i + 1;
                }
                Ok(Val { v: agg, ty: st })
            },
            Expression::FieldAccess { object, field } => {
                let (struct_ptr, struct_name) = match self.resolve_struct_ptr(object) {
                    Ok(x) => x,
                    Err(m) => { return Err(m); },
                };
                let (idx, fty) = match self.field_index(&struct_name, field) {
                    Ok(x) => x,
                    Err(m) => { return Err(m); },
                };
                let fp = match built(llvm::struct_field_ptr(&self.builder, struct_ptr, idx, "fptr"), "a field address") {
                    Ok(p) => p,
                    Err(m) => { return Err(m); },
                };
                let v = match built(llvm::load(&self.builder, fp, "fval"), "a load") {
                    Ok(v) => v,
                    Err(m) => { return Err(m); },
                };
                Ok(Val { v, ty: fty })
            },
        }
    }

    /// The address of a struct variable or of a struct-typed field (`a.b.c`),
    /// with the struct's name.
    /// The address of the struct a variable or a field path names, and the name of
    /// its struct type.
    pub fn resolve_struct_ptr(&mut self, expr: &Expression) -> (r: Result<(BasicValueEnum<'ctx>, String), String>)
        ensures
            crate::codegen::grows(old(self).emitted(), final(self).emitted()),
            final(self).struct_names() == old(self).struct_names(),
            final(self).loop_depth() == old(self).loop_depth(),
            match *expr {
                Expression::Identifier(name) => match old(self).var_struct(name@) {
                    None => r is Err && r->Err_0@ == "'"@ + name@ + "' is not a struct variable"@,
                    Some(s) => {
                        &&& old(self).var_type(name@) is None ==> (r is Err && r->Err_0@ == "Undefined variable: "@ + name@)
                        &&& r is Ok ==> r->Ok_0.1@ == s
                    },
                },
                Expression::FieldAccess { .. } => true,
                _ => r is Err && r->Err_0@ == "Expected struct variable or field access expression"@,
            },
        decreases expr,
    {
        match expr {
            Expression::Identifier(name) => {
                let sname = match self.var_struct_names.get(name.as_str()) {
                    Some(s) => s.clone(),
                    None => { return Err(cat3("'", name.as_str(), "' is not a struct variable")); },
                };
                let ptr = match self.variables.get(name.as_str()) {
                    Some(v) => v.ptr,
                    None => { return Err(undefined_variable(name.as_str())); },
                };
                Ok((ptr, sname))
            },
            Expression::FieldAccess { object, field } => {
                let (outer_ptr, outer_name) = match self.resolve_struct_ptr(object) {
                    Ok(x) => x,
                    Err(m) => { return Err(m); },
                };
                let (idx, fty) = match self.field_index(&outer_name, field) {
                    Ok(x) => x,
                    Err(m) => { return Err(m); },
                };
                match fty {
                    VType::Struct(inner) => {
                        let fp = match built(llvm::struct_field_ptr(&self.builder, outer_ptr, idx, "nfptr"), "a field address") {
                            Ok(p) => p,
                            Err(m) => { return Err(m); },
                        };
                        Ok((fp, inner))
                    },
                    _ => {
                        let mut s = text("Field '");
                        crate::text::append(&mut s, outer_name.as_str());
                        crate::text::append(&mut s, ".");
                        crate::text::append(&mut s, field.as_str());
                        crate::text::append(&mut s, "' is not a struct type — cannot access sub-fields");
                        Err(s)
                    },
                }
            },
            _ => Err(text("Expected struct variable or field access expression")),
        }
    }

    /// `expr as TYPE`.
    pub(crate) fn generate_cast(&mut self, expr: &Expression) -> (r: Result<Val<'ctx>, String>)
        ensures
            crate::codegen::grows(old(self).emitted(), final(self).emitted()),
            match *expr {
                Expression::Cast { value, typ } => {
                    &&& r is Ok ==> (conv_spec(type_m(typ), old(self).struct_names()) matches Ok(t) && vt_m(r->Ok_0.ty) == t)
                    &&& literal_type(*value) matches Some(lt) ==> match conv_spec(type_m(typ), old(self).struct_names()) {
                        Err(_) => r is Err,
                        Ok(t) => cast_spec(lt, t) is None ==> r is Err,
                    }
                },
                _ => r is Err && r->Err_0@ == "Expected a cast"@,
            },
            final(self).struct_names() == old(self).struct_names(),
            final(self).loop_depth() == old(self).loop_depth(),
        decreases expr, 4nat,
    {
        let (value, typ) = match expr {
            Expression::Cast { value, typ } => (value, typ),
            _ => { return Err(text("Expected a cast")); },
        };
        let v = match self.generate_expression(value) {
            Ok(v) => v,
            Err(m) => { return Err(m); },
        };
        let target = match self.convert_type(typ) {
            Ok(t) => t,
            Err(m) => { return Err(m); },
        };
        let op = match cast_op(&v.ty, &target) {
            Some(op) => op,
            None => {
                let mut s = text("Unsupported cast to ");
                typ.append_debug(&mut s);
                return Err(s);
            },
        };
        let lt = match self.llvm_type(&target) {
            Ok(t) => t,
            Err(m) => { return Err(m); },
        };
        let r = match op {
            CastOp::Keep => Some(v.v),
            CastOp::SignExtend => llvm::sext(&self.builder, v.v, lt, "sext"),
            CastOp::Truncate => llvm::trunc(&self.builder, v.v, lt, "trunc"),
            CastOp::IntToFloat => llvm::sitofp(&self.builder, v.v, lt, "i2f"),
            CastOp::FloatToInt => llvm::fptosi(&self.builder, v.v, lt, "f2i"),
            CastOp::FloatExtend => llvm::fpext(&self.builder, v.v, lt, "fpext"),
            CastOp::FloatTruncate => llvm::fptrunc(&self.builder, v.v, lt, "fptrunc"),
        };
        match built(r, "a conversion") {
            Ok(x) => Ok(Val { v: x, ty: target }),
            Err(m) => Err(m),
        }
    }

    /// `l op r`: integers of different widths are widened to the wider one first.
    pub(crate) fn generate_binary_expr(&mut self, expr: &Expression) -> (r: Result<Val<'ctx>, String>)
        ensures
            crate::codegen::grows(old(self).emitted(), final(self).emitted()),
            final(self).struct_names() == old(self).struct_names(),
            final(self).loop_depth() == old(self).loop_depth(),
            match *expr {
                Expression::Binary { left, op, right } => {
                    &&& r is Ok ==> exists|lt: VTypeM, rt: VTypeM| binary_spec(lt, op, rt) == Ok::<VTypeM, Seq<char>>(vt_m(r->Ok_0.ty))
                    &&& r is Ok ==> (final(self).emitted().len() > 0
                        && computes(final(self).emitted().last(), op, r->Ok_0.v))
                    &&& r is Ok ==> on_operands(final(self).emitted())
                    &&& match (literal_type(*left), literal_type(*right)) {
                        (Some(lt), Some(rt)) => match binary_spec(lt, op, rt) {
                            Ok(t) => r is Ok ==> vt_m(r->Ok_0.ty) == t,
                            Err(e) => r is Err && (r->Err_0@ == e || literal_failure(r->Err_0@))
                                && final(self).same_but_emitted(old(self)),
                        },
                        _ => true,
                    }
                },
                _ => r is Err && r->Err_0@ == "Expected a binary expression"@,
            },
        decreases expr, 4nat,
    {
        let (left, op, right) = match expr {
            Expression::Binary { left, op, right } => (left, op, right),
            _ => { return Err(text("Expected a binary expression")); },
        };
        let l = match self.generate_expression(left) {
            Ok(v) => v,
            Err(m) => { return Err(m); },
        };
        let r = match self.generate_expression(right) {
            Ok(v) => v,
            Err(m) => { return Err(m); },
        };
        let result_ty = match self.binary_type(&l.ty, op, &r.ty) {
            Ok(t) => t,
            Err(m) => { return Err(m); },
        };
        self.trace.note(Ghost(llvm::Emitted::Operand(l.v)));
        self.trace.note(Ghost(llvm::Emitted::Operand(r.v)));
        if l.ty.is_int() {
            let (lb, rb) = match (l.ty.bits(), r.ty.bits()) {
                (Some(a), Some(b)) => (a, b),
                _ => { return Err(text("Type mismatch in binary expression")); },
            };
            let (lv, rv) = if lb == rb {
                (l.v, r.v)
            } else if lb < rb {
                let rt = match self.llvm_type(&r.ty) {
                    Ok(t) => t,
                    Err(m) => { return Err(m); },
                };
                match self.widen_noted(l.v, rt, "lhs_widen") {
                    Ok(x) => (x, r.v),
                    Err(m) => { return Err(m); },
                }
            } else {
                let lt = match self.llvm_type(&l.ty) {
                    Ok(t) => t,
                    Err(m) => { return Err(m); },
                };
                match self.widen_noted(r.v, lt, "rhs_widen") {
                    Ok(x) => (l.v, x),
                    Err(m) => { return Err(m); },
                }
            };
            let b = &self.builder;
            let v = match op {
                BinaryOp::Add => llvm::int_add(b, &mut self.trace, lv, rv, "add"),
                BinaryOp::Sub => llvm::int_sub(b, &mut self.trace, lv, rv, "sub"),
                BinaryOp::Mul => llvm::int_mul(b, &mut self.trace, lv, rv, "mul"),
                BinaryOp::Div => llvm::int_sdiv(b, &mut self.trace, lv, rv, "div"),
                BinaryOp::Mod => llvm::int_srem(b, &mut self.trace, lv, rv, "rem"),
                BinaryOp::Equal => llvm::int_compare(b, &mut self.trace, llvm::IntCmp::Eq, lv, rv, "eq"),
                BinaryOp::NotEqual => llvm::int_compare(b, &mut self.trace, llvm::IntCmp::Ne, lv, rv, "ne"),
                BinaryOp::Less => llvm::int_compare(b, &mut self.trace, llvm::IntCmp::Slt, lv, rv, "lt"),
                BinaryOp::Greater => llvm::int_compare(b, &mut self.trace, llvm::IntCmp::Sgt, lv, rv, "gt"),
                BinaryOp::LessEqual => llvm::int_compare(b, &mut self.trace, llvm::IntCmp::Sle, lv, rv, "le"),
                BinaryOp::GreaterEqual => llvm::int_compare(b, &mut self.trace, llvm::IntCmp::Sge, lv, rv, "ge"),
                BinaryOp::And => llvm::int_and(b, &mut self.trace, lv, rv, "and"),
                BinaryOp::Or => llvm::int_or(b, &mut self.trace, lv, rv, "or"),
                BinaryOp::BitAnd => llvm::int_and(b, &mut self.trace, lv, rv, "band"),
                BinaryOp::BitOr => llvm::int_or(b, &mut self.trace, lv, rv, "bor"),
                BinaryOp::BitXor => llvm::int_xor(b, &mut self.trace, lv, rv, "bxor"),
                BinaryOp::Shl => llvm::int_shl(b, &mut self.trace, lv, rv, "shl"),
                BinaryOp::Shr => llvm::int_ashr(b, &mut self.trace, lv, rv, "shr"),
            };
            match built(v, "an integer operation") {
                Ok(x) => {
                    assert(computes(self.emitted().last(), *op, x));
                    Ok(Val { v: x, ty: result_ty })
                },
                Err(m) => Err(m),
            }
        } else {
            let b = &self.builder;
            let v = match op {
                BinaryOp::Add => llvm::float_add(b, &mut self.trace, l.v, r.v, "fadd"),
                BinaryOp::Sub => llvm::float_sub(b, &mut self.trace, l.v, r.v, "fsub"),
                BinaryOp::Mul => llvm::float_mul(b, &mut self.trace, l.v, r.v, "fmul"),
                BinaryOp::Div => llvm::float_div(b, &mut self.trace, l.v, r.v, "fdiv"),
                BinaryOp::Equal => llvm::float_compare(b, &mut self.trace, llvm::FloatCmp::Oeq, l.v, r.v, "feq"),
                BinaryOp::NotEqual => llvm::float_compare(b, &mut self.trace, llvm::FloatCmp::One, l.v, r.v, "fne"),
                BinaryOp::Less => llvm::float_compare(b, &mut self.trace, llvm::FloatCmp::Olt, l.v, r.v, "flt"),
                BinaryOp::Greater => llvm::float_compare(b, &mut self.trace, llvm::FloatCmp::Ogt, l.v, r.v, "fgt"),
                BinaryOp::LessEqual => llvm::float_compare(b, &mut self.trace, llvm::FloatCmp::Ole, l.v, r.v, "fle"),
                BinaryOp::GreaterEqual => llvm::float_compare(b, &mut self.trace, llvm::FloatCmp::Oge, l.v, r.v, "fge"),
                _ => None,
            };
            match built(v, "a floating-point operation") {
                Ok(x) => {
                    assert(computes(self.emitted().last(), *op, x));
                    Ok(Val { v: x, ty: result_ty })
                },
                Err(m) => Err(m),
            }
        }
    }

    /// The type of `l op r`, or why the operands do not fit the operator.
    pub fn binary_type(&self, l: &VType, op: &BinaryOp, r: &VType) -> (res: Result<VType, String>)
        ensures
            match binary_spec(vt_m(*l), *op, vt_m(*r)) {
                Ok(m) => res is Ok && vt_m(res->Ok_0) == m,
                Err(e) => res is Err && res->Err_0@ == e,
            },
    {
        let cmp = matches!(op, BinaryOp::Equal | BinaryOp::NotEqual | BinaryOp::Less | BinaryOp::Greater
            | BinaryOp::LessEqual | BinaryOp::GreaterEqual);
        match (l, r) {
            (VType::Int(a), VType::Int(b)) => {
                if cmp { Ok(VType::Int(1)) } else { Ok(VType::Int(if *a < *b { *b } else { *a })) }
            },
            (VType::Single, VType::Single) | (VType::Single, VType::Double)
            | (VType::Double, VType::Single) | (VType::Double, VType::Double) => {
                if matches!(op, BinaryOp::Mod) {
                    Err(text("Modulo não suportado para float"))
                } else if matches!(op, BinaryOp::And | BinaryOp::Or | BinaryOp::BitAnd | BinaryOp::BitOr
                    | BinaryOp::BitXor | BinaryOp::Shl | BinaryOp::Shr) {
                    Err(text("Operador não suportado para float"))
                } else if cmp {
                    Ok(VType::Int(1))
                } else {
                    Ok(l.duplicate())
                }
            },
            _ => Err(text("Type mismatch in binary expression")),
        }
    }
}

} // verus!

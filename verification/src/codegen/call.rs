//! Calls: of user functions, `extern fn`s and the runtime's helpers.
use vstd::prelude::*;
use inkwell::values::BasicValueEnum;
use crate::ast::Expression;
use crate::llvm;
use crate::text::{text, text_eq};
use crate::vtype::{VType, VTypeM, vt_m};
use super::builtin::{is_builtin, builtin_arity_error};
use super::{Codegen, Val, cat, builder_failed, built};

verus! {

broadcast use crate::codegen::Codegen::lemma_same_but_emitted;

/// The function a call of `name` reaches: the string built-ins `add`, `remove`
/// and `replace` are the runtime's `__vit_` helpers.
pub open spec fn internal_name_spec(name: Seq<char>) -> Seq<char> {
    if name == "add"@ || name == "remove"@ || name == "replace"@ {
        "__vit_"@ + name
    } else {
        name
    }
}

/// From request `start` on, `ops` holds a search of the module for `name` that
/// found a function, and later a call of that function with `argc` arguments
/// whose value, where it has one, is `result`.
pub open spec fn calls_found<'ctx>(
    ops: Seq<llvm::Emitted<'ctx>>,
    start: int,
    name: Seq<char>,
    argc: int,
    result: BasicValueEnum<'ctx>,
) -> bool {
    &&& 0 <= start < ops.len()
    &&& match ops[start] {
        llvm::Emitted::Lookup(n, Some(f)) => n@ == name && exists|k: int|
            start < k < ops.len() && (#[trigger] ops[k] matches llvm::Emitted::Call(g, a, res)
                && g == f && a@.len() == argc && (res matches Some(x) ==> x == result)),
        _ => false,
    }
}

/// Request `k` calls a function with the values noted as operands at the
/// requests `ks` (after `start`), in that order: its i-th argument is the i-th
/// value noted.
pub open spec fn passes_args<'ctx>(t: Seq<llvm::Emitted<'ctx>>, start: int, ks: Seq<int>, k: int) -> bool {
    &&& 0 <= k < t.len()
    &&& match t[k] {
        llvm::Emitted::Call(_, a, _) => {
            &&& a@.len() == ks.len()
            &&& forall|i: int| 0 <= i < ks.len() ==> start <= #[trigger] ks[i] < k
                && t[ks[i]] == llvm::Emitted::Operand(a@[i])
            &&& forall|i: int| 0 <= i < ks.len() - 1 ==> #[trigger] ks[i] < ks[i + 1]
        },
        _ => false,
    }
}

pub fn internal_name(name: &str) -> (r: String)
    ensures
        r@ == internal_name_spec(name@),
{
    proof {
        reveal_strlit("add");
        reveal_strlit("remove");
        reveal_strlit("replace");
    }
    if text_eq(name, "add") || text_eq(name, "remove") || text_eq(name, "replace") {
        cat("__vit_", name)
    } else {
        text(name)
    }
}

impl<'ctx> Codegen<'ctx> {
    /// A pointer passed in place of an argument's value: the first element of a
    /// local array, the storage of a struct variable, or a struct-typed field.
    pub(crate) fn argument_address(&mut self, arg: &Expression) -> (r: Result<Option<Val<'ctx>>, String>)
        ensures
            crate::codegen::grows(old(self).emitted(), final(self).emitted()),
            final(self).struct_names() == old(self).struct_names(),
            final(self).loop_depth() == old(self).loop_depth(),
            match *arg {
                Expression::Identifier(n) => match old(self).var_type(n@) {
                    None => r matches Ok(None),
                    Some(VTypeM::Array(e, _)) => r is Ok ==> (r->Ok_0 matches Some(v) && vt_m(v.ty) == VTypeM::Ptr(e)),
                    Some(t) => if old(self).var_struct(n@) is Some {
                        r matches Ok(Some(v)) && vt_m(v.ty) == VTypeM::Ptr(Box::new(t))
                    } else {
                        r matches Ok(None)
                    },
                },
                Expression::FieldAccess { .. } => r matches Ok(Some(v)) ==> (vt_m(v.ty) matches VTypeM::Ptr(b) && *b is Struct),
                _ => r matches Ok(None),
            },
    {
        match arg {
            Expression::Identifier(aname) => {
                let local = match self.variables.get(aname.as_str()) {
                    Some(v) => Some((v.ptr, v.ty.duplicate())),
                    None => None,
                };
                match local {
                    Some((base, VType::Array(elem, _))) => {
                        let zero = match self.const_of(&VType::Int(32), 0, false) {
                            Ok(z) => z,
                            Err(m) => { return Err(m); },
                        };
                        match self.element_ptr(base, &elem, &Val { v: zero, ty: VType::Int(32) }) {
                            Ok(p) => Ok(Some(Val { v: p, ty: VType::Ptr(elem) })),
                            Err(m) => Err(m),
                        }
                    },
                    Some((base, ty)) => {
                        if self.var_struct_names.contains(aname.as_str()) {
                            Ok(Some(Val { v: base, ty: VType::Ptr(Box::new(ty)) }))
                        } else {
                            Ok(None)
                        }
                    },
                    None => Ok(None),
                }
            },
            Expression::FieldAccess { object, field } => {
                let (struct_ptr, struct_name) = match self.resolve_struct_ptr(object) {
                    Ok(x) => x,
                    Err(_) => { return Ok(None); },
                };
                let (idx, fty) = match self.field_index(&struct_name, field) {
                    Ok(x) => x,
                    Err(_) => { return Ok(None); },
                };
                if matches!(fty, VType::Struct(_)) {
                    match built(llvm::struct_field_ptr(&self.builder, struct_ptr, idx, "struct_field_arg"), "a field address") {
                        Ok(p) => Ok(Some(Val { v: p, ty: VType::Ptr(Box::new(fty)) })),
                        Err(m) => Err(m),
                    }
                } else {
                    Ok(None)
                }
            },
            _ => Ok(None),
        }
    }

    /// An argument as the parameter of type `param` takes it: a narrower integer
    /// is sign-extended, a pointer of another type is reinterpreted.
    pub fn pass_as(&self, val: Val<'ctx>, param: &VType) -> (r: Result<BasicValueEnum<'ctx>, String>)
        ensures
            match (vt_m(val.ty), vt_m(*param)) {
                (VTypeM::Int(a), VTypeM::Int(b)) => a >= b ==> r == Ok::<BasicValueEnum<'ctx>, String>(val.v),
                (VTypeM::Ptr(_), VTypeM::Ptr(_)) => vt_m(val.ty) == vt_m(*param) ==> r == Ok::<BasicValueEnum<'ctx>, String>(val.v),
                _ => r == Ok::<BasicValueEnum<'ctx>, String>(val.v),
            },
    {
        match (val.ty.bits(), param.bits()) {
            (Some(a), Some(b)) => {
                if a < b {
                    let pt = self.llvm_type(param)?;
                    built(llvm::sext(&self.builder, val.v, pt, "arg_widen"), "a sign extension")
                } else {
                    Ok(val.v)
                }
            },
            _ => {
                if val.ty.is_ptr() && param.is_ptr() && !crate::vtype::same_vtype(&val.ty, param) {
                    let pt = self.llvm_type(param)?;
                    built(llvm::bit_cast(&self.builder, val.v, pt, "arg_cast"), "a pointer conversion")
                } else {
                    Ok(val.v)
                }
            },
        }
    }

    /// A call of a declared function; integer arguments narrower than the
    /// parameter are widened. A call of a function that returns nothing gives `0`.
    pub fn generate_call(&mut self, expr: &Expression) -> (r: Result<Val<'ctx>, String>)
        ensures
            crate::codegen::grows(old(self).emitted(), final(self).emitted()),
            final(self).struct_names() == old(self).struct_names(),
            final(self).loop_depth() == old(self).loop_depth(),
            *expr matches Expression::Call { name, arguments } ==> if is_builtin(name@) {
                builtin_arity_error(name@, arguments@.len()) matches Some(m) ==> (r is Err && r->Err_0@ == m)
            } else {
                match old(self).fn_sig(internal_name_spec(name@)) {
                    None => {
                        &&& r is Err && r->Err_0@ == "Undefined function: "@ + name@
                        &&& final(self).same_but_emitted(old(self))
                        &&& final(self).emitted().len() == old(self).emitted().len() + 1
                        &&& final(self).emitted().last() matches llvm::Emitted::Lookup(n, _)
                        &&& n@ == internal_name_spec(name@)
                    },
                    Some((_, ret)) => r is Ok ==> {
                        &&& vt_m(r->Ok_0.ty) == match ret {
                            Some(t) => t,
                            None => VTypeM::Int(32),
                        }
                        &&& calls_found(final(self).emitted(), old(self).emitted().len() as int,
                            internal_name_spec(name@), arguments@.len() as int, r->Ok_0.v)
                        &&& exists|ks: Seq<int>, k: int| #[trigger] passes_args(final(self).emitted(),
                            old(self).emitted().len() as int, ks, k)
                    },
                }
            },
        decreases expr, 4nat,
    {
        let (name, arguments) = match expr {
            Expression::Call { name, arguments } => (name, arguments),
            _ => { return Err(text("Expected a call")); },
        };
        match self.generate_builtin(expr) {
            Ok(Some(v)) => { return Ok(v); },
            Ok(None) => {},
            Err(m) => { return Err(m); },
        }
        let internal = internal_name(name.as_str());
        let function = match llvm::get_function(&self.module, &mut self.trace, internal.as_str()) {
            Some(f) => f,
            None => { return Err(cat("Undefined function: ", name.as_str())); },
        };
        let ghost after_lookup = self.emitted();
        assert(after_lookup[old(self).emitted().len() as int] == llvm::Emitted::Lookup(Ghost(internal@), Some(function)));
        let (params, ret) = match self.functions.get(internal.as_str()) {
            Some(sig) => {
                let mut ps: Vec<VType> = Vec::new();
                let mut i: usize = 0;
                while i < sig.params.len()
                    invariant
                        crate::codegen::grows(old(self).emitted(), self.emitted()),
                        self.emitted() == after_lookup,
                        self.struct_names() == old(self).struct_names(),
                        self.loop_depth() == old(self).loop_depth(),
                    decreases sig.params@.len() - i,
                {
                    ps.push(sig.params[i].duplicate());
                    i = i + 1;
                }
                let ret = match &sig.ret {
                    Some(t) => Some(t.duplicate()),
                    None => None,
                };
                (ps, ret)
            },
            None => { return Err(cat("Undefined function: ", name.as_str())); },
        };
        proof {
            assert forall|j: int| 0 <= j < arguments@.len() implies decreases_to!(expr => arguments@[j]) by {
                assert(decreases_to!(expr => *arguments));
                assert(decreases_to!(*arguments => arguments@));
                assert(decreases_to!(arguments@ => arguments@[j]));
            }
        }
        let ghost sig_ret = match old(self).fn_sig(internal_name_spec(name@)) {
            Some((_, rt)) => rt,
            None => None,
        };
        assert(old(self).fn_sig(internal_name_spec(name@)) is Some);
        assert(match ret { Some(t) => sig_ret == Some(vt_m(t)), None => sig_ret is None });
        let mut args: Vec<BasicValueEnum<'ctx>> = Vec::new();
        let ghost mut ks: Seq<int> = Seq::empty();
        let mut i: usize = 0;
        while i < arguments.len()
            invariant
                ks.len() == i,
                forall|j: int| 0 <= j < i ==> old(self).emitted().len() < #[trigger] ks[j] < self.emitted().len(),
                forall|j: int| 0 <= j < i - 1 ==> #[trigger] ks[j] < ks[j + 1],
                forall|j: int| 0 <= j < i ==> self.emitted()[#[trigger] ks[j]] == llvm::Emitted::Operand(args@[j]),
                crate::codegen::grows(old(self).emitted(), self.emitted()),
                crate::codegen::grows(after_lookup, self.emitted()),
                after_lookup.len() == old(self).emitted().len() + 1,
                after_lookup[old(self).emitted().len() as int] == llvm::Emitted::Lookup(Ghost(internal@), Some(function)),
                internal@ == internal_name_spec(name@),
                args@.len() == i,
                i <= arguments@.len(),
                self.struct_names() == old(self).struct_names(),
                self.loop_depth() == old(self).loop_depth(),
                forall|j: int| 0 <= j < arguments@.len() ==> decreases_to!(expr => arguments@[j]),
                *expr matches Expression::Call { name: nm, .. } && !is_builtin(nm@)
                    && (old(self).fn_sig(internal_name_spec(nm@)) matches Some((_, rt)) && rt == sig_ret),
                match ret { Some(t) => sig_ret == Some(vt_m(t)), None => sig_ret is None },
            decreases arguments@.len() - i,
        {
            let ghost iter_start = self.emitted();
            let arg = &arguments[i];
            let special = match self.argument_address(arg) {
                Ok(s) => s,
                Err(m) => { return Err(m); },
            };
            let val = match special {
                Some(p) => p,
                None => {
                    match self.generate_expression(arg) {
                        Ok(v) => v,
                        Err(m) => { return Err(m); },
                    }
                },
            };
            let v = if i < params.len() {
                match self.pass_as(val, &params[i]) {
                    Ok(x) => x,
                    Err(m) => { return Err(m); },
                }
            } else {
                val.v
            };
            let ghost before_note = self.emitted();
            proof {
                assert(crate::codegen::grows(iter_start, before_note));
                assert forall|j: int| 0 <= j < i implies before_note[#[trigger] ks[j]] == llvm::Emitted::Operand(args@[j])
                    && ks[j] < before_note.len() by {
                    assert(before_note[ks[j]] == iter_start[ks[j]]);
                }
            }
            self.trace.note(Ghost(llvm::Emitted::Operand(v)));
            proof {
                ks = ks.push(before_note.len() as int);
            }
            args.push(v);
            i = i + 1;
        }
        let call_name = cat(internal.as_str(), "_call");
        let ghost before_call = self.emitted();
        let ghost start = old(self).emitted().len() as int;
        match llvm::call(&self.builder, &mut self.trace, function, &args, call_name.as_str()) {
            Some(Some(v)) => {
                proof {
                    let k = before_call.len() as int;
                    assert(self.emitted()[k] matches llvm::Emitted::Call(g, a, res)
                        && g == function && a@.len() == arguments@.len() && (res matches Some(x) ==> x == v));
                    assert(self.emitted()[start] == after_lookup[start]);
                    assert(forall|j: int| 0 <= j < ks.len() ==> self.emitted()[#[trigger] ks[j]] == before_call[ks[j]]);
                    assert(passes_args(self.emitted(), start, ks, k));
                }
                match ret {
                    Some(t) => Ok(Val { v, ty: t }),
                    None => Ok(Val { v, ty: VType::Int(32) }),
                }
            },
            Some(None) => {
                if ret.is_some() {
                    return Err(builder_failed("a call"));
                }
                let ghost k = before_call.len() as int;
                let ghost after_call = self.emitted();
                let zero = match self.const_of(&VType::Int(32), 0, false) {
                    Ok(z) => z,
                    Err(m) => { return Err(m); },
                };
                proof {
                    assert(self.emitted()[k] == after_call[k]);
                    assert(self.emitted()[k] matches llvm::Emitted::Call(g, a, res)
                        && g == function && a@.len() == arguments@.len() && res is None);
                    assert(self.emitted()[start] == after_lookup[start]);
                    assert(forall|j: int| 0 <= j < ks.len() ==> self.emitted()[#[trigger] ks[j]] == before_call[ks[j]]);
                    assert(passes_args(self.emitted(), start, ks, k));
                }
                Ok(Val { v: zero, ty: VType::Int(32) })
            },
            None => Err(builder_failed("a call")),
        }
    }
}

} // verus!

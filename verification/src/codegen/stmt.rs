//! Functions and statements.
use vstd::prelude::*;
use inkwell::types::BasicTypeEnum;
use inkwell::values::{BasicValueEnum, FunctionValue};
use crate::ast::{Type, Expression, Statement, Function, type_m, params_m};
use crate::display::type_text;
use crate::llvm;
use crate::llvm::Emitted;
use crate::text::{text, text_eq};
use crate::vtype::{VType, VTypeM, vt_m, str_vtype, str_m, conv_spec, map_kind_spec, map_kind, map_alloc_size, scan_format, element_scan_format,
    print_plan, print_format, PrintPlan};
use super::{Codegen, Var, Val, MapTypes, cat, cat3, undefined_variable, builder_failed, built, first_param_error,
    llvm_type_error, build_failure};

verus! {

broadcast use crate::codegen::Codegen::lemma_same_but_emitted;

/// Whether the requests at `j` look up `__vit_global_init` and, when the module
/// has it, call it with no argument right after.
pub open spec fn global_init_call_at(t: Seq<Emitted>, j: int) -> bool {
    &&& 0 <= j < t.len()
    &&& match t[j] {
        Emitted::Lookup(n, found) => n@ == "__vit_global_init"@ && match found {
            Some(f) => j + 1 < t.len() && (t[j + 1] matches Emitted::Call(g, args, _) && g == f && args@.len() == 0),
            None => true,
        },
        _ => false,
    }
}

/// A `for` loop's test at `k`: whether the counter is below the end, a signed
/// `<`, and a branch on that test (into the body when it holds, out of the loop
/// when not).
pub open spec fn loop_test_at(t: Seq<Emitted>, k: int) -> bool {
    &&& 0 <= k && k + 1 < t.len()
    &&& match (t[k], t[k + 1]) {
        (Emitted::IntComparison(p, _, _, c), Emitted::Branch(c2, _, _)) => p == llvm::IntCmp::Slt && c2 == c,
        _ => false,
    }
}

/// A `for` loop's step, the last requests: the constant one, the counter plus
/// that constant, then a branch back to the test.
pub open spec fn loop_step_ends(t: Seq<Emitted>) -> bool {
    &&& t.len() >= 3
    &&& match (t[t.len() - 3], t[t.len() - 2]) {
        (Emitted::IntConstant(c, ext, one), Emitted::IntOperation(llvm::IntOp::Add, _, step, _)) =>
            c == 1 && !ext && step == one,
        _ => false,
    }
    &&& t.last() is Jump
}

/// From request `start` on, `t` holds `n` calls of `f` with two arguments (a
/// format and a value), one after another.
pub open spec fn calls_in_order(t: Seq<Emitted>, start: int, f: FunctionValue, n: int) -> bool {
    exists|ks: Seq<int>| #![trigger ks.len()] {
        &&& ks.len() == n
        &&& forall|j: int| 0 <= j < n ==> start <= #[trigger] ks[j] < t.len()
        &&& forall|j: int| 0 <= j < n - 1 ==> #[trigger] ks[j] < ks[j + 1]
        &&& forall|j: int| 0 <= j < n ==> (#[trigger] t[ks[j]] matches Emitted::Call(g, a, _) && g == f && a@.len() == 2)
    }
}

/// A `for` loop's counter: at `s` the start value stored in the counter's
/// storage; at `l` the counter read back from that storage; at `k` the counter
/// read compared, signed, below the end value, then a branch on that test, and
/// next the builder moved into the branch's first target, where the body is
/// built; at the end of the step, the counter read back from its storage
/// again, the constant one, and the counter read plus that one.
pub open spec fn counts_up(t: Seq<Emitted>, s: int, l: int, k: int) -> bool {
    let n = t.len() as int;
    &&& 0 <= s < l < k && k + 2 < n - 4
    &&& t[s] matches Emitted::Store(slot, _)
    &&& match (t[l], t[k], t[k + 1], t[k + 2]) {
        (Emitted::Load(p, i), Emitted::IntComparison(pred, a, _, c), Emitted::Branch(c2, body, _), Emitted::Position(b2)) =>
            p == slot && pred == llvm::IntCmp::Slt && a == i && c2 == c && b2 == body,
        _ => false,
    }
    &&& match (t[n - 4], t[n - 3], t[n - 2]) {
        (Emitted::Load(p2, j), Emitted::IntConstant(c1, _, one), Emitted::IntOperation(llvm::IntOp::Add, x, y, _)) =>
            p2 == slot && c1 == 1 && x == j && y == one,
        _ => false,
    }
}

/// The last request stores, at `slot`, the value noted as an operand (after
/// the requests of its expression), or that value widened.
pub open spec fn stores_value(t: Seq<Emitted>, start: int, slot: BasicValueEnum) -> bool {
    let n = t.len() as int;
    &&& start <= n - 2
    &&& match t.last() {
        Emitted::Store(p, x) => p == slot && {
            ||| (t[n - 2] matches Emitted::Operand(e) && x == e)
            ||| (start <= n - 3 && match (t[n - 3], t[n - 2]) {
                (Emitted::Operand(e), Emitted::Widen(e2, w)) => e2 == e && w == x,
                _ => false,
            })
        },
        _ => false,
    }
}

/// The last request returns from the function: the value noted as an operand
/// just before (after the requests of its expression) when `with_value`,
/// nothing otherwise.
pub open spec fn returns_value(t: Seq<Emitted>, start: int, with_value: bool) -> bool {
    let n = t.len() as int;
    &&& start < n
    &&& if with_value {
        start <= n - 2 && match (t[n - 2], t[n - 1]) {
            (Emitted::Operand(e), Emitted::Return(Some(x))) => x == e,
            _ => false,
        }
    } else {
        t[n - 1] == Emitted::Return(None)
    }
}

/// A `while` loop's test at `k`: a branch on the condition, then the builder
/// moved into its first target, where the body is built; the last request
/// moves the builder into its second target, where the code after the loop goes.
pub open spec fn loops_while(t: Seq<Emitted>, k: int) -> bool {
    &&& 0 <= k && k + 1 < t.len()
    &&& match (t[k], t[k + 1], t.last()) {
        (Emitted::Branch(_, body, exit), Emitted::Position(b), Emitted::Position(x)) => b == body && x == exit,
        _ => false,
    }
}

/// An `if` at `k`: a branch on the condition, then the builder moved into its
/// first target, where the `then` body is built; at `e`, later, the builder
/// moved into its second target, where the `else` body (if any) is built.
pub open spec fn chooses_between(t: Seq<Emitted>, k: int, e: int) -> bool {
    &&& 0 <= k && k + 1 < e < t.len()
    &&& match (t[k], t[k + 1], t[e]) {
        (Emitted::Branch(_, yes, no), Emitted::Position(y), Emitted::Position(n)) => y == yes && n == no,
        _ => false,
    }
}

/// A `while` loop's requests from `start` on: first a branch to the block of
/// its test, then, later, a branch on the test's value.
pub open spec fn while_shape(t: Seq<Emitted>, start: int) -> bool {
    &&& 0 <= start < t.len()
    &&& t[start] is Jump
    &&& exists|k: int| start < k < t.len() && (#[trigger] t[k]) is Branch
}

/// An `if`'s requests from `start` on hold a branch on its condition.
pub open spec fn branches_after(t: Seq<Emitted>, start: int) -> bool {
    exists|k: int| 0 <= start <= k < t.len() && (#[trigger] t[k]) is Branch
}

impl<'ctx> Codegen<'ctx> {
    /// Whether the block being filled already ends with a terminator.
    pub(crate) fn block_terminated(&self) -> (r: bool) {
        match llvm::insert_block(&self.builder) {
            Some(b) => llvm::has_terminator(b),
            None => false,
        }
    }

    /// A function definition: its parameters are copied into local storage, the
    /// globals are visible, and `main` first initialises the global maps.
    pub fn generate_function(&mut self, function: &Function) -> (r: Result<(), String>)
        ensures
            r is Ok && function.name@ == "main"@ ==> global_init_call_at(final(self).emitted(), old(self).emitted().len() as int),
            crate::codegen::grows(old(self).emitted(), final(self).emitted()),
            match first_param_error(params_m(function.parameters@), old(self).struct_names()) {
                Some(e) => r is Err && r->Err_0@ == e,
                None => match conv_spec(type_m(function.return_type), old(self).struct_names()) {
                    Err(e) => r is Err && r->Err_0@ == e,
                    Ok(t) => t is Array ==> (r is Err && r->Err_0@ == "Functions cannot return this type"@),
                },
            },
    {
        let ghost ps = params_m(function.parameters@);
        let ghost known = self.struct_names();
        assert(ps.subrange(0, ps.len() as int) =~= ps);
        let mut params: Vec<VType> = Vec::new();
        let mut i: usize = 0;
        while i < function.parameters.len()
            invariant
                crate::codegen::grows(old(self).emitted(), self.emitted()),
                self.emitted() == old(self).emitted(),
                i <= function.parameters@.len(),
                ps == params_m(function.parameters@),
                known == self.struct_names(),
                *self == *old(self),
                first_param_error(ps, known) == first_param_error(ps.subrange(i as int, ps.len() as int), known),
            decreases function.parameters@.len() - i,
        {
            let t = match self.param_vtype(&function.parameters[i], false) {
                Ok(t) => t,
                Err(m) => {
                    assert(ps.subrange(i as int, ps.len() as int)[0] == ps[i as int]);
                    return Err(m);
                },
            };
            assert(ps.subrange(i as int, ps.len() as int).subrange(1, ps.len() - i) =~= ps.subrange(i + 1, ps.len() as int));
            params.push(t);
            i = i + 1;
        }
        assert(first_param_error(ps.subrange(i as int, ps.len() as int), known) is None);
        let ret = match self.convert_type(&function.return_type) {
            Ok(t) => t,
            Err(m) => { return Err(m); },
        };
        if matches!(ret, VType::Array(..)) {
            return Err(text("Functions cannot return this type"));
        }
        let mut param_copy: Vec<VType> = Vec::new();
        let mut i: usize = 0;
        while i < params.len()
            invariant
                crate::codegen::grows(old(self).emitted(), self.emitted()),
                self.emitted() == old(self).emitted(),
                first_param_error(params_m(function.parameters@), old(self).struct_names()) is None,
                conv_spec(type_m(function.return_type), old(self).struct_names()) matches Ok(t) && !(t is Array),
            decreases params@.len() - i,
        {
            param_copy.push(params[i].duplicate());
            i = i + 1;
        }
        let fn_value = match self.declare(function.name.as_str(), Some(ret), param_copy, false) {
            Ok(f) => f,
            Err(m) => { return Err(m); },
        };
        self.current_function = Some(fn_value);
        let entry = llvm::append_block(self.context, fn_value, "entry");
        llvm::position_at_end(&self.builder, entry);

        self.variables.clear();
        self.map_variables.clear();
        self.array_params.clear();
        self.var_struct_names.clear();
        let mut i: usize = 0;
        while i < self.global_variables.len()
            invariant
                crate::codegen::grows(old(self).emitted(), self.emitted()),
                self.emitted() == old(self).emitted(),
                first_param_error(params_m(function.parameters@), old(self).struct_names()) is None,
                conv_spec(type_m(function.return_type), old(self).struct_names()) matches Ok(t) && !(t is Array),
            decreases self.global_variables.entries().len() - i,
        {
            let (name, var) = {
                let e = self.global_variables.entry(i);
                (e.0.clone(), Var { ptr: e.1.ptr, ty: e.1.ty.duplicate() })
            };
            self.variables.insert(name, var);
            i = i + 1;
        }
        let mut i: usize = 0;
        while i < self.global_map_variables.len()
            invariant
                crate::codegen::grows(old(self).emitted(), self.emitted()),
                self.emitted() == old(self).emitted(),
                first_param_error(params_m(function.parameters@), old(self).struct_names()) is None,
                conv_spec(type_m(function.return_type), old(self).struct_names()) matches Ok(t) && !(t is Array),
            decreases self.global_map_variables.entries().len() - i,
        {
            let (name, types) = {
                let e = self.global_map_variables.entry(i);
                (e.0.clone(), MapTypes { key: e.1.key.duplicate(), value: e.1.value.duplicate() })
            };
            self.map_variables.insert(name, types);
            i = i + 1;
        }
        let ghost j0: int = old(self).emitted().len() as int;
        let is_main = text_eq(function.name.as_str(), "main");
        if is_main {
            proof { reveal_strlit("__vit_global_init"); }
            match llvm::get_function(&self.module, &mut self.trace, "__vit_global_init") {
                Some(init_fn) => {
                    let no_args: Vec<BasicValueEnum<'ctx>> = Vec::new();
                    if llvm::call(&self.builder, &mut self.trace, init_fn, &no_args, "").is_none() {
                        return Err(builder_failed("a call"));
                    }
                },
                None => {},
            }
            assert(global_init_call_at(self.emitted(), j0));
        }

        let mut i: usize = 0;
        while i < function.parameters.len()
            invariant
                j0 == old(self).emitted().len(),
                is_main == (function.name@ == "main"@),
                is_main ==> global_init_call_at(self.emitted(), j0),
                crate::codegen::grows(old(self).emitted(), self.emitted()),
                first_param_error(params_m(function.parameters@), old(self).struct_names()) is None,
                conv_spec(type_m(function.return_type), old(self).struct_names()) matches Ok(t) && !(t is Array),
            decreases function.parameters@.len() - i,
        {
            let p = &function.parameters[i];
            let n = i as u32;
            let pv = match built(llvm::param(fn_value, n), "a parameter") {
                Ok(v) => v,
                Err(m) => { return Err(m); },
            };
            llvm::set_value_name(pv, p.name.as_str());
            if i >= params.len() {
                return Err(builder_failed("a parameter"));
            }
            let pt = params[i].duplicate();
            match &p.typ {
                Type::Array { .. } => {
                    let elem = match &pt {
                        VType::Ptr(e) => e.duplicate(),
                        _ => { return Err(builder_failed("a parameter")); },
                    };
                    let lt = match self.llvm_type(&pt) {
                        Ok(t) => t,
                        Err(m) => { return Err(m); },
                    };
                    let slot = match built(llvm::alloca(&self.builder, lt, p.name.as_str()), "an alloca") {
                        Ok(v) => v,
                        Err(m) => { return Err(m); },
                    };
                    if !llvm::store(&self.builder, slot, pv) {
                        return Err(builder_failed("a store"));
                    }
                    self.variables.insert(p.name.clone(), Var { ptr: slot, ty: pt });
                    self.array_params.insert(p.name.clone(), elem);
                },
                Type::Struct(sname) => {
                    let st = VType::Struct(sname.clone());
                    let lt = match self.llvm_type(&st) {
                        Ok(t) => t,
                        Err(m) => { return Err(m); },
                    };
                    let slot = match built(llvm::alloca(&self.builder, lt, p.name.as_str()), "an alloca") {
                        Ok(v) => v,
                        Err(m) => { return Err(m); },
                    };
                    let value = match built(llvm::load(&self.builder, pv, "param_struct"), "a load") {
                        Ok(v) => v,
                        Err(m) => { return Err(m); },
                    };
                    if !llvm::store(&self.builder, slot, value) {
                        return Err(builder_failed("a store"));
                    }
                    self.variables.insert(p.name.clone(), Var { ptr: slot, ty: st });
                    self.var_struct_names.insert(p.name.clone(), sname.clone());
                },
                Type::HashMap { key, value, .. } => {
                    let lt = match self.llvm_type(&pt) {
                        Ok(t) => t,
                        Err(m) => { return Err(m); },
                    };
                    let slot = match built(llvm::alloca(&self.builder, lt, p.name.as_str()), "an alloca") {
                        Ok(v) => v,
                        Err(m) => { return Err(m); },
                    };
                    if !llvm::store(&self.builder, slot, pv) {
                        return Err(builder_failed("a store"));
                    }
                    self.variables.insert(p.name.clone(), Var { ptr: slot, ty: pt });
                    self.map_variables.insert(p.name.clone(), MapTypes { key: key.duplicate(), value: value.duplicate() });
                },
                _ => {
                    let lt = match self.llvm_type(&pt) {
                        Ok(t) => t,
                        Err(m) => { return Err(m); },
                    };
                    let slot = match built(llvm::alloca(&self.builder, lt, p.name.as_str()), "an alloca") {
                        Ok(v) => v,
                        Err(m) => { return Err(m); },
                    };
                    if !llvm::store(&self.builder, slot, pv) {
                        return Err(builder_failed("a store"));
                    }
                    self.variables.insert(p.name.clone(), Var { ptr: slot, ty: pt });
                },
            }
            i = i + 1;
        }
        let ghost t1 = self.emitted();
        let res = self.generate_body(&function.body);
        proof {
            if is_main {
                assert(self.emitted()[j0] == t1[j0]);
                if j0 + 1 < t1.len() {
                    assert(self.emitted()[j0 + 1] == t1[j0 + 1]);
                }
            }
        }
        res
    }

    /// The statements of a body, up to the first that ends the block.
    pub(crate) fn generate_body(&mut self, body: &Vec<Statement>) -> (r: Result<(), String>)
        ensures
            crate::codegen::grows(old(self).emitted(), final(self).emitted()),
            r is Ok ==> final(self).loop_depth() == old(self).loop_depth(),
            body@.len() == 0 ==> r is Ok && *final(self) == *old(self),
        decreases body, 1nat,
    {
        let mut i: usize = 0;
        while i < body.len()
            invariant
                crate::codegen::grows(old(self).emitted(), self.emitted()),
                self.loop_depth() == old(self).loop_depth(),
                body@.len() == 0 ==> *self == *old(self),
            decreases body@.len() - i,
        {
            proof { assert(decreases_to!(body => body@[i as int])); }
            match self.generate_statement(&body[i]) {
                Ok(()) => {},
                Err(m) => { return Err(m); },
            }
            if self.block_terminated() {
                return Ok(());
            }
            i = i + 1;
        }
        Ok(())
    }

    /// The value of an expression, which must be an integer.
    pub(crate) fn int_expression(&mut self, e: &Expression, what: &str) -> (r: Result<Val<'ctx>, String>)
        ensures
            crate::codegen::grows(old(self).emitted(), final(self).emitted()),
            final(self).struct_names() == old(self).struct_names(),
            final(self).loop_depth() == old(self).loop_depth(),
            r is Ok ==> vt_m(r->Ok_0.ty) is Int,
            match *e {
                Expression::Identifier(name) => old(self).var_type(name@) is None
                    ==> (r is Err && r->Err_0@ == "Undefined variable: "@ + name@ && *final(self) == *old(self)),
                Expression::StringLiteral(_) | Expression::FloatLiteral(_) | Expression::ArrayLiteral(_) =>
                    r is Err && final(self).same_but_emitted(old(self)),
                _ => true,
            },
    {
        let v = match self.generate_expression(e) {
            Ok(v) => v,
            Err(m) => { return Err(m); },
        };
        if v.ty.is_int() {
            Ok(v)
        } else {
            Err(cat(what, " must be an integer value"))
        }
    }

    /// Widens an integer value to a wider integer storage type (sign-extending).
    /// An integer value for a place of type `target`: sign-extended when the
    /// place is a wider integer, else unchanged.
    pub fn coerce_int(&self, v: Val<'ctx>, target: &VType) -> (r: Result<Val<'ctx>, String>)
        ensures
            match (vt_m(v.ty), vt_m(*target)) {
                (VTypeM::Int(a), VTypeM::Int(b)) => if a < b {
                    r is Ok ==> vt_m(r->Ok_0.ty) == VTypeM::Int(b)
                } else {
                    r == Ok::<Val<'ctx>, String>(v)
                },
                _ => r == Ok::<Val<'ctx>, String>(v),
            },
    {
        match (v.ty.bits(), target.bits()) {
            (Some(a), Some(b)) => {
                if a < b {
                    let lt = match self.llvm_type(target) {
                        Ok(t) => t,
                        Err(m) => { return Err(m); },
                    };
                    let w = match built(llvm::sext(&self.builder, v.v, lt, "widen"), "a sign extension") {
                        Ok(x) => x,
                        Err(m) => { return Err(m); },
                    };
                    Ok(Val { v: w, ty: VType::Int(b) })
                } else {
                    Ok(v)
                }
            },
            _ => Ok(v),
        }
    }

    /// The storage of a map variable: zeroed memory of the size its kind needs.
    pub(crate) fn declare_map(&mut self, name: &String, key: &Type, value: &Type) -> (r: Result<(), String>)
        ensures
            crate::codegen::grows(old(self).emitted(), final(self).emitted()),
            final(self).struct_names() == old(self).struct_names(),
            final(self).loop_depth() == old(self).loop_depth(),
            map_kind_spec(type_m(*key), type_m(*value)) is None ==> r is Err
                && r->Err_0@ == "Unsupported map type: map["@ + type_text(type_m(*key)) + ", "@
                    + type_text(type_m(*value)) + "]"@,
            r is Ok ==> final(self).var_type(name@) == Some(str_m()),
    {
        let kind = match map_kind(key, value) {
            Some(k) => k,
            None => {
                let mut s = text("Unsupported map type: map[");
                key.append_text(&mut s);
                crate::text::append(&mut s, ", ");
                value.append_text(&mut s);
                crate::text::append(&mut s, "]");
                assert(s@ =~= "Unsupported map type: map["@ + type_text(type_m(*key)) + ", "@
                    + type_text(type_m(*value)) + "]"@);
                return Err(s);
            },
        };
        let size = map_alloc_size(&kind);
        let p = str_vtype();
        let lt = match self.llvm_type(&p) {
            Ok(t) => t,
            Err(m) => { return Err(m); },
        };
        let slot = match built(llvm::alloca(&self.builder, lt, name.as_str()), "an alloca") {
            Ok(v) => v,
            Err(m) => { return Err(m); },
        };
        let calloc_fn = match built(llvm::get_function(&self.module, &mut self.trace, "calloc"), "a call of calloc") {
            Ok(f) => f,
            Err(m) => { return Err(m); },
        };
        let one = match self.const_of(&VType::Int(64), 1, false) {
            Ok(c) => c,
            Err(m) => { return Err(m); },
        };
        let sz = match self.const_of(&VType::Int(64), size, false) {
            Ok(c) => c,
            Err(m) => { return Err(m); },
        };
        let mem = match llvm::call(&self.builder, &mut self.trace, calloc_fn, &vec![one, sz], "map_alloc") {
            Some(Some(v)) => v,
            _ => { return Err(builder_failed("a call of calloc")); },
        };
        if !llvm::store(&self.builder, slot, mem) {
            return Err(builder_failed("a store"));
        }
        self.variables.insert(name.clone(), Var { ptr: slot, ty: p });
        self.map_variables.insert(name.clone(), MapTypes { key: key.duplicate(), value: value.duplicate() });
        Ok(())
    }

    /// Builds the code of one statement. A declaration puts the variable in scope
    /// with its type's representation (a map's is a pointer to its storage); an
    /// assignment needs the variable in scope; `break` and `continue` need a loop.
    pub fn generate_statement(&mut self, stmt: &Statement) -> (r: Result<(), String>)
        ensures
            crate::codegen::grows(old(self).emitted(), final(self).emitted()),
            r is Ok ==> final(self).loop_depth() == old(self).loop_depth(),
            *stmt matches Statement::VariableDecl { name, typ, .. } ==> match typ {
                Type::HashMap { key, value, .. } => {
                    &&& map_kind_spec(type_m(*key), type_m(*value)) is None ==> r is Err
                        && r->Err_0@ == "Unsupported map type: map["@ + type_text(type_m(*key)) + ", "@
                            + type_text(type_m(*value)) + "]"@
                    &&& r is Ok ==> final(self).var_type(name@) == Some(str_m())
                },
                _ => match conv_spec(type_m(typ), old(self).struct_names()) {
                    Err(e) => r is Err && r->Err_0@ == e,
                    Ok(t) => r is Ok ==> final(self).var_type(name@) == Some(t),
                },
            },
            *stmt matches Statement::Assign { name, .. } ==> (old(self).var_type(name@) is None ==>
                (r is Err && r->Err_0@ == "Undefined variable: "@ + name@ && *final(self) == *old(self))),
            *stmt matches Statement::VariableDecl { name, typ, initializer: Some(init) } ==> (
                (r is Ok && !(typ is HashMap) && !(init is ArrayLiteral)) ==> (final(self).var_slot(name@) matches Some(slot)
                    && stores_value(final(self).emitted(), old(self).emitted().len() as int, slot))),
            *stmt matches Statement::Return { value } ==> (r is Ok ==> returns_value(final(self).emitted(),
                old(self).emitted().len() as int, value is Some)),
            *stmt matches Statement::Assign { name, .. } ==> (r is Ok ==> (old(self).var_slot(name@) matches Some(slot)
                && stores_value(final(self).emitted(), old(self).emitted().len() as int, slot))),
            *stmt matches Statement::FieldAssign { path, .. } ==> (path@.len() < 2 ==>
                (r is Err && r->Err_0@ == "FieldAssign path must have at least two segments"@)),
            stmt is Break && old(self).loop_depth() == 0 ==> (r is Err && r->Err_0@ == "'break' outside of loop"@
                && *final(self) == *old(self)),
            stmt is Continue && old(self).loop_depth() == 0 ==> (r is Err && r->Err_0@ == "'continue' outside of loop"@
                && *final(self) == *old(self)),
            r is Ok && stmt is If ==> branches_after(final(self).emitted(), old(self).emitted().len() as int),
            r is Ok ==> (*stmt matches Statement::Print { values } ==> (old(self).printf_fn() matches Some(f)
                && calls_in_order(final(self).emitted(), old(self).emitted().len() as int, f, values@.len() as int))),
            r is Ok && stmt is While ==> while_shape(final(self).emitted(), old(self).emitted().len() as int),
            r is Ok && stmt is While ==> exists|k: int| old(self).emitted().len() <= k
                && #[trigger] loops_while(final(self).emitted(), k),
            r is Ok && stmt is If ==> exists|k: int, e: int| old(self).emitted().len() <= k
                && #[trigger] chooses_between(final(self).emitted(), k, e),
            r is Ok && stmt is For ==> {
                &&& exists|k: int| old(self).emitted().len() <= k && #[trigger] loop_test_at(final(self).emitted(), k)
                &&& loop_step_ends(final(self).emitted())
                &&& exists|s: int, l: int, k: int| old(self).emitted().len() <= s
                    && #[trigger] counts_up(final(self).emitted(), s, l, k)
            },
            (stmt is Break || stmt is Continue) && old(self).loop_depth() > 0 ==> {
                &&& final(self).same_but_emitted(old(self))
                &&& r is Ok ==> final(self).emitted() == old(self).emitted().push(Emitted::Jump(
                    if stmt is Break { old(self).loop_targets().last().1 } else { old(self).loop_targets().last().0 }))
                &&& r is Err ==> (final(self).emitted() == old(self).emitted() && r->Err_0@ == build_failure("a branch"@))
            },
        decreases stmt, 3nat,
    {
        match stmt {
            Statement::VariableDecl { name, typ, initializer } => {
                match typ {
                    Type::HashMap { key, value, .. } => {
                        return self.declare_map(name, key, value);
                    },
                    _ => {},
                }
                let vt = match self.convert_type(typ) {
                    Ok(t) => t,
                    Err(m) => { return Err(m); },
                };
                let lt = match self.llvm_type(&vt) {
                    Ok(t) => t,
                    Err(m) => { return Err(m); },
                };
                let slot = match built(llvm::alloca(&self.builder, lt, name.as_str()), "an alloca") {
                    Ok(v) => v,
                    Err(m) => { return Err(m); },
                };
                match initializer {
                    Some(init) => {
                        match (&vt, init) {
                            (VType::Array(el, _), Expression::ArrayLiteral(elems)) => {
                                let mut i: usize = 0;
                                while i < elems.len()
                                    invariant
                                        crate::codegen::grows(old(self).emitted(), self.emitted()),
                                        self.loop_depth() == old(self).loop_depth(),
                                        stmt is VariableDecl,
                                        stmt->VariableDecl_typ == *typ,
                                        !(*typ is HashMap),
                                        conv_spec(type_m(*typ), old(self).struct_names()) is Ok,
                                    decreases elems@.len() - i,
                                {
                                    let v = match self.generate_expression(&elems[i]) {
                                        Ok(v) => v,
                                        Err(m) => { return Err(m); },
                                    };
                                    let idx = match self.const_of(&VType::Int(32), i as u64, false) {
                                        Ok(c) => c,
                                        Err(m) => { return Err(m); },
                                    };
                                    let p = match self.element_ptr(slot, el, &Val { v: idx, ty: VType::Int(32) }) {
                                        Ok(p) => p,
                                        Err(m) => { return Err(m); },
                                    };
                                    if !llvm::store(&self.builder, p, v.v) {
                                        return Err(builder_failed("a store"));
                                    }
                                    i = i + 1;
                                }
                            },
                            _ => {
                                let v = match self.generate_expression(init) {
                                    Ok(v) => v,
                                    Err(m) => { return Err(m); },
                                };
                                self.trace.note(Ghost(Emitted::Operand(v.v)));
                                let widened = match (v.ty.bits(), vt.bits()) {
                                    (Some(a), Some(b)) => a < b,
                                    _ => false,
                                };
                                let w = match self.coerce_int(v, &vt) {
                                    Ok(w) => w,
                                    Err(m) => { return Err(m); },
                                };
                                if widened {
                                    self.trace.note(Ghost(Emitted::Widen(v.v, w.v)));
                                }
                                match self.store_noted(slot, w.v) {
                                    Ok(()) => {},
                                    Err(m) => { return Err(m); },
                                }
                                assert(stores_value(self.emitted(), old(self).emitted().len() as int, slot));
                            },
                        }
                    },
                    None => {},
                }
                match typ {
                    Type::Struct(sname) => { self.var_struct_names.insert(name.clone(), sname.clone()); },
                    _ => {},
                }
                self.variables.insert(name.clone(), Var { ptr: slot, ty: vt });
                Ok(())
            },
            Statement::Assign { name, value } => {
                let (ptr, ty) = match self.variables.get(name.as_str()) {
                    Some(var) => (var.ptr, var.ty.duplicate()),
                    None => { return Err(undefined_variable(name.as_str())); },
                };
                let v = match self.generate_expression(value) {
                    Ok(v) => v,
                    Err(m) => { return Err(m); },
                };
                self.trace.note(Ghost(Emitted::Operand(v.v)));
                let widened = match (v.ty.bits(), ty.bits()) {
                    (Some(a), Some(b)) => a < b,
                    _ => false,
                };
                let w = match self.coerce_int(v, &ty) {
                    Ok(w) => w,
                    Err(m) => { return Err(m); },
                };
                if widened {
                    self.trace.note(Ghost(Emitted::Widen(v.v, w.v)));
                }
                self.store_noted(ptr, w.v)
            },
            Statement::Return { value } => {
                match value {
                    Some(e) => {
                        let v = match self.generate_expression(e) {
                            Ok(v) => v,
                            Err(m) => { return Err(m); },
                        };
                        self.trace.note(Ghost(Emitted::Operand(v.v)));
                        self.give_noted(Some(v.v))
                    },
                    None => self.give_noted(None),
                }
            },
            Statement::If { .. } => self.generate_if_statement(stmt),
            Statement::While { .. } => self.generate_while_statement(stmt),
            Statement::Print { values } => self.generate_print(values),
            Statement::Input { name, typ } => self.generate_input(name, typ),
            Statement::InputIndex { name, index } => {
                let scanf_fn = match self.scanf {
                    Some(f) => f,
                    None => { return Err(builder_failed("a call of scanf")); },
                };
                let (elem_ptr, elem) = match self.element_of(name, index, "input_gep") {
                    Ok(x) => x,
                    Err(m) => { return Err(m); },
                };
                let fmt = match built(llvm::global_string(&self.builder, element_scan_format(&elem), "fmt_scan_idx"), "a format string") {
                    Ok(f) => f,
                    Err(m) => { return Err(m); },
                };
                if llvm::call(&self.builder, &mut self.trace, scanf_fn, &vec![fmt, elem_ptr], "scanf_idx").is_none() {
                    return Err(builder_failed("a call of scanf"));
                }
                Ok(())
            },
            Statement::For { .. } => self.generate_for_statement(stmt),
            Statement::Expr(e) => {
                match self.generate_expression(e) {
                    Ok(_) => Ok(()),
                    Err(m) => Err(m),
                }
            },
            Statement::Break => {
                let after = match self.loop_stack.last() {
                    Some(pair) => pair.1,
                    None => { return Err(text("'break' outside of loop")); },
                };
                if llvm::br(&self.builder, &mut self.trace, after) { Ok(()) } else { Err(builder_failed("a branch")) }
            },
            Statement::Continue => {
                let cont = match self.loop_stack.last() {
                    Some(pair) => pair.0,
                    None => { return Err(text("'continue' outside of loop")); },
                };
                if llvm::br(&self.builder, &mut self.trace, cont) { Ok(()) } else { Err(builder_failed("a branch")) }
            },
            Statement::IndexAssign { name, index, value } => {
                let (elem_ptr, _elem) = match self.element_of(name, index, "gep") {
                    Ok(x) => x,
                    Err(m) => { return Err(m); },
                };
                let v = match self.generate_expression(value) {
                    Ok(v) => v,
                    Err(m) => { return Err(m); },
                };
                if !llvm::store(&self.builder, elem_ptr, v.v) {
                    return Err(builder_failed("a store"));
                }
                Ok(())
            },
            Statement::FieldAssign { path, value } => {
                if path.len() < 2 {
                    return Err(text("FieldAssign path must have at least two segments"));
                }
                let last = path.len() - 1;
                let target_field = path[last].clone();
                let mut obj = Expression::Identifier(path[0].clone());
                let mut k: usize = 1;
                while k < last
                    invariant
                        crate::codegen::grows(old(self).emitted(), self.emitted()),
                        self.loop_depth() == old(self).loop_depth(),
                        last < path@.len(),
                        stmt is FieldAssign,
                    decreases last - k,
                {
                    obj = Expression::FieldAccess { object: Box::new(obj), field: path[k].clone() };
                    k = k + 1;
                }
                let (struct_ptr, struct_name) = match self.resolve_struct_ptr(&obj) {
                    Ok(x) => x,
                    Err(m) => { return Err(m); },
                };
                let (idx, _fty) = match self.field_index(&struct_name, &target_field) {
                    Ok(x) => x,
                    Err(m) => { return Err(m); },
                };
                let field_ptr = match built(llvm::struct_field_ptr(&self.builder, struct_ptr, idx, "fptr"), "a field address") {
                    Ok(p) => p,
                    Err(m) => { return Err(m); },
                };
                let v = match self.generate_expression(value) {
                    Ok(v) => v,
                    Err(m) => { return Err(m); },
                };
                if !llvm::store(&self.builder, field_ptr, v.v) {
                    return Err(builder_failed("a store"));
                }
                Ok(())
            },
        }
    }

    /// Converts a condition to `i1` by comparing it with zero, unless it is one.
    pub(crate) fn to_i1(&mut self, v: Val<'ctx>, name: &str) -> (r: Result<BasicValueEnum<'ctx>, String>)
        ensures
            crate::codegen::grows(old(self).emitted(), final(self).emitted()),
            final(self).same_but_emitted(old(self)),
            match vt_m(v.ty) {
                VTypeM::Int(w) => if w == 1 {
                    r == Ok::<BasicValueEnum<'ctx>, String>(v.v)
                } else {
                    match llvm_type_error(vt_m(v.ty), old(self).struct_names()) {
                        Some(e) => r is Err && r->Err_0@ == e,
                        None => r is Err ==> r->Err_0@ == build_failure("an integer constant"@)
                            || r->Err_0@ == build_failure("a comparison"@),
                    }
                },
                _ => r is Err && r->Err_0@ == "A condition must be an integer or bool value"@,
            },
    {
        match v.ty.bits() {
            Some(w) => {
                if w == 1 {
                    Ok(v.v)
                } else {
                    let zero = match self.const_of(&v.ty, 0, false) {
                        Ok(z) => z,
                        Err(m) => { return Err(m); },
                    };
                    built(llvm::int_compare(&self.builder, &mut self.trace, llvm::IntCmp::Ne, v.v, zero, name), "a comparison")
                }
            },
            None => Err(text("A condition must be an integer or bool value")),
        }
    }

    pub(crate) fn generate_while_statement(&mut self, stmt: &Statement) -> (r: Result<(), String>)
        ensures
            crate::codegen::grows(old(self).emitted(), final(self).emitted()),
            r is Ok ==> final(self).loop_depth() == old(self).loop_depth(),
            match *stmt {
                Statement::While { condition, .. } => {
                    &&& !old(self).in_function()
                        ==> (r is Err && r->Err_0@ == build_failure("a loop outside a function"@)
                            && *final(self) == *old(self))
                    &&& match condition {
                        Expression::Identifier(name) => old(self).var_type(name@) is None ==> r is Err,
                        Expression::StringLiteral(_) | Expression::FloatLiteral(_) | Expression::ArrayLiteral(_) => r is Err,
                        _ => true,
                    }
                    &&& r is Ok ==> while_shape(final(self).emitted(), old(self).emitted().len() as int)
                    &&& r is Ok ==> exists|k: int| old(self).emitted().len() <= k && #[trigger] loops_while(final(self).emitted(), k)
                },
                _ => r is Ok && *final(self) == *old(self),
            },
        decreases stmt, 2nat,
    {
        let (condition, body) = match stmt {
            Statement::While { condition, body } => (condition, body),
            _ => { return Ok(()); },
        };
        let current_fn = match self.current_function {
            Some(f) => f,
            None => { return Err(builder_failed("a loop outside a function")); },
        };
        let cond_block = llvm::append_block(self.context, current_fn, "while_cond");
        let loop_block = llvm::append_block(self.context, current_fn, "while_loop");
        let after_block = llvm::append_block(self.context, current_fn, "while_after");
        if !llvm::br(&self.builder, &mut self.trace, cond_block) {
            return Err(builder_failed("a branch"));
        }
        llvm::position_at_end(&self.builder, cond_block);
        let c = match self.generate_expression(condition) {
            Ok(v) => v,
            Err(m) => { return Err(m); },
        };
        let c1 = match self.to_i1(c, "while_cond") {
            Ok(v) => v,
            Err(m) => { return Err(m); },
        };
        let ghost test_at = self.emitted().len() as int;
        if !llvm::cond_br(&self.builder, &mut self.trace, c1, loop_block, after_block) {
            return Err(builder_failed("a branch"));
        }
        let ghost after_test = self.emitted();
        assert(after_test[old(self).emitted().len() as int] is Jump);
        assert(after_test[test_at] is Branch);
        self.position(loop_block);
        let ghost entered = self.emitted();
        self.loop_stack.push((cond_block, after_block));
        match self.generate_body(body) {
            Ok(()) => {},
            Err(m) => { return Err(m); },
        }
        self.loop_stack.pop();
        if !self.block_terminated() {
            if !llvm::br(&self.builder, &mut self.trace, cond_block) {
                return Err(builder_failed("a branch"));
            }
        }
        self.position(after_block);
        proof {
            assert(self.emitted()[old(self).emitted().len() as int] == after_test[old(self).emitted().len() as int]);
            assert(self.emitted()[test_at] == after_test[test_at]);
            assert(self.emitted()[test_at + 1] == entered[test_at + 1]);
            assert(loops_while(self.emitted(), test_at));
        }
        Ok(())
    }

    pub(crate) fn generate_if_statement(&mut self, stmt: &Statement) -> (r: Result<(), String>)
        ensures
            crate::codegen::grows(old(self).emitted(), final(self).emitted()),
            r is Ok ==> final(self).loop_depth() == old(self).loop_depth(),
            match *stmt {
                Statement::If { condition, .. } => (r is Ok ==> branches_after(final(self).emitted(), old(self).emitted().len() as int))
                    && (r is Ok ==> exists|k: int, e: int| old(self).emitted().len() <= k
                        && #[trigger] chooses_between(final(self).emitted(), k, e)) && match condition {
                    Expression::Identifier(name) => old(self).var_type(name@) is None
                        ==> (r is Err && r->Err_0@ == "Undefined variable: "@ + name@ && *final(self) == *old(self)),
                    Expression::StringLiteral(_) | Expression::FloatLiteral(_) | Expression::ArrayLiteral(_) => r is Err,
                    _ => true,
                },
                _ => r is Ok && *final(self) == *old(self),
            },
        decreases stmt, 2nat,
    {
        let (condition, then_body, else_body) = match stmt {
            Statement::If { condition, then_body, else_body } => (condition, then_body, else_body),
            _ => { return Ok(()); },
        };
        let c = match self.generate_expression(condition) {
            Ok(v) => v,
            Err(m) => { return Err(m); },
        };
        let c1 = match self.to_i1(c, "if_cond") {
            Ok(v) => v,
            Err(m) => { return Err(m); },
        };
        let current_fn = match self.current_function {
            Some(f) => f,
            None => { return Err(builder_failed("a branch outside a function")); },
        };
        let then_block = llvm::append_block(self.context, current_fn, "then");
        let else_block = llvm::append_block(self.context, current_fn, "else");
        let merge_block = llvm::append_block(self.context, current_fn, "merge");
        let ghost test_at = self.emitted().len() as int;
        if !llvm::cond_br(&self.builder, &mut self.trace, c1, then_block, else_block) {
            return Err(builder_failed("a branch"));
        }
        let ghost after_test = self.emitted();
        assert(after_test[test_at] is Branch);
        self.position(then_block);
        let ghost entered = self.emitted();
        match self.generate_body(then_body) {
            Ok(()) => {},
            Err(m) => { return Err(m); },
        }
        if !self.block_terminated() {
            if !llvm::br(&self.builder, &mut self.trace, merge_block) {
                return Err(builder_failed("a branch"));
            }
        }
        let ghost e_at = self.emitted().len() as int;
        self.position(else_block);
        let ghost entered_else = self.emitted();
        match else_body {
            Some(b) => {
                match self.generate_body(b) {
                    Ok(()) => {},
                    Err(m) => { return Err(m); },
                }
            },
            None => {},
        }
        if !self.block_terminated() {
            if !llvm::br(&self.builder, &mut self.trace, merge_block) {
                return Err(builder_failed("a branch"));
            }
        }
        self.position(merge_block);
        assert(self.emitted()[test_at] == after_test[test_at]);
        proof {
            assert(self.emitted()[test_at + 1] == entered[test_at + 1]);
            assert(self.emitted()[e_at] == entered_else[e_at]);
            assert(chooses_between(self.emitted(), test_at, e_at));
        }
        Ok(())
    }

    pub(crate) fn generate_for_statement(&mut self, stmt: &Statement) -> (r: Result<(), String>)
        ensures
            crate::codegen::grows(old(self).emitted(), final(self).emitted()),
            r is Ok ==> final(self).loop_depth() == old(self).loop_depth(),
            match *stmt {
                Statement::For { start, .. } => {
                    &&& match start {
                        Expression::Identifier(name) => old(self).var_type(name@) is None ==> r is Err,
                        Expression::StringLiteral(_) | Expression::FloatLiteral(_) | Expression::ArrayLiteral(_) => r is Err,
                        _ => true,
                    }
                    &&& r is Ok ==> exists|k: int| old(self).emitted().len() <= k && #[trigger] loop_test_at(final(self).emitted(), k)
                    &&& r is Ok ==> loop_step_ends(final(self).emitted())
                    &&& r is Ok ==> exists|s: int, l: int, k: int| old(self).emitted().len() <= s
                        && #[trigger] counts_up(final(self).emitted(), s, l, k)
                },
                _ => r is Ok && *final(self) == *old(self),
            },
        decreases stmt, 2nat,
    {
        let (var, start, end, body) = match stmt {
            Statement::For { var, start, end, body } => (var, start, end, body),
            _ => { return Ok(()); },
        };
        let i32v = VType::Int(32);
        let i32t = llvm::i32_ty(self.context);
        let slot = match built(llvm::alloca(&self.builder, i32t, var.as_str()), "an alloca") {
            Ok(v) => v,
            Err(m) => { return Err(m); },
        };
        let start_val = match self.int_expression(start, "The start of a for loop") {
            Ok(v) => v,
            Err(m) => { return Err(m); },
        };
        let ghost s_at = self.emitted().len() as int;
        match self.store_noted(slot, start_val.v) {
            Ok(()) => {},
            Err(m) => { return Err(m); },
        }
        let ghost stored = self.emitted();
        self.variables.insert(var.clone(), Var { ptr: slot, ty: i32v });
        let current_fn = match self.current_function {
            Some(f) => f,
            None => { return Err(builder_failed("a loop outside a function")); },
        };
        let cond_block = llvm::append_block(self.context, current_fn, "for_cond");
        let loop_block = llvm::append_block(self.context, current_fn, "for_loop");
        let inc_block = llvm::append_block(self.context, current_fn, "for_inc");
        let after_block = llvm::append_block(self.context, current_fn, "for_after");
        if !llvm::br(&self.builder, &mut self.trace, cond_block) {
            return Err(builder_failed("a branch"));
        }
        llvm::position_at_end(&self.builder, cond_block);
        let ghost l_at = self.emitted().len() as int;
        let i_val = match self.load_noted(slot, var.as_str()) {
            Ok(v) => v,
            Err(m) => { return Err(m); },
        };
        let ghost loaded = self.emitted();
        let end_val = match self.int_expression(end, "The end of a for loop") {
            Ok(v) => v,
            Err(m) => { return Err(m); },
        };
        let cond = match built(llvm::int_compare(&self.builder, &mut self.trace, llvm::IntCmp::Slt, i_val, end_val.v, "for_cmp"), "a comparison") {
            Ok(v) => v,
            Err(m) => { return Err(m); },
        };
        if !llvm::cond_br(&self.builder, &mut self.trace, cond, loop_block, after_block) {
            return Err(builder_failed("a branch"));
        }
        let ghost k: int = self.emitted().len() - 2;
        assert(loop_test_at(self.emitted(), k));
        self.position(loop_block);
        let ghost tested = self.emitted();
        proof {
            assert(tested[s_at] == stored[s_at]);
            assert(tested[l_at] == loaded[l_at]);
        }
        self.loop_stack.push((inc_block, after_block));
        match self.generate_body(body) {
            Ok(()) => {},
            Err(m) => { return Err(m); },
        }
        self.loop_stack.pop();
        if !self.block_terminated() {
            if !llvm::br(&self.builder, &mut self.trace, inc_block) {
                return Err(builder_failed("a branch"));
            }
        }
        llvm::position_at_end(&self.builder, inc_block);
        let i_val = match self.load_noted(slot, var.as_str()) {
            Ok(v) => v,
            Err(m) => { return Err(m); },
        };
        let one = match built(llvm::const_int(i32t, &mut self.trace, 1, false), "an integer constant") {
            Ok(v) => v,
            Err(m) => { return Err(m); },
        };
        let next = match built(llvm::int_add(&self.builder, &mut self.trace, i_val, one, "for_inc"), "an addition") {
            Ok(v) => v,
            Err(m) => { return Err(m); },
        };
        if !llvm::store(&self.builder, slot, next) {
            return Err(builder_failed("a store"));
        }
        if !llvm::br(&self.builder, &mut self.trace, cond_block) {
            return Err(builder_failed("a branch"));
        }
        llvm::position_at_end(&self.builder, after_block);
        assert(crate::codegen::grows(tested, self.emitted()));
        assert(self.emitted()[k] == tested[k] && self.emitted()[k + 1] == tested[k + 1]);
        assert(loop_test_at(self.emitted(), k));
        assert(self.emitted()[k + 2] == tested[k + 2] && self.emitted()[s_at] == tested[s_at]
            && self.emitted()[l_at] == tested[l_at]);
        assert(counts_up(self.emitted(), s_at, l_at, k));
        Ok(())
    }

    /// `print`: each value with its `printf` format; the last one ends the line.
    pub(crate) fn generate_print(&mut self, values: &Vec<Expression>) -> (r: Result<(), String>)
        ensures
            crate::codegen::grows(old(self).emitted(), final(self).emitted()),
            final(self).struct_names() == old(self).struct_names(),
            final(self).loop_depth() == old(self).loop_depth(),
            !old(self).printf_declared() ==> (r is Err && r->Err_0@ == build_failure("a call of printf"@)
                && *final(self) == *old(self)),
            old(self).printf_declared() && values@.len() == 0 ==> r is Ok,
            r is Ok ==> (old(self).printf_fn() matches Some(f) && calls_in_order(final(self).emitted(),
                old(self).emitted().len() as int, f, values@.len() as int)),
            old(self).printf_declared() && values@.len() > 0 ==> match values@[0] {
                Expression::Identifier(name) => old(self).var_type(name@) is None
                    ==> (r is Err && r->Err_0@ == "Undefined variable: "@ + name@ && *final(self) == *old(self)),
                Expression::ArrayLiteral(_) => r is Err
                    && r->Err_0@ == "Array literals can only appear as initializers in variable declarations"@
                    && *final(self) == *old(self),
                _ => true,
            },
    {
        let printf_fn = match self.printf {
            Some(f) => f,
            None => { return Err(builder_failed("a call of printf")); },
        };
        let last: usize = if values.len() > 0 { (values.len() - 1) as usize } else { 0 };
        let ghost mut ks: Seq<int> = Seq::empty();
        let mut i: usize = 0;
        while i < values.len()
            invariant
                crate::codegen::grows(old(self).emitted(), self.emitted()),
                old(self).printf_fn() == Some(printf_fn),
                ks.len() == i,
                i <= values@.len(),
                forall|j: int| 0 <= j < i ==> old(self).emitted().len() <= #[trigger] ks[j] < self.emitted().len(),
                forall|j: int| 0 <= j < i - 1 ==> #[trigger] ks[j] < ks[j + 1],
                forall|j: int| 0 <= j < i ==> (#[trigger] self.emitted()[ks[j]] matches Emitted::Call(g, a, _)
                    && g == printf_fn && a@.len() == 2),
                old(self).printf_declared(),
                i == 0 ==> *self == *old(self),
                i > 0 ==> match values@[0] {
                    Expression::Identifier(name) => old(self).var_type(name@) is Some,
                    Expression::ArrayLiteral(_) => false,
                    _ => true,
                },
                self.struct_names() == old(self).struct_names(),
                self.loop_depth() == old(self).loop_depth(),
            decreases values@.len() - i,
        {
            let v = match self.generate_expression(&values[i]) {
                Ok(v) => v,
                Err(m) => { return Err(m); },
            };
            let newline = i == last;
            let plan = match print_plan(&v.ty) {
                Some(p) => p,
                None => { return Err(text("print: unsupported type")); },
            };
            let shown = match plan {
                PrintPlan::Int { widen: true } => {
                    match built(llvm::zext(&self.builder, v.v, llvm::i32_ty(self.context), "zext"), "an extension") {
                        Ok(x) => x,
                        Err(m) => { return Err(m); },
                    }
                },
                PrintPlan::Real { widen: true } => {
                    match built(llvm::fpext(&self.builder, v.v, llvm::double_ty(self.context), "fpext"), "an extension") {
                        Ok(x) => x,
                        Err(m) => { return Err(m); },
                    }
                },
                _ => v.v,
            };
            let fmt_name = match plan {
                PrintPlan::Text => "fmt_s",
                PrintPlan::Long => "fmt_ld",
                PrintPlan::Int { .. } => "fmt_d",
                PrintPlan::Real { .. } => "fmt_f",
            };
            let fmt = match built(llvm::global_string(&self.builder, print_format(&plan, newline), fmt_name), "a format string") {
                Ok(f) => f,
                Err(m) => { return Err(m); },
            };
            let call_name = match plan {
                PrintPlan::Real { .. } => "printf_f",
                _ => "printf_call",
            };
            let ghost before = self.emitted();
            assert(forall|j: int| 0 <= j < i ==> ((#[trigger] ks[j]) < before.len()
                && (before[ks[j]] matches Emitted::Call(g, a, _) && g == printf_fn && a@.len() == 2)));
            if llvm::call(&self.builder, &mut self.trace, printf_fn, &vec![fmt, shown], call_name).is_none() {
                return Err(builder_failed("a call of printf"));
            }
            proof {
                assert(forall|j: int| 0 <= j < before.len() ==> self.emitted()[j] == before[j]);
                ks = ks.push(before.len() as int);
            }
            i = i + 1;
        }
        proof {
            assert(calls_in_order(self.emitted(), old(self).emitted().len() as int, printf_fn, values@.len() as int)) by {
                assert(ks.len() == values@.len());
            }
        }
        Ok(())
    }

    /// `input name: type;`: a new variable read with `scanf`; a `str` reads a whole
    /// line of at most 255 characters into a 256-byte buffer.
    pub(crate) fn generate_input(&mut self, name: &String, typ: &Type) -> (r: Result<(), String>)
        ensures
            crate::codegen::grows(old(self).emitted(), final(self).emitted()),
            final(self).struct_names() == old(self).struct_names(),
            final(self).loop_depth() == old(self).loop_depth(),
            !old(self).scanf_declared() ==> (r is Err && r->Err_0@ == build_failure("a call of scanf"@)
                && *final(self) == *old(self)),
            match conv_spec(type_m(*typ), old(self).struct_names()) {
                Err(e) => old(self).scanf_declared() ==> (r is Err && r->Err_0@ == e && *final(self) == *old(self)),
                Ok(t) => r is Ok ==> final(self).var_type(name@) == Some(t),
            },
    {
        let scanf_fn = match self.scanf {
            Some(f) => f,
            None => { return Err(builder_failed("a call of scanf")); },
        };
        if matches!(typ, Type::Str) {
            let i8t = llvm::i8_ty(self.context);
            let n = match built(llvm::const_int(llvm::i32_ty(self.context), &mut self.trace, 256, false), "an integer constant") {
                Ok(v) => v,
                Err(m) => { return Err(m); },
            };
            let buf_name = cat(name.as_str(), "_buf");
            let buf = match built(llvm::array_alloca(&self.builder, i8t, n, buf_name.as_str()), "an alloca") {
                Ok(v) => v,
                Err(m) => { return Err(m); },
            };
            let fmt = match built(llvm::global_string(&self.builder, " %255[^\n]", "fmt_scan_s"), "a format string") {
                Ok(f) => f,
                Err(m) => { return Err(m); },
            };
            if llvm::call(&self.builder, &mut self.trace, scanf_fn, &vec![fmt, buf], "scanf_s").is_none() {
                return Err(builder_failed("a call of scanf"));
            }
            let p = str_vtype();
            let slot = match built(llvm::alloca(&self.builder, llvm::ptr_to(i8t), name.as_str()), "an alloca") {
                Ok(v) => v,
                Err(m) => { return Err(m); },
            };
            if !llvm::store(&self.builder, slot, buf) {
                return Err(builder_failed("a store"));
            }
            self.variables.insert(name.clone(), Var { ptr: slot, ty: p });
        } else {
            let vt = match self.convert_type(typ) {
                Ok(t) => t,
                Err(m) => { return Err(m); },
            };
            let lt = match self.llvm_type(&vt) {
                Ok(t) => t,
                Err(m) => { return Err(m); },
            };
            let slot = match built(llvm::alloca(&self.builder, lt, name.as_str()), "an alloca") {
                Ok(v) => v,
                Err(m) => { return Err(m); },
            };
            let fmt = match built(llvm::global_string(&self.builder, scan_format(typ), "fmt_scan"), "a format string") {
                Ok(f) => f,
                Err(m) => { return Err(m); },
            };
            if llvm::call(&self.builder, &mut self.trace, scanf_fn, &vec![fmt, slot], "scanf_i").is_none() {
                return Err(builder_failed("a call of scanf"));
            }
            self.variables.insert(name.clone(), Var { ptr: slot, ty: vt });
        }
        Ok(())
    }
}

} // verus!

//! The built-in functions: math, conversions, `len`, `sort`, strings and maps.
use vstd::prelude::*;
use inkwell::values::BasicValueEnum;
use crate::ast::Expression;
use crate::llvm;
use crate::text::{text, text_eq, append, append_nat, nat_text};
use crate::vtype::{VType, VTypeM, vt_m, str_vtype, map_kind, map_tag, sort_comparator, sort_spec};
use super::{Codegen, Val, cat, cat3, undefined_variable, builder_failed, built, build_failure, grows};
use super::runtime::found_and_called;

verus! {

broadcast use crate::codegen::Codegen::lemma_same_but_emitted;

/// The names of the built-in functions.
pub open spec fn is_builtin(name: Seq<char>) -> bool {
    ||| name == "sqrt"@ || name == "pow"@ || name == "len"@
    ||| name == "str_to_int"@ || name == "str_to_float"@ || name == "int_to_str"@
    ||| name == "sort"@ || name == "abs"@ || name == "min"@ || name == "max"@
    ||| name == "map_set"@ || name == "map_get"@ || name == "map_has"@
    ||| name == "map_free"@ || name == "free"@ || name == "malloc"@
    ||| name == "format"@ || name == "substr"@ || name == "str_pos"@ || name == "split"@
    ||| name == "http_handle"@ || name == "http_listen"@
}

/// `name() takes N argument(s)`.
pub open spec fn takes(name: Seq<char>, n: nat) -> Seq<char> {
    name + "() takes "@ + nat_text(n) + (if n == 1 { " argument"@ } else { " arguments"@ })
}

/// The error for a call of the built-in `name` with `n` arguments, when that is
/// the wrong number; `None` when it is right (or `name` is no built-in).
pub open spec fn builtin_arity_error(name: Seq<char>, n: nat) -> Option<Seq<char>> {
    let want = |k: nat| if n != k { Some(takes(name, k)) } else { None };
    if name == "sqrt"@ { want(1) }
    else if name == "pow"@ { want(2) }
    else if name == "len"@ { want(1) }
    else if name == "str_to_int"@ || name == "str_to_float"@ { want(1) }
    else if name == "int_to_str"@ { want(1) }
    else if name == "sort"@ { if n != 2 { Some("sort() takes 2 arguments: sort(array, n)"@) } else { None } }
    else if name == "abs"@ { want(1) }
    else if name == "min"@ || name == "max"@ { want(2) }
    else if name == "map_set"@ { want(3) }
    else if name == "map_get"@ || name == "map_has"@ { want(2) }
    else if name == "map_free"@ || name == "free"@ { want(1) }
    else if name == "malloc"@ { want(1) }
    else if name == "format"@ { if n == 0 { Some("format() requires at least a format string"@) } else { None } }
    else if name == "substr"@ { if n != 3 { Some("substr() takes 3 arguments: substr(s, start, len)"@) } else { None } }
    else if name == "str_pos"@ { if n != 2 { Some("str_pos() takes 2 arguments: str_pos(s, needle)"@) } else { None } }
    else if name == "split"@ { if n != 3 { Some("split() takes 3 arguments: split(string, sep, array)"@) } else { None } }
    else if name == "http_handle"@ { if n != 3 { Some("http_handle() takes 3 arguments: method, path, handler"@) } else { None } }
    else if name == "http_listen"@ { if n != 1 { Some("http_listen() takes 1 argument: port"@) } else { None } }
    else { None }
}

/// The message for a built-in called with the wrong number of arguments.
pub fn arity_message(name: &str, n: u64, plural: bool) -> (r: String)
    ensures
        r@ == name@ + "() takes "@ + crate::text::nat_text(n as nat)
            + (if plural { " arguments"@ } else { " argument"@ }),
{
    let mut s = text(name);
    append(&mut s, "() takes ");
    append_nat(&mut s, n);
    if plural { append(&mut s, " arguments"); } else { append(&mut s, " argument"); }
    assert(s@ =~= name@ + "() takes "@ + crate::text::nat_text(n as nat)
        + (if plural { " arguments"@ } else { " argument"@ }));
    s
}

/// What `len(arg)` gives: the length of an array variable as an `i32`
/// constant, requested of LLVM and nothing else; an error for an unknown
/// variable, for a variable that is neither an array nor a `str`, and for an
/// argument that is no variable.
#[verifier::opaque]
pub open spec fn len_outcome<'ctx>(
    before: Codegen<'ctx>,
    after: Codegen<'ctx>,
    arg: Expression,
    r: Result<Option<Val<'ctx>>, String>,
) -> bool {
    match arg {
        Expression::Identifier(x) => match before.var_type(x@) {
            None => r is Err && r->Err_0@ == "Undefined variable: "@ + x@,
            Some(VTypeM::Array(_, n)) => r is Ok ==> (r->Ok_0 matches Some(v)
                && vt_m(v.ty) == VTypeM::Int(32)
                && after.emitted() == before.emitted().push(llvm::Emitted::IntConstant(n as u64, false, v.v))),
            Some(VTypeM::Ptr(_)) => true,
            Some(_) => r is Err && r->Err_0@ == "len() requires an array or str variable"@,
        },
        _ => r is Err && r->Err_0@ == "len() argument must be a variable"@,
    }
}

/// The element type of the array `x` in the state `before`: that of an array
/// parameter, else that of a local array.
pub open spec fn sort_elem<'ctx>(before: Codegen<'ctx>, x: Seq<char>) -> VTypeM {
    match before.param_elem(x) {
        Some(e) => e,
        None => match before.var_type(x) {
            Some(VTypeM::Array(e, _)) => *e,
            _ => VTypeM::Int(32),
        },
    }
}

/// What `sort(a, n)` asked for, seen in the generator's state `after` it, when
/// it succeeded: from request `start` on, a search of the module for `qsort`,
/// and at the end, the search for the comparator of the array's element type,
/// the element size as a constant, a call of the `qsort` found with four
/// arguments (the third that size), and the constant 0, which is the result.
#[verifier::opaque]
pub open spec fn sort_outcome<'ctx>(
    start: int,
    after: Codegen<'ctx>,
    arg: Expression,
    r: Result<Option<Val<'ctx>>, String>,
) -> bool {
    r is Ok ==> (arg matches Expression::Identifier(x) && {
        let e = sort_elem(after, x@);
        let t = after.emitted();
        let n = t.len() as int;
        &&& n >= 4
        &&& r->Ok_0 matches Some(v)
        &&& (t[n - 4] matches llvm::Emitted::Lookup(c, Some(_)) && c@ == sort_spec(e).1)
        &&& match (t[n - 3], t[n - 2], t[n - 1]) {
            (llvm::Emitted::IntConstant(size, _, sz), llvm::Emitted::Call(_, a, _), llvm::Emitted::IntConstant(z, _, zv)) =>
                size == sort_spec(e).0 && a@.len() == 4 && a@[2] == sz && z == 0 && zv == v.v,
            _ => false,
        }
        &&& exists|i: int| start <= i && #[trigger] found_and_called(t, i, n - 2, "qsort"@)
    })
}

/// The last two requests: the comparison that `min` (`min` holds) or `max`
/// picks by, whether the first value is less, or greater, than the second
/// (signed for integers, ordered for floats); then the selection, on that
/// comparison's outcome, of the first value when it holds and of the second
/// when not, whose value is `v`.
#[verifier::opaque]
pub open spec fn picks_by<'ctx>(t: Seq<llvm::Emitted<'ctx>>, min: bool, v: BasicValueEnum<'ctx>) -> bool {
    let n = t.len() as int;
    &&& n >= 2
    &&& t.last() matches llvm::Emitted::Select(c, yes, no, res) && res == v && match t[n - 2] {
        llvm::Emitted::IntComparison(p, a, b, c2) =>
            p == (if min { llvm::IntCmp::Slt } else { llvm::IntCmp::Sgt }) && c2 == c && yes == a && no == b,
        llvm::Emitted::FloatComparison(p, a, b, c2) =>
            p == (if min { llvm::FloatCmp::Olt } else { llvm::FloatCmp::Ogt }) && c2 == c && yes == a && no == b,
        _ => false,
    }
}

/// The last two requests: the test that `abs` picks by, whether the value is
/// at least zero (signed for integers, ordered for floats); then the selection,
/// on that test's outcome, of the value itself when it holds (and of its
/// negation when not), whose value is `v`.
#[verifier::opaque]
pub open spec fn abs_test<'ctx>(t: Seq<llvm::Emitted<'ctx>>, v: BasicValueEnum<'ctx>) -> bool {
    let n = t.len() as int;
    &&& n >= 2
    &&& t.last() matches llvm::Emitted::Select(c, yes, _, res) && res == v && match t[n - 2] {
        llvm::Emitted::IntComparison(p, a, _, c2) => p == llvm::IntCmp::Sge && c2 == c && yes == a,
        llvm::Emitted::FloatComparison(p, a, _, c2) => p == llvm::FloatCmp::Oge && c2 == c && yes == a,
        _ => false,
    }
}

/// What `str_to_int(s)` and `str_to_float(s)` give, when they succeed: the
/// value of a call, the last request, of the C function `target` (`atoi` or
/// `atof`) found just before it, with one argument.
#[verifier::opaque]
pub open spec fn conversion_outcome<'ctx>(
    t: Seq<llvm::Emitted<'ctx>>,
    target: Seq<char>,
    r: Result<Option<Val<'ctx>>, String>,
) -> bool {
    r is Ok ==> {
        &&& t.len() >= 2
        &&& found_and_called(t, t.len() - 2, t.len() - 1, target)
        &&& r->Ok_0 matches Some(v)
        &&& (t.last() matches llvm::Emitted::Call(_, a, Some(x)) && x == v.v && a@.len() == 1)
    }
}

impl<'ctx> Codegen<'ctx> {
    /// The value of argument `k` of a call.
    pub(crate) fn gen_arg(&mut self, expr: &Expression, k: usize) -> (r: Result<Val<'ctx>, String>)
        ensures
            crate::codegen::grows(old(self).emitted(), final(self).emitted()),
            final(self).struct_names() == old(self).struct_names(),
            final(self).loop_depth() == old(self).loop_depth(),
            match *expr {
                Expression::Call { arguments, .. } => k >= arguments@.len()
                    ==> (r is Err && r->Err_0@ == "Missing argument"@ && *final(self) == *old(self)),
                _ => r is Err && r->Err_0@ == "Expected a call"@ && *final(self) == *old(self),
            },
        decreases expr, 1nat,
    {
        match expr {
            Expression::Call { arguments, .. } => {
                if k < arguments.len() {
                    proof {
                        assert(decreases_to!(expr => *arguments));
                        assert(decreases_to!(*arguments => arguments@));
                        assert(decreases_to!(arguments@ => arguments@[k as int]));
                    }
                    self.generate_expression(&arguments[k])
                } else {
                    Err(text("Missing argument"))
                }
            },
            _ => Err(text("Expected a call")),
        }
    }

    /// Argument `k` of a call, which must be a pointer.
    pub(crate) fn gen_ptr_arg(&mut self, expr: &Expression, k: usize, what: &str) -> (r: Result<Val<'ctx>, String>)
        ensures
            crate::codegen::grows(old(self).emitted(), final(self).emitted()),
            final(self).struct_names() == old(self).struct_names(),
            final(self).loop_depth() == old(self).loop_depth(),
            r is Ok ==> vt_m(r->Ok_0.ty) is Ptr,
            match *expr {
                Expression::Call { arguments, .. } => k >= arguments@.len()
                    ==> (r is Err && r->Err_0@ == "Missing argument"@ && *final(self) == *old(self)),
                _ => r is Err && r->Err_0@ == "Expected a call"@ && *final(self) == *old(self),
            },
        decreases expr, 2nat,
    {
        let v = self.gen_arg(expr, k)?;
        if v.ty.is_ptr() { Ok(v) } else { Err(cat(what, " must be a str or pointer value")) }
    }

    /// Argument `k` of a call, which must be an integer.
    pub(crate) fn gen_int_arg(&mut self, expr: &Expression, k: usize, what: &str) -> (r: Result<Val<'ctx>, String>)
        ensures
            crate::codegen::grows(old(self).emitted(), final(self).emitted()),
            final(self).struct_names() == old(self).struct_names(),
            final(self).loop_depth() == old(self).loop_depth(),
            r is Ok ==> vt_m(r->Ok_0.ty) is Int,
            match *expr {
                Expression::Call { arguments, .. } => k >= arguments@.len()
                    ==> (r is Err && r->Err_0@ == "Missing argument"@ && *final(self) == *old(self)),
                _ => r is Err && r->Err_0@ == "Expected a call"@ && *final(self) == *old(self),
            },
        decreases expr, 2nat,
    {
        let v = self.gen_arg(expr, k)?;
        if v.ty.is_int() { Ok(v) } else { Err(cat(what, " must be an integer value")) }
    }

    /// A numeric value as an `f64`.
    pub(crate) fn to_double(&self, v: Val<'ctx>, non_numeric: &str) -> (r: Result<BasicValueEnum<'ctx>, String>)
        ensures
            match vt_m(v.ty) {
                VTypeM::Double => r == Ok::<BasicValueEnum<'ctx>, String>(v.v),
                VTypeM::Single => r is Err ==> r->Err_0@ == build_failure("an extension"@),
                VTypeM::Int(_) => r is Err ==> r->Err_0@ == build_failure("a conversion"@),
                _ => r is Err && r->Err_0@ == non_numeric@,
            },
    {
        match v.ty {
            VType::Single => built(llvm::fpext(&self.builder, v.v, llvm::double_ty(self.context), "ext"), "an extension"),
            VType::Double => Ok(v.v),
            VType::Int(_) => built(llvm::sitofp(&self.builder, v.v, llvm::double_ty(self.context), "i2f"), "a conversion"),
            _ => Err(text(non_numeric)),
        }
    }

    /// An integer value as an `i64`.
    pub(crate) fn to_i64(&self, v: Val<'ctx>, name: &str) -> (r: Result<BasicValueEnum<'ctx>, String>)
        ensures
            match vt_m(v.ty) {
                VTypeM::Int(w) => if w >= 64 {
                    r == Ok::<BasicValueEnum<'ctx>, String>(v.v)
                } else {
                    r is Err ==> r->Err_0@ == build_failure("a sign extension"@)
                },
                _ => r is Err && r->Err_0@ == "Expected an integer value"@,
            },
    {
        match v.ty.bits() {
            Some(w) => {
                if w < 64 {
                    built(llvm::sext(&self.builder, v.v, llvm::i64_ty(self.context), name), "a sign extension")
                } else {
                    Ok(v.v)
                }
            },
            None => Err(text("Expected an integer value")),
        }
    }

    /// `malloc(n)` for a constant size.
    pub(crate) fn malloc_const(&mut self, n: u64, name: &str) -> (r: Result<BasicValueEnum<'ctx>, String>)
        ensures
            final(self).same_but_emitted(old(self)),
            crate::codegen::grows(old(self).emitted(), final(self).emitted()),
            r is Err ==> r->Err_0@ == "Undefined function: "@ + "malloc"@
                || r->Err_0@ == build_failure("an integer constant"@) || r->Err_0@ == build_failure("a call"@),
    {
        let malloc = self.func("malloc")?;
        let size = self.k64(n)?;
        self.call_for(malloc, vec![size], name)
    }

    /// The value of a built-in call, or `None` when `name` is no built-in. A call
    /// with the wrong number of arguments is refused before anything is built.
    #[verifier::rlimit(60)]
    pub fn generate_builtin(&mut self, expr: &Expression) -> (r: Result<Option<Val<'ctx>>, String>)
        ensures
            crate::codegen::grows(old(self).emitted(), final(self).emitted()),
            final(self).struct_names() == old(self).struct_names(),
            final(self).loop_depth() == old(self).loop_depth(),
            match *expr {
                Expression::Call { name, arguments } => if !is_builtin(name@) {
                    r matches Ok(None) && *final(self) == *old(self)
                } else {
                    &&& r is Ok ==> r->Ok_0 is Some
                    &&& builtin_arity_error(name@, arguments@.len()) matches Some(m) ==> (r is Err && r->Err_0@ == m)
                    &&& (name@ == "len"@ && arguments@.len() == 1) ==> len_outcome(*old(self), *final(self), arguments@[0], r)
                    &&& ((name@ == "min"@ || name@ == "max"@) && r is Ok) ==> (r->Ok_0 matches Some(v)
                        && picks_by(final(self).emitted(), name@ == "min"@, v.v))
                    &&& (name@ == "abs"@ && r is Ok) ==> (r->Ok_0 matches Some(v) && abs_test(final(self).emitted(), v.v))
                    &&& (name@ == "sort"@ && arguments@.len() == 2 && r is Ok) ==> sort_outcome(old(self).emitted().len() as int, *final(self), arguments@[0], r)
                    &&& ((name@ == "str_to_int"@ || name@ == "str_to_float"@) && r is Ok) ==> conversion_outcome(final(self).emitted(),
                        if name@ == "str_to_int"@ { "atoi"@ } else { "atof"@ }, r)
                },
                _ => r matches Ok(None),
            },
        decreases expr, 3nat,
    {
        let (name, arguments) = match expr {
            Expression::Call { name, arguments } => (name, arguments),
            _ => { return Ok(None); },
        };
        let n = arguments.len();
        let nm = name.as_str();
        if text_eq(nm, "min") || text_eq(nm, "max") {
            proof {
                reveal(picks_by);
                reveal(abs_test);
                reveal_strlit("min");
                reveal_strlit("max");
                reveal_strlit("abs");
                reveal_strlit("sort");
                reveal_strlit("sqrt");
                reveal_strlit("pow");
                reveal_strlit("len");
                reveal_strlit("str_to_int");
                reveal_strlit("str_to_float");
                reveal_strlit("int_to_str");
                assert("min"@[0] != "sqrt"@[0] && "min"@[0] != "pow"@[0] && "min"@[0] != "len"@[0]);
                assert("min"@[0] != "str_to_int"@[0] && "min"@[0] != "str_to_float"@[0] && "min"@[0] != "int_to_str"@[0]);
                assert("min"@[0] != "sort"@[0] && "min"@[0] != "abs"@[0]);
                assert("max"@[0] != "sqrt"@[0] && "max"@[0] != "pow"@[0] && "max"@[0] != "len"@[0]);
                assert("max"@[0] != "str_to_int"@[0] && "max"@[0] != "str_to_float"@[0] && "max"@[0] != "int_to_str"@[0]);
                assert("max"@[0] != "sort"@[0] && "max"@[0] != "abs"@[0]);
                assert("abs"@[0] != "sqrt"@[0] && "abs"@[0] != "pow"@[0] && "abs"@[0] != "len"@[0]);
                assert("abs"@[0] != "str_to_int"@[0] && "abs"@[0] != "str_to_float"@[0] && "abs"@[0] != "int_to_str"@[0]);
                assert("abs"@[0] != "sort"@[0] && "min"@[1] != "max"@[1]);
            }
            let is_min = text_eq(nm, "min");
            if n != 2 { return Err(arity_message(nm, 2, true)); }
            let l = self.gen_arg(expr, 0)?;
            let r = self.gen_arg(expr, 1)?;
            let c = if l.ty.is_int() && r.ty.is_int() {
                let pred = if is_min { llvm::IntCmp::Slt } else { llvm::IntCmp::Sgt };
                built(llvm::int_compare(&self.builder, &mut self.trace, pred, l.v, r.v, "cmp"), "a comparison")?
            } else if l.ty.is_float() && r.ty.is_float() {
                let pred = if is_min { llvm::FloatCmp::Olt } else { llvm::FloatCmp::Ogt };
                built(llvm::float_compare(&self.builder, &mut self.trace, pred, l.v, r.v, "fcmp"), "a comparison")?
            } else {
                return Err(cat(nm, "() requires two arguments of the same numeric type"));
            };
            let v = self.select_noted(c, l.v, r.v, nm)?;
            return Ok(Some(Val { v, ty: l.ty }));
        }
        if text_eq(nm, "abs") {
            proof {
                reveal(picks_by);
                reveal(abs_test);
                reveal_strlit("min");
                reveal_strlit("max");
                reveal_strlit("abs");
                reveal_strlit("sort");
                reveal_strlit("sqrt");
                reveal_strlit("pow");
                reveal_strlit("len");
                reveal_strlit("str_to_int");
                reveal_strlit("str_to_float");
                reveal_strlit("int_to_str");
                assert("min"@[0] != "sqrt"@[0] && "min"@[0] != "pow"@[0] && "min"@[0] != "len"@[0]);
                assert("min"@[0] != "str_to_int"@[0] && "min"@[0] != "str_to_float"@[0] && "min"@[0] != "int_to_str"@[0]);
                assert("min"@[0] != "sort"@[0] && "min"@[0] != "abs"@[0]);
                assert("max"@[0] != "sqrt"@[0] && "max"@[0] != "pow"@[0] && "max"@[0] != "len"@[0]);
                assert("max"@[0] != "str_to_int"@[0] && "max"@[0] != "str_to_float"@[0] && "max"@[0] != "int_to_str"@[0]);
                assert("max"@[0] != "sort"@[0] && "max"@[0] != "abs"@[0]);
                assert("abs"@[0] != "sqrt"@[0] && "abs"@[0] != "pow"@[0] && "abs"@[0] != "len"@[0]);
                assert("abs"@[0] != "str_to_int"@[0] && "abs"@[0] != "str_to_float"@[0] && "abs"@[0] != "int_to_str"@[0]);
                assert("abs"@[0] != "sort"@[0] && "min"@[1] != "max"@[1]);
            }
            if n != 1 { return Err(arity_message(nm, 1, false)); }
            let v = self.gen_arg(expr, 0)?;
            if v.ty.is_int() {
                let zero = self.const_of(&v.ty, 0, false)?;
                let neg = built(llvm::int_neg(&self.builder, v.v, "neg"), "a negation")?;
                let c = built(llvm::int_compare(&self.builder, &mut self.trace, llvm::IntCmp::Sge, v.v, zero, "cmp"), "a comparison")?;
                let r = self.select_noted(c, v.v, neg, "abs")?;
                return Ok(Some(Val { v: r, ty: v.ty }));
            } else if v.ty.is_float() {
                let d0 = self.double_const(0)?;
                let zero = if matches!(v.ty, VType::Single) {
                    built(llvm::fptrunc(&self.builder, d0, llvm::single_ty(self.context), "zero"), "a conversion")?
                } else {
                    d0
                };
                let neg = built(llvm::float_neg(&self.builder, v.v, "fneg"), "a negation")?;
                let c = built(llvm::float_compare(&self.builder, &mut self.trace, llvm::FloatCmp::Oge, v.v, zero, "fcmp"), "a comparison")?;
                let r = self.select_noted(c, v.v, neg, "fabs")?;
                return Ok(Some(Val { v: r, ty: v.ty }));
            } else {
                return Err(text("abs() requires numeric argument"));
            }
        }
        if text_eq(nm, "sort") {
            proof {
                reveal(sort_outcome);
                reveal_strlit("sort");
                reveal_strlit("sqrt");
                reveal_strlit("pow");
                reveal_strlit("len");
                reveal_strlit("str_to_int");
                reveal_strlit("str_to_float");
                reveal_strlit("int_to_str");
                assert("sort"@[1] != "sqrt"@[1] && "sort"@[0] != "pow"@[0] && "sort"@[0] != "len"@[0]);
                assert("sort"@[1] != "str_to_int"@[1] && "sort"@[1] != "str_to_float"@[1] && "sort"@[0] != "int_to_str"@[0]);
            }
            if n != 2 { return Err(text("sort() takes 2 arguments: sort(array, n)")); }
            let arr_name = match &arguments[0] {
                Expression::Identifier(x) => x.clone(),
                _ => { return Err(text("First argument of sort() must be an array variable")); },
            };
            let count = self.gen_int_arg(expr, 1, "The element count of sort()")?;
            let n64 = self.to_i64(count, "n64")?;
            let ghost qi = self.emitted().len() as int;
            let qsort = self.func("qsort")?;
            let ghost after_q = self.emitted();
            let param_elem = match self.array_params.get(arr_name.as_str()) {
                Some(t) => Some(t.duplicate()),
                None => None,
            };
            let (first, elem) = match param_elem {
                Some(elem) => {
                    let slot = match self.variables.get(arr_name.as_str()) {
                        Some(v) => v.ptr,
                        None => { return Err(undefined_variable(arr_name.as_str())); },
                    };
                    (self.ld(slot, "arrptr")?, elem)
                },
                None => {
                    let (base, ty) = match self.variables.get(arr_name.as_str()) {
                        Some(v) => (v.ptr, v.ty.duplicate()),
                        None => { return Err(undefined_variable(arr_name.as_str())); },
                    };
                    let elem = match ty {
                        VType::Array(e, _) => *e,
                        _ => { return Err(cat3("'", arr_name.as_str(), "' is not an array")); },
                    };
                    let zero = self.k32(0)?;
                    (self.element_ptr(base, &elem, &Val { v: zero, ty: VType::Int(32) })?, elem)
                },
            };
            let (elem_size, comparator) = sort_comparator(&elem);
            let ghost before_comparator = self.emitted();
            let comparator_fn = self.func(comparator)?;
            let comparator_ptr = self.as_bytes(llvm::function_ptr(comparator_fn))?;
            let size = self.k64(elem_size)?;
            let data = self.as_bytes(first)?;
            self.call_do(qsort, vec![data, n64, size, comparator_ptr], "")?;
            let zero = self.k32(0)?;
            proof {
                reveal(sort_outcome);
                let t = self.emitted();
                let n = t.len() as int;
                assert(grows(after_q, before_comparator));
                assert(t[qi] == after_q[qi]);
                assert(found_and_called(t, qi, n - 2, "qsort"@));
                assert(vt_m(elem) == sort_elem(*self, arr_name@));
            }
            return Ok(Some(Val { v: zero, ty: VType::Int(32) }));
        }
        if text_eq(nm, "len") {
            proof {
                reveal(len_outcome);
                reveal_strlit("len");
                reveal_strlit("sqrt");
                reveal_strlit("pow");
                assert("len"@[0] != "sqrt"@[0] && "len"@[0] != "pow"@[0]);
                reveal_strlit("str_to_int");
                reveal_strlit("str_to_float");
                assert("len"@[0] != "str_to_int"@[0] && "len"@[0] != "str_to_float"@[0]);
            }
            if n != 1 { return Err(arity_message(nm, 1, false)); }
            let arr_name = match &arguments[0] {
                Expression::Identifier(x) => x.clone(),
                _ => { return Err(text("len() argument must be a variable")); },
            };
            let (ptr, ty) = match self.variables.get(arr_name.as_str()) {
                Some(v) => (v.ptr, v.ty.duplicate()),
                None => { return Err(undefined_variable(arr_name.as_str())); },
            };
            return match ty {
                VType::Array(_, len) => {
                    let c = self.k32(len as u64)?;
                    Ok(Some(Val { v: c, ty: VType::Int(32) }))
                },
                VType::Ptr(_) => {
                    let strlen = self.func("strlen")?;
                    let s = self.ld(ptr, arr_name.as_str())?;
                    let s = self.pass_as(Val { v: s, ty }, &str_vtype())?;
                    let len = self.call_for(strlen, vec![s], "slen")?;
                    let r = built(llvm::trunc(&self.builder, len, llvm::i32_ty(self.context), "len"), "a truncation")?;
                    Ok(Some(Val { v: r, ty: VType::Int(32) }))
                },
                _ => Err(text("len() requires an array or str variable")),
            };
        }
        if text_eq(nm, "str_to_int") || text_eq(nm, "str_to_float") {
            let is_int = text_eq(nm, "str_to_int");
            proof {
                reveal(conversion_outcome);
                reveal_strlit("atoi");
                reveal_strlit("atof");
                reveal_strlit("str_to_int");
                reveal_strlit("str_to_float");
                reveal_strlit("sqrt");
                reveal_strlit("pow");
                reveal_strlit("len");
                assert("str_to_int"@[1] != "sqrt"@[1] && "str_to_float"@[1] != "sqrt"@[1]);
                assert("str_to_int"@[0] != "pow"@[0] && "str_to_float"@[0] != "pow"@[0]);
                assert("str_to_int"@[0] != "len"@[0] && "str_to_float"@[0] != "len"@[0]);
            }
            if n != 1 { return Err(arity_message(nm, 1, false)); }
            let s = self.gen_ptr_arg(expr, 0, "The argument")?;
            let (target, ty) = if is_int { ("atoi", VType::Int(32)) } else { ("atof", VType::Double) };
            let f = self.func(target)?;
            let r = self.call_for(f, vec![s.v], target)?;
            return Ok(Some(Val { v: r, ty }));
        }
        if text_eq(nm, "sqrt") {
            if n != 1 { return Err(arity_message(nm, 1, false)); }
            let v = self.gen_arg(expr, 0)?;
            let d = self.to_double(v, "sqrt() requires numeric argument")?;
            let f = self.func("sqrt")?;
            let r = self.call_for(f, vec![d], "sqrt")?;
            return Ok(Some(Val { v: r, ty: VType::Double }));
        }
        if text_eq(nm, "pow") {
            if n != 2 { return Err(arity_message(nm, 2, true)); }
            let b = self.gen_arg(expr, 0)?;
            let base = self.to_double(b, "pow(): non-numeric argument")?;
            let e = self.gen_arg(expr, 1)?;
            let exp = self.to_double(e, "pow(): non-numeric argument")?;
            let f = self.func("pow")?;
            let r = self.call_for(f, vec![base, exp], "pow")?;
            return Ok(Some(Val { v: r, ty: VType::Double }));
        }
        if text_eq(nm, "int_to_str") {
            if n != 1 { return Err(arity_message(nm, 1, false)); }
            let v = self.gen_arg(expr, 0)?;
            let sprintf = self.func("sprintf")?;
            let buf = self.malloc_const(32, "buf")?;
            let (fmt, fname, shown) = match v.ty {
                VType::Int(w) => {
                    if w == 64 { ("%ld", "fmt_ld", v.v) } else { ("%d", "fmt_d", v.v) }
                },
                VType::Single | VType::Double => {
                    let d = self.to_double(v, "int_to_str() requires a numeric argument")?;
                    ("%f", "fmt_f", d)
                },
                _ => { return Err(text("int_to_str() requires a numeric argument")); },
            };
            let f = built(llvm::global_string(&self.builder, fmt, fname), "a format string")?;
            self.call_do(sprintf, vec![buf, f, shown], "sp")?;
            return Ok(Some(Val { v: buf, ty: str_vtype() }));
        }
        if text_eq(nm, "map_set") || text_eq(nm, "map_get") || text_eq(nm, "map_has") {
            let expected: usize = if text_eq(nm, "map_set") { 3 } else { 2 };
            if n != expected { return Err(arity_message(nm, expected as u64, true)); }
            let map_name = match &arguments[0] {
                Expression::Identifier(x) => x.clone(),
                _ => { return Err(cat3("First arg of ", nm, "() must be a map variable")); },
            };
            let kind = match self.map_variables.get(map_name.as_str()) {
                Some(t) => match map_kind(&t.key, &t.value) {
                    Some(k) => k,
                    None => {
                        let mut s = text("Unsupported map type for ");
                        append(&mut s, nm);
                        append(&mut s, ": map[");
                        t.key.append_text(&mut s);
                        append(&mut s, ", ");
                        t.value.append_text(&mut s);
                        append(&mut s, "]");
                        return Err(s);
                    },
                },
                None => { return Err(cat3("'", map_name.as_str(), "' is not a map variable")); },
            };
            let slot = match self.variables.get(map_name.as_str()) {
                Some(v) => v.ptr,
                None => { return Err(undefined_variable(map_name.as_str())); },
            };
            let map_ptr = self.ld(slot, map_name.as_str())?;
            let mut helper = cat("__vit_map_", map_tag(&kind));
            if text_eq(nm, "map_set") {
                append(&mut helper, "_set");
            } else if text_eq(nm, "map_get") {
                append(&mut helper, "_get");
            } else {
                append(&mut helper, "_has");
            }
            let f = self.func(helper.as_str())?;
            let mut args: Vec<BasicValueEnum<'ctx>> = vec![map_ptr];
            let mut k: usize = 1;
            while k < n
                invariant
                    crate::codegen::grows(old(self).emitted(), self.emitted()),
                    self.struct_names() == old(self).struct_names(),
                    self.loop_depth() == old(self).loop_depth(),
                    *expr matches Expression::Call { name, arguments }
                        && is_builtin(name@) && builtin_arity_error(name@, arguments@.len()) is None
                        && name@ != "len"@ && name@ != "str_to_int"@ && name@ != "str_to_float"@,
                decreases n - k,
            {
                let v = self.gen_arg(expr, k)?;
                args.push(v.v);
                k = k + 1;
            }
            let raw = match llvm::call(&self.builder, &mut self.trace, f, &args, "map_call") {
                Some(Some(v)) => v,
                Some(None) => self.k32(0)?,
                None => { return Err(builder_failed("a call")); },
            };
            if text_eq(nm, "map_has") {
                let zero = self.k32(0)?;
                let b = built(llvm::int_compare(&self.builder, &mut self.trace, llvm::IntCmp::Ne, raw, zero, "has"), "a comparison")?;
                return Ok(Some(Val { v: b, ty: VType::Int(1) }));
            }
            if text_eq(nm, "map_get") {
                return Ok(Some(Val { v: raw, ty: crate::vtype::map_value_type(&kind) }));
            }
            return Ok(Some(Val { v: raw, ty: VType::Int(32) }));
        }
        if text_eq(nm, "map_free") || text_eq(nm, "free") {
            if n != 1 { return Err(arity_message(nm, 1, false)); }
            let p = self.gen_ptr_arg(expr, 0, "The argument")?;
            let p = self.pass_as(p, &str_vtype())?;
            let free_fn = self.func("free")?;
            let call_name = if text_eq(nm, "free") { "free_call" } else { "map_free" };
            self.call_do(free_fn, vec![p], call_name)?;
            let zero = self.k32(0)?;
            return Ok(Some(Val { v: zero, ty: VType::Int(32) }));
        }
        if text_eq(nm, "malloc") {
            if n != 1 { return Err(arity_message(nm, 1, false)); }
            let malloc = self.func("malloc")?;
            let size = self.gen_int_arg(expr, 0, "The size")?;
            let size64 = self.to_i64(size, "malloc_sz")?;
            let r = self.call_for(malloc, vec![size64], "malloc_buf")?;
            return Ok(Some(Val { v: r, ty: str_vtype() }));
        }
        if text_eq(nm, "format") {
            if n == 0 { return Err(text("format() requires at least a format string")); }
            let sprintf = self.func("sprintf")?;
            let buf = self.malloc_const(4096, "fmt_buf")?;
            let fmt = self.gen_ptr_arg(expr, 0, "The format")?;
            let mut args: Vec<BasicValueEnum<'ctx>> = vec![buf, fmt.v];
            let mut k: usize = 1;
            while k < n
                invariant
                    crate::codegen::grows(old(self).emitted(), self.emitted()),
                    self.struct_names() == old(self).struct_names(),
                    self.loop_depth() == old(self).loop_depth(),
                    *expr matches Expression::Call { name, arguments }
                        && is_builtin(name@) && builtin_arity_error(name@, arguments@.len()) is None
                        && name@ != "len"@ && name@ != "str_to_int"@ && name@ != "str_to_float"@,
                decreases n - k,
            {
                let v = self.gen_arg(expr, k)?;
                args.push(v.v);
                k = k + 1;
            }
            self.call_do(sprintf, args, "fmt_res")?;
            return Ok(Some(Val { v: buf, ty: str_vtype() }));
        }
        if text_eq(nm, "substr") {
            if n != 3 { return Err(text("substr() takes 3 arguments: substr(s, start, len)")); }
            let malloc = self.func("malloc")?;
            let strncpy = self.func("strncpy")?;
            let s = self.gen_ptr_arg(expr, 0, "The string")?;
            let start = self.gen_int_arg(expr, 1, "The start")?;
            let len = self.gen_int_arg(expr, 2, "The length")?;
            let start64 = self.to_i64(start, "start64")?;
            let len64 = self.to_i64(len, "len64")?;
            let one = self.k64(1)?;
            let buf_size = built(llvm::int_add(&self.builder, &mut self.trace, len64, one, "buf_size"), "an addition")?;
            let buf = self.call_for(malloc, vec![buf_size], "sub_buf")?;
            let src = self.at_offset(s.v, start64, &VType::Int(8), "src_ptr")?;
            self.call_do(strncpy, vec![buf, src, len64], "sncpy")?;
            let null_pos = self.at_offset(buf, len64, &VType::Int(8), "null_pos")?;
            let nul = built(llvm::const_int(llvm::i8_ty(self.context), &mut self.trace, 0, false), "an integer constant")?;
            self.st(null_pos, nul)?;
            return Ok(Some(Val { v: buf, ty: str_vtype() }));
        }
        if text_eq(nm, "str_pos") {
            if n != 2 { return Err(text("str_pos() takes 2 arguments: str_pos(s, needle)")); }
            let strstr = self.func("strstr")?;
            let s = self.gen_ptr_arg(expr, 0, "The string")?;
            let needle = self.gen_ptr_arg(expr, 1, "The needle")?;
            let found = self.call_for(strstr, vec![s.v, needle.v], "found")?;
            let i64t = llvm::i64_ty(self.context);
            let found_int = built(llvm::ptr_to_int(&self.builder, found, i64t, "found_int"), "an address")?;
            let zero = self.k64(0)?;
            let is_null = built(llvm::int_compare(&self.builder, &mut self.trace, llvm::IntCmp::Eq, found_int, zero, "is_null"), "a comparison")?;
            let s_int = built(llvm::ptr_to_int(&self.builder, s.v, i64t, "s_int"), "an address")?;
            let offset64 = built(llvm::int_sub(&self.builder, &mut self.trace, found_int, s_int, "offset64"), "a subtraction")?;
            let offset32 = built(llvm::trunc(&self.builder, offset64, llvm::i32_ty(self.context), "offset32"), "a truncation")?;
            let neg_one = built(llvm::const_int(llvm::i32_ty(self.context), &mut self.trace, 0xFFFF_FFFF_FFFF_FFFF, true), "an integer constant")?;
            let r = built(llvm::select(&self.builder, is_null, neg_one, offset32, "str_pos_res"), "a selection")?;
            return Ok(Some(Val { v: r, ty: VType::Int(32) }));
        }
        if text_eq(nm, "split") {
            if n != 3 { return Err(text("split() takes 3 arguments: split(string, sep, array)")); }
            let s = self.gen_ptr_arg(expr, 0, "The string")?;
            let sep = self.gen_ptr_arg(expr, 1, "The separator")?;
            let arr_name = match &arguments[2] {
                Expression::Identifier(x) => x.clone(),
                _ => { return Err(text("Third argument of split() must be an array variable")); },
            };
            let (base, ty) = match self.variables.get(arr_name.as_str()) {
                Some(v) => (v.ptr, v.ty.duplicate()),
                None => { return Err(undefined_variable(arr_name.as_str())); },
            };
            let (elem, max_size) = match ty {
                VType::Array(e, len) => (*e, len),
                _ => { return Err(cat3("'", arr_name.as_str(), "' is not an array")); },
            };
            let zero = self.k32(0)?;
            let first = self.element_ptr(base, &elem, &Val { v: zero, ty: VType::Int(32) })?;
            let first = self.pass_as(Val { v: first, ty: VType::Ptr(Box::new(elem)) }, &VType::Ptr(Box::new(str_vtype())))?;
            let max = self.k32(max_size as u64)?;
            let split_fn = self.func("__vit_split")?;
            let r = self.call_for(split_fn, vec![s.v, sep.v, first, max], "split_res")?;
            return Ok(Some(Val { v: r, ty: VType::Int(32) }));
        }
        if text_eq(nm, "http_handle") {
            return match self.generate_http_handle(expr) {
                Ok(v) => Ok(Some(v)),
                Err(m) => Err(m),
            };
        }
        if text_eq(nm, "http_listen") {
            return match self.generate_http_listen(expr) {
                Ok(v) => Ok(Some(v)),
                Err(m) => Err(m),
            };
        }
        Ok(None)
    }
}

} // verus!

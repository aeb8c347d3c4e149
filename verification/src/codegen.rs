//! Code generation: a program is lowered into an LLVM module. The LLVM values
//! are opaque; each carries the type that code generation gave it, and the
//! decisions that depend on types are made on those.
use vstd::prelude::*;
use inkwell::basic_block::BasicBlock;
use inkwell::builder::Builder;
use inkwell::context::Context;
use inkwell::module::Module;
use inkwell::types::{BasicTypeEnum, StructType};
use inkwell::values::{BasicValueEnum, FunctionValue};
use crate::ast::{Type, TypeM, type_m, Expression, Statement, Function, GlobalVar, ExternFunction,
    StructDef, Program, Parameter};
use crate::llvm;
use crate::table::NameTable;
use crate::text::{text, append, append_nat, text_eq, nat_text};
use crate::vtype::{VType, VTypeM, vt_m, conv_spec, str_vtype, str_m, map_kind, map_alloc_size,
    global_map_alloc_size, scan_format, element_scan_format, print_plan, print_format, PrintPlan};

pub mod stmt;
pub mod expr;
pub mod call;
pub mod runtime;
pub mod builtin;
pub mod http;
pub mod meaning;

verus! {

/// A variable: the address of its storage and the type of what is stored there.
pub struct Var<'ctx> {
    pub ptr: BasicValueEnum<'ctx>,
    pub ty: VType,
}

/// A computed value and its type.
pub struct Val<'ctx> {
    pub v: BasicValueEnum<'ctx>,
    pub ty: VType,
}

/// A struct type: its LLVM type, its field names and field types, in order.
pub struct StructInfo<'ctx> {
    pub llvm: StructType<'ctx>,
    pub fields: Vec<String>,
    pub field_types: Vec<VType>,
}

/// The signature of a declared function; `None` returns nothing.
pub struct FnSig {
    pub params: Vec<VType>,
    pub ret: Option<VType>,
}

/// The key and value types of a map variable.
pub struct MapTypes {
    pub key: Type,
    pub value: Type,
}

pub struct Codegen<'ctx> {
    context: &'ctx Context,
    module: Module<'ctx>,
    builder: Builder<'ctx>,
    variables: NameTable<Var<'ctx>>,
    global_variables: NameTable<Var<'ctx>>,
    current_function: Option<FunctionValue<'ctx>>,
    printf: Option<FunctionValue<'ctx>>,
    scanf: Option<FunctionValue<'ctx>>,
    loop_stack: Vec<(BasicBlock<'ctx>, BasicBlock<'ctx>)>,
    map_variables: NameTable<MapTypes>,
    global_map_variables: NameTable<MapTypes>,
    array_params: NameTable<VType>,
    struct_defs: NameTable<StructInfo<'ctx>>,
    var_struct_names: NameTable<String>,
    functions: NameTable<FnSig>,
    trace: llvm::Trace<'ctx>,
}

/// Why a type has no LLVM counterpart, if it has none: the first integer width
/// that is not 1, 8, 16, 32 or 64, or the first struct not among `known`.
pub open spec fn llvm_type_error(t: VTypeM, known: Set<Seq<char>>) -> Option<Seq<char>>
    decreases t,
{
    match t {
        VTypeM::Int(w) => if w == 1 || w == 8 || w == 16 || w == 32 || w == 64 {
            None
        } else {
            Some("Unsupported integer width "@ + nat_text(w as nat))
        },
        VTypeM::Single | VTypeM::Double => None,
        VTypeM::Ptr(e) => llvm_type_error(*e, known),
        VTypeM::Array(e, _) => llvm_type_error(*e, known),
        VTypeM::Struct(name) => if known.contains(name) { None } else { Some("Unknown struct type '"@ + name + "'"@) },
    }
}

/// How a parameter of type `t` is passed (to an `extern fn` when `for_extern`):
/// an array as a pointer to its first element, a struct as a pointer to it (by
/// value to an `extern fn`), a map as the `i8*` of its storage.
pub open spec fn param_spec(t: TypeM, known: Set<Seq<char>>, for_extern: bool) -> Result<VTypeM, Seq<char>> {
    match t {
        TypeM::Array { element, .. } => match conv_spec(*element, known) {
            Err(e) => Err(e),
            Ok(el) => if el is Int || el is Single || el is Double || el is Ptr {
                Ok(VTypeM::Ptr(Box::new(el)))
            } else if for_extern {
                Ok(str_m())
            } else {
                Err("Unsupported array element type in parameter"@)
            },
        },
        TypeM::Struct(s) => if for_extern {
            conv_spec(t, known)
        } else if known.contains(s) {
            Ok(VTypeM::Ptr(Box::new(VTypeM::Struct(s))))
        } else {
            Err("Unknown struct '"@ + s + "'"@)
        },
        TypeM::HashMap { .. } => if for_extern { conv_spec(t, known) } else { Ok(str_m()) },
        _ => conv_spec(t, known),
    }
}

/// The error of the first parameter that cannot be passed, if there is one.
pub open spec fn first_param_error(ps: Seq<(Seq<char>, TypeM)>, known: Set<Seq<char>>) -> Option<Seq<char>>
    decreases ps.len(),
{
    if ps.len() == 0 {
        None
    } else {
        match param_spec(ps[0].1, known, false) {
            Err(e) => Some(e),
            Ok(_) => first_param_error(ps.subrange(1, ps.len() as int), known),
        }
    }
}

/// A type that may be absent, modelled.
pub open spec fn opt_vt_m(t: Option<VType>) -> Option<VTypeM> {
    match t {
        Some(x) => Some(vt_m(x)),
        None => None,
    }
}

/// The error of the first of `ts` that has no LLVM counterpart, if one has none.
pub open spec fn first_type_error(ts: Seq<VTypeM>, known: Set<Seq<char>>) -> Option<Seq<char>>
    decreases ts.len(),
{
    if ts.len() == 0 {
        None
    } else {
        match llvm_type_error(ts[0], known) {
            Some(e) => Some(e),
            None => first_type_error(ts.drop_first(), known),
        }
    }
}

/// Why a function with these parameter and result types cannot be declared, if
/// it cannot: the first parameter type without an LLVM counterpart, else the
/// result type's.
pub open spec fn signature_error(params: Seq<VTypeM>, ret: Option<VTypeM>, known: Set<Seq<char>>) -> Option<Seq<char>> {
    match first_type_error(params, known) {
        Some(e) => Some(e),
        None => match ret {
            Some(t) => llvm_type_error(t, known),
            None => None,
        },
    }
}

/// Strings, the integer widths LLVM has and the float types have LLVM counterparts.
proof fn lemma_basic_types_ok(known: Set<Seq<char>>)
    ensures
        llvm_type_error(str_m(), known) is None,
        llvm_type_error(VTypeM::Int(8), known) is None,
        llvm_type_error(VTypeM::Int(32), known) is None,
        llvm_type_error(VTypeM::Int(64), known) is None,
        llvm_type_error(VTypeM::Double, known) is None,
{
    assert(llvm_type_error(VTypeM::Int(8), known) is None);
}

/// When the types before index `i` all have LLVM counterparts, the first error
/// is that of index `i`, or there is none when `i` is the end.
proof fn lemma_first_type_error(ts: Seq<VTypeM>, i: int, known: Set<Seq<char>>)
    requires
        0 <= i <= ts.len(),
        forall|j: int| 0 <= j < i ==> llvm_type_error(#[trigger] ts[j], known) is None,
    ensures
        i == ts.len() ==> first_type_error(ts, known) is None,
        i < ts.len() && llvm_type_error(ts[i], known) is Some ==> first_type_error(ts, known) == llvm_type_error(ts[i], known),
    decreases i,
{
    if i > 0 {
        let rest = ts.drop_first();
        assert forall|j: int| 0 <= j < i - 1 implies llvm_type_error(#[trigger] rest[j], known) is None by {
            assert(rest[j] == ts[j + 1]);
        }
        lemma_first_type_error(rest, i - 1, known);
        assert(llvm_type_error(ts[0], known) is None);
        if i < ts.len() {
            assert(rest[i - 1] == ts[i]);
        }
    }
}

/// Whether every parameter type and the result type of a declaration in the
/// form `(name, result, parameters)` have LLVM counterparts.
pub open spec fn decl_types_ok(d: (&str, Option<VType>, Vec<VType>), known: Set<Seq<char>>) -> bool {
    &&& forall|j: int| 0 <= j < d.2@.len() ==> llvm_type_error(vt_m(#[trigger] d.2@[j]), known) is None
    &&& match d.1 {
        Some(t) => llvm_type_error(vt_m(t), known) is None,
        None => true,
    }
}

/// Whether every declaration of a list has LLVM types throughout.
pub open spec fn all_decl_types_ok(ds: Seq<(&str, Option<VType>, Vec<VType>)>, known: Set<Seq<char>>) -> bool {
    forall|i: int| 0 <= i < ds.len() ==> decl_types_ok(#[trigger] ds[i], known)
}

/// The names of a list of declarations.
pub open spec fn decl_names(ds: Seq<(&str, Option<VType>, Vec<VType>)>) -> Seq<Seq<char>> {
    ds.map_values(|d: (&str, Option<VType>, Vec<VType>)| d.0@)
}

/// When every type of a declaration has an LLVM counterpart, it has no error.
proof fn lemma_decl_types_ok(d: (&str, Option<VType>, Vec<VType>), known: Set<Seq<char>>)
    requires
        decl_types_ok(d, known),
    ensures
        signature_error(d.2@.map_values(|t: VType| vt_m(t)), opt_vt_m(d.1), known) is None,
{
    let ms = d.2@.map_values(|t: VType| vt_m(t));
    assert forall|j: int| 0 <= j < ms.len() implies llvm_type_error(#[trigger] ms[j], known) is None by {
        assert(ms[j] == vt_m(d.2@[j]));
    }
    lemma_first_type_error(ms, ms.len() as int, known);
}

/// A type that converts has an LLVM counterpart.
proof fn lemma_conv_llvm_ok(t: TypeM, known: Set<Seq<char>>)
    requires
        conv_spec(t, known) is Ok,
    ensures
        llvm_type_error(conv_spec(t, known)->Ok_0, known) is None,
    decreases t,
{
    match t {
        TypeM::Array { element, size } => {
            lemma_conv_llvm_ok(*element, known);
        },
        TypeM::Str | TypeM::HashMap { .. } => {
            assert(llvm_type_error(VTypeM::Int(8), known) is None);
        },
        _ => {},
    }
}

/// A parameter type that can be passed has an LLVM counterpart.
proof fn lemma_param_llvm_ok(t: TypeM, known: Set<Seq<char>>, for_extern: bool)
    requires
        param_spec(t, known, for_extern) is Ok,
    ensures
        llvm_type_error(param_spec(t, known, for_extern)->Ok_0, known) is None,
{
    lemma_basic_types_ok(known);
    match t {
        TypeM::Array { element, .. } => {
            lemma_conv_llvm_ok(*element, known);
            let el = conv_spec(*element, known)->Ok_0;
            assert(llvm_type_error(VTypeM::Ptr(Box::new(el)), known) == llvm_type_error(el, known));
            if el is Int || el is Single || el is Double || el is Ptr {
                assert(param_spec(t, known, for_extern)->Ok_0 == VTypeM::Ptr(Box::new(el)));
            }
        },
        TypeM::Struct(name) => {
            if for_extern {
                lemma_conv_llvm_ok(t, known);
            } else {
                assert(llvm_type_error(VTypeM::Struct(name), known) is None);
            }
        },
        TypeM::HashMap { .. } => {
            if for_extern { lemma_conv_llvm_ok(t, known); }
        },
        _ => { lemma_conv_llvm_ok(t, known); },
    }
}

/// Whether every parameter of an `extern fn` can be passed and its result type,
/// unless `void`, converts to something other than an array.
pub open spec fn extern_types_ok(e: ExternFunction, known: Set<Seq<char>>) -> bool {
    &&& forall|j: int| 0 <= j < e.parameters@.len()
        ==> param_spec(type_m((#[trigger] e.parameters@[j]).typ), known, true) is Ok
    &&& (e.return_type is Void || (conv_spec(type_m(e.return_type), known) is Ok
        && !(conv_spec(type_m(e.return_type), known)->Ok_0 is Array)))
}

/// The names of the first `n` structs.
pub open spec fn struct_name_set(structs: Seq<StructDef>, n: int) -> Set<Seq<char>> {
    Set::new(|x: Seq<char>| exists|k: int| 0 <= k < n && (#[trigger] structs[k]).name@ == x)
}

/// Every field of every struct has a type that converts, with `known` the
/// structs known.
pub open spec fn struct_fields_convert(structs: Seq<StructDef>, known: Set<Seq<char>>) -> bool {
    forall|i: int, j: int| 0 <= i < structs.len() && 0 <= j < structs[i].fields@.len()
        ==> conv_spec(type_m((#[trigger] structs[i].fields@[j]).typ), known) is Ok
}

/// Every global has no initializer and a type that converts.
pub open spec fn plain_globals(gs: Seq<GlobalVar>, known: Set<Seq<char>>) -> bool {
    forall|k: int| 0 <= k < gs.len() ==> (#[trigger] gs[k]).initializer is None
        && conv_spec(type_m(gs[k].typ), known) is Ok
}

/// Why a global of type `t` cannot have its initializer, when the initializer's
/// kind alone decides it: no literal at all, or a literal of another kind than
/// the type.
pub open spec fn init_error(g: GlobalVar, t: VTypeM) -> Option<Seq<char>> {
    match g.initializer {
        None => None,
        Some(Expression::IntLiteral(_)) => if t is Int { None } else {
            Some("Global '"@ + g.name@ + "': integer literal for non-integer type"@)
        },
        Some(Expression::FloatLiteral(_)) => if t is Single || t is Double { None } else {
            Some("Global '"@ + g.name@ + "': float literal for non-float type"@)
        },
        Some(Expression::ArrayLiteral(_)) => if t is Array { None } else {
            Some("Global '"@ + g.name@ + "': array literal for non-array type"@)
        },
        Some(_) => Some("Global '"@ + g.name@ + "': only literal initializers supported for globals"@),
    }
}

/// Every global before `k` has no initializer and a type that converts, and
/// global `k`'s type converts but its initializer cannot be used for it.
pub open spec fn bad_init_at(gs: Seq<GlobalVar>, k: int, known: Set<Seq<char>>) -> bool {
    &&& 0 <= k < gs.len()
    &&& forall|j: int| 0 <= j < k ==> (#[trigger] gs[j]).initializer is None && conv_spec(type_m(gs[j].typ), known) is Ok
    &&& conv_spec(type_m(gs[k].typ), known) is Ok
    &&& init_error(gs[k], conv_spec(type_m(gs[k].typ), known)->Ok_0) is Some
}

/// Whether the requests at `j` and `j + 1` give a global its initial value as
/// `init` asks: zero when it has no initializer, the integer constant of the
/// literal (sign-extended) when it is an integer literal.
pub open spec fn initialized_at<'ctx>(t: Seq<llvm::Emitted<'ctx>>, j: int, init: Option<Expression>) -> bool {
    &&& 0 <= j && j + 1 < t.len()
    &&& match (t[j], t[j + 1]) {
        (llvm::Emitted::Zero(z), llvm::Emitted::Initializer(_, v)) => init is None && v == z,
        (llvm::Emitted::IntConstant(bits, sx, c), llvm::Emitted::Initializer(_, v)) =>
            (init matches Some(Expression::IntLiteral(n)) && bits == n as u64) && sx && v == c,
        _ => false,
    }
}

/// A global's initializer is a literal, or an array literal of literals, or absent.
pub open spec fn literal_init(init: Option<Expression>) -> bool {
    match init {
        None => true,
        Some(Expression::IntLiteral(_)) | Some(Expression::FloatLiteral(_)) => true,
        Some(Expression::ArrayLiteral(es)) => forall|j: int| 0 <= j < es@.len()
            ==> (#[trigger] es@[j] is IntLiteral || es@[j] is FloatLiteral),
        _ => false,
    }
}

/// Whether the requests `b` begin with the requests `a`: nothing asked before was
/// taken back.
pub open spec fn grows<'ctx>(a: Seq<llvm::Emitted<'ctx>>, b: Seq<llvm::Emitted<'ctx>>) -> bool {
    &&& a.len() <= b.len()
    &&& forall|i: int| 0 <= i < a.len() ==> #[trigger] b[i] == a[i]
}

/// `a` followed by `b`.
pub fn cat(a: &str, b: &str) -> (r: String)
    ensures
        r@ == a@ + b@,
{
    let mut s = text(a);
    append(&mut s, b);
    s
}

/// `a`, `b`, then `c`.
pub fn cat3(a: &str, b: &str, c: &str) -> (r: String)
    ensures
        r@ == a@ + b@ + c@,
{
    let mut s = text(a);
    append(&mut s, b);
    append(&mut s, c);
    s
}

/// The message for a name that is not a variable in scope.
pub fn undefined_variable(name: &str) -> (r: String)
    ensures
        r@ == "Undefined variable: "@ + name@,
{
    cat("Undefined variable: ", name)
}

/// The message when LLVM refuses to build `what`.
pub open spec fn build_failure(what: Seq<char>) -> Seq<char> {
    "LLVM could not build "@ + what
}

/// The message when a function that generated code calls is not in the module.
pub open spec fn undefined_function(name: Seq<char>) -> Seq<char> {
    "Undefined function: "@ + name
}

/// Whether `m` reports a refusal that comes from outside the library: LLVM
/// would not build a request, or a function that the generated code calls is
/// not in the module.
pub open spec fn outside_refusal(m: Seq<char>) -> bool {
    ||| exists|w: Seq<char>| m == #[trigger] build_failure(w)
    ||| exists|n: Seq<char>| m == #[trigger] undefined_function(n)
}

/// What is reported when LLVM refuses to build an instruction.
pub fn builder_failed(what: &str) -> (r: String)
    ensures
        r@ == build_failure(what@),
{
    cat("LLVM could not build ", what)
}

/// A value that LLVM built, or the error saying which one it could not.
pub fn built<T>(o: Option<T>, what: &str) -> (r: Result<T, String>)
    ensures
        match o {
            Some(x) => r == Ok::<T, String>(x),
            None => r is Err && r->Err_0@ == build_failure(what@),
        },
{
    match o {
        Some(x) => Ok(x),
        None => Err(builder_failed(what)),
    }
}

impl<'ctx> Codegen<'ctx> {
    /// The names of the struct types known so far.
    pub closed spec fn struct_names(&self) -> Set<Seq<char>> {
        Set::new(|k: Seq<char>| self.struct_defs.get_spec(k) is Some)
    }

    /// The address of the storage of the variable `name` in scope, if there is one.
    pub closed spec fn var_slot(&self, name: Seq<char>) -> Option<BasicValueEnum<'ctx>> {
        match self.variables.get_spec(name) {
            Some(v) => Some(v.ptr),
            None => None,
        }
    }

    /// The type of the variable `name` in scope, if there is one.
    pub closed spec fn var_type(&self, name: Seq<char>) -> Option<VTypeM> {
        match self.variables.get_spec(name) {
            Some(v) => Some(vt_m(v.ty)),
            None => None,
        }
    }

    /// The struct type of the variable `name`, if it holds a struct.
    pub closed spec fn var_struct(&self, name: Seq<char>) -> Option<Seq<char>> {
        match self.var_struct_names.get_spec(name) {
            Some(s) => Some(s@),
            None => None,
        }
    }

    /// The type of the global variable `name`, if there is one.
    pub closed spec fn global_type(&self, name: Seq<char>) -> Option<VTypeM> {
        match self.global_variables.get_spec(name) {
            Some(v) => Some(vt_m(v.ty)),
            None => None,
        }
    }

    /// The element type of the array parameter `name`, if it is one.
    pub closed spec fn param_elem(&self, name: Seq<char>) -> Option<VTypeM> {
        match self.array_params.get_spec(name) {
            Some(t) => Some(vt_m(t)),
            None => None,
        }
    }

    /// The parameter types and result type of the declared function `name`.
    pub closed spec fn fn_sig(&self, name: Seq<char>) -> Option<(Seq<VTypeM>, Option<VTypeM>)> {
        match self.functions.get_spec(name) {
            Some(sig) => Some((
                sig.params@.map_values(|t: VType| vt_m(t)),
                match sig.ret { Some(t) => Some(vt_m(t)), None => None },
            )),
            None => None,
        }
    }

    /// The field names and field types recorded for the struct `name`, if it is known.
    pub closed spec fn struct_fields(&self, name: Seq<char>) -> Option<(Seq<Seq<char>>, Seq<VTypeM>)> {
        match self.struct_defs.get_spec(name) {
            Some(info) => Some((
                info.fields@.map_values(|f: String| f@),
                info.field_types@.map_values(|t: VType| vt_m(t)),
            )),
            None => None,
        }
    }

    /// Whether a function body is being generated.
    pub closed spec fn in_function(&self) -> bool {
        self.current_function is Some
    }

    /// Whether `printf` has been declared for `print`.
    pub closed spec fn printf_declared(&self) -> bool {
        self.printf is Some
    }

    /// The `printf` that `print` calls, once declared.
    pub closed spec fn printf_fn(&self) -> Option<FunctionValue<'ctx>> {
        self.printf
    }

    /// Whether `scanf` has been declared for `input`.
    pub closed spec fn scanf_declared(&self) -> bool {
        self.scanf is Some
    }

    /// The operations and branches asked of the builder so far, oldest first.
    pub closed spec fn emitted(&self) -> Seq<llvm::Emitted<'ctx>> {
        self.trace.ops@
    }

    /// The loops around the statement being generated, innermost last: for each,
    /// the block `continue` branches to and the block `break` branches to.
    pub closed spec fn loop_targets(&self) -> Seq<(BasicBlock<'ctx>, BasicBlock<'ctx>)> {
        self.loop_stack@
    }

    /// Whether `self` and `other` differ at most in what was asked of the builder.
    pub closed spec fn same_but_emitted(&self, other: &Self) -> bool {
        &&& self.context == other.context
        &&& self.module == other.module
        &&& self.builder == other.builder
        &&& self.variables == other.variables
        &&& self.global_variables == other.global_variables
        &&& self.current_function == other.current_function
        &&& self.printf == other.printf
        &&& self.scanf == other.scanf
        &&& self.loop_stack == other.loop_stack
        &&& self.map_variables == other.map_variables
        &&& self.global_map_variables == other.global_map_variables
        &&& self.array_params == other.array_params
        &&& self.struct_defs == other.struct_defs
        &&& self.var_struct_names == other.var_struct_names
        &&& self.functions == other.functions
    }

    /// Generators that differ at most in what was asked of LLVM agree on every
    /// table.
    pub broadcast proof fn lemma_same_but_emitted(a: &Self, b: &Self)
        requires
            #[trigger] a.same_but_emitted(b),
        ensures
            a.struct_names() == b.struct_names(),
            a.loop_depth() == b.loop_depth(),
            a.loop_targets() == b.loop_targets(),
            a.in_function() == b.in_function(),
            a.printf_declared() == b.printf_declared(),
            a.scanf_declared() == b.scanf_declared(),
            a.module_spec() == b.module_spec(),
            a.builder_spec() == b.builder_spec(),
            a.context_spec() == b.context_spec(),
            forall|k: Seq<char>| #[trigger] a.fn_sig(k) == b.fn_sig(k),
            forall|k: Seq<char>| #[trigger] a.var_type(k) == b.var_type(k),
            forall|k: Seq<char>| #[trigger] a.var_struct(k) == b.var_struct(k),
            forall|k: Seq<char>| #[trigger] a.global_type(k) == b.global_type(k),
            forall|k: Seq<char>| #[trigger] a.param_elem(k) == b.param_elem(k),
            forall|k: Seq<char>| #[trigger] a.struct_fields(k) == b.struct_fields(k),
    {
        assert(a.struct_names() =~= b.struct_names());
    }

    /// The depth of loops around the statement being generated.
    pub closed spec fn loop_depth(&self) -> nat {
        self.loop_stack@.len()
    }

    /// A code generator that builds a new module named `module_name`.
    pub fn new(context: &'ctx Context, module_name: &str) -> (r: Self)
        ensures
            r.loop_depth() == 0,
            r.struct_names() == Set::<Seq<char>>::empty(),
            r.context_spec() == context,
            r.emitted() == Seq::<llvm::Emitted<'ctx>>::empty(),
            forall|k: Seq<char>| r.var_type(k) is None && r.global_type(k) is None && r.fn_sig(k) is None,
    {
        let module = llvm::create_module(context, module_name);
        let builder = llvm::create_builder(context);
        let r = Codegen {
            context,
            module,
            builder,
            variables: NameTable::new(),
            global_variables: NameTable::new(),
            current_function: None,
            printf: None,
            scanf: None,
            loop_stack: Vec::new(),
            map_variables: NameTable::new(),
            global_map_variables: NameTable::new(),
            array_params: NameTable::new(),
            struct_defs: NameTable::new(),
            var_struct_names: NameTable::new(),
            functions: NameTable::new(),
            trace: llvm::Trace::new(),
        };
        assert(r.struct_names() =~= Set::<Seq<char>>::empty());
        r
    }

    /// The module being built.
    pub closed spec fn module_spec(&self) -> Module<'ctx> {
        self.module
    }

    /// The instruction builder.
    pub closed spec fn builder_spec(&self) -> Builder<'ctx> {
        self.builder
    }

    /// The LLVM context.
    pub closed spec fn context_spec(&self) -> &'ctx Context {
        self.context
    }

    /// The module being built.
    pub fn module(&self) -> (r: &Module<'ctx>)
        ensures
            *r == self.module_spec(),
    {
        &self.module
    }

    /// The instruction builder.
    pub fn builder(&self) -> (r: &Builder<'ctx>)
        ensures
            *r == self.builder_spec(),
    {
        &self.builder
    }

    /// The LLVM context.
    pub fn context(&self) -> (r: &'ctx Context)
        ensures
            r == self.context_spec(),
    {
        self.context
    }

    /// LLVM's check of the module built so far; its report when it fails.
    pub fn verify(&self) -> Result<(), String> {
        llvm::verify_module(&self.module)
    }

    /// The textual IR of the module built so far.
    pub fn ir_text(&self) -> String {
        llvm::module_ir(&self.module)
    }

    /// The LLVM type of `t`; integers must be 1, 8, 16, 32 or 64 bits wide and
    /// structs known.
    pub fn llvm_type(&self, t: &VType) -> (r: Result<BasicTypeEnum<'ctx>, String>)
        ensures
            match llvm_type_error(vt_m(*t), self.struct_names()) {
                Some(e) => r is Err && r->Err_0@ == e,
                None => r is Ok,
            },
        decreases t,
    {
        match t {
            VType::Int(w) => {
                if *w == 1 {
                    Ok(llvm::bool_ty(self.context))
                } else if *w == 8 {
                    Ok(llvm::i8_ty(self.context))
                } else if *w == 16 {
                    Ok(llvm::i16_ty(self.context))
                } else if *w == 32 {
                    Ok(llvm::i32_ty(self.context))
                } else if *w == 64 {
                    Ok(llvm::i64_ty(self.context))
                } else {
                    let mut s = text("Unsupported integer width ");
                    append_nat(&mut s, *w as u64);
                    Err(s)
                }
            },
            VType::Single => Ok(llvm::single_ty(self.context)),
            VType::Double => Ok(llvm::double_ty(self.context)),
            VType::Ptr(e) => {
                let et = match self.llvm_type(e) {
                    Ok(t) => t,
                    Err(m) => { return Err(m); },
                };
                Ok(llvm::ptr_to(et))
            },
            VType::Array(e, n) => {
                let et = match self.llvm_type(e) {
                    Ok(t) => t,
                    Err(m) => { return Err(m); },
                };
                Ok(llvm::array_of(et, *n))
            },
            VType::Struct(name) => match self.struct_defs.get(name.as_str()) {
                Some(info) => Ok(llvm::struct_basic(info.llvm)),
                None => Err(cat3("Unknown struct type '", name.as_str(), "'")),
            },
        }
    }

    /// How a Vit type is represented.
    pub fn convert_type(&self, t: &Type) -> (r: Result<VType, String>)
        ensures
            match conv_spec(type_m(*t), self.struct_names()) {
                Ok(m) => r is Ok && vt_m(r->Ok_0) == m,
                Err(e) => r is Err && r->Err_0@ == e,
            },
        decreases t,
    {
        match t {
            Type::I32 => Ok(VType::Int(32)),
            Type::I64 => Ok(VType::Int(64)),
            Type::F32 => Ok(VType::Single),
            Type::F64 => Ok(VType::Double),
            Type::Bool => Ok(VType::Int(1)),
            Type::Str => Ok(str_vtype()),
            Type::HashMap { .. } => Ok(str_vtype()),
            Type::Void => Err(text("void cannot be used as a variable type")),
            Type::Struct(name) => {
                if self.struct_defs.contains(name.as_str()) {
                    Ok(VType::Struct(name.clone()))
                } else {
                    Err(cat3("Unknown struct type '", name.as_str(), "'"))
                }
            },
            Type::Array { element, size } => {
                let el = match self.convert_type(element) {
                    Ok(v) => v,
                    Err(m) => { return Err(m); },
                };
                if el.is_int() || el.is_float() || el.is_ptr() {
                    let n = *size as u32;
                    let r = VType::Array(Box::new(el), n);
                    Ok(r)
                } else {
                    Err(text("Arrays of this element type not supported"))
                }
            },
        }
    }

    /// Declares a function with the given signature and records it.
    fn declare(&mut self, name: &str, ret: Option<VType>, params: Vec<VType>, var_args: bool)
        -> (r: Result<FunctionValue<'ctx>, String>)
        ensures
            final(self).struct_names() == old(self).struct_names(),
            final(self).loop_depth() == old(self).loop_depth(),
            r is Ok <==> signature_error(params@.map_values(|t: VType| vt_m(t)), opt_vt_m(ret),
                old(self).struct_names()) is None,
            r is Err ==> Some(r->Err_0@) == signature_error(params@.map_values(|t: VType| vt_m(t)),
                opt_vt_m(ret), old(self).struct_names()),
            r is Ok ==> final(self).fn_sig(name@) == Some((params@.map_values(|t: VType| vt_m(t)), opt_vt_m(ret))),
            r is Err ==> final(self).fn_sig(name@) == old(self).fn_sig(name@),
            forall|k: Seq<char>| k != name@ ==> final(self).fn_sig(k) == old(self).fn_sig(k),
            forall|k: Seq<char>| old(self).fn_sig(k) is Some ==> final(self).fn_sig(k) is Some,
            final(self).emitted() == old(self).emitted(),
    {
        let ghost ms = params@.map_values(|t: VType| vt_m(t));
        let mut ptys: Vec<BasicTypeEnum<'ctx>> = Vec::new();
        let mut i: usize = 0;
        while i < params.len()
            invariant
                i <= params@.len(),
                ms == params@.map_values(|t: VType| vt_m(t)),
                *self == *old(self),
                forall|j: int| 0 <= j < i ==> llvm_type_error(#[trigger] ms[j], old(self).struct_names()) is None,
            decreases params@.len() - i,
        {
            let t = match self.llvm_type(&params[i]) {
                Ok(t) => t,
                Err(m) => {
                    proof { lemma_first_type_error(ms, i as int, old(self).struct_names()); }
                    return Err(m);
                },
            };
            ptys.push(t);
            i = i + 1;
        }
        proof { lemma_first_type_error(ms, i as int, old(self).struct_names()); }
        let rt = match &ret {
            Some(t) => match self.llvm_type(t) {
                Ok(x) => Some(x),
                Err(m) => { return Err(m); },
            },
            None => None,
        };
        let ft = llvm::fn_ty(self.context, rt, &ptys, var_args);
        let f = llvm::add_function(&self.module, name, ft);
        self.functions.insert(text(name), FnSig { params, ret });
        Ok(f)
    }

    /// Whether every one of `names` is a declared function.
    pub open spec fn declares_all(&self, names: Seq<Seq<char>>) -> bool {
        forall|i: int| 0 <= i < names.len() ==> self.fn_sig(#[trigger] names[i]) is Some
    }

    /// Declares `name` unless a function of that name exists already.
    fn declare_missing(&mut self, name: &str, ret: Option<VType>, params: Vec<VType>) -> (r: Result<(), String>)
        ensures
            final(self).struct_names() == old(self).struct_names(),
            final(self).loop_depth() == old(self).loop_depth(),
            signature_error(params@.map_values(|t: VType| vt_m(t)), opt_vt_m(ret), old(self).struct_names()) is None
                ==> r is Ok,
            r is Err ==> Some(r->Err_0@) == signature_error(params@.map_values(|t: VType| vt_m(t)),
                opt_vt_m(ret), old(self).struct_names()),
            r is Ok ==> final(self).fn_sig(name@) == old(self).fn_sig(name@)
                || final(self).fn_sig(name@) == Some((params@.map_values(|t: VType| vt_m(t)), opt_vt_m(ret))),
            forall|k: Seq<char>| k != name@ ==> final(self).fn_sig(k) == old(self).fn_sig(k),
            forall|k: Seq<char>| old(self).fn_sig(k) is Some ==> final(self).fn_sig(k) is Some,
    {
        if llvm::get_function(&self.module, &mut self.trace, name).is_none() {
            match self.declare(name, ret, params, false) {
                Ok(_) => {},
                Err(m) => { return Err(m); },
            }
        }
        Ok(())
    }

    /// Declares `printf(i8*, ...) -> i32`.
    fn declare_printf(&mut self) -> (r: Result<(), String>)
        ensures
            r is Ok,
            final(self).fn_sig("printf"@) == Some((seq![str_m()], Some(VTypeM::Int(32)))),
            final(self).printf_declared(),
            final(self).struct_names() == old(self).struct_names(),
            final(self).loop_depth() == old(self).loop_depth(),
            forall|k: Seq<char>| old(self).fn_sig(k) is Some ==> final(self).fn_sig(k) is Some,
    {
        let params = vec![str_vtype()];
        proof {
            assert(params@.map_values(|t: VType| vt_m(t)) =~= seq![str_m()]);
            lemma_basic_types_ok(self.struct_names());
            lemma_first_type_error(seq![str_m()], 1, self.struct_names());
        }
        let f = match self.declare("printf", Some(VType::Int(32)), params, true) {
            Ok(f) => f,
            Err(m) => { return Err(m); },
        };
        self.printf = Some(f);
        Ok(())
    }

    /// Declares `scanf(i8*, ...) -> i32`.
    fn declare_scanf(&mut self) -> (r: Result<(), String>)
        ensures
            r is Ok,
            final(self).fn_sig("scanf"@) == Some((seq![str_m()], Some(VTypeM::Int(32)))),
            final(self).scanf_declared(),
            final(self).struct_names() == old(self).struct_names(),
            final(self).loop_depth() == old(self).loop_depth(),
            forall|k: Seq<char>| old(self).fn_sig(k) is Some ==> final(self).fn_sig(k) is Some,
    {
        let params = vec![str_vtype()];
        proof {
            assert(params@.map_values(|t: VType| vt_m(t)) =~= seq![str_m()]);
            lemma_basic_types_ok(self.struct_names());
            lemma_first_type_error(seq![str_m()], 1, self.struct_names());
        }
        let f = match self.declare("scanf", Some(VType::Int(32)), params, true) {
            Ok(f) => f,
            Err(m) => { return Err(m); },
        };
        self.scanf = Some(f);
        Ok(())
    }

    /// The C string functions the runtime and the string built-ins call.
    fn declare_string_builtins(&mut self) -> (r: Result<(), String>)
        ensures
            r is Ok,
            final(self).declares_all(seq!["strlen"@, "malloc"@, "strcpy"@, "strcat"@, "strstr"@, "memcpy"@,
                "strdup"@, "strtok"@, "strcmp"@, "strncpy"@, "strncmp"@]),
            final(self).struct_names() == old(self).struct_names(),
            final(self).loop_depth() == old(self).loop_depth(),
            forall|k: Seq<char>| old(self).fn_sig(k) is Some ==> final(self).fn_sig(k) is Some,
    {
        let decls: Vec<(&str, Option<VType>, Vec<VType>)> = vec![
            ("strlen", Some(VType::Int(64)), vec![str_vtype()]),
            ("malloc", Some(str_vtype()), vec![VType::Int(64)]),
            ("strcpy", Some(str_vtype()), vec![str_vtype(), str_vtype()]),
            ("strcat", Some(str_vtype()), vec![str_vtype(), str_vtype()]),
            ("strstr", Some(str_vtype()), vec![str_vtype(), str_vtype()]),
            ("memcpy", Some(str_vtype()), vec![str_vtype(), str_vtype(), VType::Int(64)]),
            ("strdup", Some(str_vtype()), vec![str_vtype()]),
            ("strtok", Some(str_vtype()), vec![str_vtype(), str_vtype()]),
            ("strcmp", Some(VType::Int(32)), vec![str_vtype(), str_vtype()]),
            ("strncpy", Some(str_vtype()), vec![str_vtype(), str_vtype(), VType::Int(64)]),
            ("strncmp", Some(VType::Int(32)), vec![str_vtype(), str_vtype(), VType::Int(64)]),
        ];
        proof { lemma_basic_types_ok(self.struct_names()); }
        assert(all_decl_types_ok(decls@, self.struct_names()));
        assert(decl_names(decls@) =~= seq!["strlen"@, "malloc"@, "strcpy"@, "strcat"@, "strstr"@, "memcpy"@,
                "strdup"@, "strtok"@, "strcmp"@, "strncpy"@, "strncmp"@]);
        self.declare_all(decls)
    }

    /// The C math, conversion and memory functions.
    fn declare_math_builtins(&mut self) -> (r: Result<(), String>)
        ensures
            r is Ok,
            final(self).declares_all(seq!["sqrt"@, "pow"@, "atoi"@, "atol"@, "atof"@, "qsort"@, "calloc"@,
                "realloc"@, "free"@, "sprintf"@]),
            final(self).struct_names() == old(self).struct_names(),
            final(self).loop_depth() == old(self).loop_depth(),
            forall|k: Seq<char>| old(self).fn_sig(k) is Some ==> final(self).fn_sig(k) is Some,
    {
        let decls: Vec<(&str, Option<VType>, Vec<VType>)> = vec![
            ("sqrt", Some(VType::Double), vec![VType::Double]),
            ("pow", Some(VType::Double), vec![VType::Double, VType::Double]),
            ("atoi", Some(VType::Int(32)), vec![str_vtype()]),
            ("atol", Some(VType::Int(64)), vec![str_vtype()]),
            ("atof", Some(VType::Double), vec![str_vtype()]),
            ("qsort", None, vec![str_vtype(), VType::Int(64), VType::Int(64), str_vtype()]),
            ("calloc", Some(str_vtype()), vec![VType::Int(64), VType::Int(64)]),
            ("realloc", Some(str_vtype()), vec![str_vtype(), VType::Int(64)]),
            ("free", None, vec![str_vtype()]),
        ];
        proof { lemma_basic_types_ok(self.struct_names()); }
        assert(all_decl_types_ok(decls@, self.struct_names()));
        let ghost names = decl_names(decls@);
        assert(names =~= seq!["sqrt"@, "pow"@, "atoi"@, "atol"@, "atof"@, "qsort"@, "calloc"@, "realloc"@, "free"@]);
        match self.declare_all(decls) {
            Ok(()) => {},
            Err(m) => { return Err(m); },
        }
        // sprintf(i8*, i8*, ...) -> i32
        let params = vec![str_vtype(), str_vtype()];
        proof {
            let ms = params@.map_values(|t: VType| vt_m(t));
            assert(ms =~= seq![str_m(), str_m()]);
            lemma_basic_types_ok(self.struct_names());
            lemma_first_type_error(ms, 2, self.struct_names());
        }
        let ghost before = *self;
        let ghost all_names = names.push("sprintf"@);
        assert(all_names =~= seq!["sqrt"@, "pow"@, "atoi"@, "atol"@, "atof"@, "qsort"@, "calloc"@,
            "realloc"@, "free"@, "sprintf"@]);
        match self.declare("sprintf", Some(VType::Int(32)), params, true) {
            Ok(_) => {
                assert forall|i: int| 0 <= i < all_names.len() implies self.fn_sig(#[trigger] all_names[i]) is Some by {
                    if i < 9 {
                        assert(before.fn_sig(names[i]) is Some);
                    }
                }
                Ok(())
            },
            Err(m) => Err(m),
        }
    }

    /// The socket functions of the C library, unless declared already.
    fn declare_net_builtins(&mut self) -> (r: Result<(), String>)
        ensures
            r is Ok,
            final(self).struct_names() == old(self).struct_names(),
            final(self).loop_depth() == old(self).loop_depth(),
            forall|k: Seq<char>| old(self).fn_sig(k) is Some ==> final(self).fn_sig(k) is Some,
    {
        let decls: Vec<(&str, Option<VType>, Vec<VType>)> = vec![
            ("socket", Some(VType::Int(32)), vec![VType::Int(32), VType::Int(32), VType::Int(32)]),
            ("setsockopt", Some(VType::Int(32)), vec![VType::Int(32), VType::Int(32), VType::Int(32), str_vtype(), VType::Int(32)]),
            ("bind", Some(VType::Int(32)), vec![VType::Int(32), str_vtype(), VType::Int(32)]),
            ("listen", Some(VType::Int(32)), vec![VType::Int(32), VType::Int(32)]),
            ("accept", Some(VType::Int(32)), vec![VType::Int(32), str_vtype(), str_vtype()]),
            ("recv", Some(VType::Int(32)), vec![VType::Int(32), str_vtype(), VType::Int(32), VType::Int(32)]),
            ("send", Some(VType::Int(32)), vec![VType::Int(32), str_vtype(), VType::Int(32), VType::Int(32)]),
            ("close", Some(VType::Int(32)), vec![VType::Int(32)]),
        ];
        proof { lemma_basic_types_ok(self.struct_names()); }
        assert(forall|i: int| 0 <= i < decls@.len() ==> decl_types_ok(#[trigger] decls@[i], self.struct_names()));
        let mut decls = decls;
        while decls.len() > 0
            invariant
                forall|i: int| 0 <= i < decls@.len() ==> decl_types_ok(#[trigger] decls@[i], old(self).struct_names()),
                self.struct_names() == old(self).struct_names(),
                self.loop_depth() == old(self).loop_depth(),
                forall|k: Seq<char>| old(self).fn_sig(k) is Some ==> self.fn_sig(k) is Some,
            decreases decls@.len(),
        {
            let ghost prev = decls@;
            assert(decl_types_ok(decls@[0], old(self).struct_names()));
            let (name, ret, params) = decls.remove(0);
            assert(forall|i: int| 0 <= i < decls@.len() ==> decls@[i] == prev[i + 1]);
            proof { lemma_decl_types_ok((name, ret, params), old(self).struct_names()); }
            match self.declare_missing(name, ret, params) {
                Ok(()) => {},
                Err(m) => { return Err(m); },
            }
        }
        Ok(())
    }

    /// Declares each of `decls`, in order.
    fn declare_all(&mut self, decls: Vec<(&str, Option<VType>, Vec<VType>)>) -> (r: Result<(), String>)
        ensures
            all_decl_types_ok(decls@, old(self).struct_names()) ==> r is Ok,
            r is Ok ==> final(self).declares_all(decl_names(decls@)),
            final(self).struct_names() == old(self).struct_names(),
            final(self).loop_depth() == old(self).loop_depth(),
            forall|k: Seq<char>| old(self).fn_sig(k) is Some ==> final(self).fn_sig(k) is Some,
    {
        let ghost orig = decls@;
        let ghost all_ok = all_decl_types_ok(orig, old(self).struct_names());
        let mut rest = decls;
        while rest.len() > 0
            invariant
                rest@.len() <= orig.len(),
                orig == decls@,
                rest@ == orig.subrange(orig.len() - rest@.len(), orig.len() as int),
                all_ok == all_decl_types_ok(orig, old(self).struct_names()),
                self.struct_names() == old(self).struct_names(),
                self.loop_depth() == old(self).loop_depth(),
                forall|k: Seq<char>| old(self).fn_sig(k) is Some ==> self.fn_sig(k) is Some,
                forall|i: int| 0 <= i < orig.len() - rest@.len() ==> self.fn_sig(#[trigger] decl_names(orig)[i]) is Some,
            decreases rest@.len(),
        {
            let ghost done = orig.len() - rest@.len();
            let ghost d0 = rest@[0];
            assert(d0 == orig[done]);
            let (name, ret, params) = rest.remove(0);
            assert((name, ret, params) == d0);
            assert(rest@ =~= orig.subrange(orig.len() - rest@.len(), orig.len() as int));
            assert(all_ok ==> signature_error(params@.map_values(|t: VType| vt_m(t)), opt_vt_m(ret),
                self.struct_names()) is None) by {
                if all_ok {
                    assert(decl_types_ok(orig[done], old(self).struct_names()));
                    assert(decl_types_ok((name, ret, params), old(self).struct_names()));
                    lemma_decl_types_ok((name, ret, params), old(self).struct_names());
                }
            }
            let ghost before = *self;
            match self.declare(name, ret, params, false) {
                Ok(_) => {
                    assert(decl_names(orig)[done] == name@);
                    assert forall|i: int| 0 <= i < orig.len() - rest@.len()
                        implies self.fn_sig(#[trigger] decl_names(orig)[i]) is Some by {
                        if i < done {
                            assert(before.fn_sig(decl_names(orig)[i]) is Some);
                        }
                    }
                },
                Err(m) => { return Err(m); },
            }
        }
        assert(decl_names(orig).len() == orig.len());
        Ok(())
    }
}

} // verus!

verus! {

impl<'ctx> Codegen<'ctx> {
    /// The built-in `StrBuf` struct: `{ i8*, i64, i64 }` (data, len, cap).
    fn register_strbuf_type(&mut self) -> (r: Result<(), String>)
        ensures
            r is Ok,
            final(self).struct_fields("StrBuf"@) == Some((seq!["data"@, "len"@, "cap"@],
                seq![str_m(), VTypeM::Int(64), VTypeM::Int(64)])),
            final(self).struct_names() == old(self).struct_names().insert("StrBuf"@),
            final(self).loop_depth() == old(self).loop_depth(),
            forall|k: Seq<char>| final(self).fn_sig(k) == old(self).fn_sig(k),
    {
        let fields: Vec<BasicTypeEnum<'ctx>> = vec![
            llvm::ptr_to(llvm::i8_ty(self.context)),
            llvm::i64_ty(self.context),
            llvm::i64_ty(self.context),
        ];
        let st = llvm::literal_struct(self.context, &fields);
        let names = vec![text("data"), text("len"), text("cap")];
        let types = vec![str_vtype(), VType::Int(64), VType::Int(64)];
        assert(names@.map_values(|f: String| f@) =~= seq!["data"@, "len"@, "cap"@]);
        assert(types@.map_values(|t: VType| vt_m(t)) =~= seq![str_m(), VTypeM::Int(64), VTypeM::Int(64)]);
        self.struct_defs.insert(text("StrBuf"), StructInfo { llvm: st, fields: names, field_types: types });
        assert(self.struct_names() =~= old(self).struct_names().insert("StrBuf"@));
        Ok(())
    }

    /// Registers every struct by name first, so that fields may name structs
    /// defined later, then gives each its body.
    fn generate_struct_defs(&mut self, structs: &Vec<StructDef>) -> (r: Result<(), String>)
        ensures
            final(self).struct_names() == old(self).struct_names() + struct_name_set(structs@, structs@.len() as int),
            struct_fields_convert(structs@, old(self).struct_names() + struct_name_set(structs@, structs@.len() as int))
                ==> r is Ok,
            final(self).loop_depth() == old(self).loop_depth(),
            forall|k: Seq<char>| final(self).fn_sig(k) == old(self).fn_sig(k),
    {
        let ghost full = old(self).struct_names() + struct_name_set(structs@, structs@.len() as int);
        let mut i: usize = 0;
        assert(self.struct_names() =~= old(self).struct_names() + struct_name_set(structs@, 0));
        while i < structs.len()
            invariant
                i <= structs@.len(),
                self.struct_names() == old(self).struct_names() + struct_name_set(structs@, i as int),
                self.loop_depth() == old(self).loop_depth(),
                forall|k: Seq<char>| self.fn_sig(k) == old(self).fn_sig(k),
            decreases structs@.len() - i,
        {
            let s = &structs[i];
            let opaque = llvm::named_struct(self.context, s.name.as_str());
            let mut names: Vec<String> = Vec::new();
            let mut j: usize = 0;
            while j < s.fields.len()
                decreases s.fields@.len() - j,
            {
                names.push(s.fields[j].name.clone());
                j = j + 1;
            }
            let ghost prev = self.struct_names();
            self.struct_defs.insert(s.name.clone(), StructInfo { llvm: opaque, fields: names, field_types: Vec::new() });
            assert(self.struct_names() =~= prev.insert(s.name@));
            assert(struct_name_set(structs@, i + 1) =~= struct_name_set(structs@, i as int).insert(s.name@)) by {
                assert(structs@[i as int].name@ == s.name@);
            }
            i = i + 1;
        }
        let ghost convert_ok = struct_fields_convert(structs@, full);
        let mut i: usize = 0;
        while i < structs.len()
            invariant
                self.struct_names() == full,
                full == old(self).struct_names() + struct_name_set(structs@, structs@.len() as int),
                convert_ok == struct_fields_convert(structs@, full),
                self.loop_depth() == old(self).loop_depth(),
                forall|k: Seq<char>| self.fn_sig(k) == old(self).fn_sig(k),
            decreases structs@.len() - i,
        {
            let s = &structs[i];
            assert(full.contains(s.name@)) by {
                assert(structs@[i as int].name@ == s.name@);
            }
            let mut tys: Vec<VType> = Vec::new();
            let mut lts: Vec<BasicTypeEnum<'ctx>> = Vec::new();
            let mut j: usize = 0;
            while j < s.fields.len()
                invariant
                    0 <= i < structs@.len(),
                    *s == structs@[i as int],
                    self.struct_names() == full,
                    full.contains(s.name@),
                    full == old(self).struct_names() + struct_name_set(structs@, structs@.len() as int),
                    convert_ok == struct_fields_convert(structs@, full),
                    self.loop_depth() == old(self).loop_depth(),
                    forall|k: Seq<char>| self.fn_sig(k) == old(self).fn_sig(k),
                decreases s.fields@.len() - j,
            {
                assert(convert_ok ==> conv_spec(type_m(structs@[i as int].fields@[j as int].typ), full) is Ok);
                let t = match self.convert_type(&s.fields[j].typ) {
                    Ok(t) => t,
                    Err(m) => { return Err(m); },
                };
                proof { lemma_conv_llvm_ok(type_m(s.fields@[j as int].typ), full); }
                let lt = match self.llvm_type(&t) {
                    Ok(x) => x,
                    Err(m) => { return Err(m); },
                };
                tys.push(t);
                lts.push(lt);
                j = j + 1;
            }
            let (opaque, names) = match self.struct_defs.get(s.name.as_str()) {
                Some(info) => (info.llvm, clone_names(&info.fields)),
                None => { return Err(cat3("Unknown struct '", s.name.as_str(), "'")); },
            };
            llvm::set_struct_body(opaque, &lts);
            self.struct_defs.insert(s.name.clone(), StructInfo { llvm: opaque, fields: names, field_types: tys });
            assert(self.struct_names() =~= full);
            i = i + 1;
        }
        Ok(())
    }

    /// The global route table used by `http_handle` and `http_listen`.
    fn declare_http_route_table(&mut self) -> (r: Result<(), String>)
        ensures
            r is Err ==> r->Err_0@ == build_failure("a constant"@),
            final(self).struct_names() == old(self).struct_names(),
            final(self).loop_depth() == old(self).loop_depth(),
            forall|k: Seq<char>| old(self).fn_sig(k) is Some ==> final(self).fn_sig(k) is Some,
    {
        let i32t = llvm::i32_ty(self.context);
        let arr64 = llvm::array_of(llvm::ptr_to(llvm::i8_ty(self.context)), 64);
        let g = llvm::add_global(&self.module, i32t, "__vit_route_count");
        let zero = match built(llvm::const_int(i32t, &mut self.trace, 0, false), "a constant") {
            Ok(z) => z,
            Err(m) => { return Err(m); },
        };
        llvm::set_initializer(g, &mut self.trace, zero);
        let gm = llvm::add_global(&self.module, arr64, "__vit_route_methods");
        let z = llvm::zero_of(arr64, &mut self.trace);
        llvm::set_initializer(gm, &mut self.trace, z);
        let gp = llvm::add_global(&self.module, arr64, "__vit_route_paths");
        let z = llvm::zero_of(arr64, &mut self.trace);
        llvm::set_initializer(gp, &mut self.trace, z);
        let gh = llvm::add_global(&self.module, arr64, "__vit_route_handlers");
        let z = llvm::zero_of(arr64, &mut self.trace);
        llvm::set_initializer(gh, &mut self.trace, z);
        Ok(())
    }

    /// The representation of a parameter: arrays are passed as a pointer to their
    /// first element, structs as a pointer, maps as the `i8*` of their storage.
    pub(crate) fn param_vtype(&self, p: &Parameter, for_extern: bool) -> (r: Result<VType, String>)
        ensures
            match param_spec(type_m(p.typ), self.struct_names(), for_extern) {
                Ok(m) => r is Ok && vt_m(r->Ok_0) == m,
                Err(e) => r is Err && r->Err_0@ == e,
            },
    {
        match &p.typ {
            Type::Array { element, .. } => {
                let el = match self.convert_type(element) {
                    Ok(t) => t,
                    Err(m) => { return Err(m); },
                };
                if el.is_int() || el.is_float() || el.is_ptr() {
                    let ghost m = vt_m(el);
                    let t = VType::Ptr(Box::new(el));
                    assert(vt_m(t) == VTypeM::Ptr(Box::new(m)));
                    Ok(t)
                } else if for_extern {
                    Ok(str_vtype())
                } else {
                    Err(text("Unsupported array element type in parameter"))
                }
            },
            Type::Struct(sname) => {
                if for_extern {
                    self.convert_type(&p.typ)
                } else if self.struct_defs.contains(sname.as_str()) {
                    let inner = VType::Struct(sname.clone());
                    assert(vt_m(inner) == VTypeM::Struct(sname@));
                    let t = VType::Ptr(Box::new(inner));
                    assert(vt_m(t) == VTypeM::Ptr(Box::new(VTypeM::Struct(sname@))));
                    Ok(t)
                } else {
                    Err(cat3("Unknown struct '", sname.as_str(), "'"))
                }
            },
            Type::HashMap { .. } => {
                if for_extern { self.convert_type(&p.typ) } else { Ok(str_vtype()) }
            },
            _ => self.convert_type(&p.typ),
        }
    }

    /// Declares the `extern fn`s that are not declared already.
    fn declare_extern_functions(&mut self, externs: &Vec<ExternFunction>) -> (r: Result<(), String>)
        ensures
            (forall|i: int| 0 <= i < externs@.len() ==> extern_types_ok(#[trigger] externs@[i], old(self).struct_names()))
                ==> r is Ok,
            final(self).struct_names() == old(self).struct_names(),
            final(self).loop_depth() == old(self).loop_depth(),
            forall|k: Seq<char>| old(self).fn_sig(k) is Some ==> final(self).fn_sig(k) is Some,
    {
        let ghost known = self.struct_names();
        let ghost all_ok = forall|i: int| 0 <= i < externs@.len() ==> extern_types_ok(#[trigger] externs@[i], known);
        let mut i: usize = 0;
        while i < externs.len()
            invariant
                known == old(self).struct_names(),
                self.struct_names() == known,
                self.loop_depth() == old(self).loop_depth(),
                forall|k: Seq<char>| old(self).fn_sig(k) is Some ==> self.fn_sig(k) is Some,
                all_ok == forall|i: int| 0 <= i < externs@.len() ==> extern_types_ok(#[trigger] externs@[i], known),
            decreases externs@.len() - i,
        {
            let ext = &externs[i];
            assert(all_ok ==> extern_types_ok(*ext, known));
            if llvm::get_function(&self.module, &mut self.trace, ext.name.as_str()).is_none() {
                let mut params: Vec<VType> = Vec::new();
                let mut j: usize = 0;
                while j < ext.parameters.len()
                    invariant
                        j <= ext.parameters@.len(),
                        params@.len() == j,
                        self.struct_names() == known,
                        known == old(self).struct_names(),
                        self.loop_depth() == old(self).loop_depth(),
                        forall|k: Seq<char>| old(self).fn_sig(k) is Some ==> self.fn_sig(k) is Some,
                        all_ok == forall|i: int| 0 <= i < externs@.len() ==> extern_types_ok(#[trigger] externs@[i], known),
                        all_ok ==> extern_types_ok(*ext, known),
                        forall|m: int| 0 <= m < j ==> llvm_type_error(vt_m(#[trigger] params@[m]), known) is None,
                    decreases ext.parameters@.len() - j,
                {
                    let t = match self.param_vtype(&ext.parameters[j], true) {
                        Ok(t) => t,
                        Err(m) => { return Err(m); },
                    };
                    proof { lemma_param_llvm_ok(type_m(ext.parameters@[j as int].typ), known, true); }
                    params.push(t);
                    j = j + 1;
                }
                proof {
                    let ms = params@.map_values(|t: VType| vt_m(t));
                    assert forall|m: int| 0 <= m < ms.len() implies llvm_type_error(#[trigger] ms[m], known) is None by {
                        assert(ms[m] == vt_m(params@[m]));
                    }
                    lemma_first_type_error(ms, ms.len() as int, known);
                }
                let ret = if matches!(ext.return_type, Type::Void) {
                    None
                } else {
                    let rt = match self.convert_type(&ext.return_type) {
                        Ok(t) => t,
                        Err(m) => { return Err(m); },
                    };
                    if matches!(rt, VType::Array(..)) {
                        return Err(text("Functions cannot return this type"));
                    }
                    proof { lemma_conv_llvm_ok(type_m(ext.return_type), known); }
                    Some(rt)
                };
                match self.declare(ext.name.as_str(), ret, params, false) {
                    Ok(_) => {},
                    Err(m) => { return Err(m); },
                }
            }
            i = i + 1;
        }
        Ok(())
    }

    /// Moves the builder to the end of `bb`, and notes it.
    pub(crate) fn position(&mut self, bb: BasicBlock<'ctx>)
        ensures
            final(self).same_but_emitted(old(self)),
            final(self).emitted() == old(self).emitted().push(llvm::Emitted::Position(bb)),
    {
        llvm::position_at_end(&self.builder, bb);
        self.trace.note(Ghost(llvm::Emitted::Position(bb)));
    }

    /// The value at `p`, noted with its address.
    pub(crate) fn load_noted(&mut self, p: BasicValueEnum<'ctx>, name: &str) -> (r: Result<BasicValueEnum<'ctx>, String>)
        ensures
            final(self).same_but_emitted(old(self)),
            r is Ok ==> final(self).emitted() == old(self).emitted().push(llvm::Emitted::Load(p, r->Ok_0)),
            r is Err ==> final(self).emitted() == old(self).emitted() && r->Err_0@ == build_failure("a load"@),
    {
        match llvm::load(&self.builder, p, name) {
            Some(v) => {
                self.trace.note(Ghost(llvm::Emitted::Load(p, v)));
                Ok(v)
            },
            None => Err(builder_failed("a load")),
        }
    }

    /// `c ? a : b`, noted with its condition, its two values and its value.
    pub(crate) fn select_noted(&mut self, c: BasicValueEnum<'ctx>, a: BasicValueEnum<'ctx>, b: BasicValueEnum<'ctx>, name: &str)
        -> (r: Result<BasicValueEnum<'ctx>, String>)
        ensures
            final(self).same_but_emitted(old(self)),
            r is Ok ==> final(self).emitted() == old(self).emitted().push(llvm::Emitted::Select(c, a, b, r->Ok_0)),
            r is Err ==> final(self).emitted() == old(self).emitted() && r->Err_0@ == build_failure("a selection"@),
    {
        match llvm::select(&self.builder, c, a, b, name) {
            Some(v) => {
                self.trace.note(Ghost(llvm::Emitted::Select(c, a, b, v)));
                Ok(v)
            },
            None => Err(builder_failed("a selection")),
        }
    }

    /// `v` sign-extended to the integer type `t`, noted with `v`.
    pub(crate) fn widen_noted(&mut self, v: BasicValueEnum<'ctx>, t: BasicTypeEnum<'ctx>, name: &str)
        -> (r: Result<BasicValueEnum<'ctx>, String>)
        ensures
            final(self).same_but_emitted(old(self)),
            r is Ok ==> final(self).emitted() == old(self).emitted().push(llvm::Emitted::Widen(v, r->Ok_0)),
            r is Err ==> final(self).emitted() == old(self).emitted() && r->Err_0@ == build_failure("a sign extension"@),
    {
        match llvm::sext(&self.builder, v, t, name) {
            Some(x) => {
                self.trace.note(Ghost(llvm::Emitted::Widen(v, x)));
                Ok(x)
            },
            None => Err(builder_failed("a sign extension")),
        }
    }

    /// Returns `v` from the function being built, noted.
    pub(crate) fn give_noted(&mut self, v: Option<BasicValueEnum<'ctx>>) -> (r: Result<(), String>)
        ensures
            final(self).same_but_emitted(old(self)),
            r is Ok ==> final(self).emitted() == old(self).emitted().push(llvm::Emitted::Return(v)),
            r is Err ==> final(self).emitted() == old(self).emitted() && r->Err_0@ == build_failure("a return"@),
    {
        if llvm::ret(&self.builder, v) {
            self.trace.note(Ghost(llvm::Emitted::Return(v)));
            Ok(())
        } else {
            Err(builder_failed("a return"))
        }
    }

    /// Stores `v` at `p`, noted.
    pub(crate) fn store_noted(&mut self, p: BasicValueEnum<'ctx>, v: BasicValueEnum<'ctx>) -> (r: Result<(), String>)
        ensures
            final(self).same_but_emitted(old(self)),
            r is Ok ==> final(self).emitted() == old(self).emitted().push(llvm::Emitted::Store(p, v)),
            r is Err ==> final(self).emitted() == old(self).emitted() && r->Err_0@ == build_failure("a store"@),
    {
        if llvm::store(&self.builder, p, v) {
            self.trace.note(Ghost(llvm::Emitted::Store(p, v)));
            Ok(())
        } else {
            Err(builder_failed("a store"))
        }
    }

    /// A constant of the given integer type.
    fn const_of(&mut self, t: &VType, v: u64, sign_extend: bool) -> (r: Result<BasicValueEnum<'ctx>, String>)
        ensures
            final(self).same_but_emitted(old(self)),
            r is Ok ==> final(self).emitted() == old(self).emitted().push(llvm::Emitted::IntConstant(v, sign_extend, r->Ok_0)),
            r is Err ==> final(self).emitted() == old(self).emitted(),
            match llvm_type_error(vt_m(*t), old(self).struct_names()) {
                Some(e) => r is Err && r->Err_0@ == e,
                None => r is Err ==> r->Err_0@ == build_failure("an integer constant"@),
            },
    {
        let lt = match self.llvm_type(t) {
            Ok(x) => x,
            Err(m) => { return Err(m); },
        };
        built(llvm::const_int(lt, &mut self.trace, v, sign_extend), "an integer constant")
    }

    /// The `f64` constant with the given bits.
    fn double_const(&mut self, bits: u64) -> (r: Result<BasicValueEnum<'ctx>, String>)
        ensures
            final(self).same_but_emitted(old(self)),
            grows(old(self).emitted(), final(self).emitted()),
            r is Err ==> r->Err_0@ == build_failure("an integer constant"@)
                || r->Err_0@ == build_failure("a float constant"@),
    {
        let i = match built(llvm::const_int(llvm::i64_ty(self.context), &mut self.trace, bits, false), "an integer constant") {
            Ok(x) => x,
            Err(m) => { return Err(m); },
        };
        built(llvm::bit_cast(&self.builder, i, llvm::double_ty(self.context), "f"), "a float constant")
    }

    /// The constant a global may be initialised with: an integer or float literal
    /// of its own kind.
    fn global_literal(&mut self, g: &GlobalVar, t: &VType, e: &Expression) -> (r: Result<BasicValueEnum<'ctx>, String>)
        ensures
            *e matches Expression::IntLiteral(n) ==> (vt_m(*t) is Int ==> (r is Ok ==>
                final(self).emitted() == old(self).emitted().push(llvm::Emitted::IntConstant(n as u64, true, r->Ok_0)))),
            final(self).same_but_emitted(old(self)),
            grows(old(self).emitted(), final(self).emitted()),
            match *e {
                Expression::IntLiteral(_) => !(vt_m(*t) is Int) ==> (r is Err
                    && r->Err_0@ == "Global '"@ + g.name@ + "': integer literal for non-integer type"@),
                Expression::FloatLiteral(_) => !(vt_m(*t) is Single || vt_m(*t) is Double) ==> (r is Err
                    && r->Err_0@ == "Global '"@ + g.name@ + "': float literal for non-float type"@),
                _ => r is Err && r->Err_0@ == "Global '"@ + g.name@ + "': only literal initializers supported for globals"@,
            },
    {
        match e {
            Expression::IntLiteral(n) => {
                if t.is_int() {
                    self.const_of(t, *n as u64, true)
                } else {
                    Err(cat3("Global '", g.name.as_str(), "': integer literal for non-integer type"))
                }
            },
            Expression::FloatLiteral(bits) => {
                if t.is_float() {
                    let d = match self.double_const(*bits) {
                        Ok(d) => d,
                        Err(m) => { return Err(m); },
                    };
                    if matches!(t, VType::Single) {
                        built(llvm::fptrunc(&self.builder, d, llvm::single_ty(self.context), "f"), "a float constant")
                    } else {
                        Ok(d)
                    }
                } else {
                    Err(cat3("Global '", g.name.as_str(), "': float literal for non-float type"))
                }
            },
            _ => Err(cat3("Global '", g.name.as_str(), "': only literal initializers supported for globals")),
        }
    }

    /// Global variables, with zero or literal initial values.
    fn generate_globals(&mut self, globals: &Vec<GlobalVar>) -> (r: Result<(), String>)
        ensures
            (exists|k: int| 0 <= k < globals@.len() && !literal_init(#[trigger] globals@[k].initializer)) ==> r is Err,
            plain_globals(globals@, old(self).struct_names()) ==> r is Ok,
            forall|k: int| bad_init_at(globals@, k, old(self).struct_names()) ==> (r is Err
                && Some(r->Err_0@) == init_error(globals@[k], conv_spec(type_m(globals@[k].typ), old(self).struct_names())->Ok_0)),
            r is Ok ==> forall|k: int| 0 <= k < globals@.len()
                ==> final(self).global_type(#[trigger] globals@[k].name@) is Some,
            r is Ok ==> forall|k: int| 0 <= k < globals@.len() && (globals@[k].initializer is None
                || globals@[k].initializer matches Some(Expression::IntLiteral(_)))
                ==> exists|j: int| old(self).emitted().len() <= j
                    && #[trigger] initialized_at(final(self).emitted(), j, globals@[k].initializer),
            grows(old(self).emitted(), final(self).emitted()),
            final(self).struct_names() == old(self).struct_names(),
    {
        let mut i: usize = 0;
        while i < globals.len()
            invariant
                i <= globals@.len(),
                self.struct_names() == old(self).struct_names(),
                forall|k: int| 0 <= k < i ==> literal_init(#[trigger] globals@[k].initializer),
                forall|k: int| 0 <= k < i ==> self.global_type(#[trigger] globals@[k].name@) is Some,
                forall|k: int| 0 <= k < i ==> !bad_init_at(globals@, k, old(self).struct_names()),
                grows(old(self).emitted(), self.emitted()),
                forall|k: int| 0 <= k < i && (globals@[k].initializer is None
                    || globals@[k].initializer matches Some(Expression::IntLiteral(_)))
                    ==> exists|j: int| old(self).emitted().len() <= j
                        && #[trigger] initialized_at(self.emitted(), j, globals@[k].initializer),
            decreases globals@.len() - i,
        {
            let g = &globals[i];
            let ghost t0 = self.emitted();
            let ghost mut last_init: int = 0;
            assert(plain_globals(globals@, old(self).struct_names()) ==> g.initializer is None
                && conv_spec(type_m(g.typ), self.struct_names()) is Ok);
            let vt = match self.convert_type(&g.typ) {
                Ok(t) => t,
                Err(m) => { return Err(m); },
            };
            proof { lemma_conv_llvm_ok(type_m(g.typ), self.struct_names()); }
            let lt = match self.llvm_type(&vt) {
                Ok(t) => t,
                Err(m) => { return Err(m); },
            };
            let global = llvm::add_global(&self.module, lt, g.name.as_str());
            match &g.initializer {
                None => {
                    let z = llvm::zero_of(lt, &mut self.trace);
                    llvm::set_initializer(global, &mut self.trace, z);
                    proof { last_init = self.emitted().len() - 2; }
                    assert(initialized_at(self.emitted(), last_init, g.initializer));
                },
                Some(Expression::ArrayLiteral(elems)) => {
                    let el = match &vt {
                        VType::Array(el, _) => el.duplicate(),
                        _ => { return Err(cat3("Global '", g.name.as_str(), "': array literal for non-array type")); },
                    };
                    let elt = match self.llvm_type(&el) {
                        Ok(t) => t,
                        Err(m) => { return Err(m); },
                    };
                    assert forall|k: int| !bad_init_at(globals@, k, old(self).struct_names()) by {
                        if bad_init_at(globals@, k, old(self).struct_names()) && k > i {
                            assert(globals@[i as int].initializer is None);
                        }
                    }
                    let ghost before_elems = *self;
                    let mut vals: Vec<BasicValueEnum<'ctx>> = Vec::new();
                    let mut j: usize = 0;
                    while j < elems.len()
                        invariant
                            j <= elems@.len(),
                            forall|m: int| 0 <= m < j ==> (#[trigger] elems@[m] is IntLiteral || elems@[m] is FloatLiteral),
                            self.same_but_emitted(&before_elems),
                            grows(before_elems.emitted(), self.emitted()),
                            grows(old(self).emitted(), self.emitted()),
                            self.struct_names() == old(self).struct_names(),
                            !plain_globals(globals@, old(self).struct_names()),
                            forall|k: int| !bad_init_at(globals@, k, old(self).struct_names()),
                        decreases elems@.len() - j,
                    {
                        let c = match &elems[j] {
                            Expression::IntLiteral(n) => {
                                if el.is_int() {
                                    match self.const_of(&el, *n as u64, true) {
                                        Ok(c) => c,
                                        Err(m) => { return Err(m); },
                                    }
                                } else {
                                    return Err(text("Type mismatch in global array literal"));
                                }
                            },
                            Expression::FloatLiteral(bits) => {
                                if el.is_float() {
                                    match self.double_const(*bits) {
                                        Ok(c) => c,
                                        Err(m) => { return Err(m); },
                                    }
                                } else {
                                    return Err(text("Type mismatch in global array literal"));
                                }
                            },
                            _ => { return Err(text("Global array initializers must be literals")); },
                        };
                        vals.push(c);
                        j = j + 1;
                    }
                    let init = if el.is_int() {
                        llvm::const_int_array(elt, &vals)
                    } else if el.is_float() {
                        llvm::const_float_array(elt, &vals)
                    } else {
                        return Err(text("Unsupported global array element type"));
                    };
                    match built(init, "a constant array") {
                        Ok(c) => llvm::set_initializer(global, &mut self.trace, c),
                        Err(m) => { return Err(m); },
                    }
                },
                Some(e) => {
                    let c = match self.global_literal(g, &vt, e) {
                        Ok(c) => c,
                        Err(m) => { return Err(m); },
                    };
                    llvm::set_initializer(global, &mut self.trace, c);
                    proof { last_init = self.emitted().len() - 2; }
                    assert(g.initializer matches Some(Expression::IntLiteral(_)) ==>
                        initialized_at(self.emitted(), last_init, g.initializer));
                },
            }
            assert(!bad_init_at(globals@, i as int, old(self).struct_names()));
            let ptr = llvm::global_ptr(global);
            self.global_variables.insert(g.name.clone(), Var { ptr, ty: vt });
            match &g.typ {
                Type::HashMap { key, value, .. } => {
                    self.global_map_variables.insert(g.name.clone(), MapTypes { key: key.duplicate(), value: value.duplicate() });
                },
                _ => {},
            }
            assert(grows(t0, self.emitted()));
            assert forall|k: int| 0 <= k < i + 1 && (globals@[k].initializer is None
                || globals@[k].initializer matches Some(Expression::IntLiteral(_)))
                implies exists|j: int| old(self).emitted().len() <= j
                    && #[trigger] initialized_at(self.emitted(), j, globals@[k].initializer) by {
                if k < i {
                    let j0 = choose|j: int| old(self).emitted().len() <= j
                        && #[trigger] initialized_at(t0, j, globals@[k].initializer);
                    assert(self.emitted()[j0] == t0[j0] && self.emitted()[j0 + 1] == t0[j0 + 1]);
                    assert(initialized_at(self.emitted(), j0, globals@[k].initializer));
                } else {
                    assert(initialized_at(self.emitted(), last_init, globals@[k].initializer));
                }
            }
            i = i + 1;
        }
        Ok(())
    }

    /// `__vit_global_init()`: allocates the storage of every global map; `main`
    /// calls it first.
    fn build_global_map_init(&mut self) -> (r: Result<(), String>)
        ensures
            final(self).struct_names() == old(self).struct_names(),
            final(self).loop_depth() == old(self).loop_depth(),
            forall|k: Seq<char>| old(self).fn_sig(k) is Some ==> final(self).fn_sig(k) is Some,
            r is Ok ==> final(self).fn_sig("__vit_global_init"@) == Some((Seq::<VTypeM>::empty(), None::<VTypeM>)),
    {
        let calloc_fn = match built(llvm::get_function(&self.module, &mut self.trace, "calloc"), "a call of calloc") {
            Ok(f) => f,
            Err(m) => { return Err(m); },
        };
        let params: Vec<VType> = Vec::new();
        assert(params@.map_values(|t: VType| vt_m(t)) =~= Seq::<VTypeM>::empty());
        let f = match self.declare("__vit_global_init", None, params, false) {
            Ok(f) => f,
            Err(m) => { return Err(m); },
        };
        let entry = llvm::append_block(self.context, f, "entry");
        llvm::position_at_end(&self.builder, entry);
        let ghost after = *self;
        proof { Codegen::lemma_same_but_emitted(self, &after); }
        let mut i: usize = 0;
        while i < self.global_map_variables.len()
            invariant
                self.same_but_emitted(&after),
                after.struct_names() == old(self).struct_names(),
                after.loop_depth() == old(self).loop_depth(),
                forall|k: Seq<char>| old(self).fn_sig(k) is Some ==> after.fn_sig(k) is Some,
                after.fn_sig("__vit_global_init"@) == Some((Seq::<VTypeM>::empty(), None::<VTypeM>)),
            decreases self.global_map_variables.entries().len() - i,
        {
            proof { broadcast use Codegen::lemma_same_but_emitted; }
            let (name, size) = {
                let e = self.global_map_variables.entry(i);
                (e.0.clone(), global_map_alloc_size(&e.1.key, &e.1.value))
            };
            let one = match self.const_of(&VType::Int(64), 1, false) {
                Ok(c) => c,
                Err(m) => { return Err(m); },
            };
            let sz = match self.const_of(&VType::Int(64), size, false) {
                Ok(c) => c,
                Err(m) => { return Err(m); },
            };
            let mem = llvm::call(&self.builder, &mut self.trace, calloc_fn, &vec![one, sz], "map_mem");
            assert(self.same_but_emitted(&after));
            proof { Codegen::lemma_same_but_emitted(self, &after); }
            let mem = match mem {
                Some(Some(v)) => v,
                _ => { return Err(builder_failed("a call of calloc")); },
            };
            let gptr = match self.global_variables.get(name.as_str()) {
                Some(v) => v.ptr,
                None => { return Err(undefined_variable(name.as_str())); },
            };
            if !llvm::store(&self.builder, gptr, mem) {
                return Err(builder_failed("a store"));
            }
            i = i + 1;
        }
        proof { Codegen::lemma_same_but_emitted(self, &after); }
        if !llvm::ret(&self.builder, None) {
            return Err(builder_failed("a return"));
        }
        Ok(())
    }
}

/// A copy of a list of names.
pub fn clone_names(v: &Vec<String>) -> (r: Vec<String>)
    ensures
        r@.len() == v@.len(),
        forall|i: int| 0 <= i < v@.len() ==> r@[i]@ == v@[i]@,
{
    let mut r: Vec<String> = Vec::new();
    let mut i: usize = 0;
    while i < v.len()
        invariant
            i <= v@.len(),
            r@.len() == i,
            forall|k: int| 0 <= k < i ==> r@[k]@ == v@[k]@,
        decreases v@.len() - i,
    {
        r.push(v[i].clone());
        i = i + 1;
    }
    r
}

} // verus!

verus! {

impl<'ctx> Codegen<'ctx> {
    /// Lowers a whole program: the runtime's declarations and helpers, the
    /// program's structs, external functions and globals, then its functions.
    pub fn generate(&mut self, program: &Program) -> (r: Result<(), String>)
        ensures
            (exists|k: int| 0 <= k < program.globals@.len() && !literal_init(#[trigger] program.globals@[k].initializer))
                ==> r is Err,
    {
        self.register_strbuf_type()?;
        self.generate_struct_defs(&program.structs)?;
        self.declare_printf()?;
        self.declare_scanf()?;
        self.declare_string_builtins()?;
        self.declare_math_builtins()?;
        self.build_sort_comparators()?;
        self.build_strbuf_helpers()?;
        self.build_vit_add()?;
        self.build_vit_remove()?;
        self.build_vit_replace()?;
        self.build_vit_split()?;
        self.build_map_helpers()?;
        self.declare_net_builtins()?;
        self.build_tcp_helpers()?;
        self.declare_http_route_table()?;
        self.declare_extern_functions(&program.externs)?;
        self.generate_globals(&program.globals)?;
        self.build_global_map_init()?;
        let mut i: usize = 0;
        while i < program.functions.len()
            decreases program.functions@.len() - i,
        {
            self.generate_function(&program.functions[i])?;
            i = i + 1;
        }
        Ok(())
    }
}

/// Why a program could not be built into a module.
pub enum GenerateError {
    /// Code generation refused the program, with its message.
    Refused(String),
    /// LLVM's check rejected the module built, with LLVM's report.
    Invalid(String),
}

/// Builds the module of `program`, named `module_name`, checks it with LLVM and
/// gives its textual IR. A refusal of code generation comes back as `Refused`
/// with its message, unchanged; a module that LLVM rejects, as `Invalid`. A
/// global initialised with anything but literals is refused.
pub fn generate(program: &Program, module_name: &str) -> (r: Result<String, GenerateError>)
    ensures
        (exists|k: int| 0 <= k < program.globals@.len() && !literal_init(#[trigger] program.globals@[k].initializer))
            ==> r is Err,
{
    let context = llvm::create_context();
    let mut codegen = Codegen::new(&context, module_name);
    match codegen.generate(program) {
        Ok(()) => {},
        Err(m) => { return Err(GenerateError::Refused(m)); },
    }
    match codegen.verify() {
        Ok(()) => Ok(codegen.ir_text()),
        Err(report) => Err(GenerateError::Invalid(report)),
    }
}

} // verus!

//! The LLVM types that code generation gives to values, as plain data, and the
//! decisions that depend only on them: how a Vit type is represented, how the
//! operands of an operator are widened, which conversion a cast needs, and which
//! `printf`/`scanf` format a value takes.
use vstd::prelude::*;
use crate::ast::{BinaryOp, Type, TypeM, type_m};
use crate::text::{text, append, append_nat, nat_text};

verus! {

/// An LLVM type: integers by width, the two float types, typed pointers,
/// arrays and named structs.
#[derive(Debug)]
pub enum VType {
    Int(u32),
    Single,
    Double,
    Ptr(Box<VType>),
    Array(Box<VType>, u32),
    Struct(String),
}

/// The model of a [`VType`]: struct names as character sequences.
pub enum VTypeM {
    Int(u32),
    Single,
    Double,
    Ptr(Box<VTypeM>),
    Array(Box<VTypeM>, u32),
    Struct(Seq<char>),
}

pub open spec fn vt_m(t: VType) -> VTypeM
    decreases t,
{
    match t {
        VType::Int(w) => VTypeM::Int(w),
        VType::Single => VTypeM::Single,
        VType::Double => VTypeM::Double,
        VType::Ptr(e) => VTypeM::Ptr(Box::new(vt_m(*e))),
        VType::Array(e, n) => VTypeM::Array(Box::new(vt_m(*e)), n),
        VType::Struct(s) => VTypeM::Struct(s@),
    }
}

/// The type of `str` values: `i8*`.
pub open spec fn str_m() -> VTypeM {
    VTypeM::Ptr(Box::new(VTypeM::Int(8)))
}

impl VType {
    /// A copy of the type.
    pub fn duplicate(&self) -> (r: VType)
        ensures
            vt_m(r) == vt_m(*self),
        decreases self,
    {
        match self {
            VType::Int(w) => VType::Int(*w),
            VType::Single => VType::Single,
            VType::Double => VType::Double,
            VType::Ptr(e) => VType::Ptr(Box::new(e.duplicate())),
            VType::Array(e, n) => VType::Array(Box::new(e.duplicate()), *n),
            VType::Struct(s) => VType::Struct(s.clone()),
        }
    }

    pub fn is_int(&self) -> (r: bool)
        ensures
            r == (vt_m(*self) is Int),
    {
        matches!(self, VType::Int(_))
    }

    pub fn is_float(&self) -> (r: bool)
        ensures
            r == (vt_m(*self) is Single || vt_m(*self) is Double),
    {
        matches!(self, VType::Single | VType::Double)
    }

    pub fn is_ptr(&self) -> (r: bool)
        ensures
            r == (vt_m(*self) is Ptr),
    {
        matches!(self, VType::Ptr(_))
    }

    /// The width of an integer type.
    pub fn bits(&self) -> (r: Option<u32>)
        ensures
            match vt_m(*self) {
                VTypeM::Int(w) => r == Some(w),
                _ => r is None,
            },
    {
        match self {
            VType::Int(w) => Some(*w),
            _ => None,
        }
    }
}

/// The type of `str` values.
pub fn str_vtype() -> (r: VType)
    ensures
        vt_m(r) == str_m(),
{
    let byte = VType::Int(8);
    assert(vt_m(byte) == VTypeM::Int(8));
    VType::Ptr(Box::new(byte))
}

/// How a Vit type is represented; struct types must be among `known`.
pub open spec fn conv_spec(t: TypeM, known: Set<Seq<char>>) -> Result<VTypeM, Seq<char>>
    decreases t,
{
    match t {
        TypeM::I32 => Ok(VTypeM::Int(32)),
        TypeM::I64 => Ok(VTypeM::Int(64)),
        TypeM::F32 => Ok(VTypeM::Single),
        TypeM::F64 => Ok(VTypeM::Double),
        TypeM::Bool => Ok(VTypeM::Int(1)),
        TypeM::Str => Ok(str_m()),
        TypeM::HashMap { .. } => Ok(str_m()),
        TypeM::Void => Err("void cannot be used as a variable type"@),
        TypeM::Struct(name) => if known.contains(name) {
            Ok(VTypeM::Struct(name))
        } else {
            Err("Unknown struct type '"@ + name + "'"@)
        },
        TypeM::Array { element, size } => match conv_spec(*element, known) {
            Err(e) => Err(e),
            Ok(el) => if el is Int || el is Single || el is Double || el is Ptr {
                Ok(VTypeM::Array(Box::new(el), size as u32))
            } else {
                Err("Arrays of this element type not supported"@)
            },
        },
    }
}

/// Whether `n` fits in an `i32`: such integer literals are `i32`, others `i64`.
pub open spec fn fits_i32(n: i64) -> bool {
    i32::MIN <= n <= i32::MAX
}

pub fn literal_width(n: i64) -> (r: u32)
    ensures
        r == (if fits_i32(n) { 32u32 } else { 64u32 }),
{
    if n >= -2147483648i64 && n <= 2147483647i64 { 32 } else { 64 }
}

/// Whether an operator compares its operands (giving an `i1`).
pub open spec fn is_comparison(op: BinaryOp) -> bool {
    op is Equal || op is NotEqual || op is Less || op is Greater || op is LessEqual || op is GreaterEqual
}

/// The type of `l op r`: integers are widened to the wider operand, comparisons
/// give `i1`; floats take the left operand's type.
pub open spec fn binary_spec(l: VTypeM, op: BinaryOp, r: VTypeM) -> Result<VTypeM, Seq<char>> {
    match (l, r) {
        (VTypeM::Int(a), VTypeM::Int(b)) => if is_comparison(op) {
            Ok(VTypeM::Int(1))
        } else {
            Ok(VTypeM::Int(if a < b { b } else { a }))
        },
        (VTypeM::Single, VTypeM::Single) | (VTypeM::Single, VTypeM::Double)
        | (VTypeM::Double, VTypeM::Single) | (VTypeM::Double, VTypeM::Double) => {
            if op is Mod {
                Err("Modulo não suportado para float"@)
            } else if op is And || op is Or || op is BitAnd || op is BitOr || op is BitXor || op is Shl || op is Shr {
                Err("Operador não suportado para float"@)
            } else if is_comparison(op) {
                Ok(VTypeM::Int(1))
            } else {
                Ok(l)
            }
        },
        _ => Err("Type mismatch in binary expression"@),
    }
}

/// The conversion a cast needs.
pub enum CastOp {
    Keep,
    SignExtend,
    Truncate,
    IntToFloat,
    FloatToInt,
    FloatExtend,
    FloatTruncate,
}

pub open spec fn cast_spec(from: VTypeM, to: VTypeM) -> Option<CastOp> {
    match (from, to) {
        (VTypeM::Int(a), VTypeM::Int(b)) => Some(if b > a { CastOp::SignExtend } else if b < a { CastOp::Truncate } else { CastOp::Keep }),
        (VTypeM::Int(_), VTypeM::Single) | (VTypeM::Int(_), VTypeM::Double) => Some(CastOp::IntToFloat),
        (VTypeM::Single, VTypeM::Int(_)) | (VTypeM::Double, VTypeM::Int(_)) => Some(CastOp::FloatToInt),
        (VTypeM::Single, VTypeM::Double) => Some(CastOp::FloatExtend),
        (VTypeM::Double, VTypeM::Single) => Some(CastOp::FloatTruncate),
        (VTypeM::Single, VTypeM::Single) | (VTypeM::Double, VTypeM::Double) => Some(CastOp::Keep),
        _ => None,
    }
}

pub fn cast_op(from: &VType, to: &VType) -> (r: Option<CastOp>)
    ensures
        r == cast_spec(vt_m(*from), vt_m(*to)),
{
    match (from, to) {
        (VType::Int(a), VType::Int(b)) => Some(if *b > *a { CastOp::SignExtend } else if *b < *a { CastOp::Truncate } else { CastOp::Keep }),
        (VType::Int(_), VType::Single) | (VType::Int(_), VType::Double) => Some(CastOp::IntToFloat),
        (VType::Single, VType::Int(_)) | (VType::Double, VType::Int(_)) => Some(CastOp::FloatToInt),
        (VType::Single, VType::Double) => Some(CastOp::FloatExtend),
        (VType::Double, VType::Single) => Some(CastOp::FloatTruncate),
        (VType::Single, VType::Single) | (VType::Double, VType::Double) => Some(CastOp::Keep),
        _ => None,
    }
}

/// How `print` shows a value: its `printf` conversion and whether the value is
/// first widened (small integers to `i32`, `f32` to `f64`).
pub enum PrintPlan {
    Text,
    Long,
    Int { widen: bool },
    Real { widen: bool },
}

pub open spec fn print_spec(t: VTypeM) -> Option<PrintPlan> {
    match t {
        VTypeM::Ptr(_) => Some(PrintPlan::Text),
        VTypeM::Int(w) => if w == 64 { Some(PrintPlan::Long) } else { Some(PrintPlan::Int { widen: w < 32 }) },
        VTypeM::Single => Some(PrintPlan::Real { widen: true }),
        VTypeM::Double => Some(PrintPlan::Real { widen: false }),
        _ => None,
    }
}

pub fn print_plan(t: &VType) -> (r: Option<PrintPlan>)
    ensures
        r == print_spec(vt_m(*t)),
{
    match t {
        VType::Ptr(_) => Some(PrintPlan::Text),
        VType::Int(w) => if *w == 64 { Some(PrintPlan::Long) } else { Some(PrintPlan::Int { widen: *w < 32 }) },
        VType::Single => Some(PrintPlan::Real { widen: true }),
        VType::Double => Some(PrintPlan::Real { widen: false }),
        _ => None,
    }
}

/// The `printf` format of a print plan; the last value of a `print` ends the line.
pub open spec fn print_format_spec(p: PrintPlan, newline: bool) -> Seq<char> {
    let base = match p {
        PrintPlan::Text => "%s"@,
        PrintPlan::Long => "%ld"@,
        PrintPlan::Int { .. } => "%d"@,
        PrintPlan::Real { .. } => "%f"@,
    };
    if newline { base + "\n"@ } else { base }
}

pub fn print_format(p: &PrintPlan, newline: bool) -> (r: &'static str)
    ensures
        r@ == print_format_spec(*p, newline),
{
    proof {
        reveal_strlit("%s");
        reveal_strlit("%s\n");
        reveal_strlit("%ld");
        reveal_strlit("%ld\n");
        reveal_strlit("%d");
        reveal_strlit("%d\n");
        reveal_strlit("%f");
        reveal_strlit("%f\n");
        reveal_strlit("\n");
    }
    match p {
        PrintPlan::Text => if newline { "%s\n" } else { "%s" },
        PrintPlan::Long => if newline { "%ld\n" } else { "%ld" },
        PrintPlan::Int { .. } => if newline { "%d\n" } else { "%d" },
        PrintPlan::Real { .. } => if newline { "%f\n" } else { "%f" },
    }
}

/// The `scanf` format for `input name: type;` (other than `str`).
pub open spec fn scan_format_spec(t: TypeM) -> Seq<char> {
    match t {
        TypeM::I64 => "%ld"@,
        TypeM::F32 => "%f"@,
        TypeM::F64 => "%lf"@,
        _ => "%d"@,
    }
}

pub fn scan_format(t: &Type) -> (r: &'static str)
    ensures
        r@ == scan_format_spec(type_m(*t)),
{
    match t {
        Type::I64 => "%ld",
        Type::F32 => "%f",
        Type::F64 => "%lf",
        _ => "%d",
    }
}

/// The `scanf` format for reading into an array element of type `t`.
pub open spec fn element_scan_format_spec(t: VTypeM) -> Seq<char> {
    match t {
        VTypeM::Int(w) => if w == 64 { "%ld"@ } else { "%d"@ },
        VTypeM::Double => "%lf"@,
        VTypeM::Single => "%f"@,
        _ => "%d"@,
    }
}

pub fn element_scan_format(t: &VType) -> (r: &'static str)
    ensures
        r@ == element_scan_format_spec(vt_m(*t)),
{
    match t {
        VType::Int(w) => if *w == 64 { "%ld" } else { "%d" },
        VType::Double => "%lf",
        VType::Single => "%f",
        _ => "%d",
    }
}

/// The element size in bytes and the comparison helper `sort` uses for an array
/// of elements of type `t`.
pub open spec fn sort_spec(t: VTypeM) -> (u64, Seq<char>) {
    match t {
        VTypeM::Int(w) => if w == 64 { (8, "__vit_cmp_i64"@) } else { (4, "__vit_cmp_i32"@) },
        VTypeM::Single | VTypeM::Double => (8, "__vit_cmp_f64"@),
        _ => (4, "__vit_cmp_i32"@),
    }
}

pub fn sort_comparator(t: &VType) -> (r: (u64, &'static str))
    ensures
        r.0 == sort_spec(vt_m(*t)).0,
        r.1@ == sort_spec(vt_m(*t)).1,
{
    match t {
        VType::Int(w) => if *w == 64 { (8, "__vit_cmp_i64") } else { (4, "__vit_cmp_i32") },
        VType::Single | VType::Double => (8, "__vit_cmp_f64"),
        _ => (4, "__vit_cmp_i32"),
    }
}

/// The key and value types a map may have, with the size of their storage.
pub enum MapKind {
    I32I32,
    StrI32,
    I32I64,
    I64I32,
    I64I64,
    StrStr,
}

pub open spec fn map_kind_spec(k: TypeM, v: TypeM) -> Option<MapKind> {
    match (k, v) {
        (TypeM::I32, TypeM::I32) => Some(MapKind::I32I32),
        (TypeM::Str, TypeM::I32) => Some(MapKind::StrI32),
        (TypeM::I32, TypeM::I64) => Some(MapKind::I32I64),
        (TypeM::I64, TypeM::I32) => Some(MapKind::I64I32),
        (TypeM::I64, TypeM::I64) => Some(MapKind::I64I64),
        (TypeM::Str, TypeM::Str) => Some(MapKind::StrStr),
        _ => None,
    }
}

pub fn map_kind(k: &Type, v: &Type) -> (r: Option<MapKind>)
    ensures
        r == map_kind_spec(type_m(*k), type_m(*v)),
{
    match (k, v) {
        (Type::I32, Type::I32) => Some(MapKind::I32I32),
        (Type::Str, Type::I32) => Some(MapKind::StrI32),
        (Type::I32, Type::I64) => Some(MapKind::I32I64),
        (Type::I64, Type::I32) => Some(MapKind::I64I32),
        (Type::I64, Type::I64) => Some(MapKind::I64I64),
        (Type::Str, Type::Str) => Some(MapKind::StrStr),
        _ => None,
    }
}

/// Slots in a map's storage.
pub open spec fn map_cap() -> nat {
    4096
}

/// Bytes of a key, of a value, and of the per-slot "used" flag, for each kind.
pub open spec fn key_bytes(k: MapKind) -> nat {
    match k {
        MapKind::I32I32 | MapKind::I32I64 => 4,
        _ => 8,
    }
}

pub open spec fn value_bytes(k: MapKind) -> nat {
    match k {
        MapKind::I32I32 | MapKind::StrI32 | MapKind::I64I32 => 4,
        _ => 8,
    }
}

/// The number of bytes allocated (zeroed) for a map of this kind.
pub open spec fn map_alloc_spec(k: MapKind) -> nat {
    match k {
        MapKind::I32I32 => 49152,
        MapKind::StrI32 | MapKind::I32I64 | MapKind::I64I32 => 65536,
        MapKind::I64I64 | MapKind::StrStr => 81920,
    }
}

pub fn map_alloc_size(k: &MapKind) -> (r: u64)
    ensures
        r == map_alloc_spec(*k),
{
    match k {
        MapKind::I32I32 => 49152,
        MapKind::StrI32 | MapKind::I32I64 | MapKind::I64I32 => 65536,
        MapKind::I64I64 | MapKind::StrStr => 81920,
    }
}

/// A map's storage holds its keys, then its values, then its "used" flags (4 bytes
/// each), every region `map_cap()` slots long, all inside the allocation.
pub proof fn law_map_storage_fits(k: MapKind)
    ensures
        map_cap() * key_bytes(k) + map_cap() * value_bytes(k) + map_cap() * 4 <= map_alloc_spec(k),
{
}

/// The allocation size used when a global map's storage is created at start-up:
/// that of its kind, or 65536 bytes for other key and value types.
pub fn global_map_alloc_size(k: &Type, v: &Type) -> (r: u64)
    ensures
        r == match map_kind_spec(type_m(*k), type_m(*v)) {
            Some(kind) => map_alloc_spec(kind) as u64,
            None => 65536u64,
        },
{
    match map_kind(k, v) {
        Some(kind) => map_alloc_size(&kind),
        None => 65536,
    }
}


/// The name that distinguishes a map kind's helpers: `__vit_map_<tag>_set` and so on.
pub open spec fn map_tag_spec(k: MapKind) -> Seq<char> {
    match k {
        MapKind::I32I32 => "i32i32"@,
        MapKind::StrI32 => "stri32"@,
        MapKind::I32I64 => "i32i64"@,
        MapKind::I64I32 => "i64i32"@,
        MapKind::I64I64 => "i64i64"@,
        MapKind::StrStr => "strstr"@,
    }
}

pub fn map_tag(k: &MapKind) -> (r: &'static str)
    ensures
        r@ == map_tag_spec(*k),
{
    match k {
        MapKind::I32I32 => "i32i32",
        MapKind::StrI32 => "stri32",
        MapKind::I32I64 => "i32i64",
        MapKind::I64I32 => "i64i32",
        MapKind::I64I64 => "i64i64",
        MapKind::StrStr => "strstr",
    }
}

/// The type of a map kind's keys.
pub open spec fn map_key_spec(k: MapKind) -> VTypeM {
    match k {
        MapKind::I32I32 | MapKind::I32I64 => VTypeM::Int(32),
        MapKind::I64I32 | MapKind::I64I64 => VTypeM::Int(64),
        MapKind::StrI32 | MapKind::StrStr => str_m(),
    }
}

/// The type of a map kind's values.
pub open spec fn map_value_spec(k: MapKind) -> VTypeM {
    match k {
        MapKind::I32I32 | MapKind::StrI32 | MapKind::I64I32 => VTypeM::Int(32),
        MapKind::I32I64 | MapKind::I64I64 => VTypeM::Int(64),
        MapKind::StrStr => str_m(),
    }
}

pub fn map_key_type(k: &MapKind) -> (r: VType)
    ensures
        vt_m(r) == map_key_spec(*k),
{
    match k {
        MapKind::I32I32 | MapKind::I32I64 => VType::Int(32),
        MapKind::I64I32 | MapKind::I64I64 => VType::Int(64),
        MapKind::StrI32 | MapKind::StrStr => str_vtype(),
    }
}

pub fn map_value_type(k: &MapKind) -> (r: VType)
    ensures
        vt_m(r) == map_value_spec(*k),
{
    match k {
        MapKind::I32I32 | MapKind::StrI32 | MapKind::I64I32 => VType::Int(32),
        MapKind::I32I64 | MapKind::I64I64 => VType::Int(64),
        MapKind::StrStr => str_vtype(),
    }
}

/// Where slot `i`'s key, value and "used" flag are, in bytes from the start of
/// the storage: keys first, then values, then flags.
pub open spec fn key_offset(k: MapKind, i: nat) -> nat {
    i * key_bytes(k)
}

pub open spec fn value_offset(k: MapKind, i: nat) -> nat {
    map_cap() * key_bytes(k) + i * value_bytes(k)
}

pub open spec fn used_offset(k: MapKind, i: nat) -> nat {
    map_cap() * (key_bytes(k) + value_bytes(k)) + i * 4
}

/// The byte widths of a kind's keys and values, and where its values and its
/// flags start.
pub fn map_layout(k: &MapKind) -> (r: (u64, u64, u64, u64))
    ensures
        r.0 == key_bytes(*k),
        r.1 == value_bytes(*k),
        r.2 == value_offset(*k, 0),
        r.3 == used_offset(*k, 0),
{
    let kb: u64 = match k {
        MapKind::I32I32 | MapKind::I32I64 => 4,
        _ => 8,
    };
    let vb: u64 = match k {
        MapKind::I32I32 | MapKind::StrI32 | MapKind::I64I32 => 4,
        _ => 8,
    };
    (kb, vb, 4096 * kb, 4096 * (kb + vb))
}

/// Every slot's key, value and flag lie inside the map's allocation, and no two
/// of them overlap: distinct slots, or distinct parts of one slot, never share a byte.
pub proof fn law_map_slots_disjoint(k: MapKind, i: nat, j: nat)
    requires
        i < map_cap(),
        j < map_cap(),
    ensures
        used_offset(k, i) + 4 <= map_alloc_spec(k),
        key_offset(k, i) + key_bytes(k) <= value_offset(k, 0),
        value_offset(k, i) + value_bytes(k) <= used_offset(k, 0),
        i != j ==> (key_offset(k, i) + key_bytes(k) <= key_offset(k, j) || key_offset(k, j) + key_bytes(k) <= key_offset(k, i)),
        i != j ==> (value_offset(k, i) + value_bytes(k) <= value_offset(k, j) || value_offset(k, j) + value_bytes(k) <= value_offset(k, i)),
        i != j ==> (used_offset(k, i) + 4 <= used_offset(k, j) || used_offset(k, j) + 4 <= used_offset(k, i)),
{
    let kb = key_bytes(k);
    let vb = value_bytes(k);
    assert(i * kb + kb <= map_cap() * kb) by (nonlinear_arith)
        requires i < map_cap(), kb >= 0;
    assert(i * vb + vb <= map_cap() * vb) by (nonlinear_arith)
        requires i < map_cap(), vb >= 0;
    if i < j {
        assert(i * kb + kb <= j * kb) by (nonlinear_arith) requires i < j, kb >= 0;
        assert(i * vb + vb <= j * vb) by (nonlinear_arith) requires i < j, vb >= 0;
    } else if j < i {
        assert(j * kb + kb <= i * kb) by (nonlinear_arith) requires j < i, kb >= 0;
        assert(j * vb + vb <= i * vb) by (nonlinear_arith) requires j < i, vb >= 0;
    }
}

/// Whether two types are the same.
pub fn same_vtype(a: &VType, b: &VType) -> (r: bool)
    ensures
        r == (vt_m(*a) == vt_m(*b)),
    decreases a,
{
    match (a, b) {
        (VType::Int(x), VType::Int(y)) => *x == *y,
        (VType::Single, VType::Single) => true,
        (VType::Double, VType::Double) => true,
        (VType::Ptr(x), VType::Ptr(y)) => same_vtype(x, y),
        (VType::Array(x, n), VType::Array(y, m)) => *n == *m && same_vtype(x, y),
        (VType::Struct(x), VType::Struct(y)) => crate::text::text_eq(x.as_str(), y.as_str()),
        _ => false,
    }
}
} // verus!

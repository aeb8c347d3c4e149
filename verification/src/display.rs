//! How types and operators are written back as Vit source text.
use vstd::prelude::*;
use crate::ast::{BinaryOp, Type, TypeM, UnaryOp, type_m, Parameter, param_m, StructDef, StructField,
    struct_def_m, field_m, ExternFunction, extern_m, ParamM, StructM, ExternM};
use crate::text::{text, append, append_nat, append_debug, nat_text, debug_quoted};

verus! {

/// The source text of a type: `i32`, `[T; N]`, `map[K, V]`, `map[K, V; N]`, a struct's name.
pub open spec fn type_text(t: TypeM) -> Seq<char>
    decreases t,
{
    match t {
        TypeM::I32 => "i32"@,
        TypeM::I64 => "i64"@,
        TypeM::F32 => "f32"@,
        TypeM::F64 => "f64"@,
        TypeM::Bool => "bool"@,
        TypeM::Str => "str"@,
        TypeM::Void => "void"@,
        TypeM::Array { element, size } => "["@ + type_text(*element) + "; "@ + nat_text(size as nat) + "]"@,
        TypeM::HashMap { key, value, cap } => match cap {
            Some(n) => "map["@ + type_text(*key) + ", "@ + type_text(*value) + "; "@ + nat_text(n as nat) + "]"@,
            None => "map["@ + type_text(*key) + ", "@ + type_text(*value) + "]"@,
        },
        TypeM::Struct(name) => name,
    }
}

/// The derived `Debug` text of a type, as the compiler's error messages show it.
pub open spec fn type_debug(t: TypeM) -> Seq<char>
    decreases t,
{
    match t {
        TypeM::I32 => "I32"@,
        TypeM::I64 => "I64"@,
        TypeM::F32 => "F32"@,
        TypeM::F64 => "F64"@,
        TypeM::Bool => "Bool"@,
        TypeM::Str => "Str"@,
        TypeM::Void => "Void"@,
        TypeM::Array { element, size } => "Array { element: "@ + type_debug(*element) + ", size: "@ + nat_text(size as nat) + " }"@,
        TypeM::HashMap { key, value, cap } => "Map { key: "@ + type_debug(*key) + ", value: "@ + type_debug(*value) + ", cap: "@
            + match cap { Some(n) => "Some("@ + nat_text(n as nat) + ")"@, None => "None"@ } + " }"@,
        TypeM::Struct(name) => "Struct("@ + debug_quoted(name) + ")"@,
    }
}

pub open spec fn unary_text(op: UnaryOp) -> Seq<char> {
    match op {
        UnaryOp::Not => "!"@,
        UnaryOp::Neg => "-"@,
    }
}

pub open spec fn binary_text(op: BinaryOp) -> Seq<char> {
    match op {
        BinaryOp::Add => "+"@,
        BinaryOp::Sub => "-"@,
        BinaryOp::Mul => "*"@,
        BinaryOp::Div => "/"@,
        BinaryOp::Equal => "=="@,
        BinaryOp::NotEqual => "!="@,
        BinaryOp::Less => "<"@,
        BinaryOp::Greater => ">"@,
        BinaryOp::LessEqual => "<="@,
        BinaryOp::GreaterEqual => ">="@,
        BinaryOp::And => "&&"@,
        BinaryOp::Or => "||"@,
        BinaryOp::Mod => "%"@,
        BinaryOp::BitAnd => "&"@,
        BinaryOp::BitOr => "|"@,
        BinaryOp::BitXor => "^"@,
        BinaryOp::Shl => "<<"@,
        BinaryOp::Shr => ">>"@,
    }
}

impl Type {
    /// Appends the source text of the type to `s`.
    pub fn append_text(&self, s: &mut String)
        ensures
            final(s)@ == old(s)@ + type_text(type_m(*self)),
        decreases self,
    {
        match self {
            Type::I32 => append(s, "i32"),
            Type::I64 => append(s, "i64"),
            Type::F32 => append(s, "f32"),
            Type::F64 => append(s, "f64"),
            Type::Bool => append(s, "bool"),
            Type::Str => append(s, "str"),
            Type::Void => append(s, "void"),
            Type::Array { element, size } => {
                append(s, "[");
                element.append_text(s);
                append(s, "; ");
                append_nat(s, *size as u64);
                append(s, "]");
            },
            Type::HashMap { key, value, cap } => {
                append(s, "map[");
                key.append_text(s);
                append(s, ", ");
                value.append_text(s);
                match cap {
                    Some(n) => {
                        append(s, "; ");
                        append_nat(s, *n as u64);
                    },
                    None => {},
                }
                append(s, "]");
            },
            Type::Struct(name) => append(s, name.as_str()),
        }
        assert(s@ =~= old(s)@ + type_text(type_m(*self)));
    }

    /// The source text of the type.
    pub fn to_text(&self) -> (r: String)
        ensures
            r@ == type_text(type_m(*self)),
    {
        let mut s = String::new();
        self.append_text(&mut s);
        assert(s@ =~= type_text(type_m(*self)));
        s
    }

    /// Appends the `Debug` text of the type to `s`.
    pub fn append_debug(&self, s: &mut String)
        ensures
            final(s)@ == old(s)@ + type_debug(type_m(*self)),
        decreases self,
    {
        match self {
            Type::I32 => append(s, "I32"),
            Type::I64 => append(s, "I64"),
            Type::F32 => append(s, "F32"),
            Type::F64 => append(s, "F64"),
            Type::Bool => append(s, "Bool"),
            Type::Str => append(s, "Str"),
            Type::Void => append(s, "Void"),
            Type::Array { element, size } => {
                append(s, "Array { element: ");
                element.append_debug(s);
                append(s, ", size: ");
                append_nat(s, *size as u64);
                append(s, " }");
            },
            Type::HashMap { key, value, cap } => {
                append(s, "Map { key: ");
                key.append_debug(s);
                append(s, ", value: ");
                value.append_debug(s);
                append(s, ", cap: ");
                match cap {
                    Some(n) => {
                        append(s, "Some(");
                        append_nat(s, *n as u64);
                        append(s, ")");
                    },
                    None => append(s, "None"),
                }
                append(s, " }");
            },
            Type::Struct(name) => {
                append(s, "Struct(");
                append_debug(s, name.as_str());
                append(s, ")");
            },
        }
        assert(s@ =~= old(s)@ + type_debug(type_m(*self)));
    }
}

impl UnaryOp {
    pub fn as_text(&self) -> (r: &'static str)
        ensures
            r@ == unary_text(*self),
    {
        match self {
            UnaryOp::Not => "!",
            UnaryOp::Neg => "-",
        }
    }

    pub fn to_text(&self) -> (r: String)
        ensures
            r@ == unary_text(*self),
    {
        text(self.as_text())
    }
}

impl BinaryOp {
    pub fn as_text(&self) -> (r: &'static str)
        ensures
            r@ == binary_text(*self),
    {
        match self {
            BinaryOp::Add => "+",
            BinaryOp::Sub => "-",
            BinaryOp::Mul => "*",
            BinaryOp::Div => "/",
            BinaryOp::Equal => "==",
            BinaryOp::NotEqual => "!=",
            BinaryOp::Less => "<",
            BinaryOp::Greater => ">",
            BinaryOp::LessEqual => "<=",
            BinaryOp::GreaterEqual => ">=",
            BinaryOp::And => "&&",
            BinaryOp::Or => "||",
            BinaryOp::Mod => "%",
            BinaryOp::BitAnd => "&",
            BinaryOp::BitOr => "|",
            BinaryOp::BitXor => "^",
            BinaryOp::Shl => "<<",
            BinaryOp::Shr => ">>",
        }
    }

    pub fn to_text(&self) -> (r: String)
        ensures
            r@ == binary_text(*self),
    {
        text(self.as_text())
    }
}

/// `name: type`
pub open spec fn param_text(p: ParamM) -> Seq<char> {
    p.0 + ": "@ + type_text(p.1)
}

/// Parameters separated by `, `.
pub open spec fn params_text(ps: Seq<ParamM>) -> Seq<char>
    decreases ps.len(),
{
    if ps.len() == 0 {
        Seq::empty()
    } else if ps.len() == 1 {
        param_text(ps[0])
    } else {
        params_text(ps.drop_last()) + ", "@ + param_text(ps.last())
    }
}

/// `struct Name {` then `  field: type,` lines, then `}`.
pub open spec fn struct_text(d: StructM) -> Seq<char> {
    "struct "@ + d.name + " {\n"@ + fields_text(d.fields) + "}"@
}

pub open spec fn fields_text(fs: Seq<ParamM>) -> Seq<char>
    decreases fs.len(),
{
    if fs.len() == 0 {
        Seq::empty()
    } else {
        fields_text(fs.drop_last()) + "  "@ + fs.last().0 + ": "@ + type_text(fs.last().1) + ",\n"@
    }
}

/// `extern fn name(params) -> type;`
pub open spec fn extern_text(x: ExternM) -> Seq<char> {
    "extern fn "@ + x.name + "("@ + params_text(x.parameters) + ") -> "@ + type_text(x.return_type) + ";"@
}

impl Parameter {
    pub fn append_text(&self, s: &mut String)
        ensures
            final(s)@ == old(s)@ + param_text(param_m(*self)),
    {
        append(s, self.name.as_str());
        append(s, ": ");
        self.typ.append_text(s);
        assert(s@ =~= old(s)@ + param_text(param_m(*self)));
    }

    pub fn to_text(&self) -> (r: String)
        ensures
            r@ == param_text(param_m(*self)),
    {
        let mut s = String::new();
        self.append_text(&mut s);
        assert(s@ =~= param_text(param_m(*self)));
        s
    }
}

/// Appends the parameters, separated by `, `.
pub fn append_params(s: &mut String, ps: &Vec<Parameter>)
    ensures
        final(s)@ == old(s)@ + params_text(crate::ast::params_m(ps@)),
{
    let ghost m = crate::ast::params_m(ps@);
    let mut i: usize = 0;
    while i < ps.len()
        invariant
            i <= ps@.len(),
            m == crate::ast::params_m(ps@),
            s@ == old(s)@ + params_text(m.subrange(0, i as int)),
        decreases ps@.len() - i,
    {
        if i > 0 {
            append(s, ", ");
        }
        ps[i].append_text(s);
        proof {
            let sub = m.subrange(0, i + 1);
            assert(sub.drop_last() =~= m.subrange(0, i as int));
            assert(sub.last() == param_m(ps@[i as int]));
            if i == 0 {
                assert(m.subrange(0, 0) =~= Seq::<ParamM>::empty());
            }
        }
        i = i + 1;
        assert(s@ =~= old(s)@ + params_text(m.subrange(0, i as int)));
    }
    assert(m.subrange(0, ps@.len() as int) =~= m);
}

impl StructDef {
    pub fn to_text(&self) -> (r: String)
        ensures
            r@ == struct_text(struct_def_m(*self)),
    {
        let ghost m = crate::ast::fields_m(self.fields@);
        let mut s = text("struct ");
        append(&mut s, self.name.as_str());
        append(&mut s, " {\n");
        let ghost head = s@;
        let mut i: usize = 0;
        assert(m.subrange(0, 0) =~= Seq::<ParamM>::empty());
        while i < self.fields.len()
            invariant
                i <= self.fields@.len(),
                m == crate::ast::fields_m(self.fields@),
                s@ == head + fields_text(m.subrange(0, i as int)),
            decreases self.fields@.len() - i,
        {
            let f: &StructField = &self.fields[i];
            append(&mut s, "  ");
            append(&mut s, f.name.as_str());
            append(&mut s, ": ");
            f.typ.append_text(&mut s);
            append(&mut s, ",\n");
            proof {
                let sub = m.subrange(0, i + 1);
                assert(sub.drop_last() =~= m.subrange(0, i as int));
                assert(sub.last() == field_m(self.fields@[i as int]));
            }
            i = i + 1;
            assert(s@ =~= head + fields_text(m.subrange(0, i as int)));
        }
        append(&mut s, "}");
        assert(m.subrange(0, self.fields@.len() as int) =~= m);
        assert(s@ =~= struct_text(struct_def_m(*self)));
        s
    }
}

impl ExternFunction {
    pub fn to_text(&self) -> (r: String)
        ensures
            r@ == extern_text(extern_m(*self)),
    {
        let mut s = text("extern fn ");
        append(&mut s, self.name.as_str());
        append(&mut s, "(");
        append_params(&mut s, &self.parameters);
        append(&mut s, ") -> ");
        self.return_type.append_text(&mut s);
        append(&mut s, ";");
        assert(s@ =~= extern_text(extern_m(*self)));
        s
    }
}

} // verus!

use vstd::prelude::*;

verus! {

/// A type of the Vit language.
#[derive(Debug)]
pub enum Type {
    I32,
    I64,
    F32,
    F64,
    Bool,
    Str,
    Void,
    Array { element: Box<Type>, size: usize },
    HashMap { key: Box<Type>, value: Box<Type>, cap: Option<usize> },
    Struct(String),
}

#[derive(Debug)]
pub enum UnaryOp {
    Not,
    Neg,
}

#[derive(Debug)]
pub enum BinaryOp {
    Add,
    Sub,
    Mul,
    Div,
    Equal,
    NotEqual,
    Less,
    Greater,
    LessEqual,
    GreaterEqual,
    And,
    Or,
    Mod,
    BitAnd,
    BitOr,
    BitXor,
    Shl,
    Shr,
}

/// An expression. A float literal is held by the IEEE-754 bits of its `f64` value.
#[derive(Debug)]
pub enum Expression {
    IntLiteral(i64),
    FloatLiteral(u64),
    BoolLiteral(bool),
    StringLiteral(String),
    ArrayLiteral(Vec<Expression>),
    Identifier(String),
    Index { name: String, index: Box<Expression> },
    Unary { op: UnaryOp, operand: Box<Expression> },
    Binary { left: Box<Expression>, op: BinaryOp, right: Box<Expression> },
    Call { name: String, arguments: Vec<Expression> },
    Cast { value: Box<Expression>, typ: Type },
    StructLiteral { name: String, fields: Vec<(String, Expression)> },
    FieldAccess { object: Box<Expression>, field: String },
}

#[derive(Debug)]
pub enum Statement {
    VariableDecl { name: String, typ: Type, initializer: Option<Expression> },
    Assign { name: String, value: Expression },
    Return { value: Option<Expression> },
    If { condition: Expression, then_body: Vec<Statement>, else_body: Option<Vec<Statement>> },
    While { condition: Expression, body: Vec<Statement> },
    Print { values: Vec<Expression> },
    Input { name: String, typ: Type },
    InputIndex { name: String, index: Expression },
    For { var: String, start: Expression, end: Expression, body: Vec<Statement> },
    IndexAssign { name: String, index: Expression, value: Expression },
    Break,
    Continue,
    /// A standalone expression (e.g. a function call used as a statement).
    Expr(Expression),
    /// `a.b.c = value`: the full dot-separated path, at least two segments.
    FieldAssign { path: Vec<String>, value: Expression },
}

#[derive(Debug)]
pub struct Parameter {
    pub name: String,
    pub typ: Type,
}

#[derive(Debug)]
pub struct Function {
    pub name: String,
    pub parameters: Vec<Parameter>,
    pub return_type: Type,
    pub body: Vec<Statement>,
}

#[derive(Debug)]
pub struct GlobalVar {
    pub name: String,
    pub typ: Type,
    pub initializer: Option<Expression>,
}

#[derive(Debug)]
pub struct StructField {
    pub name: String,
    pub typ: Type,
}

#[derive(Debug)]
pub struct StructDef {
    pub name: String,
    pub fields: Vec<StructField>,
}

#[derive(Debug)]
pub struct ExternFunction {
    pub name: String,
    pub parameters: Vec<Parameter>,
    pub return_type: Type,
}

#[derive(Debug)]
pub struct Program {
    pub globals: Vec<GlobalVar>,
    pub functions: Vec<Function>,
    pub externs: Vec<ExternFunction>,
    pub structs: Vec<StructDef>,
}

impl Type {
    /// A copy of the type, equal to it.
    pub fn duplicate(&self) -> (r: Type)
        ensures
            r == *self,
        decreases self,
    {
        match self {
            Type::I32 => Type::I32,
            Type::I64 => Type::I64,
            Type::F32 => Type::F32,
            Type::F64 => Type::F64,
            Type::Bool => Type::Bool,
            Type::Str => Type::Str,
            Type::Void => Type::Void,
            Type::Array { element, size } => Type::Array {
                element: Box::new(element.duplicate()),
                size: *size,
            },
            Type::HashMap { key, value, cap } => Type::HashMap {
                key: Box::new(key.duplicate()),
                value: Box::new(value.duplicate()),
                cap: *cap,
            },
            Type::Struct(name) => Type::Struct(name.clone()),
        }
    }
}

impl UnaryOp {
    pub fn duplicate(&self) -> (r: UnaryOp)
        ensures
            r == *self,
    {
        match self {
            UnaryOp::Not => UnaryOp::Not,
            UnaryOp::Neg => UnaryOp::Neg,
        }
    }
}

impl BinaryOp {
    pub fn duplicate(&self) -> (r: BinaryOp)
        ensures
            r == *self,
    {
        match self {
            BinaryOp::Add => BinaryOp::Add,
            BinaryOp::Sub => BinaryOp::Sub,
            BinaryOp::Mul => BinaryOp::Mul,
            BinaryOp::Div => BinaryOp::Div,
            BinaryOp::Equal => BinaryOp::Equal,
            BinaryOp::NotEqual => BinaryOp::NotEqual,
            BinaryOp::Less => BinaryOp::Less,
            BinaryOp::Greater => BinaryOp::Greater,
            BinaryOp::LessEqual => BinaryOp::LessEqual,
            BinaryOp::GreaterEqual => BinaryOp::GreaterEqual,
            BinaryOp::And => BinaryOp::And,
            BinaryOp::Or => BinaryOp::Or,
            BinaryOp::Mod => BinaryOp::Mod,
            BinaryOp::BitAnd => BinaryOp::BitAnd,
            BinaryOp::BitOr => BinaryOp::BitOr,
            BinaryOp::BitXor => BinaryOp::BitXor,
            BinaryOp::Shl => BinaryOp::Shl,
            BinaryOp::Shr => BinaryOp::Shr,
        }
    }
}

} // verus!

verus! {

/// The mathematical model of a [`Type`]: names are character sequences.
pub enum TypeM {
    I32,
    I64,
    F32,
    F64,
    Bool,
    Str,
    Void,
    Array { element: Box<TypeM>, size: usize },
    HashMap { key: Box<TypeM>, value: Box<TypeM>, cap: Option<usize> },
    Struct(Seq<char>),
}

/// The mathematical model of an [`Expression`]: sequences in place of vectors.
pub enum ExprM {
    IntLiteral(i64),
    FloatLiteral(u64),
    BoolLiteral(bool),
    StringLiteral(Seq<char>),
    ArrayLiteral(Seq<ExprM>),
    Identifier(Seq<char>),
    Index { name: Seq<char>, index: Box<ExprM> },
    Unary { op: UnaryOp, operand: Box<ExprM> },
    Binary { left: Box<ExprM>, op: BinaryOp, right: Box<ExprM> },
    Call { name: Seq<char>, arguments: Seq<ExprM> },
    Cast { value: Box<ExprM>, typ: TypeM },
    StructLiteral { name: Seq<char>, fields: Seq<(Seq<char>, ExprM)> },
    FieldAccess { object: Box<ExprM>, field: Seq<char> },
}

/// The mathematical model of a [`Statement`].
pub enum StmtM {
    VariableDecl { name: Seq<char>, typ: TypeM, initializer: Option<ExprM> },
    Assign { name: Seq<char>, value: ExprM },
    Return { value: Option<ExprM> },
    If { condition: ExprM, then_body: Seq<StmtM>, else_body: Option<Seq<StmtM>> },
    While { condition: ExprM, body: Seq<StmtM> },
    Print { values: Seq<ExprM> },
    Input { name: Seq<char>, typ: TypeM },
    InputIndex { name: Seq<char>, index: ExprM },
    For { var: Seq<char>, start: ExprM, end: ExprM, body: Seq<StmtM> },
    IndexAssign { name: Seq<char>, index: ExprM, value: ExprM },
    Break,
    Continue,
    Expr(ExprM),
    FieldAssign { path: Seq<Seq<char>>, value: ExprM },
}

/// The model of a parameter or a struct field: its name and type.
pub type ParamM = (Seq<char>, TypeM);

/// The model of a function definition.
pub struct FunctionM {
    pub name: Seq<char>,
    pub parameters: Seq<ParamM>,
    pub return_type: TypeM,
    pub body: Seq<StmtM>,
}

/// The model of a global variable declaration.
pub struct GlobalM {
    pub name: Seq<char>,
    pub typ: TypeM,
    pub initializer: Option<ExprM>,
}

/// The model of an external function declaration.
pub struct ExternM {
    pub name: Seq<char>,
    pub parameters: Seq<ParamM>,
    pub return_type: TypeM,
}

/// The model of a struct definition.
pub struct StructM {
    pub name: Seq<char>,
    pub fields: Seq<ParamM>,
}

/// The model of a whole program.
#[verifier::ext_equal]
pub struct ProgramM {
    pub globals: Seq<GlobalM>,
    pub functions: Seq<FunctionM>,
    pub externs: Seq<ExternM>,
    pub structs: Seq<StructM>,
}

pub open spec fn type_m(t: Type) -> TypeM
    decreases t,
{
    match t {
        Type::I32 => TypeM::I32,
        Type::I64 => TypeM::I64,
        Type::F32 => TypeM::F32,
        Type::F64 => TypeM::F64,
        Type::Bool => TypeM::Bool,
        Type::Str => TypeM::Str,
        Type::Void => TypeM::Void,
        Type::Array { element, size } => TypeM::Array { element: Box::new(type_m(*element)), size },
        Type::HashMap { key, value, cap } => TypeM::HashMap {
            key: Box::new(type_m(*key)),
            value: Box::new(type_m(*value)),
            cap,
        },
        Type::Struct(name) => TypeM::Struct(name@),
    }
}

pub open spec fn expr_m(e: Expression) -> ExprM
    decreases e,
{
    match e {
        Expression::IntLiteral(n) => ExprM::IntLiteral(n),
        Expression::FloatLiteral(b) => ExprM::FloatLiteral(b),
        Expression::BoolLiteral(b) => ExprM::BoolLiteral(b),
        Expression::StringLiteral(s) => ExprM::StringLiteral(s@),
        Expression::ArrayLiteral(v) => ExprM::ArrayLiteral(exprs_m(v@)),
        Expression::Identifier(s) => ExprM::Identifier(s@),
        Expression::Index { name, index } => ExprM::Index { name: name@, index: Box::new(expr_m(*index)) },
        Expression::Unary { op, operand } => ExprM::Unary { op, operand: Box::new(expr_m(*operand)) },
        Expression::Binary { left, op, right } => ExprM::Binary {
            left: Box::new(expr_m(*left)),
            op,
            right: Box::new(expr_m(*right)),
        },
        Expression::Call { name, arguments } => ExprM::Call { name: name@, arguments: exprs_m(arguments@) },
        Expression::Cast { value, typ } => ExprM::Cast { value: Box::new(expr_m(*value)), typ: type_m(typ) },
        Expression::StructLiteral { name, fields } => ExprM::StructLiteral {
            name: name@,
            fields: lit_fields_m(fields@),
        },
        Expression::FieldAccess { object, field } => ExprM::FieldAccess {
            object: Box::new(expr_m(*object)),
            field: field@,
        },
    }
}

pub open spec fn exprs_m(s: Seq<Expression>) -> Seq<ExprM>
    decreases s,
{
    if s.len() == 0 {
        Seq::empty()
    } else {
        seq![expr_m(s[0])] + exprs_m(s.subrange(1, s.len() as int))
    }
}

pub open spec fn lit_fields_m(s: Seq<(String, Expression)>) -> Seq<(Seq<char>, ExprM)>
    decreases s,
{
    if s.len() == 0 {
        Seq::empty()
    } else {
        seq![(s[0].0@, expr_m(s[0].1))] + lit_fields_m(s.subrange(1, s.len() as int))
    }
}

pub open spec fn stmt_m(st: Statement) -> StmtM
    decreases st,
{
    match st {
        Statement::VariableDecl { name, typ, initializer } => StmtM::VariableDecl {
            name: name@,
            typ: type_m(typ),
            initializer: match initializer { Some(e) => Some(expr_m(e)), None => None },
        },
        Statement::Assign { name, value } => StmtM::Assign { name: name@, value: expr_m(value) },
        Statement::Return { value } => StmtM::Return {
            value: match value { Some(e) => Some(expr_m(e)), None => None },
        },
        Statement::If { condition, then_body, else_body } => StmtM::If {
            condition: expr_m(condition),
            then_body: stmts_m(then_body@),
            else_body: match else_body { Some(b) => Some(stmts_m(b@)), None => None },
        },
        Statement::While { condition, body } => StmtM::While { condition: expr_m(condition), body: stmts_m(body@) },
        Statement::Print { values } => StmtM::Print { values: exprs_m(values@) },
        Statement::Input { name, typ } => StmtM::Input { name: name@, typ: type_m(typ) },
        Statement::InputIndex { name, index } => StmtM::InputIndex { name: name@, index: expr_m(index) },
        Statement::For { var, start, end, body } => StmtM::For {
            var: var@,
            start: expr_m(start),
            end: expr_m(end),
            body: stmts_m(body@),
        },
        Statement::IndexAssign { name, index, value } => StmtM::IndexAssign {
            name: name@,
            index: expr_m(index),
            value: expr_m(value),
        },
        Statement::Break => StmtM::Break,
        Statement::Continue => StmtM::Continue,
        Statement::Expr(e) => StmtM::Expr(expr_m(e)),
        Statement::FieldAssign { path, value } => StmtM::FieldAssign {
            path: names_m(path@),
            value: expr_m(value),
        },
    }
}

pub open spec fn stmts_m(s: Seq<Statement>) -> Seq<StmtM>
    decreases s,
{
    if s.len() == 0 {
        Seq::empty()
    } else {
        seq![stmt_m(s[0])] + stmts_m(s.subrange(1, s.len() as int))
    }
}

pub open spec fn names_m(s: Seq<String>) -> Seq<Seq<char>> {
    Seq::new(s.len(), |i: int| s[i]@)
}

pub open spec fn param_m(p: Parameter) -> ParamM {
    (p.name@, type_m(p.typ))
}

pub open spec fn params_m(s: Seq<Parameter>) -> Seq<ParamM> {
    Seq::new(s.len(), |i: int| param_m(s[i]))
}

pub open spec fn field_m(f: StructField) -> ParamM {
    (f.name@, type_m(f.typ))
}

pub open spec fn fields_m(s: Seq<StructField>) -> Seq<ParamM> {
    Seq::new(s.len(), |i: int| field_m(s[i]))
}

pub open spec fn struct_def_m(d: StructDef) -> StructM {
    StructM { name: d.name@, fields: fields_m(d.fields@) }
}

pub open spec fn extern_m(x: ExternFunction) -> ExternM {
    ExternM { name: x.name@, parameters: params_m(x.parameters@), return_type: type_m(x.return_type) }
}

pub open spec fn function_m(f: Function) -> FunctionM {
    FunctionM {
        name: f.name@,
        parameters: params_m(f.parameters@),
        return_type: type_m(f.return_type),
        body: stmts_m(f.body@),
    }
}

pub open spec fn global_m(g: GlobalVar) -> GlobalM {
    GlobalM {
        name: g.name@,
        typ: type_m(g.typ),
        initializer: match g.initializer { Some(e) => Some(expr_m(e)), None => None },
    }
}

pub open spec fn program_m(p: Program) -> ProgramM {
    ProgramM {
        globals: Seq::new(p.globals@.len(), |i: int| global_m(p.globals@[i])),
        functions: Seq::new(p.functions@.len(), |i: int| function_m(p.functions@[i])),
        externs: Seq::new(p.externs@.len(), |i: int| extern_m(p.externs@[i])),
        structs: Seq::new(p.structs@.len(), |i: int| struct_def_m(p.structs@[i])),
    }
}


/// The model of a sequence of expressions grows by one when one is pushed.
pub proof fn lemma_exprs_push(s: Seq<Expression>, e: Expression)
    ensures
        exprs_m(s.push(e)) == exprs_m(s).push(expr_m(e)),
    decreases s.len(),
{
    if s.len() == 0 {
        let one = s.push(e);
        assert(one.subrange(1, one.len() as int) =~= Seq::<Expression>::empty());
        assert(exprs_m(one.subrange(1, one.len() as int)) =~= Seq::<ExprM>::empty());
        assert(s =~= Seq::<Expression>::empty());
        assert(exprs_m(s) =~= Seq::<ExprM>::empty());
        assert(exprs_m(one) =~= exprs_m(s).push(expr_m(e)));
    } else {
        let t = s.subrange(1, s.len() as int);
        lemma_exprs_push(t, e);
        assert(s.push(e).subrange(1, (s.len() + 1) as int) =~= t.push(e));
        assert(exprs_m(s.push(e)) =~= exprs_m(s).push(expr_m(e)));
    }
}

/// The model of a struct literal's fields grows by one when one is pushed.
pub proof fn lemma_lit_fields_push(s: Seq<(String, Expression)>, f: (String, Expression))
    ensures
        lit_fields_m(s.push(f)) == lit_fields_m(s).push((f.0@, expr_m(f.1))),
    decreases s.len(),
{
    if s.len() == 0 {
        let one = s.push(f);
        assert(one.subrange(1, one.len() as int) =~= Seq::<(String, Expression)>::empty());
        assert(lit_fields_m(one.subrange(1, one.len() as int)) =~= Seq::<(Seq<char>, ExprM)>::empty());
        assert(s =~= Seq::<(String, Expression)>::empty());
        assert(lit_fields_m(s) =~= Seq::<(Seq<char>, ExprM)>::empty());
        assert(lit_fields_m(one) =~= lit_fields_m(s).push((f.0@, expr_m(f.1))));
    } else {
        let t = s.subrange(1, s.len() as int);
        lemma_lit_fields_push(t, f);
        assert(s.push(f).subrange(1, (s.len() + 1) as int) =~= t.push(f));
        assert(lit_fields_m(s.push(f)) =~= lit_fields_m(s).push((f.0@, expr_m(f.1))));
    }
}

/// The model of a sequence of statements grows by one when one is pushed.
pub proof fn lemma_stmts_push(s: Seq<Statement>, st: Statement)
    ensures
        stmts_m(s.push(st)) == stmts_m(s).push(stmt_m(st)),
    decreases s.len(),
{
    if s.len() == 0 {
        let one = s.push(st);
        assert(one.subrange(1, one.len() as int) =~= Seq::<Statement>::empty());
        assert(stmts_m(one.subrange(1, one.len() as int)) =~= Seq::<StmtM>::empty());
        assert(s =~= Seq::<Statement>::empty());
        assert(stmts_m(s) =~= Seq::<StmtM>::empty());
        assert(stmts_m(one) =~= stmts_m(s).push(stmt_m(st)));
    } else {
        let t = s.subrange(1, s.len() as int);
        lemma_stmts_push(t, st);
        assert(s.push(st).subrange(1, (s.len() + 1) as int) =~= t.push(st));
        assert(stmts_m(s.push(st)) =~= stmts_m(s).push(stmt_m(st)));
    }
}

} // verus!

//! How a parsed program is written back as text (the compiler's verbose listing).
//! A float literal holds the bits of its value; the text it is shown with comes
//! from a table of (bits, text) pairs that the caller supplies.
use vstd::prelude::*;
use crate::ast::{Expression, ExprM, expr_m, exprs_m, lit_fields_m, lemma_exprs_push, lemma_lit_fields_push,
    Statement, StmtM, stmt_m, stmts_m, lemma_stmts_push, names_m, Function, FunctionM, function_m,
    GlobalVar, GlobalM, global_m, Program, ProgramM, program_m, struct_def_m, extern_m};
use crate::display::{type_text, unary_text, binary_text, params_text, struct_text, extern_text, append_params};
use crate::text::{append, append_int, append_nat, int_text, nat_text};

verus! {

/// The table of float texts as plain values.
pub open spec fn floats_m(fl: Seq<(u64, String)>) -> Seq<(u64, Seq<char>)> {
    Seq::new(fl.len(), |i: int| (fl[i].0, fl[i].1@))
}

/// The text a float literal with bits `b` is shown with: that of the first entry
/// of `fl` for `b`, or the bits in decimal when there is none.
pub open spec fn float_shown(fl: Seq<(u64, Seq<char>)>, b: u64) -> Seq<char>
    decreases fl.len(),
{
    if fl.len() == 0 {
        nat_text(b as nat)
    } else if fl[0].0 == b {
        fl[0].1
    } else {
        float_shown(fl.subrange(1, fl.len() as int), b)
    }
}

pub open spec fn bool_text(b: bool) -> Seq<char> {
    if b { "true"@ } else { "false"@ }
}

/// The text of an expression: operations fully parenthesised.
pub open spec fn expr_text(e: ExprM, fl: Seq<(u64, Seq<char>)>) -> Seq<char>
    decreases e,
{
    match e {
        ExprM::IntLiteral(n) => int_text(n as int),
        ExprM::FloatLiteral(b) => float_shown(fl, b),
        ExprM::BoolLiteral(b) => bool_text(b),
        ExprM::StringLiteral(s) => "\""@ + s + "\""@,
        ExprM::ArrayLiteral(es) => "["@ + exprs_text(es, fl) + "]"@,
        ExprM::Identifier(n) => n,
        ExprM::Index { name, index } => name + "["@ + expr_text(*index, fl) + "]"@,
        ExprM::Unary { op, operand } => "("@ + unary_text(op) + " "@ + expr_text(*operand, fl) + ")"@,
        ExprM::Binary { left, op, right } =>
            "("@ + expr_text(*left, fl) + " "@ + binary_text(op) + " "@ + expr_text(*right, fl) + ")"@,
        ExprM::Call { name, arguments } => name + "("@ + exprs_text(arguments, fl) + ")"@,
        ExprM::Cast { value, typ } => "("@ + expr_text(*value, fl) + " as "@ + type_text(typ) + ")"@,
        ExprM::StructLiteral { name, fields } => name + " {"@ + lit_fields_text(fields, fl) + "}"@,
        ExprM::FieldAccess { object, field } => expr_text(*object, fl) + "."@ + field,
    }
}

/// The texts of expressions, separated by `, `.
pub open spec fn exprs_text(es: Seq<ExprM>, fl: Seq<(u64, Seq<char>)>) -> Seq<char>
    decreases es,
{
    if es.len() == 0 {
        Seq::empty()
    } else if es.len() == 1 {
        expr_text(es[0], fl)
    } else {
        exprs_text(es.drop_last(), fl) + ", "@ + expr_text(es[es.len() - 1], fl)
    }
}

/// The fields of a struct literal, `name: value`, separated by `, `.
pub open spec fn lit_fields_text(fs: Seq<(Seq<char>, ExprM)>, fl: Seq<(u64, Seq<char>)>) -> Seq<char>
    decreases fs,
{
    if fs.len() == 0 {
        Seq::empty()
    } else if fs.len() == 1 {
        fs[0].0 + ": "@ + expr_text(fs[0].1, fl)
    } else {
        lit_fields_text(fs.drop_last(), fl) + ", "@ + fs[fs.len() - 1].0 + ": "@
            + expr_text(fs[fs.len() - 1].1, fl)
    }
}

/// The text of the float literal with bits `b`.
fn append_float(s: &mut String, fl: &Vec<(u64, String)>, b: u64)
    ensures
        final(s)@ == old(s)@ + float_shown(floats_m(fl@), b),
{
    let ghost f = floats_m(fl@);
    assert(f.subrange(0, f.len() as int) =~= f);
    let mut i: usize = 0;
    while i < fl.len()
        invariant
            i <= fl@.len(),
            f == floats_m(fl@),
            s@ == old(s)@,
            float_shown(f, b) == float_shown(f.subrange(i as int, f.len() as int), b),
        decreases fl@.len() - i,
    {
        let ghost rest = f.subrange(i as int, f.len() as int);
        if fl[i].0 == b {
            assert(rest[0] == f[i as int]);
            append(s, fl[i].1.as_str());
            return;
        }
        assert(rest.subrange(1, rest.len() as int) =~= f.subrange(i + 1, f.len() as int));
        i = i + 1;
    }
    assert(f.subrange(i as int, f.len() as int).len() == 0);
    append_nat(s, b);
}

impl Expression {
    /// Appends the text of the expression to `s`, showing float literals as `fl` says.
    pub fn append_text(&self, s: &mut String, fl: &Vec<(u64, String)>)
        ensures
            final(s)@ == old(s)@ + expr_text(expr_m(*self), floats_m(fl@)),
        decreases self, 1nat,
    {
        let ghost f = floats_m(fl@);
        match self {
            Expression::IntLiteral(n) => append_int(s, *n),
            Expression::FloatLiteral(b) => append_float(s, fl, *b),
            Expression::BoolLiteral(b) => {
                if *b { append(s, "true") } else { append(s, "false") }
            },
            Expression::StringLiteral(t) => {
                append(s, "\"");
                append(s, t.as_str());
                append(s, "\"");
            },
            Expression::ArrayLiteral(v) => {
                append(s, "[");
                self.append_list(s, fl);
                append(s, "]");
            },
            Expression::Identifier(n) => append(s, n.as_str()),
            Expression::Index { name, index } => {
                append(s, name.as_str());
                append(s, "[");
                index.append_text(s, fl);
                append(s, "]");
            },
            Expression::Unary { op, operand } => {
                append(s, "(");
                append(s, op.as_text());
                append(s, " ");
                operand.append_text(s, fl);
                append(s, ")");
            },
            Expression::Binary { left, op, right } => {
                append(s, "(");
                left.append_text(s, fl);
                append(s, " ");
                append(s, op.as_text());
                append(s, " ");
                right.append_text(s, fl);
                append(s, ")");
            },
            Expression::Call { name, arguments } => {
                append(s, name.as_str());
                append(s, "(");
                self.append_list(s, fl);
                append(s, ")");
            },
            Expression::Cast { value, typ } => {
                append(s, "(");
                value.append_text(s, fl);
                append(s, " as ");
                typ.append_text(s);
                append(s, ")");
            },
            Expression::StructLiteral { name, fields } => {
                append(s, name.as_str());
                append(s, " {");
                let ghost head = s@;
                let ghost m = lit_fields_m(fields@);
                assert(fields@.subrange(0, 0) =~= Seq::<(String, Expression)>::empty());
                assert(lit_fields_m(fields@.subrange(0, 0)) =~= Seq::<(Seq<char>, ExprM)>::empty());
                proof {
                    assert forall|j: int| 0 <= j < fields@.len() implies decreases_to!(self => fields@[j].1) by {
                        assert(decreases_to!(self => *fields));
                        assert(decreases_to!(*fields => fields@));
                        assert(decreases_to!(fields@ => fields@[j]));
                        assert(decreases_to!(fields@[j] => fields@[j].1));
                    }
                }
                let mut i: usize = 0;
                while i < fields.len()
                    invariant
                        i <= fields@.len(),
                        f == floats_m(fl@),
                        s@ == head + lit_fields_text(lit_fields_m(fields@.subrange(0, i as int)), f),
                        forall|j: int| 0 <= j < fields@.len() ==> decreases_to!(self => fields@[j].1),
                    decreases fields@.len() - i,
                {
                    if i > 0 {
                        append(s, ", ");
                    }
                    append(s, fields[i].0.as_str());
                    append(s, ": ");
                    fields[i].1.append_text(s, fl);
                    proof {
                        let pre = fields@.subrange(0, i as int);
                        assert(fields@.subrange(0, i + 1) =~= pre.push(fields@[i as int]));
                        lemma_lit_fields_push(pre, fields@[i as int]);
                        let pm = lit_fields_m(pre);
                        let nm = pm.push((fields@[i as int].0@, expr_m(fields@[i as int].1)));
                        assert(nm.drop_last() =~= pm);
                    }
                    i = i + 1;
                    assert(s@ =~= head + lit_fields_text(lit_fields_m(fields@.subrange(0, i as int)), f));
                }
                assert(fields@.subrange(0, i as int) =~= fields@);
                append(s, "}");
            },
            Expression::FieldAccess { object, field } => {
                object.append_text(s, fl);
                append(s, ".");
                append(s, field.as_str());
            },
        }
        assert(s@ =~= old(s)@ + expr_text(expr_m(*self), f));
    }

    /// Appends the elements of an array literal or the arguments of a call,
    /// separated by `, `.
    fn append_list(&self, s: &mut String, fl: &Vec<(u64, String)>)
        requires
            self is ArrayLiteral || self is Call,
        ensures
            final(s)@ == old(s)@ + exprs_text(
                match expr_m(*self) {
                    ExprM::ArrayLiteral(es) => es,
                    ExprM::Call { arguments, .. } => arguments,
                    _ => Seq::empty(),
                },
                floats_m(fl@),
            ),
        decreases self, 0nat,
    {
        let ghost f = floats_m(fl@);
        let v = match self {
            Expression::ArrayLiteral(v) => v,
            Expression::Call { arguments, .. } => arguments,
            _ => { return; },
        };
        proof {
            assert forall|j: int| 0 <= j < v@.len() implies decreases_to!(self => v@[j]) by {
                assert(decreases_to!(self => *v));
                assert(decreases_to!(*v => v@));
                assert(decreases_to!(v@ => v@[j]));
            }
        }
        let ghost head = s@;
        assert(v@.subrange(0, 0) =~= Seq::<Expression>::empty());
        assert(exprs_m(v@.subrange(0, 0)) =~= Seq::<ExprM>::empty());
        let mut i: usize = 0;
        while i < v.len()
            invariant
                i <= v@.len(),
                f == floats_m(fl@),
                s@ == head + exprs_text(exprs_m(v@.subrange(0, i as int)), f),
                forall|j: int| 0 <= j < v@.len() ==> decreases_to!(self => v@[j]),
            decreases v@.len() - i,
        {
            if i > 0 {
                append(s, ", ");
            }
            v[i].append_text(s, fl);
            proof {
                let pre = v@.subrange(0, i as int);
                assert(v@.subrange(0, i + 1) =~= pre.push(v@[i as int]));
                lemma_exprs_push(pre, v@[i as int]);
                let pm = exprs_m(pre);
                let nm = pm.push(expr_m(v@[i as int]));
                assert(nm.drop_last() =~= pm);
            }
            i = i + 1;
            assert(s@ =~= head + exprs_text(exprs_m(v@.subrange(0, i as int)), f));
        }
        assert(v@.subrange(0, i as int) =~= v@);
    }

    /// The text of the expression, showing float literals as `fl` says.
    pub fn to_text(&self, fl: &Vec<(u64, String)>) -> (r: String)
        ensures
            r@ == expr_text(expr_m(*self), floats_m(fl@)),
    {
        let mut s = String::new();
        self.append_text(&mut s, fl);
        assert(s@ =~= expr_text(expr_m(*self), floats_m(fl@)));
        s
    }
}

/// ` = value` after a declaration, when it has an initializer.
pub open spec fn init_text(init: Option<ExprM>, fl: Seq<(u64, Seq<char>)>) -> Seq<char> {
    match init {
        Some(e) => " = "@ + expr_text(e, fl),
        None => Seq::empty(),
    }
}

/// A field path, its names joined by `.`.
pub open spec fn path_text(p: Seq<Seq<char>>) -> Seq<char>
    decreases p.len(),
{
    if p.len() == 0 {
        Seq::empty()
    } else if p.len() == 1 {
        p[0]
    } else {
        path_text(p.drop_last()) + "."@ + p[p.len() - 1]
    }
}

/// The text of a statement; the statements of a body come one to a line,
/// each after two spaces.
pub open spec fn stmt_text(st: StmtM, fl: Seq<(u64, Seq<char>)>) -> Seq<char>
    decreases st,
{
    match st {
        StmtM::VariableDecl { name, typ, initializer } =>
            "let "@ + name + ": "@ + type_text(typ) + init_text(initializer, fl) + ";"@,
        StmtM::Assign { name, value } => name + " = "@ + expr_text(value, fl) + ";"@,
        StmtM::Return { value } => "return"@ + match value {
            Some(e) => " "@ + expr_text(e, fl),
            None => Seq::empty(),
        } + ";"@,
        StmtM::If { condition, then_body, else_body } =>
            "if "@ + expr_text(condition, fl) + " {\n"@ + block_text(then_body, fl) + "}"@ + match else_body {
                Some(b) => " else {\n"@ + block_text(b, fl) + "}"@,
                None => Seq::empty(),
            },
        StmtM::While { condition, body } =>
            "while "@ + expr_text(condition, fl) + " {\n"@ + block_text(body, fl) + "}"@,
        StmtM::Print { values } => "print "@ + exprs_text(values, fl) + ";"@,
        StmtM::Input { name, typ } => "input "@ + name + ": "@ + type_text(typ) + ";"@,
        StmtM::InputIndex { name, index } => "input "@ + name + "["@ + expr_text(index, fl) + "];"@,
        StmtM::For { var, start, end, body } =>
            "for "@ + var + " in "@ + expr_text(start, fl) + ".."@ + expr_text(end, fl) + " {\n"@
                + block_text(body, fl) + "}"@,
        StmtM::IndexAssign { name, index, value } =>
            name + "["@ + expr_text(index, fl) + "] = "@ + expr_text(value, fl) + ";"@,
        StmtM::Break => "break;"@,
        StmtM::Continue => "continue;"@,
        StmtM::Expr(e) => expr_text(e, fl) + ";"@,
        StmtM::FieldAssign { path, value } => path_text(path) + " = "@ + expr_text(value, fl) + ";"@,
    }
}

/// Statements one to a line, each after two spaces.
pub open spec fn block_text(ss: Seq<StmtM>, fl: Seq<(u64, Seq<char>)>) -> Seq<char>
    decreases ss,
{
    if ss.len() == 0 {
        Seq::empty()
    } else {
        block_text(ss.drop_last(), fl) + "  "@ + stmt_text(ss[ss.len() - 1], fl) + "\n"@
    }
}

/// Appends expressions separated by `, `.
fn append_exprs(s: &mut String, v: &Vec<Expression>, fl: &Vec<(u64, String)>)
    ensures
        final(s)@ == old(s)@ + exprs_text(exprs_m(v@), floats_m(fl@)),
{
    let ghost f = floats_m(fl@);
    let ghost head = s@;
    assert(v@.subrange(0, 0) =~= Seq::<Expression>::empty());
    assert(exprs_m(v@.subrange(0, 0)) =~= Seq::<ExprM>::empty());
    let mut i: usize = 0;
    while i < v.len()
        invariant
            i <= v@.len(),
            f == floats_m(fl@),
            s@ == head + exprs_text(exprs_m(v@.subrange(0, i as int)), f),
        decreases v@.len() - i,
    {
        if i > 0 {
            append(s, ", ");
        }
        v[i].append_text(s, fl);
        proof {
            let pre = v@.subrange(0, i as int);
            assert(v@.subrange(0, i + 1) =~= pre.push(v@[i as int]));
            lemma_exprs_push(pre, v@[i as int]);
            let pm = exprs_m(pre);
            assert(pm.push(expr_m(v@[i as int])).drop_last() =~= pm);
        }
        i = i + 1;
        assert(s@ =~= head + exprs_text(exprs_m(v@.subrange(0, i as int)), f));
    }
    assert(v@.subrange(0, i as int) =~= v@);
}

/// Appends an initializer, ` = value`, when there is one.
fn append_init(s: &mut String, init: &Option<Expression>, fl: &Vec<(u64, String)>)
    ensures
        final(s)@ == old(s)@ + init_text(
            match *init { Some(e) => Some(expr_m(e)), None => None },
            floats_m(fl@),
        ),
{
    match init {
        Some(e) => {
            append(s, " = ");
            e.append_text(s, fl);
        },
        None => {},
    }
    assert(s@ =~= old(s)@ + init_text(match *init { Some(e) => Some(expr_m(e)), None => None }, floats_m(fl@)));
}

/// Appends a field path, its names joined by `.`.
fn append_path(s: &mut String, p: &Vec<String>)
    ensures
        final(s)@ == old(s)@ + path_text(names_m(p@)),
{
    let ghost head = s@;
    let ghost m = names_m(p@);
    let mut i: usize = 0;
    while i < p.len()
        invariant
            i <= p@.len(),
            m == names_m(p@),
            s@ == head + path_text(m.subrange(0, i as int)),
        decreases p@.len() - i,
    {
        if i > 0 {
            append(s, ".");
        }
        append(s, p[i].as_str());
        proof {
            let sub = m.subrange(0, i + 1);
            assert(sub.drop_last() =~= m.subrange(0, i as int));
            assert(sub[i as int] == p@[i as int]@);
        }
        i = i + 1;
        assert(s@ =~= head + path_text(m.subrange(0, i as int)));
    }
    assert(m.subrange(0, i as int) =~= m);
}

/// Appends the statements of a body, one to a line, each after two spaces.
fn append_block(s: &mut String, body: &Vec<Statement>, fl: &Vec<(u64, String)>)
    ensures
        final(s)@ == old(s)@ + block_text(stmts_m(body@), floats_m(fl@)),
    decreases body, 0nat,
{
    let ghost f = floats_m(fl@);
    let ghost head = s@;
    assert(body@.subrange(0, 0) =~= Seq::<Statement>::empty());
    assert(stmts_m(body@.subrange(0, 0)) =~= Seq::<StmtM>::empty());
    proof {
        assert forall|j: int| 0 <= j < body@.len() implies decreases_to!(body => body@[j]) by {
            assert(decreases_to!(body => body@));
            assert(decreases_to!(body@ => body@[j]));
        }
    }
    let mut i: usize = 0;
    while i < body.len()
        invariant
            i <= body@.len(),
            f == floats_m(fl@),
            s@ == head + block_text(stmts_m(body@.subrange(0, i as int)), f),
            forall|j: int| 0 <= j < body@.len() ==> decreases_to!(body => body@[j]),
        decreases body@.len() - i,
    {
        append(s, "  ");
        body[i].append_text(s, fl);
        append(s, "\n");
        proof {
            let pre = body@.subrange(0, i as int);
            assert(body@.subrange(0, i + 1) =~= pre.push(body@[i as int]));
            lemma_stmts_push(pre, body@[i as int]);
            let pm = stmts_m(pre);
            assert(pm.push(stmt_m(body@[i as int])).drop_last() =~= pm);
        }
        i = i + 1;
        assert(s@ =~= head + block_text(stmts_m(body@.subrange(0, i as int)), f));
    }
    assert(body@.subrange(0, i as int) =~= body@);
}

impl Statement {
    /// Appends the text of the statement to `s`, showing float literals as `fl` says.
    #[verifier::rlimit(40)]
    pub fn append_text(&self, s: &mut String, fl: &Vec<(u64, String)>)
        ensures
            final(s)@ == old(s)@ + stmt_text(stmt_m(*self), floats_m(fl@)),
        decreases self, 1nat,
    {
        let ghost f = floats_m(fl@);
        match self {
            Statement::VariableDecl { name, typ, initializer } => {
                append(s, "let ");
                append(s, name.as_str());
                append(s, ": ");
                typ.append_text(s);
                append_init(s, initializer, fl);
                append(s, ";");
                assert(s@ =~= old(s)@ + stmt_text(stmt_m(*self), f));
            },
            Statement::Assign { name, value } => {
                append(s, name.as_str());
                append(s, " = ");
                value.append_text(s, fl);
                append(s, ";");
                assert(s@ =~= old(s)@ + stmt_text(stmt_m(*self), f));
            },
            Statement::Return { value } => {
                append(s, "return");
                match value {
                    Some(e) => {
                        append(s, " ");
                        e.append_text(s, fl);
                    },
                    None => {},
                }
                append(s, ";");
                assert(s@ =~= old(s)@ + stmt_text(stmt_m(*self), f));
            },
            Statement::If { condition, then_body, else_body } => {
                append(s, "if ");
                condition.append_text(s, fl);
                append(s, " {\n");
                assert(decreases_to!(self => *then_body));
                append_block(s, then_body, fl);
                append(s, "}");
                match else_body {
                    Some(b) => {
                        assert(decreases_to!(self => *else_body));
                        assert(decreases_to!(*else_body => *b));
                        append(s, " else {\n");
                        append_block(s, b, fl);
                        append(s, "}");
                    },
                    None => {},
                }
                assert(s@ =~= old(s)@ + stmt_text(stmt_m(*self), f));
            },
            Statement::While { condition, body } => {
                append(s, "while ");
                condition.append_text(s, fl);
                append(s, " {\n");
                assert(decreases_to!(self => *body));
                append_block(s, body, fl);
                append(s, "}");
                assert(s@ =~= old(s)@ + stmt_text(stmt_m(*self), f));
            },
            Statement::Print { values } => {
                append(s, "print ");
                append_exprs(s, values, fl);
                append(s, ";");
                assert(s@ =~= old(s)@ + stmt_text(stmt_m(*self), f));
            },
            Statement::Input { name, typ } => {
                append(s, "input ");
                append(s, name.as_str());
                append(s, ": ");
                typ.append_text(s);
                append(s, ";");
                assert(s@ =~= old(s)@ + stmt_text(stmt_m(*self), f));
            },
            Statement::InputIndex { name, index } => {
                append(s, "input ");
                append(s, name.as_str());
                append(s, "[");
                index.append_text(s, fl);
                append(s, "];");
                assert(s@ =~= old(s)@ + stmt_text(stmt_m(*self), f));
            },
            Statement::For { var, start, end, body } => {
                append(s, "for ");
                append(s, var.as_str());
                append(s, " in ");
                start.append_text(s, fl);
                append(s, "..");
                end.append_text(s, fl);
                append(s, " {\n");
                assert(decreases_to!(self => *body));
                append_block(s, body, fl);
                append(s, "}");
                assert(s@ =~= old(s)@ + stmt_text(stmt_m(*self), f));
            },
            Statement::IndexAssign { name, index, value } => {
                append(s, name.as_str());
                append(s, "[");
                index.append_text(s, fl);
                append(s, "] = ");
                value.append_text(s, fl);
                append(s, ";");
                assert(s@ =~= old(s)@ + stmt_text(stmt_m(*self), f));
            },
            Statement::Break => {
                append(s, "break;");
                assert(s@ =~= old(s)@ + stmt_text(stmt_m(*self), f));
            },
            Statement::Continue => {
                append(s, "continue;");
                assert(s@ =~= old(s)@ + stmt_text(stmt_m(*self), f));
            },
            Statement::Expr(e) => {
                e.append_text(s, fl);
                append(s, ";");
                assert(s@ =~= old(s)@ + stmt_text(stmt_m(*self), f));
            },
            Statement::FieldAssign { path, value } => {
                append_path(s, path);
                append(s, " = ");
                value.append_text(s, fl);
                append(s, ";");
                assert(s@ =~= old(s)@ + stmt_text(stmt_m(*self), f));
            },
        }
    }

    /// The text of the statement, showing float literals as `fl` says.
    pub fn to_text(&self, fl: &Vec<(u64, String)>) -> (r: String)
        ensures
            r@ == stmt_text(stmt_m(*self), floats_m(fl@)),
    {
        let mut s = String::new();
        self.append_text(&mut s, fl);
        assert(s@ =~= stmt_text(stmt_m(*self), floats_m(fl@)));
        s
    }
}

/// `fn name(params) -> type {`, the body, `}`.
pub open spec fn function_text(x: FunctionM, fl: Seq<(u64, Seq<char>)>) -> Seq<char> {
    "fn "@ + x.name + "("@ + params_text(x.parameters) + ") -> "@ + type_text(x.return_type) + " {\n"@
        + block_text(x.body, fl) + "}"@
}

/// `let name: type = value;`
pub open spec fn global_text(g: GlobalM, fl: Seq<(u64, Seq<char>)>) -> Seq<char> {
    "let "@ + g.name + ": "@ + type_text(g.typ) + init_text(g.initializer, fl) + ";"@
}

impl Function {
    pub fn to_text(&self, fl: &Vec<(u64, String)>) -> (r: String)
        ensures
            r@ == function_text(function_m(*self), floats_m(fl@)),
    {
        let mut s = String::new();
        append(&mut s, "fn ");
        append(&mut s, self.name.as_str());
        append(&mut s, "(");
        append_params(&mut s, &self.parameters);
        append(&mut s, ") -> ");
        self.return_type.append_text(&mut s);
        append(&mut s, " {\n");
        append_block(&mut s, &self.body, fl);
        append(&mut s, "}");
        assert(s@ =~= function_text(function_m(*self), floats_m(fl@)));
        s
    }
}

impl GlobalVar {
    pub fn to_text(&self, fl: &Vec<(u64, String)>) -> (r: String)
        ensures
            r@ == global_text(global_m(*self), floats_m(fl@)),
    {
        let mut s = String::new();
        append(&mut s, "let ");
        append(&mut s, self.name.as_str());
        append(&mut s, ": ");
        self.typ.append_text(&mut s);
        append_init(&mut s, &self.initializer, fl);
        append(&mut s, ";");
        assert(s@ =~= global_text(global_m(*self), floats_m(fl@)));
        s
    }
}

/// Each struct definition followed by an empty line.
pub open spec fn structs_part(ss: Seq<crate::ast::StructM>) -> Seq<char>
    decreases ss.len(),
{
    if ss.len() == 0 { Seq::empty() } else { structs_part(ss.drop_last()) + struct_text(ss.last()) + "\n\n"@ }
}

/// Each external function declaration on a line of its own.
pub open spec fn externs_part(xs: Seq<crate::ast::ExternM>) -> Seq<char>
    decreases xs.len(),
{
    if xs.len() == 0 { Seq::empty() } else { externs_part(xs.drop_last()) + extern_text(xs.last()) + "\n"@ }
}

/// Each global declaration on a line of its own.
pub open spec fn globals_part(gs: Seq<GlobalM>, fl: Seq<(u64, Seq<char>)>) -> Seq<char>
    decreases gs.len(),
{
    if gs.len() == 0 { Seq::empty() } else { globals_part(gs.drop_last(), fl) + global_text(gs.last(), fl) + "\n"@ }
}

/// Each function followed by an empty line.
pub open spec fn functions_part(fs: Seq<FunctionM>, fl: Seq<(u64, Seq<char>)>) -> Seq<char>
    decreases fs.len(),
{
    if fs.len() == 0 { Seq::empty() } else { functions_part(fs.drop_last(), fl) + function_text(fs.last(), fl) + "\n\n"@ }
}

/// The listing of a program: its structs, its external functions, its globals
/// and its functions, each group after the one before, a group of one-line
/// declarations closed by an empty line when it is not empty.
pub open spec fn program_text(p: ProgramM, fl: Seq<(u64, Seq<char>)>) -> Seq<char> {
    structs_part(p.structs)
        + externs_part(p.externs) + (if p.externs.len() > 0 { "\n"@ } else { Seq::empty() })
        + globals_part(p.globals, fl) + (if p.globals.len() > 0 { "\n"@ } else { Seq::empty() })
        + functions_part(p.functions, fl)
}

impl Program {
    /// The listing of the program, showing float literals as `fl` says.
    pub fn to_text(&self, fl: &Vec<(u64, String)>) -> (r: String)
        ensures
            r@ == program_text(program_m(*self), floats_m(fl@)),
    {
        let ghost f = floats_m(fl@);
        let ghost pm = program_m(*self);
        let mut s = String::new();
        let mut i: usize = 0;
        while i < self.structs.len()
            invariant
                i <= self.structs@.len(),
                pm == program_m(*self),
                s@ == structs_part(pm.structs.subrange(0, i as int)),
            decreases self.structs@.len() - i,
        {
            let t = self.structs[i].to_text();
            append(&mut s, t.as_str());
            append(&mut s, "\n\n");
            proof {
                let sub = pm.structs.subrange(0, i + 1);
                assert(sub.drop_last() =~= pm.structs.subrange(0, i as int));
                assert(sub.last() == struct_def_m(self.structs@[i as int]));
            }
            i = i + 1;
            assert(s@ =~= structs_part(pm.structs.subrange(0, i as int)));
        }
        assert(pm.structs.subrange(0, i as int) =~= pm.structs);
        let ghost a = s@;
        i = 0;
        while i < self.externs.len()
            invariant
                i <= self.externs@.len(),
                pm == program_m(*self),
                s@ == a + externs_part(pm.externs.subrange(0, i as int)),
            decreases self.externs@.len() - i,
        {
            let t = self.externs[i].to_text();
            append(&mut s, t.as_str());
            append(&mut s, "\n");
            proof {
                let sub = pm.externs.subrange(0, i + 1);
                assert(sub.drop_last() =~= pm.externs.subrange(0, i as int));
                assert(sub.last() == extern_m(self.externs@[i as int]));
            }
            i = i + 1;
            assert(s@ =~= a + externs_part(pm.externs.subrange(0, i as int)));
        }
        assert(pm.externs.subrange(0, i as int) =~= pm.externs);
        if self.externs.len() > 0 {
            append(&mut s, "\n");
        }
        let ghost b = s@;
        i = 0;
        while i < self.globals.len()
            invariant
                i <= self.globals@.len(),
                pm == program_m(*self),
                f == floats_m(fl@),
                s@ == b + globals_part(pm.globals.subrange(0, i as int), f),
            decreases self.globals@.len() - i,
        {
            let t = self.globals[i].to_text(fl);
            append(&mut s, t.as_str());
            append(&mut s, "\n");
            proof {
                let sub = pm.globals.subrange(0, i + 1);
                assert(sub.drop_last() =~= pm.globals.subrange(0, i as int));
                assert(sub.last() == global_m(self.globals@[i as int]));
            }
            i = i + 1;
            assert(s@ =~= b + globals_part(pm.globals.subrange(0, i as int), f));
        }
        assert(pm.globals.subrange(0, i as int) =~= pm.globals);
        if self.globals.len() > 0 {
            append(&mut s, "\n");
        }
        let ghost c = s@;
        i = 0;
        while i < self.functions.len()
            invariant
                i <= self.functions@.len(),
                pm == program_m(*self),
                f == floats_m(fl@),
                s@ == c + functions_part(pm.functions.subrange(0, i as int), f),
            decreases self.functions@.len() - i,
        {
            let t = self.functions[i].to_text(fl);
            append(&mut s, t.as_str());
            append(&mut s, "\n\n");
            proof {
                let sub = pm.functions.subrange(0, i + 1);
                assert(sub.drop_last() =~= pm.functions.subrange(0, i as int));
                assert(sub.last() == function_m(self.functions@[i as int]));
            }
            i = i + 1;
            assert(s@ =~= c + functions_part(pm.functions.subrange(0, i as int), f));
        }
        assert(pm.functions.subrange(0, i as int) =~= pm.functions);
        assert(s@ =~= program_text(pm, f));
        s
    }
}

} // verus!

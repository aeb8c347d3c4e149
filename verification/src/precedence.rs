//! How the expression grammar groups binary operators.
use vstd::prelude::*;
use crate::ast::{BinaryOp, ExprM, TypeM, UnaryOp};
use crate::laws::{spells_type, caps_valid, type_len, law_type_read_back};
use crate::ast::StmtM;
use crate::grammar::{
    tokens_wf, tk, adv, binary, sp_expr, sp_statement, sp_compound, sp_expect, sp_or, sp_or_rest, sp_and, sp_and_rest, sp_cmp, sp_cmp_rest, sp_add,
    sp_add_rest, sp_mul, sp_mul_rest, sp_unary, sp_cast, sp_cast_rest, sp_primary, is_struct_literal,
};
use crate::token::{Token, TokenType};

verus! {

/// The level of a binary operator, from the loosest: `||` 1, `&&` 2, comparisons 3,
/// `+ -` 4, and `* / % & | ^ << >>` 5.
pub open spec fn op_level(op: BinaryOp) -> nat {
    match op {
        BinaryOp::Or => 1,
        BinaryOp::And => 2,
        BinaryOp::Equal | BinaryOp::NotEqual | BinaryOp::Less | BinaryOp::Greater
        | BinaryOp::LessEqual | BinaryOp::GreaterEqual => 3,
        BinaryOp::Add | BinaryOp::Sub => 4,
        _ => 5,
    }
}

/// The token that writes a binary operator.
pub open spec fn op_token(op: BinaryOp) -> TokenType {
    match op {
        BinaryOp::Add => TokenType::Plus,
        BinaryOp::Sub => TokenType::Minus,
        BinaryOp::Mul => TokenType::Star,
        BinaryOp::Div => TokenType::Slash,
        BinaryOp::Mod => TokenType::Percent,
        BinaryOp::Equal => TokenType::Equal,
        BinaryOp::NotEqual => TokenType::NotEqual,
        BinaryOp::Less => TokenType::Less,
        BinaryOp::Greater => TokenType::Greater,
        BinaryOp::LessEqual => TokenType::LessEqual,
        BinaryOp::GreaterEqual => TokenType::GreaterEqual,
        BinaryOp::And => TokenType::And,
        BinaryOp::Or => TokenType::Or,
        BinaryOp::BitAnd => TokenType::Ampersand,
        BinaryOp::BitOr => TokenType::Pipe,
        BinaryOp::BitXor => TokenType::Caret,
        BinaryOp::Shl => TokenType::LShift,
        BinaryOp::Shr => TokenType::RShift,
    }
}

/// The level of the operator a token writes; 0 for a token that writes none.
pub open spec fn tok_level(t: TokenType) -> nat {
    match t {
        TokenType::Or => 1,
        TokenType::And => 2,
        TokenType::Equal | TokenType::NotEqual | TokenType::Less | TokenType::Greater
        | TokenType::LessEqual | TokenType::GreaterEqual => 3,
        TokenType::Plus | TokenType::Minus => 4,
        TokenType::Star | TokenType::Slash | TokenType::Percent | TokenType::Ampersand | TokenType::Pipe
        | TokenType::Caret | TokenType::LShift | TokenType::RShift => 5,
        _ => 0,
    }
}

/// A token that continues an operand after an identifier: a call, an index, a
/// struct literal, a cast or a field access.
pub open spec fn continues_operand(t: TokenType) -> bool {
    t is LBracket || t is LParen || t is LBrace || t is As || t is Dot
}

/// A token that ends an operand: it writes no operator and continues no operand.
pub open spec fn ends_operand(t: TokenType) -> bool {
    tok_level(t) == 0 && !continues_operand(t)
}

/// The variable named by an identifier token.
pub open spec fn ident(t: TokenType) -> ExprM {
    ExprM::Identifier(t->Identifier_0@)
}

/// The parser of the given level.
#[verifier::opaque]
spec fn at_level(k: nat, ts: Seq<Token>, q: int) -> crate::grammar::PRes<ExprM> {
    if k <= 1 { sp_or(ts, q) } else if k == 2 { sp_and(ts, q) } else if k == 3 { sp_cmp(ts, q) }
    else if k == 4 { sp_add(ts, q) } else { sp_mul(ts, q) }
}

/// The loop of the given level that takes `op operand` pairs after `l`.
#[verifier::opaque]
spec fn rest_at(k: nat, ts: Seq<Token>, q: int, l: ExprM) -> crate::grammar::PRes<ExprM> {
    if k <= 1 { sp_or_rest(ts, q, l) } else if k == 2 { sp_and_rest(ts, q, l) } else if k == 3 { sp_cmp_rest(ts, q, l) }
    else if k == 4 { sp_add_rest(ts, q, l) } else { sp_mul_rest(ts, q, l) }
}

/// An identifier followed by a token that ends an operand is an operand on its own.
proof fn lemma_atom(ts: Seq<Token>, q: int)
    requires
        tokens_wf(ts),
        0 <= q,
        q + 1 < ts.len(),
        tk(ts, q) is Identifier,
        !continues_operand(tk(ts, q + 1)),
    ensures
        sp_primary(ts, q) == Ok::<(ExprM, int), Seq<char>>((ident(tk(ts, q)), q + 1)),
        sp_unary(ts, q) == Ok::<(ExprM, int), Seq<char>>((ident(tk(ts, q)), q + 1)),
{
    assert(adv(ts, q) == q + 1);
    assert(!is_struct_literal(ts, q + 1, tk(ts, q)->Identifier_0@));
    assert(sp_primary(ts, q) == Ok::<(ExprM, int), Seq<char>>((ident(tk(ts, q)), q + 1)));
    assert(sp_cast_rest(ts, q + 1, ident(tk(ts, q))) == Ok::<(ExprM, int), Seq<char>>((ident(tk(ts, q)), q + 1)));
    assert(sp_cast(ts, q) == Ok::<(ExprM, int), Seq<char>>((ident(tk(ts, q)), q + 1)));
}

/// A level's loop stops before a token of another level.
proof fn lemma_rest_stop(k: nat, ts: Seq<Token>, q: int, l: ExprM)
    requires
        1 <= k <= 5,
        0 <= q < ts.len(),
        tok_level(tk(ts, q)) != k,
    ensures
        rest_at(k, ts, q, l) == Ok::<(ExprM, int), Seq<char>>((l, q)),
{
    reveal(rest_at);
    if k == 1 {
        assert(sp_or_rest(ts, q, l) == Ok::<(ExprM, int), Seq<char>>((l, q)));
    } else if k == 2 {
        assert(sp_and_rest(ts, q, l) == Ok::<(ExprM, int), Seq<char>>((l, q)));
    } else if k == 3 {
        assert(sp_cmp_rest(ts, q, l) == Ok::<(ExprM, int), Seq<char>>((l, q)));
    } else if k == 4 {
        assert(sp_add_rest(ts, q, l) == Ok::<(ExprM, int), Seq<char>>((l, q)));
    } else {
        assert(sp_mul_rest(ts, q, l) == Ok::<(ExprM, int), Seq<char>>((l, q)));
    }
}

/// The operator a token of some level writes.
spec fn tok_op(t: TokenType) -> BinaryOp {
    match t {
        TokenType::Or => BinaryOp::Or,
        TokenType::And => BinaryOp::And,
        TokenType::Equal => BinaryOp::Equal,
        TokenType::NotEqual => BinaryOp::NotEqual,
        TokenType::Less => BinaryOp::Less,
        TokenType::Greater => BinaryOp::Greater,
        TokenType::LessEqual => BinaryOp::LessEqual,
        TokenType::GreaterEqual => BinaryOp::GreaterEqual,
        TokenType::Plus => BinaryOp::Add,
        TokenType::Minus => BinaryOp::Sub,
        TokenType::Star => BinaryOp::Mul,
        TokenType::Slash => BinaryOp::Div,
        TokenType::Percent => BinaryOp::Mod,
        TokenType::Ampersand => BinaryOp::BitAnd,
        TokenType::Pipe => BinaryOp::BitOr,
        TokenType::Caret => BinaryOp::BitXor,
        TokenType::LShift => BinaryOp::Shl,
        _ => BinaryOp::Shr,
    }
}

/// The operand a level's loop reads after its operator.
#[verifier::opaque]
spec fn operand_at(k: nat, ts: Seq<Token>, q: int) -> crate::grammar::PRes<ExprM> {
    if k >= 5 { sp_unary(ts, q) } else { at_level(k + 1, ts, q) }
}

/// A level's loop takes one `op operand` pair when the operand is read.
proof fn lemma_rest_advance(k: nat, ts: Seq<Token>, q: int, l: ExprM, r: ExprM, q2: int)
    requires
        tokens_wf(ts),
        1 <= k <= 5,
        0 <= q,
        q + 1 < q2 <= ts.len(),
        tok_level(tk(ts, q)) == k,
        operand_at(k, ts, q + 1) == Ok::<(ExprM, int), Seq<char>>((r, q2)),
    ensures
        rest_at(k, ts, q, l) == rest_at(k, ts, q2, binary(l, tok_op(tk(ts, q)), r)),
{
    reveal(rest_at);
    reveal(operand_at);
    reveal(at_level);
    let e = binary(l, tok_op(tk(ts, q)), r);
    assert(adv(ts, q) == q + 1);
    if k == 1 {
        assert(sp_or_rest(ts, q, l) == sp_or_rest(ts, q2, e));
    } else if k == 2 {
        assert(sp_and_rest(ts, q, l) == sp_and_rest(ts, q2, e));
    } else if k == 3 {
        assert(sp_cmp_rest(ts, q, l) == sp_cmp_rest(ts, q2, e));
    } else if k == 4 {
        assert(sp_add_rest(ts, q, l) == sp_add_rest(ts, q2, e));
    } else {
        assert(sp_mul_rest(ts, q, l) == sp_mul_rest(ts, q2, e));
    }
}

/// A level's loop takes one `op operand` pair when the operand is read and ends
/// before a token that stops it.
proof fn lemma_rest_step(k: nat, ts: Seq<Token>, q: int, l: ExprM, r: ExprM, q2: int)
    requires
        tokens_wf(ts),
        1 <= k <= 5,
        0 <= q,
        q + 1 < q2 < ts.len(),
        tok_level(tk(ts, q)) == k,
        operand_at(k, ts, q + 1) == Ok::<(ExprM, int), Seq<char>>((r, q2)),
        tok_level(tk(ts, q2)) != k,
    ensures
        rest_at(k, ts, q, l) == Ok::<(ExprM, int), Seq<char>>((binary(l, tok_op(tk(ts, q)), r), q2)),
{
    lemma_rest_advance(k, ts, q, l, r, q2);
    lemma_rest_stop(k, ts, q2, binary(l, tok_op(tk(ts, q)), r));
}

/// A level's parser reads the operand below it, then its loop.
proof fn lemma_level(k: nat, ts: Seq<Token>, q: int, l: ExprM, q1: int)
    requires
        1 <= k <= 5,
        0 <= q < q1 <= ts.len(),
        (if k == 5 { sp_unary(ts, q) } else { at_level(k + 1, ts, q) }) == Ok::<(ExprM, int), Seq<char>>((l, q1)),
    ensures
        at_level(k, ts, q) == rest_at(k, ts, q1, l),
{
    reveal(rest_at);
    reveal(at_level);
    if k == 1 {
        assert(sp_or(ts, q) == sp_or_rest(ts, q1, l));
    } else if k == 2 {
        assert(sp_and(ts, q) == sp_and_rest(ts, q1, l));
    } else if k == 3 {
        assert(sp_cmp(ts, q) == sp_cmp_rest(ts, q1, l));
    } else if k == 4 {
        assert(sp_add(ts, q) == sp_add_rest(ts, q1, l));
    } else {
        assert(sp_mul(ts, q) == sp_mul_rest(ts, q1, l));
    }
}

/// An identifier followed by a token of a lower level (or none) is read alone at
/// level `k` and above.
#[verifier::spinoff_prover]
proof fn lemma_single(k: nat, ts: Seq<Token>, q: int)
    requires
        tokens_wf(ts),
        1 <= k <= 5,
        0 <= q,
        q + 1 < ts.len(),
        tk(ts, q) is Identifier,
        tok_level(tk(ts, q + 1)) < k,
        !continues_operand(tk(ts, q + 1)),
    ensures
        at_level(k, ts, q) == Ok::<(ExprM, int), Seq<char>>((ident(tk(ts, q)), q + 1)),
    decreases 5 - k,
{
    let a = ident(tk(ts, q));
    if k == 5 {
        lemma_atom(ts, q);
        lemma_level(5, ts, q, a, q + 1);
        lemma_rest_stop(5, ts, q + 1, a);
    } else {
        lemma_single((k + 1) as nat, ts, q);
        lemma_level(k, ts, q, a, q + 1);
        lemma_rest_stop(k, ts, q + 1, a);
    }
}

/// `b o c` followed by a token that ends an operand: read whole at the level of
/// `o` and below, as `b` alone above it.
proof fn lemma_two(k: nat, ts: Seq<Token>, q: int)
    requires
        tokens_wf(ts),
        1 <= k <= 5,
        0 <= q,
        q + 3 < ts.len(),
        tk(ts, q) is Identifier,
        tok_level(tk(ts, q + 1)) >= 1,
        tk(ts, q + 2) is Identifier,
        ends_operand(tk(ts, q + 3)),
    ensures
        at_level(k, ts, q) == Ok::<(ExprM, int), Seq<char>>(if k <= tok_level(tk(ts, q + 1)) {
            (binary(ident(tk(ts, q)), tok_op(tk(ts, q + 1)), ident(tk(ts, q + 2))), q + 3)
        } else {
            (ident(tk(ts, q)), q + 1)
        }),
    decreases 5 - k,
{
    let l2 = tok_level(tk(ts, q + 1));
    let b = ident(tk(ts, q));
    let c = ident(tk(ts, q + 2));
    let e = binary(b, tok_op(tk(ts, q + 1)), c);
    if k == 5 {
        lemma_atom(ts, q);
        lemma_level(5, ts, q, b, q + 1);
        if l2 == 5 {
            lemma_atom(ts, q + 2);
            assert(operand_at(5, ts, q + 2) == sp_unary(ts, q + 2)) by { reveal(operand_at); }
            lemma_rest_step(5, ts, q + 1, b, c, q + 3);
        } else {
            lemma_rest_stop(5, ts, q + 1, b);
        }
    } else {
        lemma_two((k + 1) as nat, ts, q);
        if k + 1 <= l2 {
            lemma_level(k, ts, q, e, q + 3);
            lemma_rest_stop(k, ts, q + 3, e);
        } else {
            lemma_level(k, ts, q, b, q + 1);
            if l2 == k {
                lemma_single((k + 1) as nat, ts, q + 2);
                assert(operand_at(k, ts, q + 2) == at_level((k + 1) as nat, ts, q + 2)) by { reveal(operand_at); }
                lemma_rest_step(k, ts, q + 1, b, c, q + 3);
            } else {
                lemma_rest_stop(k, ts, q + 1, b);
            }
        }
    }
}

/// What the parser of level `k` reads of `a o1 b o2 c`.
spec fn three_at(k: nat, ts: Seq<Token>, p: int) -> (ExprM, int) {
    let l1 = tok_level(tk(ts, p + 1));
    let l2 = tok_level(tk(ts, p + 3));
    let a = ident(tk(ts, p));
    let b = ident(tk(ts, p + 2));
    let c = ident(tk(ts, p + 4));
    let o1 = tok_op(tk(ts, p + 1));
    let o2 = tok_op(tk(ts, p + 3));
    if l1 >= l2 {
        if k <= l2 { (binary(binary(a, o1, b), o2, c), p + 5) }
        else if k <= l1 { (binary(a, o1, b), p + 3) }
        else { (a, p + 1) }
    } else {
        if k <= l1 { (binary(a, o1, binary(b, o2, c)), p + 5) }
        else { (a, p + 1) }
    }
}

proof fn lemma_three(k: nat, ts: Seq<Token>, p: int)
    requires
        tokens_wf(ts),
        1 <= k <= 5,
        0 <= p,
        p + 5 < ts.len(),
        tk(ts, p) is Identifier,
        tok_level(tk(ts, p + 1)) >= 1,
        tk(ts, p + 2) is Identifier,
        tok_level(tk(ts, p + 3)) >= 1,
        tk(ts, p + 4) is Identifier,
        ends_operand(tk(ts, p + 5)),
    ensures
        at_level(k, ts, p) == Ok::<(ExprM, int), Seq<char>>(three_at(k, ts, p)),
    decreases 5 - k,
{
    let l1 = tok_level(tk(ts, p + 1));
    let l2 = tok_level(tk(ts, p + 3));
    let a = ident(tk(ts, p));
    let b = ident(tk(ts, p + 2));
    let c = ident(tk(ts, p + 4));
    let o1 = tok_op(tk(ts, p + 1));
    let o2 = tok_op(tk(ts, p + 3));
    let ab = binary(a, o1, b);
    if k == 5 {
        lemma_atom(ts, p);
        lemma_level(5, ts, p, a, p + 1);
        if l1 == 5 {
            lemma_atom(ts, p + 2);
            assert(operand_at(5, ts, p + 2) == sp_unary(ts, p + 2)) by { reveal(operand_at); }
            if l2 == 5 {
                lemma_atom(ts, p + 4);
                assert(operand_at(5, ts, p + 4) == sp_unary(ts, p + 4)) by { reveal(operand_at); }
                lemma_rest_step(5, ts, p + 3, ab, c, p + 5);
                lemma_rest_advance(5, ts, p + 1, a, b, p + 3);
            } else {
                lemma_rest_step(5, ts, p + 1, a, b, p + 3);
            }
        } else {
            lemma_rest_stop(5, ts, p + 1, a);
        }
    } else {
        lemma_three((k + 1) as nat, ts, p);
        let prev = three_at((k + 1) as nat, ts, p);
        lemma_level(k, ts, p, prev.0, prev.1);
        if prev.1 == p + 5 {
            lemma_rest_stop(k, ts, p + 5, prev.0);
        } else if prev.1 == p + 3 {
            if l2 == k {
                lemma_single((k + 1) as nat, ts, p + 4);
                assert(operand_at(k, ts, p + 4) == at_level((k + 1) as nat, ts, p + 4)) by { reveal(operand_at); }
                lemma_rest_step(k, ts, p + 3, ab, c, p + 5);
            } else {
                lemma_rest_stop(k, ts, p + 3, ab);
            }
        } else {
            if l1 == k {
                lemma_two((k + 1) as nat, ts, p + 2);
                assert(operand_at(k, ts, p + 2) == at_level((k + 1) as nat, ts, p + 2)) by { reveal(operand_at); }
                if k + 1 <= l2 {
                    lemma_rest_step(k, ts, p + 1, a, binary(b, o2, c), p + 5);
                } else if l2 == k {
                    lemma_single((k + 1) as nat, ts, p + 4);
                    assert(operand_at(k, ts, p + 4) == at_level((k + 1) as nat, ts, p + 4)) by { reveal(operand_at); }
                    lemma_rest_step(k, ts, p + 3, ab, c, p + 5);
                    lemma_rest_advance(k, ts, p + 1, a, b, p + 3);
                } else {
                    lemma_rest_step(k, ts, p + 1, a, b, p + 3);
                }
            } else {
                lemma_rest_stop(k, ts, p + 1, a);
            }
        }
    }
}

/// Of two binary operators between three operands, the one of the higher level
/// binds tighter, and of two of one level the left one does: `a o1 b o2 c` reads
/// as `(a o1 b) o2 c` when `o1`'s level is at least `o2`'s, else as `a o1 (b o2 c)`.
pub proof fn law_binary_precedence(ts: Seq<Token>, p: int, o1: BinaryOp, o2: BinaryOp)
    requires
        tokens_wf(ts),
        0 <= p,
        p + 5 < ts.len(),
        tk(ts, p) is Identifier,
        tk(ts, p + 1) == op_token(o1),
        tk(ts, p + 2) is Identifier,
        tk(ts, p + 3) == op_token(o2),
        tk(ts, p + 4) is Identifier,
        ends_operand(tk(ts, p + 5)),
    ensures
        sp_expr(ts, p) == Ok::<(ExprM, int), Seq<char>>((
            if op_level(o1) >= op_level(o2) {
                binary(binary(ident(tk(ts, p)), o1, ident(tk(ts, p + 2))), o2, ident(tk(ts, p + 4)))
            } else {
                binary(ident(tk(ts, p)), o1, binary(ident(tk(ts, p + 2)), o2, ident(tk(ts, p + 4))))
            },
            p + 5,
        )),
{
    assert(tok_level(op_token(o1)) == op_level(o1) && tok_op(op_token(o1)) == o1);
    assert(tok_level(op_token(o2)) == op_level(o2) && tok_op(op_token(o2)) == o2);
    lemma_three(1, ts, p);
    assert(sp_expr(ts, p) == at_level(1, ts, p)) by { reveal(at_level); }
}

/// The token of a compound assignment and the operator it applies.
pub open spec fn compound_op(t: TokenType) -> Option<BinaryOp> {
    match t {
        TokenType::PlusAssign => Some(BinaryOp::Add),
        TokenType::MinusAssign => Some(BinaryOp::Sub),
        TokenType::StarAssign => Some(BinaryOp::Mul),
        TokenType::SlashAssign => Some(BinaryOp::Div),
        TokenType::PercentAssign => Some(BinaryOp::Mod),
        _ => None,
    }
}

/// `x op= e;` assigns `x op (e)` to `x`: the whole expression `e` is the right
/// operand, whatever operators it holds.
pub proof fn law_compound_assignment(ts: Seq<Token>, p: int, e: ExprM, q: int)
    requires
        tokens_wf(ts),
        0 <= p,
        p + 2 < ts.len(),
        tk(ts, p) is Identifier,
        compound_op(tk(ts, p + 1)) is Some,
        sp_expr(ts, p + 2) == Ok::<(ExprM, int), Seq<char>>((e, q)),
        0 <= q < ts.len(),
        tk(ts, q) is Semicolon,
    ensures
        sp_statement(ts, p) == Ok::<(StmtM, int), Seq<char>>((
            StmtM::Assign {
                name: tk(ts, p)->Identifier_0@,
                value: binary(ident(tk(ts, p)), compound_op(tk(ts, p + 1))->Some_0, e),
            },
            adv(ts, q),
        )),
{
    reveal(sp_compound);
    assert(adv(ts, p) == p + 1);
    assert(adv(ts, p + 1) == p + 2);
    assert(sp_expect(ts, q, TokenType::Semicolon) == Ok::<int, Seq<char>>(adv(ts, q)));
    assert(sp_compound(ts, p, compound_op(tk(ts, p + 1))->Some_0) == Ok::<(StmtM, int), Seq<char>>((
        StmtM::Assign {
            name: tk(ts, p)->Identifier_0@,
            value: binary(ident(tk(ts, p)), compound_op(tk(ts, p + 1))->Some_0, e),
        },
        adv(ts, q),
    )));
}

/// An operand read at the unary level, followed by a token of a lower level, is
/// read the same way at level `k` and above.
proof fn lemma_operand(k: nat, ts: Seq<Token>, p: int, e: ExprM, q: int)
    requires
        1 <= k <= 5,
        0 <= p < q < ts.len(),
        sp_unary(ts, p) == Ok::<(ExprM, int), Seq<char>>((e, q)),
        tok_level(tk(ts, q)) < k,
    ensures
        at_level(k, ts, p) == Ok::<(ExprM, int), Seq<char>>((e, q)),
    decreases 5 - k,
{
    if k < 5 {
        lemma_operand((k + 1) as nat, ts, p, e, q);
    }
    lemma_level(k, ts, p, e, q);
    lemma_rest_stop(k, ts, q, e);
}

/// What the top level reads at `p` is what the multiplicative level reads there,
/// when that ends before a token of no level.
proof fn lemma_lift(k: nat, ts: Seq<Token>, p: int, e: ExprM, q: int)
    requires
        1 <= k <= 5,
        0 <= p < q < ts.len(),
        at_level(5, ts, p) == Ok::<(ExprM, int), Seq<char>>((e, q)),
        tok_level(tk(ts, q)) == 0,
    ensures
        at_level(k, ts, p) == Ok::<(ExprM, int), Seq<char>>((e, q)),
    decreases 5 - k,
{
    if k < 5 {
        lemma_lift((k + 1) as nat, ts, p, e, q);
        lemma_level(k, ts, p, e, q);
        lemma_rest_stop(k, ts, q, e);
    }
}

/// A unary operator binds tighter than a multiplicative operator on its right
/// too: `a * -b` and `a * !b` read as `a * (-b)` and `a * (!b)`.
pub proof fn law_unary_right_operand(ts: Seq<Token>, p: int, o: BinaryOp)
    requires
        tokens_wf(ts),
        0 <= p,
        p + 4 < ts.len(),
        op_level(o) == 5,
        tk(ts, p) is Identifier,
        tk(ts, p + 1) == op_token(o),
        tk(ts, p + 2) is Minus || tk(ts, p + 2) is Bang,
        tk(ts, p + 3) is Identifier,
        ends_operand(tk(ts, p + 4)),
    ensures
        sp_expr(ts, p) == Ok::<(ExprM, int), Seq<char>>((
            binary(ident(tk(ts, p)), o, ExprM::Unary {
                op: if tk(ts, p + 2) is Bang { UnaryOp::Not } else { UnaryOp::Neg },
                operand: Box::new(ident(tk(ts, p + 3))),
            }),
            p + 4,
        )),
{
    assert(tok_level(op_token(o)) == op_level(o) && tok_op(op_token(o)) == o);
    let a = ident(tk(ts, p));
    let b = ident(tk(ts, p + 3));
    let u = ExprM::Unary { op: if tk(ts, p + 2) is Bang { UnaryOp::Not } else { UnaryOp::Neg }, operand: Box::new(b) };
    lemma_atom(ts, p);
    lemma_atom(ts, p + 3);
    assert(adv(ts, p + 2) == p + 3);
    assert(sp_unary(ts, p + 2) == Ok::<(ExprM, int), Seq<char>>((u, p + 4)));
    assert(operand_at(5, ts, p + 2) == sp_unary(ts, p + 2)) by { reveal(operand_at); }
    lemma_level(5, ts, p, a, p + 1);
    lemma_rest_step(5, ts, p + 1, a, u, p + 4);
    lemma_lift(1, ts, p, binary(a, o, u), p + 4);
    assert(sp_expr(ts, p) == at_level(1, ts, p)) by { reveal(at_level); }
}

/// A unary operator applies to a whole cast: `-x as T` and `!x as T` read as
/// `-(x as T)` and `!(x as T)`.
pub proof fn law_unary_applies_to_cast(ts: Seq<Token>, p: int, t: TypeM)
    requires
        tokens_wf(ts),
        0 <= p,
        tk(ts, p) is Minus || tk(ts, p) is Bang,
        tk(ts, p + 1) is Identifier,
        tk(ts, p + 2) is As,
        spells_type(ts, p + 3, t),
        caps_valid(t),
        p + 3 + type_len(t) < ts.len(),
        ends_operand(tk(ts, p + 3 + type_len(t))),
    ensures
        sp_expr(ts, p) == Ok::<(ExprM, int), Seq<char>>((
            ExprM::Unary {
                op: if tk(ts, p) is Bang { UnaryOp::Not } else { UnaryOp::Neg },
                operand: Box::new(ExprM::Cast { value: Box::new(ident(tk(ts, p + 1))), typ: t }),
            },
            p + 3 + type_len(t),
        )),
{
    let q = p + 3 + type_len(t);
    let x = ident(tk(ts, p + 1));
    let cast = ExprM::Cast { value: Box::new(x), typ: t };
    let u = ExprM::Unary { op: if tk(ts, p) is Bang { UnaryOp::Not } else { UnaryOp::Neg }, operand: Box::new(cast) };
    law_type_read_back(ts, p + 3, t);
    assert(adv(ts, p) == p + 1);
    assert(adv(ts, p + 1) == p + 2);
    assert(adv(ts, p + 2) == p + 3);
    assert(!is_struct_literal(ts, p + 2, tk(ts, p + 1)->Identifier_0@));
    assert(sp_primary(ts, p + 1) == Ok::<(ExprM, int), Seq<char>>((x, p + 2)));
    assert(sp_cast_rest(ts, q, cast) == Ok::<(ExprM, int), Seq<char>>((cast, q)));
    assert(sp_cast_rest(ts, p + 2, x) == Ok::<(ExprM, int), Seq<char>>((cast, q)));
    assert(sp_cast(ts, p + 1) == Ok::<(ExprM, int), Seq<char>>((cast, q)));
    assert(sp_unary(ts, p + 1) == Ok::<(ExprM, int), Seq<char>>((cast, q)));
    assert(sp_unary(ts, p) == Ok::<(ExprM, int), Seq<char>>((u, q)));
    lemma_operand(1, ts, p, u, q);
    assert(sp_expr(ts, p) == at_level(1, ts, p)) by { reveal(at_level); }
}

} // verus!

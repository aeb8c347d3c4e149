//! The grammar of Vit as functions on token sequences: each function reads from
//! position `p` and gives the model of what it recognised with the position just
//! after it, or the error message the parser reports.
//!
//! Every successful step consumes at least one token; the guards `q > p` that
//! stand before a recursive step keep the definitions well-founded and never fail
//! on what the parser actually meets (the parser proves that each of its steps
//! advances).
use vstd::prelude::*;
use crate::ast::{BinaryOp, ExprM, ParamM, StmtM, TypeM, UnaryOp, FunctionM, GlobalM, ExternM, StructM, ProgramM};
use crate::text::{nat_text, int_text, is_uppercase_char};
use crate::token::{Token, TokenType, kind_debug, same_kind};

verus! {

/// What a grammar function gives: the model and the next position, or a message.
pub type PRes<T> = Result<(T, int), Seq<char>>;

/// A token sequence as the parser expects it: not empty, ending with `Eof`.
pub open spec fn tokens_wf(ts: Seq<Token>) -> bool {
    ts.len() > 0 && ts[ts.len() - 1].typ is Eof
}

pub open spec fn tk(ts: Seq<Token>, p: int) -> TokenType {
    ts[p].typ
}

/// The last token is `Eof`, so a token that is not `Eof` is not the last one.
pub proof fn lemma_not_last(ts: Seq<Token>, p: int)
    requires
        tokens_wf(ts),
        0 <= p < ts.len(),
        !(ts[p].typ is Eof),
    ensures
        p < ts.len() - 1,
        adv(ts, p) == p + 1,
{
}

/// `q` is a position past `p` within the tokens (or just past their end).
pub open spec fn progressed(ts: Seq<Token>, p: int, q: int) -> bool {
    p < q && q <= ts.len()
}

/// The position after the token at `p`; the last token is never passed.
pub open spec fn adv(ts: Seq<Token>, p: int) -> int {
    if p < ts.len() - 1 { p + 1 } else { p }
}

/// The kind of the token `k` places after `p`, if there is one.
pub open spec fn peek_kind(ts: Seq<Token>, p: int, k: int) -> Option<TokenType> {
    if 0 <= p + k < ts.len() { Some(ts[p + k].typ) } else { None }
}

/// ` at LINE:COLUMN` for the token at `p`.
pub open spec fn at_text(ts: Seq<Token>, p: int) -> Seq<char> {
    " at "@ + nat_text(ts[p].line as nat) + ":"@ + nat_text(ts[p].column as nat)
}

pub open spec fn expected_msg(ts: Seq<Token>, p: int, k: TokenType) -> Seq<char> {
    "Expected "@ + kind_debug(k) + ", got "@ + kind_debug(tk(ts, p)) + at_text(ts, p)
}

pub open spec fn unexpected_msg(ts: Seq<Token>, p: int) -> Seq<char> {
    "Unexpected token "@ + kind_debug(tk(ts, p))
}

/// Consumes one token of kind `k` (payloads are not compared).
pub open spec fn sp_expect(ts: Seq<Token>, p: int, k: TokenType) -> Result<int, Seq<char>> {
    if same_kind(tk(ts, p), k) { Ok(adv(ts, p)) } else { Err(expected_msg(ts, p, k)) }
}

/// Whether `n` is a power of two, computed as the parser does.
pub open spec fn map_cap_ok(n: usize) -> bool {
    !(n == 0 || (n & ((n - 1) as usize)) != 0)
}

pub open spec fn sp_map_cap(ts: Seq<Token>, p: int) -> PRes<Option<usize>> {
    if tk(ts, p) is Semicolon {
        let p1 = adv(ts, p);
        match tk(ts, p1) {
            TokenType::IntLiteral(v) => {
                let n = v as usize;
                if !map_cap_ok(n) {
                    Err("Map capacity must be a power of 2, got "@ + nat_text(n as nat) + at_text(ts, p1))
                } else {
                    match sp_expect(ts, adv(ts, p1), TokenType::RBracket) {
                        Ok(p2) => Ok((Some(n), p2)),
                        Err(e) => Err(e),
                    }
                }
            },
            _ => Err("Expected integer capacity after ';' in map type, got "@ + kind_debug(tk(ts, p1)) + at_text(ts, p1)),
        }
    } else {
        match sp_expect(ts, p, TokenType::RBracket) {
            Ok(p2) => Ok((None, p2)),
            Err(e) => Err(e),
        }
    }
}

pub open spec fn sp_type(ts: Seq<Token>, p: int) -> PRes<TypeM>
    decreases ts.len() - p,
{
    if p < 0 || p >= ts.len() {
        Err(Seq::empty())
    } else {
        match tk(ts, p) {
            TokenType::I32 => Ok((TypeM::I32, adv(ts, p))),
            TokenType::I64 => Ok((TypeM::I64, adv(ts, p))),
            TokenType::F32 => Ok((TypeM::F32, adv(ts, p))),
            TokenType::F64 => Ok((TypeM::F64, adv(ts, p))),
            TokenType::Bool => Ok((TypeM::Bool, adv(ts, p))),
            TokenType::Str => Ok((TypeM::Str, adv(ts, p))),
            TokenType::Void => Ok((TypeM::Void, adv(ts, p))),
            TokenType::LBracket => {
                let p1 = adv(ts, p);
                if !progressed(ts, p, p1) {
                    Err(Seq::empty())
                } else {
                    match sp_type(ts, p1) {
                        Err(e) => Err(e),
                        Ok((element, p2)) => match sp_expect(ts, p2, TokenType::Semicolon) {
                            Err(e) => Err(e),
                            Ok(p3) => match tk(ts, p3) {
                                TokenType::IntLiteral(n) => match sp_expect(ts, adv(ts, p3), TokenType::RBracket) {
                                    Err(e) => Err(e),
                                    Ok(p4) => Ok((TypeM::Array { element: Box::new(element), size: n as usize }, p4)),
                                },
                                _ => Err("Expected array size (integer literal)"@),
                            },
                        },
                    }
                }
            },
            TokenType::KwMap => {
                match sp_expect(ts, adv(ts, p), TokenType::LBracket) {
                    Err(e) => Err(e),
                    Ok(p1) => if !progressed(ts, p, p1) {
                        Err(Seq::empty())
                    } else {
                        match sp_type(ts, p1) {
                            Err(e) => Err(e),
                            Ok((key, p2)) => match sp_expect(ts, p2, TokenType::Comma) {
                                Err(e) => Err(e),
                                Ok(p3) => if !progressed(ts, p, p3) {
                                    Err(Seq::empty())
                                } else {
                                    match sp_type(ts, p3) {
                                        Err(e) => Err(e),
                                        Ok((value, p4)) => match sp_map_cap(ts, p4) {
                                            Err(e) => Err(e),
                                            Ok((cap, p5)) => Ok((
                                                TypeM::HashMap { key: Box::new(key), value: Box::new(value), cap },
                                                p5,
                                            )),
                                        },
                                    }
                                },
                            },
                        }
                    },
                }
            },
            TokenType::Identifier(s) => Ok((TypeM::Struct(s@), adv(ts, p))),
            _ => Err("Expected type, got "@ + kind_debug(tk(ts, p)) + at_text(ts, p)),
        }
    }
}

/// Where the map-capacity parser stands when it fails: on the token it refused.
pub open spec fn map_cap_err_at(ts: Seq<Token>, p: int) -> int {
    if tk(ts, p) is Semicolon {
        let p1 = adv(ts, p);
        match tk(ts, p1) {
            TokenType::IntLiteral(v) => if !map_cap_ok(v as usize) { p1 } else { adv(ts, p1) },
            _ => p1,
        }
    } else {
        p
    }
}

/// Where the type parser stands when it fails: on the token it refused, after
/// what it read before it.
pub open spec fn type_err_at(ts: Seq<Token>, p: int) -> int
    decreases ts.len() - p,
{
    if p < 0 || p >= ts.len() {
        p
    } else {
        match tk(ts, p) {
            TokenType::LBracket => {
                let p1 = adv(ts, p);
                if !progressed(ts, p, p1) {
                    p1
                } else {
                    match sp_type(ts, p1) {
                        Err(_) => type_err_at(ts, p1),
                        Ok((_, p2)) => match sp_expect(ts, p2, TokenType::Semicolon) {
                            Err(_) => p2,
                            Ok(p3) => match tk(ts, p3) {
                                TokenType::IntLiteral(_) => adv(ts, p3),
                                _ => p3,
                            },
                        },
                    }
                }
            },
            TokenType::KwMap => match sp_expect(ts, adv(ts, p), TokenType::LBracket) {
                Err(_) => adv(ts, p),
                Ok(p1) => if !progressed(ts, p, p1) {
                    p1
                } else {
                    match sp_type(ts, p1) {
                        Err(_) => type_err_at(ts, p1),
                        Ok((_, p2)) => match sp_expect(ts, p2, TokenType::Comma) {
                            Err(_) => p2,
                            Ok(p3) => if !progressed(ts, p, p3) {
                                p3
                            } else {
                                match sp_type(ts, p3) {
                                    Err(_) => type_err_at(ts, p3),
                                    Ok((_, p4)) => map_cap_err_at(ts, p4),
                                }
                            },
                        },
                    }
                },
            },
            _ => p,
        }
    }
}

/// Parameters `name: type, ...` up to (not including) `)`, appended to `acc`.
pub open spec fn sp_params(ts: Seq<Token>, p: int, acc: Seq<ParamM>) -> PRes<Seq<ParamM>>
    decreases ts.len() - p,
{
    if tk(ts, p) is RParen {
        Ok((acc, p))
    } else {
        match tk(ts, p) {
            TokenType::Identifier(name) => match sp_expect(ts, adv(ts, p), TokenType::Colon) {
                Err(e) => Err(e),
                Ok(p1) => if !progressed(ts, p, p1) {
                    Err(Seq::empty())
                } else {
                    match sp_type(ts, p1) {
                        Err(e) => Err(e),
                        Ok((t, p2)) => {
                            let acc2 = acc.push((name@, t));
                            if tk(ts, p2) is RParen {
                                Ok((acc2, p2))
                            } else {
                                match sp_expect(ts, p2, TokenType::Comma) {
                                    Err(e) => Err(e),
                                    Ok(p3) => if !progressed(ts, p, p3) { Err(Seq::empty()) } else { sp_params(ts, p3, acc2) },
                                }
                            }
                        },
                    }
                },
            },
            _ => Err("Expected parameter name"@),
        }
    }
}

/// Struct fields `name: type,` up to `}` or `Eof`, appended to `acc`.
pub open spec fn sp_fields(ts: Seq<Token>, p: int, acc: Seq<ParamM>) -> PRes<Seq<ParamM>>
    decreases ts.len() - p,
{
    if tk(ts, p) is RBrace || tk(ts, p) is Eof {
        Ok((acc, p))
    } else {
        match tk(ts, p) {
            TokenType::Identifier(name) => match sp_expect(ts, adv(ts, p), TokenType::Colon) {
                Err(e) => Err(e),
                Ok(p1) => if !progressed(ts, p, p1) {
                    Err(Seq::empty())
                } else {
                    match sp_type(ts, p1) {
                        Err(e) => Err(e),
                        Ok((t, p2)) => {
                            let p3 = if tk(ts, p2) is Comma { adv(ts, p2) } else { p2 };
                            if !progressed(ts, p, p3) { Err(Seq::empty()) } else { sp_fields(ts, p3, acc.push((name@, t))) }
                        },
                    }
                },
            },
            _ => Err("Expected field name in struct definition"@),
        }
    }
}

/// `struct Name { fields }`
#[verifier::opaque]
pub open spec fn sp_struct_def(ts: Seq<Token>, p: int) -> PRes<StructM> {
    match sp_expect(ts, p, TokenType::Struct) {
        Err(e) => Err(e),
        Ok(p1) => match tk(ts, p1) {
            TokenType::Identifier(name) => match sp_expect(ts, adv(ts, p1), TokenType::LBrace) {
                Err(e) => Err(e),
                Ok(p2) => sp_struct_body(ts, p2, name@),
            },
            _ => Err("Expected struct name after 'struct'"@),
        },
    }
}

/// The fields and closing `}` of a struct definition named `name`.
pub open spec fn sp_struct_body(ts: Seq<Token>, p: int, name: Seq<char>) -> PRes<StructM> {
    match sp_fields(ts, p, Seq::empty()) {
        Err(e) => Err(e),
        Ok((fields, p3)) => match sp_expect(ts, p3, TokenType::RBrace) {
            Err(e) => Err(e),
            Ok(p4) => Ok((StructM { name, fields }, p4)),
        },
    }
}

/// `extern fn name(params) -> type;`
#[verifier::opaque]
pub open spec fn sp_extern(ts: Seq<Token>, p: int) -> PRes<ExternM> {
    match sp_expect(ts, p, TokenType::Extern) {
        Err(e) => Err(e),
        Ok(p1) => match sp_expect(ts, p1, TokenType::Fn) {
            Err(e) => Err(e),
            Ok(p2) => match tk(ts, p2) {
                TokenType::Identifier(name) => match sp_expect(ts, adv(ts, p2), TokenType::LParen) {
                    Err(e) => Err(e),
                    Ok(p3) => match sp_params(ts, p3, Seq::empty()) {
                        Err(e) => Err(e),
                        Ok((parameters, p4)) => match sp_expect(ts, p4, TokenType::RParen) {
                            Err(e) => Err(e),
                            Ok(p5) => match sp_expect(ts, p5, TokenType::Arrow) {
                                Err(e) => Err(e),
                                Ok(p6) => match sp_type(ts, p6) {
                                    Err(e) => Err(e),
                                    Ok((return_type, p7)) => match sp_expect(ts, p7, TokenType::Semicolon) {
                                        Err(e) => Err(e),
                                        Ok(p8) => Ok((ExternM { name: name@, parameters, return_type }, p8)),
                                    },
                                },
                            },
                        },
                    },
                },
                _ => Err("Expected function name after 'extern fn'"@),
            },
        },
    }
}

} // verus!

verus! {

/// The operator a multiplicative-level token stands for.
pub open spec fn mul_op(t: TokenType) -> Option<BinaryOp> {
    match t {
        TokenType::Star => Some(BinaryOp::Mul),
        TokenType::Slash => Some(BinaryOp::Div),
        TokenType::Percent => Some(BinaryOp::Mod),
        TokenType::Ampersand => Some(BinaryOp::BitAnd),
        TokenType::Pipe => Some(BinaryOp::BitOr),
        TokenType::Caret => Some(BinaryOp::BitXor),
        TokenType::LShift => Some(BinaryOp::Shl),
        TokenType::RShift => Some(BinaryOp::Shr),
        _ => None,
    }
}

/// The operator an additive-level token stands for.
pub open spec fn add_op(t: TokenType) -> Option<BinaryOp> {
    match t {
        TokenType::Plus => Some(BinaryOp::Add),
        TokenType::Minus => Some(BinaryOp::Sub),
        _ => None,
    }
}

/// The operator a comparison token stands for.
pub open spec fn cmp_op(t: TokenType) -> Option<BinaryOp> {
    match t {
        TokenType::Equal => Some(BinaryOp::Equal),
        TokenType::NotEqual => Some(BinaryOp::NotEqual),
        TokenType::Less => Some(BinaryOp::Less),
        TokenType::Greater => Some(BinaryOp::Greater),
        TokenType::LessEqual => Some(BinaryOp::LessEqual),
        TokenType::GreaterEqual => Some(BinaryOp::GreaterEqual),
        _ => None,
    }
}

pub open spec fn binary(l: ExprM, op: BinaryOp, r: ExprM) -> ExprM {
    ExprM::Binary { left: Box::new(l), op, right: Box::new(r) }
}

/// After an identifier, at `p`: `Name { }` or `Name { field: ...` with an uppercase first letter.
pub open spec fn is_struct_literal(ts: Seq<Token>, p: int, name: Seq<char>) -> bool {
    &&& tk(ts, p) is LBrace
    &&& name.len() > 0 && is_uppercase_char(name[0])
    &&& (peek_kind(ts, p, 1) matches Some(k) && (k is RBrace || k is Identifier))
    &&& ((peek_kind(ts, p, 1) matches Some(k) && k is RBrace) || (peek_kind(ts, p, 2) matches Some(k) && k is Colon))
}

pub open spec fn array_list_msg() -> Seq<char> {
    "Expected ',' or ']' in array literal"@
}

pub open spec fn call_list_msg() -> Seq<char> {
    "Expected ',' or ')' in function call"@
}

/// `expr` (rank 20 of the measure used by the expression grammar).
pub open spec fn sp_expr(ts: Seq<Token>, p: int) -> PRes<ExprM>
    decreases ts.len() - p, 20nat,
{
    sp_or(ts, p)
}

pub open spec fn sp_or(ts: Seq<Token>, p: int) -> PRes<ExprM>
    decreases ts.len() - p, 19nat,
{
    match sp_and(ts, p) {
        Err(e) => Err(e),
        Ok((l, p1)) => if !progressed(ts, p, p1) { Err(Seq::empty()) } else { sp_or_rest(ts, p1, l) },
    }
}

pub open spec fn sp_or_rest(ts: Seq<Token>, p: int, l: ExprM) -> PRes<ExprM>
    decreases ts.len() - p, 18nat,
{
    if tk(ts, p) is Or {
        let p1 = adv(ts, p);
        if !progressed(ts, p, p1) {
            Err(Seq::empty())
        } else {
            match sp_and(ts, p1) {
                Err(e) => Err(e),
                Ok((r, p2)) => if !progressed(ts, p, p2) {
                    Err(Seq::empty())
                } else {
                    sp_or_rest(ts, p2, binary(l, BinaryOp::Or, r))
                },
            }
        }
    } else {
        Ok((l, p))
    }
}

pub open spec fn sp_and(ts: Seq<Token>, p: int) -> PRes<ExprM>
    decreases ts.len() - p, 17nat,
{
    match sp_cmp(ts, p) {
        Err(e) => Err(e),
        Ok((l, p1)) => if !progressed(ts, p, p1) { Err(Seq::empty()) } else { sp_and_rest(ts, p1, l) },
    }
}

pub open spec fn sp_and_rest(ts: Seq<Token>, p: int, l: ExprM) -> PRes<ExprM>
    decreases ts.len() - p, 16nat,
{
    if tk(ts, p) is And {
        let p1 = adv(ts, p);
        if !progressed(ts, p, p1) {
            Err(Seq::empty())
        } else {
            match sp_cmp(ts, p1) {
                Err(e) => Err(e),
                Ok((r, p2)) => if !progressed(ts, p, p2) {
                    Err(Seq::empty())
                } else {
                    sp_and_rest(ts, p2, binary(l, BinaryOp::And, r))
                },
            }
        }
    } else {
        Ok((l, p))
    }
}

pub open spec fn sp_cmp(ts: Seq<Token>, p: int) -> PRes<ExprM>
    decreases ts.len() - p, 15nat,
{
    match sp_add(ts, p) {
        Err(e) => Err(e),
        Ok((l, p1)) => if !progressed(ts, p, p1) { Err(Seq::empty()) } else { sp_cmp_rest(ts, p1, l) },
    }
}

pub open spec fn sp_cmp_rest(ts: Seq<Token>, p: int, l: ExprM) -> PRes<ExprM>
    decreases ts.len() - p, 14nat,
{
    match cmp_op(tk(ts, p)) {
        Some(op) => {
            let p1 = adv(ts, p);
            if !progressed(ts, p, p1) {
                Err(Seq::empty())
            } else {
                match sp_add(ts, p1) {
                    Err(e) => Err(e),
                    Ok((r, p2)) => if !progressed(ts, p, p2) {
                        Err(Seq::empty())
                    } else {
                        sp_cmp_rest(ts, p2, binary(l, op, r))
                    },
                }
            }
        },
        None => Ok((l, p)),
    }
}

pub open spec fn sp_add(ts: Seq<Token>, p: int) -> PRes<ExprM>
    decreases ts.len() - p, 13nat,
{
    match sp_mul(ts, p) {
        Err(e) => Err(e),
        Ok((l, p1)) => if !progressed(ts, p, p1) { Err(Seq::empty()) } else { sp_add_rest(ts, p1, l) },
    }
}

pub open spec fn sp_add_rest(ts: Seq<Token>, p: int, l: ExprM) -> PRes<ExprM>
    decreases ts.len() - p, 12nat,
{
    match add_op(tk(ts, p)) {
        Some(op) => {
            let p1 = adv(ts, p);
            if !progressed(ts, p, p1) {
                Err(Seq::empty())
            } else {
                match sp_mul(ts, p1) {
                    Err(e) => Err(e),
                    Ok((r, p2)) => if !progressed(ts, p, p2) {
                        Err(Seq::empty())
                    } else {
                        sp_add_rest(ts, p2, binary(l, op, r))
                    },
                }
            }
        },
        None => Ok((l, p)),
    }
}

pub open spec fn sp_mul(ts: Seq<Token>, p: int) -> PRes<ExprM>
    decreases ts.len() - p, 11nat,
{
    match sp_unary(ts, p) {
        Err(e) => Err(e),
        Ok((l, p1)) => if !progressed(ts, p, p1) { Err(Seq::empty()) } else { sp_mul_rest(ts, p1, l) },
    }
}

/// The right operand of a multiplicative operator is a unary expression, so that
/// `-`, `!` and `as` bind tighter than `*`, `/`, `%` on both sides.
pub open spec fn sp_mul_rest(ts: Seq<Token>, p: int, l: ExprM) -> PRes<ExprM>
    decreases ts.len() - p, 10nat,
{
    match mul_op(tk(ts, p)) {
        Some(op) => {
            let p1 = adv(ts, p);
            if !progressed(ts, p, p1) {
                Err(Seq::empty())
            } else {
                match sp_unary(ts, p1) {
                    Err(e) => Err(e),
                    Ok((r, p2)) => if !progressed(ts, p, p2) {
                        Err(Seq::empty())
                    } else {
                        sp_mul_rest(ts, p2, binary(l, op, r))
                    },
                }
            }
        },
        None => Ok((l, p)),
    }
}

pub open spec fn sp_unary(ts: Seq<Token>, p: int) -> PRes<ExprM>
    decreases ts.len() - p, 9nat,
{
    if tk(ts, p) is Bang || tk(ts, p) is Minus {
        let op = if tk(ts, p) is Bang { UnaryOp::Not } else { UnaryOp::Neg };
        let p1 = adv(ts, p);
        if !progressed(ts, p, p1) {
            Err(Seq::empty())
        } else {
            match sp_unary(ts, p1) {
                Err(e) => Err(e),
                Ok((o, p2)) => Ok((ExprM::Unary { op, operand: Box::new(o) }, p2)),
            }
        }
    } else {
        sp_cast(ts, p)
    }
}

pub open spec fn sp_cast(ts: Seq<Token>, p: int) -> PRes<ExprM>
    decreases ts.len() - p, 8nat,
{
    match sp_primary(ts, p) {
        Err(e) => Err(e),
        Ok((e, p1)) => if !progressed(ts, p, p1) { Err(Seq::empty()) } else { sp_cast_rest(ts, p1, e) },
    }
}

/// Postfix `as TYPE` and `.field`, applied left to right.
pub open spec fn sp_cast_rest(ts: Seq<Token>, p: int, e: ExprM) -> PRes<ExprM>
    decreases ts.len() - p, 7nat,
{
    if tk(ts, p) is As {
        let p1 = adv(ts, p);
        if !progressed(ts, p, p1) {
            Err(Seq::empty())
        } else {
            match sp_type(ts, p1) {
                Err(m) => Err(m),
                Ok((t, p2)) => if !progressed(ts, p, p2) {
                    Err(Seq::empty())
                } else {
                    sp_cast_rest(ts, p2, ExprM::Cast { value: Box::new(e), typ: t })
                },
            }
        }
    } else if tk(ts, p) is Dot {
        let p1 = adv(ts, p);
        match tk(ts, p1) {
            TokenType::Identifier(f) => {
                let p2 = adv(ts, p1);
                if !progressed(ts, p, p2) {
                    Err(Seq::empty())
                } else {
                    sp_cast_rest(ts, p2, ExprM::FieldAccess { object: Box::new(e), field: f@ })
                }
            },
            _ => Err("Expected field name after '.'"@),
        }
    } else {
        Ok((e, p))
    }
}

/// Comma-separated expressions up to a token of kind `close` (not consumed).
pub open spec fn sp_list(ts: Seq<Token>, p: int, acc: Seq<ExprM>, close: TokenType, msg: Seq<char>) -> PRes<Seq<ExprM>>
    decreases ts.len() - p, 21nat,
{
    if same_kind(tk(ts, p), close) {
        Ok((acc, p))
    } else {
        match sp_expr(ts, p) {
            Err(e) => Err(e),
            Ok((e, p1)) => if !progressed(ts, p, p1) {
                Err(Seq::empty())
            } else if tk(ts, p1) is Comma {
                sp_list(ts, adv(ts, p1), acc.push(e), close, msg)
            } else if same_kind(tk(ts, p1), close) {
                sp_list(ts, p1, acc.push(e), close, msg)
            } else {
                Err(msg)
            },
        }
    }
}

/// `field: expr,` pairs of a struct literal, up to `}` or `Eof`.
pub open spec fn sp_lit_fields(ts: Seq<Token>, p: int, acc: Seq<(Seq<char>, ExprM)>) -> PRes<Seq<(Seq<char>, ExprM)>>
    decreases ts.len() - p, 21nat,
{
    if tk(ts, p) is RBrace || tk(ts, p) is Eof {
        Ok((acc, p))
    } else {
        match tk(ts, p) {
            TokenType::Identifier(f) => match sp_expect(ts, adv(ts, p), TokenType::Colon) {
                Err(e) => Err(e),
                Ok(p1) => if !progressed(ts, p, p1) {
                    Err(Seq::empty())
                } else {
                    match sp_expr(ts, p1) {
                        Err(e) => Err(e),
                        Ok((v, p2)) => {
                            let p3 = if tk(ts, p2) is Comma { adv(ts, p2) } else { p2 };
                            if !progressed(ts, p, p3) {
                                Err(Seq::empty())
                            } else {
                                sp_lit_fields(ts, p3, acc.push((f@, v)))
                            }
                        },
                    }
                },
            },
            _ => Err("Expected field name in struct literal"@),
        }
    }
}

pub open spec fn sp_primary(ts: Seq<Token>, p: int) -> PRes<ExprM>
    decreases ts.len() - p, 6nat,
{
    if p < 0 || p >= ts.len() {
        Err(Seq::empty())
    } else {
        match tk(ts, p) {
            TokenType::IntLiteral(n) => Ok((ExprM::IntLiteral(n), adv(ts, p))),
            TokenType::FloatLiteral(b) => Ok((ExprM::FloatLiteral(b), adv(ts, p))),
            TokenType::LBracket => {
                let p1 = adv(ts, p);
                if !progressed(ts, p, p1) {
                    Err(Seq::empty())
                } else {
                    match sp_list(ts, p1, Seq::empty(), TokenType::RBracket, array_list_msg()) {
                        Err(e) => Err(e),
                        Ok((es, p2)) => match sp_expect(ts, p2, TokenType::RBracket) {
                            Err(e) => Err(e),
                            Ok(p3) => Ok((ExprM::ArrayLiteral(es), p3)),
                        },
                    }
                }
            },
            TokenType::True => Ok((ExprM::BoolLiteral(true), adv(ts, p))),
            TokenType::False => Ok((ExprM::BoolLiteral(false), adv(ts, p))),
            TokenType::StringLiteral(s) => Ok((ExprM::StringLiteral(s@), adv(ts, p))),
            TokenType::Identifier(s) => {
                let name = s@;
                let p1 = adv(ts, p);
                let p2 = adv(ts, p1);
                if tk(ts, p1) is LBracket {
                    if !progressed(ts, p, p2) {
                        Err(Seq::empty())
                    } else {
                        match sp_expr(ts, p2) {
                            Err(e) => Err(e),
                            Ok((ix, p3)) => match sp_expect(ts, p3, TokenType::RBracket) {
                                Err(e) => Err(e),
                                Ok(p4) => Ok((ExprM::Index { name, index: Box::new(ix) }, p4)),
                            },
                        }
                    }
                } else if tk(ts, p1) is LParen {
                    if !progressed(ts, p, p2) {
                        Err(Seq::empty())
                    } else {
                        match sp_list(ts, p2, Seq::empty(), TokenType::RParen, call_list_msg()) {
                            Err(e) => Err(e),
                            Ok((args, p3)) => match sp_expect(ts, p3, TokenType::RParen) {
                                Err(e) => Err(e),
                                Ok(p4) => Ok((ExprM::Call { name, arguments: args }, p4)),
                            },
                        }
                    }
                } else if is_struct_literal(ts, p1, name) {
                    if !progressed(ts, p, p2) {
                        Err(Seq::empty())
                    } else {
                        match sp_lit_fields(ts, p2, Seq::empty()) {
                            Err(e) => Err(e),
                            Ok((fields, p3)) => match sp_expect(ts, p3, TokenType::RBrace) {
                                Err(e) => Err(e),
                                Ok(p4) => Ok((ExprM::StructLiteral { name, fields }, p4)),
                            },
                        }
                    }
                } else {
                    Ok((ExprM::Identifier(name), p1))
                }
            },
            TokenType::LParen => {
                let p1 = adv(ts, p);
                if !progressed(ts, p, p1) {
                    Err(Seq::empty())
                } else {
                    match sp_expr(ts, p1) {
                        Err(e) => Err(e),
                        Ok((e, p2)) => match sp_expect(ts, p2, TokenType::RParen) {
                            Err(m) => Err(m),
                            Ok(p3) => Ok((e, p3)),
                        },
                    }
                }
            },
            _ => Err(unexpected_msg(ts, p)),
        }
    }
}

} // verus!

verus! {

/// `let name: type [= expr];` as a statement.
#[verifier::opaque]
pub open spec fn sp_var_decl(ts: Seq<Token>, p: int) -> PRes<StmtM> {
    match sp_expect(ts, p, TokenType::Let) {
        Err(e) => Err(e),
        Ok(p1) => match tk(ts, p1) {
            TokenType::Identifier(name) => match sp_expect(ts, adv(ts, p1), TokenType::Colon) {
                Err(e) => Err(e),
                Ok(p3) => match sp_type(ts, p3) {
                    Err(e) => Err(e),
                    Ok((typ, p4)) => match sp_initializer(ts, p4) {
                        Err(e) => Err(e),
                        Ok((initializer, p5)) => Ok((StmtM::VariableDecl { name: name@, typ, initializer }, p5)),
                    },
                },
            },
            _ => Err("Expected variable name"@),
        },
    }
}

/// An optional `= expr`, then `;`.
pub open spec fn sp_initializer(ts: Seq<Token>, p: int) -> PRes<Option<ExprM>> {
    if tk(ts, p) is Assign {
        match sp_expr(ts, adv(ts, p)) {
            Err(e) => Err(e),
            Ok((e, p2)) => match sp_expect(ts, p2, TokenType::Semicolon) {
                Err(m) => Err(m),
                Ok(p3) => Ok((Some(e), p3)),
            },
        }
    } else {
        match sp_expect(ts, p, TokenType::Semicolon) {
            Err(m) => Err(m),
            Ok(p3) => Ok((None, p3)),
        }
    }
}

/// `return [expr];`
#[verifier::opaque]
pub open spec fn sp_return(ts: Seq<Token>, p: int) -> PRes<StmtM> {
    match sp_expect(ts, p, TokenType::Return) {
        Err(e) => Err(e),
        Ok(p1) => if tk(ts, p1) is Semicolon {
            match sp_expect(ts, p1, TokenType::Semicolon) {
                Err(m) => Err(m),
                Ok(p2) => Ok((StmtM::Return { value: None }, p2)),
            }
        } else {
            match sp_expr(ts, p1) {
                Err(e) => Err(e),
                Ok((v, p2)) => match sp_expect(ts, p2, TokenType::Semicolon) {
                    Err(m) => Err(m),
                    Ok(p3) => Ok((StmtM::Return { value: Some(v) }, p3)),
                },
            }
        },
    }
}

/// `input name[index];` or `input name: type;`
#[verifier::opaque]
pub open spec fn sp_input(ts: Seq<Token>, p: int) -> PRes<StmtM> {
    match sp_expect(ts, p, TokenType::Input) {
        Err(e) => Err(e),
        Ok(p1) => match tk(ts, p1) {
            TokenType::Identifier(name) => {
                let p2 = adv(ts, p1);
                if tk(ts, p2) is LBracket {
                    match sp_expr(ts, adv(ts, p2)) {
                        Err(e) => Err(e),
                        Ok((index, p3)) => match sp_expect(ts, p3, TokenType::RBracket) {
                            Err(m) => Err(m),
                            Ok(p4) => match sp_expect(ts, p4, TokenType::Semicolon) {
                                Err(m) => Err(m),
                                Ok(p5) => Ok((StmtM::InputIndex { name: name@, index }, p5)),
                            },
                        },
                    }
                } else {
                    match sp_expect(ts, p2, TokenType::Colon) {
                        Err(m) => Err(m),
                        Ok(p3) => match sp_type(ts, p3) {
                            Err(m) => Err(m),
                            Ok((typ, p4)) => match sp_expect(ts, p4, TokenType::Semicolon) {
                                Err(m) => Err(m),
                                Ok(p5) => Ok((StmtM::Input { name: name@, typ }, p5)),
                            },
                        },
                    }
                }
            },
            _ => Err("Expected variable name after 'input'"@),
        },
    }
}

/// The values of a `print` after the first: `, expr` repeated, then `;`.
pub open spec fn sp_print_rest(ts: Seq<Token>, p: int, acc: Seq<ExprM>) -> PRes<Seq<ExprM>>
    decreases ts.len() - p,
{
    if tk(ts, p) is Comma {
        let p1 = adv(ts, p);
        match sp_expr(ts, p1) {
            Err(e) => Err(e),
            Ok((v, p2)) => if !progressed(ts, p, p2) { Err(Seq::empty()) } else { sp_print_rest(ts, p2, acc.push(v)) },
        }
    } else {
        match sp_expect(ts, p, TokenType::Semicolon) {
            Err(m) => Err(m),
            Ok(q) => Ok((acc, q)),
        }
    }
}

/// `print expr, ..., expr;`
#[verifier::opaque]
pub open spec fn sp_print(ts: Seq<Token>, p: int) -> PRes<StmtM> {
    match sp_expect(ts, p, TokenType::Print) {
        Err(e) => Err(e),
        Ok(p1) => match sp_expr(ts, p1) {
            Err(e) => Err(e),
            Ok((v, p2)) => match sp_print_rest(ts, p2, seq![v]) {
                Err(e) => Err(e),
                Ok((values, p3)) => Ok((StmtM::Print { values }, p3)),
            },
        },
    }
}

/// `name = expr;`
#[verifier::opaque]
pub open spec fn sp_assign(ts: Seq<Token>, p: int) -> PRes<StmtM> {
    match tk(ts, p) {
        TokenType::Identifier(name) => match sp_expect(ts, adv(ts, p), TokenType::Assign) {
            Err(e) => Err(e),
            Ok(p2) => match sp_expr(ts, p2) {
                Err(e) => Err(e),
                Ok((value, p3)) => match sp_expect(ts, p3, TokenType::Semicolon) {
                    Err(m) => Err(m),
                    Ok(p4) => Ok((StmtM::Assign { name: name@, value }, p4)),
                },
            },
        },
        _ => Err("Expected variable name"@),
    }
}

/// `name[index] = expr;`
#[verifier::opaque]
pub open spec fn sp_index_assign(ts: Seq<Token>, p: int) -> PRes<StmtM> {
    match tk(ts, p) {
        TokenType::Identifier(name) => match sp_expect(ts, adv(ts, p), TokenType::LBracket) {
            Err(e) => Err(e),
            Ok(p2) => match sp_expr(ts, p2) {
                Err(e) => Err(e),
                Ok((index, p3)) => match sp_expect(ts, p3, TokenType::RBracket) {
                    Err(m) => Err(m),
                    Ok(p4) => match sp_expect(ts, p4, TokenType::Assign) {
                        Err(m) => Err(m),
                        Ok(p5) => match sp_expr(ts, p5) {
                            Err(e) => Err(e),
                            Ok((value, p6)) => match sp_expect(ts, p6, TokenType::Semicolon) {
                                Err(m) => Err(m),
                                Ok(p7) => Ok((StmtM::IndexAssign { name: name@, index, value }, p7)),
                            },
                        },
                    },
                },
            },
        },
        _ => Err("Expected array name"@),
    }
}

/// `name op= expr;`, which stands for `name = name op expr;`.
#[verifier::opaque]
pub open spec fn sp_compound(ts: Seq<Token>, p: int, op: BinaryOp) -> PRes<StmtM> {
    match tk(ts, p) {
        TokenType::Identifier(name) => match sp_expr(ts, adv(ts, adv(ts, p))) {
            Err(e) => Err(e),
            Ok((rhs, p3)) => match sp_expect(ts, p3, TokenType::Semicolon) {
                Err(m) => Err(m),
                Ok(p4) => Ok((
                    StmtM::Assign { name: name@, value: binary(ExprM::Identifier(name@), op, rhs) },
                    p4,
                )),
            },
        },
        _ => Err("Expected variable name"@),
    }
}

/// `expr;`
#[verifier::opaque]
pub open spec fn sp_expr_stmt(ts: Seq<Token>, p: int) -> PRes<StmtM> {
    match sp_expr(ts, p) {
        Err(e) => Err(e),
        Ok((e, p1)) => match sp_expect(ts, p1, TokenType::Semicolon) {
            Err(m) => Err(m),
            Ok(p2) => Ok((StmtM::Expr(e), p2)),
        },
    }
}

/// `.field` segments of an assignment target, appended to `acc`; at least one.
pub open spec fn sp_path(ts: Seq<Token>, p: int, acc: Seq<Seq<char>>) -> PRes<Seq<Seq<char>>>
    decreases ts.len() - p,
{
    match sp_expect(ts, p, TokenType::Dot) {
        Err(e) => Err(e),
        Ok(p1) => match tk(ts, p1) {
            TokenType::Identifier(seg) => {
                let p2 = adv(ts, p1);
                if tk(ts, p2) is Dot {
                    if !progressed(ts, p, p2) { Err(Seq::empty()) } else { sp_path(ts, p2, acc.push(seg@)) }
                } else {
                    Ok((acc.push(seg@), p2))
                }
            },
            _ => Err("Expected field name after '.'"@),
        },
    }
}

/// `name.field. ... .field = expr;`
#[verifier::opaque]
pub open spec fn sp_field_assign(ts: Seq<Token>, p: int) -> PRes<StmtM> {
    match tk(ts, p) {
        TokenType::Identifier(first) => match sp_path(ts, adv(ts, p), seq![first@]) {
            Err(e) => Err(e),
            Ok((path, p2)) => match sp_expect(ts, p2, TokenType::Assign) {
                Err(m) => Err(m),
                Ok(p3) => match sp_expr(ts, p3) {
                    Err(e) => Err(e),
                    Ok((value, p4)) => match sp_expect(ts, p4, TokenType::Semicolon) {
                        Err(m) => Err(m),
                        Ok(p5) => Ok((StmtM::FieldAssign { path, value }, p5)),
                    },
                },
            },
        },
        _ => Err("Expected object name"@),
    }
}

/// `break;` or `continue;`: the keyword, then `;`.
#[verifier::opaque]
pub open spec fn sp_jump(ts: Seq<Token>, p: int, s: StmtM) -> PRes<StmtM> {
    match sp_expect(ts, adv(ts, p), TokenType::Semicolon) {
        Err(m) => Err(m),
        Ok(p2) => Ok((s, p2)),
    }
}

/// Statements up to `}` or `Eof` (not consumed), appended to `acc`.
pub open spec fn sp_stmts(ts: Seq<Token>, p: int, acc: Seq<StmtM>) -> PRes<Seq<StmtM>>
    decreases ts.len() - p, 3nat,
{
    if p < 0 || p >= ts.len() {
        Err(Seq::empty())
    } else if tk(ts, p) is RBrace || tk(ts, p) is Eof {
        Ok((acc, p))
    } else {
        match sp_statement(ts, p) {
            Err(e) => Err(e),
            Ok((s, p1)) => if !progressed(ts, p, p1) { Err(Seq::empty()) } else { sp_stmts(ts, p1, acc.push(s)) },
        }
    }
}

/// One statement, chosen by its first token (and, after an identifier, the next one).
pub open spec fn sp_statement(ts: Seq<Token>, p: int) -> PRes<StmtM>
    decreases ts.len() - p, 2nat,
{
    if p < 0 || p >= ts.len() {
        Err(Seq::empty())
    } else {
        match tk(ts, p) {
            TokenType::Let => sp_var_decl(ts, p),
            TokenType::Return => sp_return(ts, p),
            TokenType::If => sp_if(ts, p),
            TokenType::While => sp_while(ts, p),
            TokenType::For => sp_for(ts, p),
            TokenType::Print => sp_print(ts, p),
            TokenType::Input => sp_input(ts, p),
            TokenType::Break => sp_jump(ts, p, StmtM::Break),
            TokenType::Continue => sp_jump(ts, p, StmtM::Continue),
            TokenType::Identifier(_) => match peek_kind(ts, p, 1) {
                Some(TokenType::Assign) => sp_assign(ts, p),
                Some(TokenType::LBracket) => sp_index_assign(ts, p),
                Some(TokenType::PlusAssign) => sp_compound(ts, p, BinaryOp::Add),
                Some(TokenType::MinusAssign) => sp_compound(ts, p, BinaryOp::Sub),
                Some(TokenType::StarAssign) => sp_compound(ts, p, BinaryOp::Mul),
                Some(TokenType::SlashAssign) => sp_compound(ts, p, BinaryOp::Div),
                Some(TokenType::PercentAssign) => sp_compound(ts, p, BinaryOp::Mod),
                Some(TokenType::LParen) => sp_expr_stmt(ts, p),
                Some(TokenType::Dot) => sp_field_assign(ts, p),
                _ => Err(unexpected_msg(ts, p)),
            },
            _ => Err(unexpected_msg(ts, p)),
        }
    }
}

/// `{ statements }` starting at the `{`.
pub open spec fn sp_braced(ts: Seq<Token>, p: int, start: int) -> PRes<Seq<StmtM>>
    decreases ts.len() - start, 0nat,
{
    match sp_expect(ts, p, TokenType::LBrace) {
        Err(m) => Err(m),
        Ok(p1) => if !progressed(ts, start, p1) {
            Err(Seq::empty())
        } else {
            match sp_stmts(ts, p1, Seq::empty()) {
                Err(e) => Err(e),
                Ok((body, p2)) => match sp_expect(ts, p2, TokenType::RBrace) {
                    Err(m) => Err(m),
                    Ok(p3) => Ok((body, p3)),
                },
            }
        },
    }
}

/// `if cond { ... } [else if ... | else { ... }]`
pub open spec fn sp_if(ts: Seq<Token>, p: int) -> PRes<StmtM>
    decreases ts.len() - p, 1nat,
{
    match sp_expect(ts, p, TokenType::If) {
        Err(e) => Err(e),
        Ok(p1) => match sp_expr(ts, p1) {
            Err(e) => Err(e),
            Ok((condition, p2)) => if !(p <= p2) {
                Err(Seq::empty())
            } else {
                match sp_braced(ts, p2, p) {
                    Err(e) => Err(e),
                    Ok((then_body, p3)) => if tk(ts, p3) is Else {
                        let p4 = adv(ts, p3);
                        if tk(ts, p4) is If {
                            if !progressed(ts, p, p4) {
                                Err(Seq::empty())
                            } else {
                                match sp_if(ts, p4) {
                                    Err(e) => Err(e),
                                    Ok((inner, p5)) => Ok((
                                        StmtM::If { condition, then_body, else_body: Some(seq![inner]) },
                                        p5,
                                    )),
                                }
                            }
                        } else if !(p <= p4) {
                            Err(Seq::empty())
                        } else {
                            match sp_braced(ts, p4, p) {
                                Err(e) => Err(e),
                                Ok((else_body, p5)) => Ok((
                                    StmtM::If { condition, then_body, else_body: Some(else_body) },
                                    p5,
                                )),
                            }
                        }
                    } else {
                        Ok((StmtM::If { condition, then_body, else_body: None }, p3))
                    },
                }
            },
        },
    }
}

/// `while cond { ... }`
pub open spec fn sp_while(ts: Seq<Token>, p: int) -> PRes<StmtM>
    decreases ts.len() - p, 1nat,
{
    match sp_expect(ts, p, TokenType::While) {
        Err(e) => Err(e),
        Ok(p1) => match sp_expr(ts, p1) {
            Err(e) => Err(e),
            Ok((condition, p2)) => if !(p <= p2) {
                Err(Seq::empty())
            } else {
                match sp_braced(ts, p2, p) {
                    Err(e) => Err(e),
                    Ok((body, p3)) => Ok((StmtM::While { condition, body }, p3)),
                }
            },
        },
    }
}

/// `for var in start..end { ... }`
pub open spec fn sp_for(ts: Seq<Token>, p: int) -> PRes<StmtM>
    decreases ts.len() - p, 1nat,
{
    match sp_expect(ts, p, TokenType::For) {
        Err(e) => Err(e),
        Ok(p1) => match tk(ts, p1) {
            TokenType::Identifier(var) => match sp_expect(ts, adv(ts, p1), TokenType::In) {
                Err(m) => Err(m),
                Ok(p3) => match sp_expr(ts, p3) {
                    Err(e) => Err(e),
                    Ok((start, p4)) => match sp_expect(ts, p4, TokenType::DotDot) {
                        Err(m) => Err(m),
                        Ok(p5) => match sp_expr(ts, p5) {
                            Err(e) => Err(e),
                            Ok((end, p6)) => if !(p <= p6) {
                                Err(Seq::empty())
                            } else {
                                match sp_braced(ts, p6, p) {
                                    Err(e) => Err(e),
                                    Ok((body, p7)) => Ok((StmtM::For { var: var@, start, end, body }, p7)),
                                }
                            },
                        },
                    },
                },
            },
            _ => Err("Expected variable name after 'for'"@),
        },
    }
}

} // verus!

verus! {

/// `let name: type [= expr];` at the top level.
#[verifier::opaque]
pub open spec fn sp_global(ts: Seq<Token>, p: int) -> PRes<GlobalM> {
    match sp_expect(ts, p, TokenType::Let) {
        Err(e) => Err(e),
        Ok(p1) => match tk(ts, p1) {
            TokenType::Identifier(name) => match sp_expect(ts, adv(ts, p1), TokenType::Colon) {
                Err(e) => Err(e),
                Ok(p3) => match sp_type(ts, p3) {
                    Err(e) => Err(e),
                    Ok((typ, p4)) => match sp_initializer(ts, p4) {
                        Err(e) => Err(e),
                        Ok((initializer, p5)) => Ok((GlobalM { name: name@, typ, initializer }, p5)),
                    },
                },
            },
            _ => Err("Expected variable name in global declaration"@),
        },
    }
}

/// `fn name(params) -> type { statements }`
#[verifier::opaque]
pub open spec fn sp_function(ts: Seq<Token>, p: int) -> PRes<FunctionM> {
    match sp_expect(ts, p, TokenType::Fn) {
        Err(e) => Err(e),
        Ok(p1) => match tk(ts, p1) {
            TokenType::Identifier(name) => match sp_expect(ts, adv(ts, p1), TokenType::LParen) {
                Err(e) => Err(e),
                Ok(p3) => match sp_params(ts, p3, Seq::empty()) {
                    Err(e) => Err(e),
                    Ok((parameters, p4)) => match sp_expect(ts, p4, TokenType::RParen) {
                        Err(e) => Err(e),
                        Ok(p5) => match sp_expect(ts, p5, TokenType::Arrow) {
                            Err(e) => Err(e),
                            Ok(p6) => match sp_type(ts, p6) {
                                Err(e) => Err(e),
                                Ok((return_type, p7)) => match sp_braced(ts, p7, p7) {
                                    Err(e) => Err(e),
                                    Ok((body, p8)) => Ok((FunctionM { name: name@, parameters, return_type, body }, p8)),
                                },
                            },
                        },
                    },
                },
            },
            _ => Err("Expected function name"@),
        },
    }
}

/// The model of an empty program.
pub open spec fn empty_program() -> ProgramM {
    ProgramM { globals: Seq::empty(), functions: Seq::empty(), externs: Seq::empty(), structs: Seq::empty() }
}

pub open spec fn top_level_msg(ts: Seq<Token>, p: int) -> Seq<char> {
    "Expected 'fn', 'let', 'extern' or 'struct' at top level, got "@ + kind_debug(tk(ts, p)) + at_text(ts, p)
}

/// Top-level items up to `Eof`, added to `acc` in their kinds' lists.
pub open spec fn sp_items(ts: Seq<Token>, p: int, acc: ProgramM) -> PRes<ProgramM>
    decreases ts.len() - p,
{
    if p < 0 || p >= ts.len() {
        Err(Seq::empty())
    } else if tk(ts, p) is Eof {
        Ok((acc, p))
    } else if tk(ts, p) is Fn {
        match sp_function(ts, p) {
            Err(e) => Err(e),
            Ok((f, p1)) => if !progressed(ts, p, p1) {
                Err(Seq::empty())
            } else {
                sp_items(ts, p1, ProgramM { functions: acc.functions.push(f), ..acc })
            },
        }
    } else if tk(ts, p) is Let {
        match sp_global(ts, p) {
            Err(e) => Err(e),
            Ok((g, p1)) => if !progressed(ts, p, p1) {
                Err(Seq::empty())
            } else {
                sp_items(ts, p1, ProgramM { globals: acc.globals.push(g), ..acc })
            },
        }
    } else if tk(ts, p) is Extern {
        match sp_extern(ts, p) {
            Err(e) => Err(e),
            Ok((x, p1)) => if !progressed(ts, p, p1) {
                Err(Seq::empty())
            } else {
                sp_items(ts, p1, ProgramM { externs: acc.externs.push(x), ..acc })
            },
        }
    } else if tk(ts, p) is Struct {
        match sp_struct_def(ts, p) {
            Err(e) => Err(e),
            Ok((d, p1)) => if !progressed(ts, p, p1) {
                Err(Seq::empty())
            } else {
                sp_items(ts, p1, ProgramM { structs: acc.structs.push(d), ..acc })
            },
        }
    } else {
        Err(top_level_msg(ts, p))
    }
}

/// The program a token sequence spells, or the first error met.
pub open spec fn sp_program(ts: Seq<Token>) -> Result<ProgramM, Seq<char>> {
    match sp_items(ts, 0, empty_program()) {
        Err(e) => Err(e),
        Ok((prog, _)) => Ok(prog),
    }
}

} // verus!

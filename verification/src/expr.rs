//! Expression parsing: precedence climbing from `||` down to primary expressions.
use vstd::prelude::*;
use crate::ast::{
    BinaryOp, Expression, ExprM, UnaryOp, expr_m, exprs_m, lit_fields_m, lemma_exprs_push,
    lemma_lit_fields_push,
};
use crate::grammar::{
    lemma_not_last, tk, add_op, cmp_op, mul_op, is_struct_literal, sp_expr, sp_or, sp_or_rest,
    sp_and, sp_and_rest, sp_cmp, sp_cmp_rest, sp_add, sp_add_rest, sp_mul, sp_mul_rest, sp_unary,
    sp_cast, sp_cast_rest, sp_list, sp_lit_fields, sp_primary,
};
use crate::parser::{Parser, outcome};
use crate::text::{text, char_is_uppercase};
use crate::token::TokenType;

verus! {

/// The operator of a comparison token.
fn cmp_op_of(t: &TokenType) -> (r: Option<BinaryOp>)
    ensures
        r == cmp_op(*t),
{
    match t {
        TokenType::Equal => Some(BinaryOp::Equal),
        TokenType::NotEqual => Some(BinaryOp::NotEqual),
        TokenType::Less => Some(BinaryOp::Less),
        TokenType::Greater => Some(BinaryOp::Greater),
        TokenType::LessEqual => Some(BinaryOp::LessEqual),
        TokenType::GreaterEqual => Some(BinaryOp::GreaterEqual),
        _ => None,
    }
}

/// The operator of an additive token.
fn add_op_of(t: &TokenType) -> (r: Option<BinaryOp>)
    ensures
        r == add_op(*t),
{
    match t {
        TokenType::Plus => Some(BinaryOp::Add),
        TokenType::Minus => Some(BinaryOp::Sub),
        _ => None,
    }
}

/// The operator of a multiplicative (or bitwise) token.
fn mul_op_of(t: &TokenType) -> (r: Option<BinaryOp>)
    ensures
        r == mul_op(*t),
{
    match t {
        TokenType::Star => Some(BinaryOp::Mul),
        TokenType::Slash => Some(BinaryOp::Div),
        TokenType::Percent => Some(BinaryOp::Mod),
        TokenType::Ampersand => Some(BinaryOp::BitAnd),
        TokenType::Pipe => Some(BinaryOp::BitOr),
        TokenType::Caret => Some(BinaryOp::BitXor),
        TokenType::LShift => Some(BinaryOp::Shl),
        TokenType::RShift => Some(BinaryOp::Shr),
        _ => None,
    }
}

impl Parser {
    pub fn parse_expression(&mut self) -> (r: Result<Expression, String>)
        requires
            old(self).wf(),
        ensures
            final(self).stepped(old(self)),
            r is Ok ==> final(self).at() > old(self).at(),
            outcome(r, sp_expr(old(self).toks(), old(self).at()), final(self).at(), |e: Expression| expr_m(e)),
        decreases old(self).toks().len() - old(self).at(), 20nat,
    {
        self.parse_or()
    }

    pub fn parse_or(&mut self) -> (r: Result<Expression, String>)
        requires
            old(self).wf(),
        ensures
            final(self).stepped(old(self)),
            r is Ok ==> final(self).at() > old(self).at(),
            outcome(r, sp_or(old(self).toks(), old(self).at()), final(self).at(), |e: Expression| expr_m(e)),
        decreases old(self).toks().len() - old(self).at(), 19nat,
    {
        let ghost ts = self.toks();
        let ghost p0 = self.at();
        let mut left = match self.parse_and() {
            Ok(e) => e,
            Err(e) => { return Err(e); },
        };
        loop
            invariant
                self.stepped(old(self)),
                ts == self.toks(),
                ts == old(self).toks(),
                p0 == old(self).at(),
                self.at() > p0,
                sp_or(ts, p0) == sp_or_rest(ts, self.at(), expr_m(left)),
            decreases ts.len() - self.at(),
        {
            if !matches!(self.current().typ, TokenType::Or) {
                return Ok(left);
            }
            proof { lemma_not_last(ts, self.at()); }
            self.advance();
            let right = match self.parse_and() {
                Ok(e) => e,
                Err(e) => { return Err(e); },
            };
            left = Expression::Binary { left: Box::new(left), op: BinaryOp::Or, right: Box::new(right) };
        }
    }

    pub fn parse_and(&mut self) -> (r: Result<Expression, String>)
        requires
            old(self).wf(),
        ensures
            final(self).stepped(old(self)),
            r is Ok ==> final(self).at() > old(self).at(),
            outcome(r, sp_and(old(self).toks(), old(self).at()), final(self).at(), |e: Expression| expr_m(e)),
        decreases old(self).toks().len() - old(self).at(), 17nat,
    {
        let ghost ts = self.toks();
        let ghost p0 = self.at();
        let mut left = match self.parse_comparison() {
            Ok(e) => e,
            Err(e) => { return Err(e); },
        };
        loop
            invariant
                self.stepped(old(self)),
                ts == self.toks(),
                ts == old(self).toks(),
                p0 == old(self).at(),
                self.at() > p0,
                sp_and(ts, p0) == sp_and_rest(ts, self.at(), expr_m(left)),
            decreases ts.len() - self.at(),
        {
            if !matches!(self.current().typ, TokenType::And) {
                return Ok(left);
            }
            proof { lemma_not_last(ts, self.at()); }
            self.advance();
            let right = match self.parse_comparison() {
                Ok(e) => e,
                Err(e) => { return Err(e); },
            };
            left = Expression::Binary { left: Box::new(left), op: BinaryOp::And, right: Box::new(right) };
        }
    }

    pub fn parse_comparison(&mut self) -> (r: Result<Expression, String>)
        requires
            old(self).wf(),
        ensures
            final(self).stepped(old(self)),
            r is Ok ==> final(self).at() > old(self).at(),
            outcome(r, sp_cmp(old(self).toks(), old(self).at()), final(self).at(), |e: Expression| expr_m(e)),
        decreases old(self).toks().len() - old(self).at(), 15nat,
    {
        let ghost ts = self.toks();
        let ghost p0 = self.at();
        let mut left = match self.parse_additive() {
            Ok(e) => e,
            Err(e) => { return Err(e); },
        };
        loop
            invariant
                self.stepped(old(self)),
                ts == self.toks(),
                ts == old(self).toks(),
                p0 == old(self).at(),
                self.at() > p0,
                sp_cmp(ts, p0) == sp_cmp_rest(ts, self.at(), expr_m(left)),
            decreases ts.len() - self.at(),
        {
            let op = match cmp_op_of(&self.current().typ) {
                Some(op) => op,
                None => { return Ok(left); },
            };
            proof { lemma_not_last(ts, self.at()); }
            self.advance();
            let right = match self.parse_additive() {
                Ok(e) => e,
                Err(e) => { return Err(e); },
            };
            left = Expression::Binary { left: Box::new(left), op, right: Box::new(right) };
        }
    }

    pub fn parse_additive(&mut self) -> (r: Result<Expression, String>)
        requires
            old(self).wf(),
        ensures
            final(self).stepped(old(self)),
            r is Ok ==> final(self).at() > old(self).at(),
            outcome(r, sp_add(old(self).toks(), old(self).at()), final(self).at(), |e: Expression| expr_m(e)),
        decreases old(self).toks().len() - old(self).at(), 13nat,
    {
        let ghost ts = self.toks();
        let ghost p0 = self.at();
        let mut left = match self.parse_multiplicative() {
            Ok(e) => e,
            Err(e) => { return Err(e); },
        };
        loop
            invariant
                self.stepped(old(self)),
                ts == self.toks(),
                ts == old(self).toks(),
                p0 == old(self).at(),
                self.at() > p0,
                sp_add(ts, p0) == sp_add_rest(ts, self.at(), expr_m(left)),
            decreases ts.len() - self.at(),
        {
            let op = match add_op_of(&self.current().typ) {
                Some(op) => op,
                None => { return Ok(left); },
            };
            proof { lemma_not_last(ts, self.at()); }
            self.advance();
            let right = match self.parse_multiplicative() {
                Ok(e) => e,
                Err(e) => { return Err(e); },
            };
            left = Expression::Binary { left: Box::new(left), op, right: Box::new(right) };
        }
    }

    /// `*`, `/`, `%` and the bitwise operators, left-associative; each operand is
    /// a unary expression.
    pub fn parse_multiplicative(&mut self) -> (r: Result<Expression, String>)
        requires
            old(self).wf(),
        ensures
            final(self).stepped(old(self)),
            r is Ok ==> final(self).at() > old(self).at(),
            outcome(r, sp_mul(old(self).toks(), old(self).at()), final(self).at(), |e: Expression| expr_m(e)),
        decreases old(self).toks().len() - old(self).at(), 11nat,
    {
        let ghost ts = self.toks();
        let ghost p0 = self.at();
        let mut left = match self.parse_unary() {
            Ok(e) => e,
            Err(e) => { return Err(e); },
        };
        loop
            invariant
                self.stepped(old(self)),
                ts == self.toks(),
                ts == old(self).toks(),
                p0 == old(self).at(),
                self.at() > p0,
                sp_mul(ts, p0) == sp_mul_rest(ts, self.at(), expr_m(left)),
            decreases ts.len() - self.at(),
        {
            let op = match mul_op_of(&self.current().typ) {
                Some(op) => op,
                None => { return Ok(left); },
            };
            proof { lemma_not_last(ts, self.at()); }
            self.advance();
            let right = match self.parse_unary() {
                Ok(e) => e,
                Err(e) => { return Err(e); },
            };
            left = Expression::Binary { left: Box::new(left), op, right: Box::new(right) };
        }
    }

    pub fn parse_unary(&mut self) -> (r: Result<Expression, String>)
        requires
            old(self).wf(),
        ensures
            final(self).stepped(old(self)),
            r is Ok ==> final(self).at() > old(self).at(),
            outcome(r, sp_unary(old(self).toks(), old(self).at()), final(self).at(), |e: Expression| expr_m(e)),
        decreases old(self).toks().len() - old(self).at(), 9nat,
    {
        let ghost ts = self.toks();
        let ghost p0 = self.at();
        if matches!(self.current().typ, TokenType::Bang) {
            proof { lemma_not_last(ts, p0); }
            self.advance();
            let operand = match self.parse_unary() {
                Ok(e) => e,
                Err(e) => { return Err(e); },
            };
            Ok(Expression::Unary { op: UnaryOp::Not, operand: Box::new(operand) })
        } else if matches!(self.current().typ, TokenType::Minus) {
            proof { lemma_not_last(ts, p0); }
            self.advance();
            let operand = match self.parse_unary() {
                Ok(e) => e,
                Err(e) => { return Err(e); },
            };
            Ok(Expression::Unary { op: UnaryOp::Neg, operand: Box::new(operand) })
        } else {
            self.parse_cast()
        }
    }

    /// A primary expression followed by any number of `as TYPE` and `.field`.
    pub fn parse_cast(&mut self) -> (r: Result<Expression, String>)
        requires
            old(self).wf(),
        ensures
            final(self).stepped(old(self)),
            r is Ok ==> final(self).at() > old(self).at(),
            outcome(r, sp_cast(old(self).toks(), old(self).at()), final(self).at(), |e: Expression| expr_m(e)),
        decreases old(self).toks().len() - old(self).at(), 8nat,
    {
        let ghost ts = self.toks();
        let ghost p0 = self.at();
        let mut expr = match self.parse_primary() {
            Ok(e) => e,
            Err(e) => { return Err(e); },
        };
        loop
            invariant
                self.stepped(old(self)),
                ts == self.toks(),
                ts == old(self).toks(),
                p0 == old(self).at(),
                self.at() > p0,
                sp_cast(ts, p0) == sp_cast_rest(ts, self.at(), expr_m(expr)),
            decreases ts.len() - self.at(),
        {
            let ghost p = self.at();
            if matches!(self.current().typ, TokenType::As) {
                proof { lemma_not_last(ts, p); }
                self.advance();
                let typ = match self.parse_type() {
                    Ok(t) => t,
                    Err(e) => { return Err(e); },
                };
                expr = Expression::Cast { value: Box::new(expr), typ };
            } else if matches!(self.current().typ, TokenType::Dot) {
                proof { lemma_not_last(ts, p); }
                self.advance();
                let field = match &self.current().typ {
                    TokenType::Identifier(s) => s.clone(),
                    _ => { return Err(text("Expected field name after '.'")); },
                };
                proof { lemma_not_last(ts, self.at()); }
                self.advance();
                expr = Expression::FieldAccess { object: Box::new(expr), field };
            } else {
                return Ok(expr);
            }
        }
    }

    /// Comma-separated expressions up to (not including) a token of the kind of `close`;
    /// `msg` is the error when something else follows an element.
    pub fn parse_list(&mut self, close: &TokenType, msg: &str) -> (r: Result<Vec<Expression>, String>)
        requires
            old(self).wf(),
        ensures
            final(self).stepped(old(self)),
            outcome(r, sp_list(old(self).toks(), old(self).at(), Seq::empty(), *close, msg@), final(self).at(),
                |v: Vec<Expression>| exprs_m(v@)),
        decreases old(self).toks().len() - old(self).at(), 21nat,
    {
        let ghost ts = self.toks();
        let ghost p0 = self.at();
        let mut elements: Vec<Expression> = Vec::new();
        assert(exprs_m(elements@) =~= Seq::<ExprM>::empty());
        while !self.current().typ.same_kind_as(close)
            invariant
                self.stepped(old(self)),
                ts == self.toks(),
                ts == old(self).toks(),
                p0 == old(self).at(),
                sp_list(ts, p0, Seq::empty(), *close, msg@) == sp_list(ts, self.at(), exprs_m(elements@), *close, msg@),
            decreases ts.len() - self.at(),
        {
            let e = match self.parse_expression() {
                Ok(e) => e,
                Err(e) => { return Err(e); },
            };
            proof { lemma_exprs_push(elements@, e); }
            elements.push(e);
            if matches!(self.current().typ, TokenType::Comma) {
                proof { lemma_not_last(ts, self.at()); }
                self.advance();
            } else if !self.current().typ.same_kind_as(close) {
                return Err(text(msg));
            }
        }
        Ok(elements)
    }

    /// `field: expr` pairs of a struct literal, up to `}` or `Eof`.
    pub fn parse_literal_fields(&mut self) -> (r: Result<Vec<(String, Expression)>, String>)
        requires
            old(self).wf(),
        ensures
            final(self).stepped(old(self)),
            outcome(r, sp_lit_fields(old(self).toks(), old(self).at(), Seq::empty()), final(self).at(),
                |v: Vec<(String, Expression)>| lit_fields_m(v@)),
        decreases old(self).toks().len() - old(self).at(), 21nat,
    {
        let ghost ts = self.toks();
        let ghost p0 = self.at();
        let mut fields: Vec<(String, Expression)> = Vec::new();
        assert(lit_fields_m(fields@) =~= Seq::<(Seq<char>, ExprM)>::empty());
        while !matches!(self.current().typ, TokenType::RBrace | TokenType::Eof)
            invariant
                self.stepped(old(self)),
                ts == self.toks(),
                ts == old(self).toks(),
                p0 == old(self).at(),
                sp_lit_fields(ts, p0, Seq::empty()) == sp_lit_fields(ts, self.at(), lit_fields_m(fields@)),
            decreases ts.len() - self.at(),
        {
            let fname = match &self.current().typ {
                TokenType::Identifier(s) => s.clone(),
                _ => { return Err(text("Expected field name in struct literal")); },
            };
            proof { lemma_not_last(ts, self.at()); }
            self.advance();
            match self.expect(TokenType::Colon) {
                Ok(()) => {},
                Err(e) => { return Err(e); },
            }
            let fval = match self.parse_expression() {
                Ok(e) => e,
                Err(e) => { return Err(e); },
            };
            proof { lemma_lit_fields_push(fields@, (fname, fval)); }
            fields.push((fname, fval));
            if matches!(self.current().typ, TokenType::Comma) {
                proof { lemma_not_last(ts, self.at()); }
                self.advance();
            }
        }
        Ok(fields)
    }

    /// Whether a struct literal starts here, after the identifier `name`: `{` follows,
    /// `name` starts with an uppercase letter, and then `}` or `field :` comes.
    fn struct_literal_ahead(&self, name: &String) -> (r: bool)
        requires
            self.wf(),
        ensures
            r == is_struct_literal(self.toks(), self.at(), name@),
    {
        if !matches!(self.current().typ, TokenType::LBrace) {
            return false;
        }
        if name.as_str().is_empty() {
            return false;
        }
        let c = name.as_str().get_char(0);
        if !char_is_uppercase(c) {
            return false;
        }
        let next_ok = match self.peek(1) {
            Some(t) => matches!(t.typ, TokenType::RBrace | TokenType::Identifier(_)),
            None => false,
        };
        if !next_ok {
            return false;
        }
        let closes = match self.peek(1) {
            Some(t) => matches!(t.typ, TokenType::RBrace),
            None => false,
        };
        let colon_follows = match self.peek(2) {
            Some(t) => matches!(t.typ, TokenType::Colon),
            None => false,
        };
        closes || colon_follows
    }

    pub fn parse_primary(&mut self) -> (r: Result<Expression, String>)
        requires
            old(self).wf(),
        ensures
            final(self).stepped(old(self)),
            r is Ok ==> final(self).at() > old(self).at(),
            outcome(r, sp_primary(old(self).toks(), old(self).at()), final(self).at(), |e: Expression| expr_m(e)),
        decreases old(self).toks().len() - old(self).at(), 6nat,
    {
        let ghost ts = self.toks();
        let ghost p = self.at();
        match &self.current().typ {
            TokenType::IntLiteral(n) => {
                let val = *n;
                proof { lemma_not_last(ts, p); }
                self.advance();
                Ok(Expression::IntLiteral(val))
            },
            TokenType::FloatLiteral(v) => {
                let val = *v;
                proof { lemma_not_last(ts, p); }
                self.advance();
                Ok(Expression::FloatLiteral(val))
            },
            TokenType::LBracket => {
                proof { lemma_not_last(ts, p); }
                self.advance();
                let elements = match self.parse_list(&TokenType::RBracket, "Expected ',' or ']' in array literal") {
                    Ok(v) => v,
                    Err(e) => { return Err(e); },
                };
                match self.expect(TokenType::RBracket) {
                    Ok(()) => {},
                    Err(e) => { return Err(e); },
                }
                Ok(Expression::ArrayLiteral(elements))
            },
            TokenType::True => {
                proof { lemma_not_last(ts, p); }
                self.advance();
                Ok(Expression::BoolLiteral(true))
            },
            TokenType::False => {
                proof { lemma_not_last(ts, p); }
                self.advance();
                Ok(Expression::BoolLiteral(false))
            },
            TokenType::StringLiteral(s) => {
                let val = s.clone();
                proof { lemma_not_last(ts, p); }
                self.advance();
                Ok(Expression::StringLiteral(val))
            },
            TokenType::Identifier(s) => {
                let name = s.clone();
                proof { lemma_not_last(ts, p); }
                self.advance();
                if matches!(self.current().typ, TokenType::LBracket) {
                    proof { lemma_not_last(ts, self.at()); }
                    self.advance();
                    let index = match self.parse_expression() {
                        Ok(e) => e,
                        Err(e) => { return Err(e); },
                    };
                    match self.expect(TokenType::RBracket) {
                        Ok(()) => {},
                        Err(e) => { return Err(e); },
                    }
                    Ok(Expression::Index { name, index: Box::new(index) })
                } else if matches!(self.current().typ, TokenType::LParen) {
                    proof { lemma_not_last(ts, self.at()); }
                    self.advance();
                    let arguments = match self.parse_list(&TokenType::RParen, "Expected ',' or ')' in function call") {
                        Ok(v) => v,
                        Err(e) => { return Err(e); },
                    };
                    match self.expect(TokenType::RParen) {
                        Ok(()) => {},
                        Err(e) => { return Err(e); },
                    }
                    Ok(Expression::Call { name, arguments })
                } else if self.struct_literal_ahead(&name) {
                    proof { lemma_not_last(ts, self.at()); }
                    self.advance();
                    let fields = match self.parse_literal_fields() {
                        Ok(v) => v,
                        Err(e) => { return Err(e); },
                    };
                    match self.expect(TokenType::RBrace) {
                        Ok(()) => {},
                        Err(e) => { return Err(e); },
                    }
                    Ok(Expression::StructLiteral { name, fields })
                } else {
                    Ok(Expression::Identifier(name))
                }
            },
            TokenType::LParen => {
                proof { lemma_not_last(ts, p); }
                self.advance();
                let expr = match self.parse_expression() {
                    Ok(e) => e,
                    Err(e) => { return Err(e); },
                };
                match self.expect(TokenType::RParen) {
                    Ok(()) => {},
                    Err(e) => { return Err(e); },
                }
                Ok(expr)
            },
            _ => {
                let mut s = text("Unexpected token ");
                self.current().typ.append_debug_to(&mut s);
                Err(s)
            },
        }
    }
}

} // verus!

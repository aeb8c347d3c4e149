//! Statement parsing: blocks, control flow, assignments, `print` and `input`.
use vstd::prelude::*;
use crate::ast::{
    BinaryOp, Expression, Statement, StmtM, ExprM, expr_m, exprs_m, stmt_m, stmts_m, names_m,
    lemma_exprs_push, lemma_stmts_push,
};
use crate::grammar::{
    lemma_not_last, tk, peek_kind, sp_var_decl, sp_initializer, sp_return, sp_input, sp_print,
    sp_print_rest, sp_assign, sp_index_assign, sp_compound, binary, sp_expr_stmt, sp_path, sp_field_assign,
    sp_stmts, sp_statement, sp_jump, sp_braced, sp_if, sp_while, sp_for,
};
use crate::parser::{Parser, outcome};
use crate::text::text;
use crate::token::{TokenType, same_kind};

verus! {

impl Parser {
    /// Whether the token after the current one has the kind of `k`.
    fn next_is(&self, k: &TokenType) -> (r: bool)
        requires
            self.wf(),
        ensures
            r == (peek_kind(self.toks(), self.at(), 1) matches Some(t) && same_kind(t, *k)),
    {
        match self.peek(1) {
            Some(t) => t.typ.same_kind_as(k),
            None => false,
        }
    }

    /// An optional `= expr`, then `;`.
    fn parse_initializer(&mut self) -> (r: Result<Option<Expression>, String>)
        requires
            old(self).wf(),
        ensures
            final(self).stepped(old(self)),
            outcome(r, sp_initializer(old(self).toks(), old(self).at()), final(self).at(),
                |o: Option<Expression>| match o { Some(e) => Some(expr_m(e)), None => None::<ExprM> }),
    {
        let ghost ts = self.toks();
        let initializer = if matches!(self.current().typ, TokenType::Assign) {
            proof { lemma_not_last(ts, self.at()); }
            self.advance();
            match self.parse_expression() {
                Ok(e) => Some(e),
                Err(e) => { return Err(e); },
            }
        } else {
            None
        };
        match self.expect(TokenType::Semicolon) {
            Ok(()) => {},
            Err(e) => { return Err(e); },
        }
        Ok(initializer)
    }

    pub fn parse_variable_decl(&mut self) -> (r: Result<Statement, String>)
        requires
            old(self).wf(),
        ensures
            final(self).stepped(old(self)),
            r is Ok ==> final(self).at() > old(self).at(),
            outcome(r, sp_var_decl(old(self).toks(), old(self).at()), final(self).at(), |s: Statement| stmt_m(s)),
    {
        reveal(sp_var_decl);
        let ghost ts = self.toks();
        match self.expect(TokenType::Let) {
            Ok(()) => {},
            Err(e) => { return Err(e); },
        }
        let name = match &self.current().typ {
            TokenType::Identifier(s) => s.clone(),
            _ => { return Err(text("Expected variable name")); },
        };
        proof { lemma_not_last(ts, self.at()); }
        self.advance();
        match self.expect(TokenType::Colon) {
            Ok(()) => {},
            Err(e) => { return Err(e); },
        }
        let typ = match self.parse_type() {
            Ok(t) => t,
            Err(e) => { return Err(e); },
        };
        let initializer = match self.parse_initializer() {
            Ok(i) => i,
            Err(e) => { return Err(e); },
        };
        Ok(Statement::VariableDecl { name, typ, initializer })
    }

    pub fn parse_return_stmt(&mut self) -> (r: Result<Statement, String>)
        requires
            old(self).wf(),
        ensures
            final(self).stepped(old(self)),
            r is Ok ==> final(self).at() > old(self).at(),
            outcome(r, sp_return(old(self).toks(), old(self).at()), final(self).at(), |s: Statement| stmt_m(s)),
    {
        reveal(sp_return);
        match self.expect(TokenType::Return) {
            Ok(()) => {},
            Err(e) => { return Err(e); },
        }
        let value = if !matches!(self.current().typ, TokenType::Semicolon) {
            match self.parse_expression() {
                Ok(e) => Some(e),
                Err(e) => { return Err(e); },
            }
        } else {
            None
        };
        match self.expect(TokenType::Semicolon) {
            Ok(()) => {},
            Err(e) => { return Err(e); },
        }
        Ok(Statement::Return { value })
    }

    pub fn parse_input_stmt(&mut self) -> (r: Result<Statement, String>)
        requires
            old(self).wf(),
        ensures
            final(self).stepped(old(self)),
            r is Ok ==> final(self).at() > old(self).at(),
            outcome(r, sp_input(old(self).toks(), old(self).at()), final(self).at(), |s: Statement| stmt_m(s)),
    {
        reveal(sp_input);
        let ghost ts = self.toks();
        match self.expect(TokenType::Input) {
            Ok(()) => {},
            Err(e) => { return Err(e); },
        }
        let name = match &self.current().typ {
            TokenType::Identifier(s) => s.clone(),
            _ => { return Err(text("Expected variable name after 'input'")); },
        };
        proof { lemma_not_last(ts, self.at()); }
        self.advance();
        if matches!(self.current().typ, TokenType::LBracket) {
            proof { lemma_not_last(ts, self.at()); }
            self.advance();
            let index = match self.parse_expression() {
                Ok(e) => e,
                Err(e) => { return Err(e); },
            };
            match self.expect(TokenType::RBracket) {
                Ok(()) => {},
                Err(e) => { return Err(e); },
            }
            match self.expect(TokenType::Semicolon) {
                Ok(()) => {},
                Err(e) => { return Err(e); },
            }
            return Ok(Statement::InputIndex { name, index });
        }
        match self.expect(TokenType::Colon) {
            Ok(()) => {},
            Err(e) => { return Err(e); },
        }
        let typ = match self.parse_type() {
            Ok(t) => t,
            Err(e) => { return Err(e); },
        };
        match self.expect(TokenType::Semicolon) {
            Ok(()) => {},
            Err(e) => { return Err(e); },
        }
        Ok(Statement::Input { name, typ })
    }

    pub fn parse_print_stmt(&mut self) -> (r: Result<Statement, String>)
        requires
            old(self).wf(),
        ensures
            final(self).stepped(old(self)),
            r is Ok ==> final(self).at() > old(self).at(),
            outcome(r, sp_print(old(self).toks(), old(self).at()), final(self).at(), |s: Statement| stmt_m(s)),
    {
        reveal(sp_print);
        let ghost ts = self.toks();
        let ghost p0 = self.at();
        match self.expect(TokenType::Print) {
            Ok(()) => {},
            Err(e) => { return Err(e); },
        }
        let first = match self.parse_expression() {
            Ok(e) => e,
            Err(e) => { return Err(e); },
        };
        let ghost first_m = expr_m(first);
        let mut values: Vec<Expression> = Vec::new();
        proof { lemma_exprs_push(values@, first); }
        values.push(first);
        assert(exprs_m(values@) =~= seq![first_m]);
        let ghost p2 = self.at();
        assert(sp_print(ts, p0) == match sp_print_rest(ts, p2, seq![first_m]) {
            Err(e) => Err(e),
            Ok((vs, p3)) => Ok((StmtM::Print { values: vs }, p3)),
        });
        while matches!(self.current().typ, TokenType::Comma)
            invariant
                self.stepped(old(self)),
                ts == self.toks(),
                ts == old(self).toks(),
                p0 == old(self).at(),
                self.at() > p0,
                sp_print(ts, p0) == match sp_print_rest(ts, p2, seq![first_m]) {
                    Err(e) => Err(e),
                    Ok((vs, p3)) => Ok((StmtM::Print { values: vs }, p3)),
                },
                sp_print_rest(ts, p2, seq![first_m]) == sp_print_rest(ts, self.at(), exprs_m(values@)),
            decreases ts.len() - self.at(),
        {
            proof { lemma_not_last(ts, self.at()); }
            self.advance();
            let v = match self.parse_expression() {
                Ok(e) => e,
                Err(e) => { return Err(e); },
            };
            proof { lemma_exprs_push(values@, v); }
            values.push(v);
        }
        match self.expect(TokenType::Semicolon) {
            Ok(()) => {},
            Err(e) => { return Err(e); },
        }
        Ok(Statement::Print { values })
    }

    pub fn parse_assign_stmt(&mut self) -> (r: Result<Statement, String>)
        requires
            old(self).wf(),
        ensures
            final(self).stepped(old(self)),
            r is Ok ==> final(self).at() > old(self).at(),
            outcome(r, sp_assign(old(self).toks(), old(self).at()), final(self).at(), |s: Statement| stmt_m(s)),
    {
        reveal(sp_assign);
        let ghost ts = self.toks();
        let name = match &self.current().typ {
            TokenType::Identifier(s) => s.clone(),
            _ => { return Err(text("Expected variable name")); },
        };
        proof { lemma_not_last(ts, self.at()); }
        self.advance();
        match self.expect(TokenType::Assign) {
            Ok(()) => {},
            Err(e) => { return Err(e); },
        }
        let value = match self.parse_expression() {
            Ok(e) => e,
            Err(e) => { return Err(e); },
        };
        match self.expect(TokenType::Semicolon) {
            Ok(()) => {},
            Err(e) => { return Err(e); },
        }
        Ok(Statement::Assign { name, value })
    }

    pub fn parse_index_assign_stmt(&mut self) -> (r: Result<Statement, String>)
        requires
            old(self).wf(),
        ensures
            final(self).stepped(old(self)),
            r is Ok ==> final(self).at() > old(self).at(),
            outcome(r, sp_index_assign(old(self).toks(), old(self).at()), final(self).at(), |s: Statement| stmt_m(s)),
    {
        reveal(sp_index_assign);
        let ghost ts = self.toks();
        let name = match &self.current().typ {
            TokenType::Identifier(s) => s.clone(),
            _ => { return Err(text("Expected array name")); },
        };
        proof { lemma_not_last(ts, self.at()); }
        self.advance();
        match self.expect(TokenType::LBracket) {
            Ok(()) => {},
            Err(e) => { return Err(e); },
        }
        let index = match self.parse_expression() {
            Ok(e) => e,
            Err(e) => { return Err(e); },
        };
        match self.expect(TokenType::RBracket) {
            Ok(()) => {},
            Err(e) => { return Err(e); },
        }
        match self.expect(TokenType::Assign) {
            Ok(()) => {},
            Err(e) => { return Err(e); },
        }
        let value = match self.parse_expression() {
            Ok(e) => e,
            Err(e) => { return Err(e); },
        };
        match self.expect(TokenType::Semicolon) {
            Ok(()) => {},
            Err(e) => { return Err(e); },
        }
        Ok(Statement::IndexAssign { name, index, value })
    }

    /// `name op= rhs;`, read as `name = name op rhs;`.
    pub fn parse_compound_assign(&mut self, op: BinaryOp) -> (r: Result<Statement, String>)
        requires
            old(self).wf(),
        ensures
            final(self).stepped(old(self)),
            r is Ok ==> final(self).at() > old(self).at(),
            outcome(r, sp_compound(old(self).toks(), old(self).at(), op), final(self).at(), |s: Statement| stmt_m(s)),
    {
        reveal(sp_compound);
        let ghost ts = self.toks();
        let name = match &self.current().typ {
            TokenType::Identifier(s) => s.clone(),
            _ => { return Err(text("Expected variable name")); },
        };
        proof { lemma_not_last(ts, self.at()); }
        self.advance();
        self.advance();
        let rhs = match self.parse_expression() {
            Ok(e) => e,
            Err(e) => { return Err(e); },
        };
        match self.expect(TokenType::Semicolon) {
            Ok(()) => {},
            Err(e) => { return Err(e); },
        }
        let target = name.clone();
        let left = Expression::Identifier(name);
        assert(expr_m(left) == ExprM::Identifier(target@));
        let value = Expression::Binary { left: Box::new(left), op, right: Box::new(rhs) };
        assert(expr_m(value) == binary(ExprM::Identifier(target@), op, expr_m(rhs)));
        Ok(Statement::Assign { name: target, value })
    }

    pub fn parse_expr_stmt(&mut self) -> (r: Result<Statement, String>)
        requires
            old(self).wf(),
        ensures
            final(self).stepped(old(self)),
            r is Ok ==> final(self).at() > old(self).at(),
            outcome(r, sp_expr_stmt(old(self).toks(), old(self).at()), final(self).at(), |s: Statement| stmt_m(s)),
    {
        reveal(sp_expr_stmt);
        let expr = match self.parse_expression() {
            Ok(e) => e,
            Err(e) => { return Err(e); },
        };
        match self.expect(TokenType::Semicolon) {
            Ok(()) => {},
            Err(e) => { return Err(e); },
        }
        Ok(Statement::Expr(expr))
    }

    /// `.field` segments, appended to `path`; at least one.
    fn parse_field_path(&mut self, prefix: Vec<String>) -> (r: Result<Vec<String>, String>)
        requires
            old(self).wf(),
        ensures
            final(self).stepped(old(self)),
            r is Ok ==> final(self).at() > old(self).at(),
            outcome(r, sp_path(old(self).toks(), old(self).at(), names_m(prefix@)), final(self).at(),
                |v: Vec<String>| names_m(v@)),
    {
        let ghost ts = self.toks();
        let ghost p0 = self.at();
        let ghost start = names_m(prefix@);
        let mut path = prefix;
        let mut more = true;
        while more
            invariant
                self.stepped(old(self)),
                ts == self.toks(),
                ts == old(self).toks(),
                p0 == old(self).at(),
                start == names_m(prefix@),
                more ==> self.at() >= p0,
                !more ==> self.at() > p0,
                sp_path(ts, p0, start) == (if more {
                    sp_path(ts, self.at(), names_m(path@))
                } else {
                    Ok((names_m(path@), self.at()))
                }),
            decreases ts.len() - self.at(),
        {
            match self.expect(TokenType::Dot) {
                Ok(()) => {},
                Err(e) => { return Err(e); },
            }
            let seg = match &self.current().typ {
                TokenType::Identifier(s) => s.clone(),
                _ => { return Err(text("Expected field name after '.'")); },
            };
            proof { lemma_not_last(ts, self.at()); }
            self.advance();
            let ghost before = names_m(path@);
            path.push(seg);
            assert(names_m(path@) =~= before.push(seg@));
            if !matches!(self.current().typ, TokenType::Dot) {
                more = false;
            }
        }
        Ok(path)
    }

    /// `name.field. ... .field = value;`
    pub fn parse_field_assign_stmt(&mut self) -> (r: Result<Statement, String>)
        requires
            old(self).wf(),
        ensures
            final(self).stepped(old(self)),
            r is Ok ==> final(self).at() > old(self).at(),
            outcome(r, sp_field_assign(old(self).toks(), old(self).at()), final(self).at(), |s: Statement| stmt_m(s)),
    {
        reveal(sp_field_assign);
        let ghost ts = self.toks();
        let ghost p0 = self.at();
        let first = match &self.current().typ {
            TokenType::Identifier(s) => s.clone(),
            _ => { return Err(text("Expected object name")); },
        };
        let ghost first_m = first@;
        proof { lemma_not_last(ts, p0); }
        self.advance();
        let mut path: Vec<String> = Vec::new();
        path.push(first);
        assert(names_m(path@) =~= seq![first_m]);
        let path = match self.parse_field_path(path) {
            Ok(v) => v,
            Err(e) => { return Err(e); },
        };
        match self.expect(TokenType::Assign) {
            Ok(()) => {},
            Err(e) => { return Err(e); },
        }
        let value = match self.parse_expression() {
            Ok(e) => e,
            Err(e) => { return Err(e); },
        };
        match self.expect(TokenType::Semicolon) {
            Ok(()) => {},
            Err(e) => { return Err(e); },
        }
        Ok(Statement::FieldAssign { path, value })
    }

    /// Statements up to `}` or `Eof`, which is not consumed.
    pub fn parse_block(&mut self) -> (r: Result<Vec<Statement>, String>)
        requires
            old(self).wf(),
        ensures
            final(self).stepped(old(self)),
            outcome(r, sp_stmts(old(self).toks(), old(self).at(), Seq::empty()), final(self).at(),
                |v: Vec<Statement>| stmts_m(v@)),
        decreases old(self).toks().len() - old(self).at(), 3nat,
    {
        let ghost ts = self.toks();
        let ghost p0 = self.at();
        let mut statements: Vec<Statement> = Vec::new();
        assert(stmts_m(statements@) =~= Seq::<StmtM>::empty());
        while !matches!(self.current().typ, TokenType::RBrace | TokenType::Eof)
            invariant
                self.stepped(old(self)),
                ts == self.toks(),
                ts == old(self).toks(),
                p0 == old(self).at(),
                sp_stmts(ts, p0, Seq::empty()) == sp_stmts(ts, self.at(), stmts_m(statements@)),
            decreases ts.len() - self.at(),
        {
            let st = match self.parse_statement() {
                Ok(s) => s,
                Err(e) => { return Err(e); },
            };
            proof { lemma_stmts_push(statements@, st); }
            statements.push(st);
        }
        Ok(statements)
    }

    pub fn parse_statement(&mut self) -> (r: Result<Statement, String>)
        requires
            old(self).wf(),
        ensures
            final(self).stepped(old(self)),
            r is Ok ==> final(self).at() > old(self).at(),
            outcome(r, sp_statement(old(self).toks(), old(self).at()), final(self).at(), |s: Statement| stmt_m(s)),
        decreases old(self).toks().len() - old(self).at(), 2nat,
    {
        let ghost ts = self.toks();
        let ghost p = self.at();
        match &self.current().typ {
            TokenType::Let => self.parse_variable_decl(),
            TokenType::Return => self.parse_return_stmt(),
            TokenType::If => self.parse_if_stmt(),
            TokenType::While => self.parse_while_stmt(),
            TokenType::For => self.parse_for_stmt(),
            TokenType::Print => self.parse_print_stmt(),
            TokenType::Input => self.parse_input_stmt(),
            TokenType::Break => {
                proof { lemma_not_last(ts, p); reveal(sp_jump); }
                self.advance();
                match self.expect(TokenType::Semicolon) {
                    Ok(()) => {},
                    Err(e) => { return Err(e); },
                }
                Ok(Statement::Break)
            },
            TokenType::Continue => {
                proof { lemma_not_last(ts, p); reveal(sp_jump); }
                self.advance();
                match self.expect(TokenType::Semicolon) {
                    Ok(()) => {},
                    Err(e) => { return Err(e); },
                }
                Ok(Statement::Continue)
            },
            TokenType::Identifier(_) => {
                if self.next_is(&TokenType::Assign) {
                    self.parse_assign_stmt()
                } else if self.next_is(&TokenType::LBracket) {
                    self.parse_index_assign_stmt()
                } else if self.next_is(&TokenType::PlusAssign) {
                    self.parse_compound_assign(BinaryOp::Add)
                } else if self.next_is(&TokenType::MinusAssign) {
                    self.parse_compound_assign(BinaryOp::Sub)
                } else if self.next_is(&TokenType::StarAssign) {
                    self.parse_compound_assign(BinaryOp::Mul)
                } else if self.next_is(&TokenType::SlashAssign) {
                    self.parse_compound_assign(BinaryOp::Div)
                } else if self.next_is(&TokenType::PercentAssign) {
                    self.parse_compound_assign(BinaryOp::Mod)
                } else if self.next_is(&TokenType::LParen) {
                    self.parse_expr_stmt()
                } else if self.next_is(&TokenType::Dot) {
                    self.parse_field_assign_stmt()
                } else {
                    let mut s = text("Unexpected token ");
                    self.current().typ.append_debug_to(&mut s);
                    Err(s)
                }
            },
            _ => {
                let mut s = text("Unexpected token ");
                self.current().typ.append_debug_to(&mut s);
                Err(s)
            },
        }
    }

    /// `{ statements }`, as part of a construct that began at `start`.
    fn parse_braced(&mut self, Ghost(start): Ghost<int>) -> (r: Result<Vec<Statement>, String>)
        requires
            old(self).wf(),
            start <= old(self).at(),
        ensures
            final(self).stepped(old(self)),
            r is Ok ==> final(self).at() > old(self).at(),
            outcome(r, sp_braced(old(self).toks(), old(self).at(), start), final(self).at(),
                |v: Vec<Statement>| stmts_m(v@)),
        decreases old(self).toks().len() - start, 0nat,
    {
        match self.expect(TokenType::LBrace) {
            Ok(()) => {},
            Err(e) => { return Err(e); },
        }
        let body = match self.parse_block() {
            Ok(b) => b,
            Err(e) => { return Err(e); },
        };
        match self.expect(TokenType::RBrace) {
            Ok(()) => {},
            Err(e) => { return Err(e); },
        }
        Ok(body)
    }

    pub fn parse_if_stmt(&mut self) -> (r: Result<Statement, String>)
        requires
            old(self).wf(),
        ensures
            final(self).stepped(old(self)),
            r is Ok ==> final(self).at() > old(self).at(),
            outcome(r, sp_if(old(self).toks(), old(self).at()), final(self).at(), |s: Statement| stmt_m(s)),
        decreases old(self).toks().len() - old(self).at(), 1nat,
    {
        let ghost p0 = self.at();
        let ghost ts = self.toks();
        match self.expect(TokenType::If) {
            Ok(()) => {},
            Err(e) => { return Err(e); },
        }
        let condition = match self.parse_expression() {
            Ok(e) => e,
            Err(e) => { return Err(e); },
        };
        let then_body = match self.parse_braced(Ghost(p0)) {
            Ok(b) => b,
            Err(e) => { return Err(e); },
        };
        let else_body = if matches!(self.current().typ, TokenType::Else) {
            proof { lemma_not_last(ts, self.at()); }
            self.advance();
            if matches!(self.current().typ, TokenType::If) {
                let inner = match self.parse_if_stmt() {
                    Ok(s) => s,
                    Err(e) => { return Err(e); },
                };
                let mut body: Vec<Statement> = Vec::new();
                proof { lemma_stmts_push(body@, inner); }
                body.push(inner);
                assert(stmts_m(body@) =~= seq![stmt_m(inner)]);
                Some(body)
            } else {
                let body = match self.parse_braced(Ghost(p0)) {
                    Ok(b) => b,
                    Err(e) => { return Err(e); },
                };
                Some(body)
            }
        } else {
            None
        };
        Ok(Statement::If { condition, then_body, else_body })
    }

    pub fn parse_while_stmt(&mut self) -> (r: Result<Statement, String>)
        requires
            old(self).wf(),
        ensures
            final(self).stepped(old(self)),
            r is Ok ==> final(self).at() > old(self).at(),
            outcome(r, sp_while(old(self).toks(), old(self).at()), final(self).at(), |s: Statement| stmt_m(s)),
        decreases old(self).toks().len() - old(self).at(), 1nat,
    {
        let ghost p0 = self.at();
        match self.expect(TokenType::While) {
            Ok(()) => {},
            Err(e) => { return Err(e); },
        }
        let condition = match self.parse_expression() {
            Ok(e) => e,
            Err(e) => { return Err(e); },
        };
        let body = match self.parse_braced(Ghost(p0)) {
            Ok(b) => b,
            Err(e) => { return Err(e); },
        };
        Ok(Statement::While { condition, body })
    }

    pub fn parse_for_stmt(&mut self) -> (r: Result<Statement, String>)
        requires
            old(self).wf(),
        ensures
            final(self).stepped(old(self)),
            r is Ok ==> final(self).at() > old(self).at(),
            outcome(r, sp_for(old(self).toks(), old(self).at()), final(self).at(), |s: Statement| stmt_m(s)),
        decreases old(self).toks().len() - old(self).at(), 1nat,
    {
        let ghost p0 = self.at();
        let ghost ts = self.toks();
        match self.expect(TokenType::For) {
            Ok(()) => {},
            Err(e) => { return Err(e); },
        }
        let var = match &self.current().typ {
            TokenType::Identifier(s) => s.clone(),
            _ => { return Err(text("Expected variable name after 'for'")); },
        };
        proof { lemma_not_last(ts, self.at()); }
        self.advance();
        match self.expect(TokenType::In) {
            Ok(()) => {},
            Err(e) => { return Err(e); },
        }
        let start = match self.parse_expression() {
            Ok(e) => e,
            Err(e) => { return Err(e); },
        };
        match self.expect(TokenType::DotDot) {
            Ok(()) => {},
            Err(e) => { return Err(e); },
        }
        let end = match self.parse_expression() {
            Ok(e) => e,
            Err(e) => { return Err(e); },
        };
        let body = match self.parse_braced(Ghost(p0)) {
            Ok(b) => b,
            Err(e) => { return Err(e); },
        };
        Ok(Statement::For { var, start, end, body })
    }
}

} // verus!

use vstd::prelude::*;
use crate::ast::{
    Type, TypeM, Parameter, StructField, StructDef, ExternFunction, type_m, params_m, param_m,
    field_m, fields_m, struct_def_m, extern_m,
};
use crate::grammar::{
    PRes, tokens_wf, lemma_not_last, tk, adv, at_text, expected_msg, sp_expect, map_cap_ok, sp_map_cap, sp_type,
    map_cap_err_at, type_err_at,
    sp_params, sp_fields, sp_struct_def, sp_struct_body, sp_extern,
};
use crate::text::{text, append, append_nat};
use crate::token::{Token, TokenType, kind_debug};

verus! {

/// A parser's result agrees with the grammar: on success the value's model and
/// the parser's new position are what the grammar gives; on failure the message is.
pub open spec fn outcome<T, M>(r: Result<T, String>, s: PRes<M>, q: int, model: spec_fn(T) -> M) -> bool {
    match s {
        Ok((m, p)) => r is Ok && model(r->Ok_0) == m && q == p,
        Err(e) => r is Err && r->Err_0@ == e,
    }
}

/// A recursive-descent parser over a token sequence.
pub struct Parser {
    tokens: Vec<Token>,
    pos: usize,
}

impl Parser {
    /// The tokens being parsed.
    pub closed spec fn toks(&self) -> Seq<Token> {
        self.tokens@
    }

    /// The position of the current token.
    pub closed spec fn at(&self) -> int {
        self.pos as int
    }

    /// The tokens end with `Eof` and the position is within them.
    pub open spec fn wf(&self) -> bool {
        tokens_wf(self.toks()) && 0 <= self.at() < self.toks().len()
    }

    /// The parser state after a step from `old`: same tokens, well formed, not moved back.
    pub open spec fn stepped(&self, old: &Parser) -> bool {
        &&& self.wf()
        &&& self.toks() == old.toks()
        &&& self.at() >= old.at()
    }

    pub fn new(tokens: Vec<Token>) -> (r: Self)
        ensures
            r.toks() == tokens@,
            r.at() == 0,
            r.wf() <==> tokens_wf(tokens@),
    {
        Parser { tokens, pos: 0 }
    }

    pub fn current(&self) -> (r: &Token)
        requires
            self.wf(),
        ensures
            *r == self.toks()[self.at()],
    {
        &self.tokens[self.pos]
    }

    pub fn peek(&self, offset: usize) -> (r: Option<&Token>)
        ensures
            match r {
                Some(t) => self.at() + offset < self.toks().len() && *t == self.toks()[self.at() + offset],
                None => self.at() + offset >= self.toks().len(),
            },
    {
        let n = self.tokens.len();
        if offset > usize::MAX - self.pos {
            assert(self.at() + offset > n);
            return None;
        }
        let i = self.pos + offset;
        if i < self.tokens.len() {
            Some(&self.tokens[i])
        } else {
            None
        }
    }

    /// Moves past the current token, unless it is the last, and gives the token
    /// passed over.
    pub fn advance(&mut self) -> (r: &Token)
        requires
            old(self).wf(),
        ensures
            final(self).wf(),
            final(self).toks() == old(self).toks(),
            final(self).at() == adv(old(self).toks(), old(self).at()),
            *r == old(self).toks()[old(self).at()],
    {
        let i = self.pos;
        if self.pos < self.tokens.len() - 1 {
            self.pos = self.pos + 1;
        }
        &self.tokens[i]
    }

    /// Appends ` at LINE:COLUMN` of the current token.
    pub(crate) fn append_position(&self, s: &mut String)
        requires
            self.wf(),
        ensures
            final(s)@ == old(s)@ + at_text(self.toks(), self.at()),
    {
        let t = self.current();
        append(s, " at ");
        append_nat(s, t.line as u64);
        append(s, ":");
        append_nat(s, t.column as u64);
        assert(s@ =~= old(s)@ + at_text(self.toks(), self.at()));
    }

    pub fn expect(&mut self, expected: TokenType) -> (r: Result<(), String>)
        requires
            old(self).wf(),
        ensures
            final(self).stepped(old(self)),
            match sp_expect(old(self).toks(), old(self).at(), expected) {
                Ok(q) => r is Ok && final(self).at() == q,
                Err(e) => r is Err && r->Err_0@ == e && final(self).at() == old(self).at(),
            },
    {
        if !self.current().typ.same_kind_as(&expected) {
            let mut s = text("Expected ");
            expected.append_debug_to(&mut s);
            append(&mut s, ", got ");
            self.current().typ.append_debug_to(&mut s);
            self.append_position(&mut s);
            assert(s@ =~= expected_msg(self.toks(), self.at(), expected));
            return Err(s);
        }
        self.advance();
        Ok(())
    }

    fn parse_map_cap(&mut self) -> (r: Result<Option<usize>, String>)
        requires
            old(self).wf(),
        ensures
            final(self).stepped(old(self)),
            outcome(r, sp_map_cap(old(self).toks(), old(self).at()), final(self).at(), |c: Option<usize>| c),
            r is Err ==> final(self).at() == map_cap_err_at(old(self).toks(), old(self).at()),
    {
        if matches!(self.current().typ, TokenType::Semicolon) {
            self.advance();
            let n = match &self.current().typ {
                TokenType::IntLiteral(v) => *v as usize,
                _ => {
                    let mut s = text("Expected integer capacity after ';' in map type, got ");
                    self.current().typ.append_debug_to(&mut s);
                    self.append_position(&mut s);
                    return Err(s);
                },
            };
            if n == 0 || (n & (n - 1)) != 0 {
                let mut s = text("Map capacity must be a power of 2, got ");
                append_nat(&mut s, n as u64);
                self.append_position(&mut s);
                return Err(s);
            }
            self.advance();
            match self.expect(TokenType::RBracket) {
                Ok(()) => {},
                Err(e) => { return Err(e); },
            }
            Ok(Some(n))
        } else {
            match self.expect(TokenType::RBracket) {
                Ok(()) => {},
                Err(e) => { return Err(e); },
            }
            Ok(None)
        }
    }

    pub fn parse_type(&mut self) -> (r: Result<Type, String>)
        requires
            old(self).wf(),
        ensures
            final(self).stepped(old(self)),
            r is Ok ==> final(self).at() > old(self).at(),
            outcome(r, sp_type(old(self).toks(), old(self).at()), final(self).at(), |t: Type| type_m(t)),
            r is Err ==> final(self).at() == type_err_at(old(self).toks(), old(self).at()),
        decreases old(self).toks().len() - old(self).at(),
    {
        let ghost ts = self.toks();
        let ghost p = self.at();
        match &self.current().typ {
            TokenType::I32 => { proof { lemma_not_last(ts, p); } self.advance(); Ok(Type::I32) },
            TokenType::I64 => { proof { lemma_not_last(ts, p); } self.advance(); Ok(Type::I64) },
            TokenType::F32 => { proof { lemma_not_last(ts, p); } self.advance(); Ok(Type::F32) },
            TokenType::F64 => { proof { lemma_not_last(ts, p); } self.advance(); Ok(Type::F64) },
            TokenType::Bool => { proof { lemma_not_last(ts, p); } self.advance(); Ok(Type::Bool) },
            TokenType::Str => { proof { lemma_not_last(ts, p); } self.advance(); Ok(Type::Str) },
            TokenType::Void => { proof { lemma_not_last(ts, p); } self.advance(); Ok(Type::Void) },
            TokenType::LBracket => {
                proof { lemma_not_last(ts, p); }
                self.advance();
                let element = match self.parse_type() {
                    Ok(t) => t,
                    Err(e) => { return Err(e); },
                };
                match self.expect(TokenType::Semicolon) {
                    Ok(()) => {},
                    Err(e) => { return Err(e); },
                }
                let size = match &self.current().typ {
                    TokenType::IntLiteral(n) => *n as usize,
                    _ => { return Err(text("Expected array size (integer literal)")); },
                };
                self.advance();
                match self.expect(TokenType::RBracket) {
                    Ok(()) => {},
                    Err(e) => { return Err(e); },
                }
                Ok(Type::Array { element: Box::new(element), size })
            },
            TokenType::KwMap => {
                proof { lemma_not_last(ts, p); }
                self.advance();
                match self.expect(TokenType::LBracket) {
                    Ok(()) => {},
                    Err(e) => { return Err(e); },
                }
                let key = match self.parse_type() {
                    Ok(t) => t,
                    Err(e) => { return Err(e); },
                };
                match self.expect(TokenType::Comma) {
                    Ok(()) => {},
                    Err(e) => { return Err(e); },
                }
                let value = match self.parse_type() {
                    Ok(t) => t,
                    Err(e) => { return Err(e); },
                };
                let cap = match self.parse_map_cap() {
                    Ok(c) => c,
                    Err(e) => { return Err(e); },
                };
                Ok(Type::HashMap { key: Box::new(key), value: Box::new(value), cap })
            },
            TokenType::Identifier(s) => {
                let name = s.clone();
                proof { lemma_not_last(ts, p); }
                self.advance();
                Ok(Type::Struct(name))
            },
            _ => {
                let mut s = text("Expected type, got ");
                self.current().typ.append_debug_to(&mut s);
                self.append_position(&mut s);
                Err(s)
            },
        }
    }

    pub fn parse_parameters(&mut self) -> (r: Result<Vec<Parameter>, String>)
        requires
            old(self).wf(),
        ensures
            final(self).stepped(old(self)),
            outcome(r, sp_params(old(self).toks(), old(self).at(), Seq::empty()), final(self).at(),
                |v: Vec<Parameter>| params_m(v@)),
    {
        let ghost ts = self.toks();
        let ghost p0 = self.at();
        let mut parameters: Vec<Parameter> = Vec::new();
        assert(params_m(parameters@) =~= Seq::<(Seq<char>, TypeM)>::empty());
        loop
            invariant
                self.stepped(old(self)),
                ts == self.toks(),
                p0 == old(self).at(),
                sp_params(ts, p0, Seq::empty()) == sp_params(ts, self.at(), params_m(parameters@)),
            decreases ts.len() - self.at(),
        {
            let ghost p = self.at();
            if matches!(self.current().typ, TokenType::RParen) {
                return Ok(parameters);
            }
            let name = match &self.current().typ {
                TokenType::Identifier(s) => s.clone(),
                _ => { return Err(text("Expected parameter name")); },
            };
            proof { lemma_not_last(ts, p); }
            self.advance();
            match self.expect(TokenType::Colon) {
                Ok(()) => {},
                Err(e) => { return Err(e); },
            }
            let typ = match self.parse_type() {
                Ok(t) => t,
                Err(e) => { return Err(e); },
            };
            let ghost before = params_m(parameters@);
            parameters.push(Parameter { name, typ });
            assert(params_m(parameters@) =~= before.push(param_m(parameters@[parameters@.len() - 1])));
            if matches!(self.current().typ, TokenType::RParen) {
                return Ok(parameters);
            }
            match self.expect(TokenType::Comma) {
                Ok(()) => {},
                Err(e) => { return Err(e); },
            }
        }
    }

    fn parse_struct_fields(&mut self) -> (r: Result<Vec<StructField>, String>)
        requires
            old(self).wf(),
        ensures
            final(self).stepped(old(self)),
            outcome(r, sp_fields(old(self).toks(), old(self).at(), Seq::empty()), final(self).at(),
                |v: Vec<StructField>| fields_m(v@)),
    {
        let ghost ts = self.toks();
        let ghost p0 = self.at();
        let mut fields: Vec<StructField> = Vec::new();
        assert(fields_m(fields@) =~= Seq::<(Seq<char>, TypeM)>::empty());
        while !matches!(self.current().typ, TokenType::RBrace | TokenType::Eof)
            invariant
                self.stepped(old(self)),
                ts == self.toks(),
                p0 == old(self).at(),
                sp_fields(ts, p0, Seq::empty()) == sp_fields(ts, self.at(), fields_m(fields@)),
            decreases ts.len() - self.at(),
        {
            let ghost p = self.at();
            let fname = match &self.current().typ {
                TokenType::Identifier(s) => s.clone(),
                _ => { return Err(text("Expected field name in struct definition")); },
            };
            proof { lemma_not_last(ts, p); }
            self.advance();
            match self.expect(TokenType::Colon) {
                Ok(()) => {},
                Err(e) => { return Err(e); },
            }
            let ftype = match self.parse_type() {
                Ok(t) => t,
                Err(e) => { return Err(e); },
            };
            let ghost before = fields_m(fields@);
            fields.push(StructField { name: fname, typ: ftype });
            assert(fields_m(fields@) =~= before.push(field_m(fields@[fields@.len() - 1])));
            if matches!(self.current().typ, TokenType::Comma) {
                self.advance();
            }
        }
        Ok(fields)
    }

    pub fn parse_struct_def(&mut self) -> (r: Result<StructDef, String>)
        requires
            old(self).wf(),
        ensures
            final(self).stepped(old(self)),
            r is Ok ==> final(self).at() > old(self).at(),
            outcome(r, sp_struct_def(old(self).toks(), old(self).at()), final(self).at(),
                |d: StructDef| struct_def_m(d)),
    {
        reveal(sp_struct_def);
        let ghost ts = self.toks();
        let ghost p0 = self.at();
        match self.expect(TokenType::Struct) {
            Ok(()) => {},
            Err(e) => { return Err(e); },
        }
        let name = match &self.current().typ {
            TokenType::Identifier(s) => s.clone(),
            _ => { return Err(text("Expected struct name after 'struct'")); },
        };
        proof { lemma_not_last(ts, self.at()); }
        self.advance();
        match self.expect(TokenType::LBrace) {
            Ok(()) => {},
            Err(e) => { return Err(e); },
        }
        let fields = match self.parse_struct_fields() {
            Ok(v) => v,
            Err(e) => { return Err(e); },
        };
        match self.expect(TokenType::RBrace) {
            Ok(()) => {},
            Err(e) => { return Err(e); },
        }
        Ok(StructDef { name, fields })
    }

    pub fn parse_extern_function(&mut self) -> (r: Result<ExternFunction, String>)
        requires
            old(self).wf(),
        ensures
            final(self).stepped(old(self)),
            r is Ok ==> final(self).at() > old(self).at(),
            outcome(r, sp_extern(old(self).toks(), old(self).at()), final(self).at(),
                |x: ExternFunction| extern_m(x)),
    {
        reveal(sp_extern);
        let ghost ts = self.toks();
        match self.expect(TokenType::Extern) {
            Ok(()) => {},
            Err(e) => { return Err(e); },
        }
        match self.expect(TokenType::Fn) {
            Ok(()) => {},
            Err(e) => { return Err(e); },
        }
        let name = match &self.current().typ {
            TokenType::Identifier(s) => s.clone(),
            _ => { return Err(text("Expected function name after 'extern fn'")); },
        };
        proof { lemma_not_last(ts, self.at()); }
        self.advance();
        match self.expect(TokenType::LParen) {
            Ok(()) => {},
            Err(e) => { return Err(e); },
        }
        let parameters = match self.parse_parameters() {
            Ok(v) => v,
            Err(e) => { return Err(e); },
        };
        match self.expect(TokenType::RParen) {
            Ok(()) => {},
            Err(e) => { return Err(e); },
        }
        match self.expect(TokenType::Arrow) {
            Ok(()) => {},
            Err(e) => { return Err(e); },
        }
        let return_type = match self.parse_type() {
            Ok(t) => t,
            Err(e) => { return Err(e); },
        };
        match self.expect(TokenType::Semicolon) {
            Ok(()) => {},
            Err(e) => { return Err(e); },
        }
        Ok(ExternFunction { name, parameters, return_type })
    }
}

} // verus!

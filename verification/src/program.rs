//! Whole programs: functions, globals, external declarations and structs.
use vstd::prelude::*;
use crate::ast::{
    Function, GlobalVar, ExternFunction, StructDef, Program, ProgramM, FunctionM, GlobalM, ExternM,
    StructM, function_m, global_m, extern_m, struct_def_m, program_m,
};
use crate::grammar::{
    tokens_wf, lemma_not_last, sp_global, sp_function, sp_items, sp_program, empty_program,
    top_level_msg, sp_braced,
};
use crate::parser::{Parser, outcome};
use crate::text::text;
use crate::token::{Token, TokenType};

verus! {

/// The model of the four lists a program is made of.
pub open spec fn parts_m(
    globals: Seq<GlobalVar>,
    functions: Seq<Function>,
    externs: Seq<ExternFunction>,
    structs: Seq<StructDef>,
) -> ProgramM {
    ProgramM {
        globals: Seq::new(globals.len(), |i: int| global_m(globals[i])),
        functions: Seq::new(functions.len(), |i: int| function_m(functions[i])),
        externs: Seq::new(externs.len(), |i: int| extern_m(externs[i])),
        structs: Seq::new(structs.len(), |i: int| struct_def_m(structs[i])),
    }
}

impl Parser {
    pub fn parse_global_decl(&mut self) -> (r: Result<GlobalVar, String>)
        requires
            old(self).wf(),
        ensures
            final(self).stepped(old(self)),
            r is Ok ==> final(self).at() > old(self).at(),
            outcome(r, sp_global(old(self).toks(), old(self).at()), final(self).at(), |g: GlobalVar| global_m(g)),
    {
        reveal(sp_global);
        let ghost ts = self.toks();
        match self.expect(TokenType::Let) {
            Ok(()) => {},
            Err(e) => { return Err(e); },
        }
        let name = match &self.current().typ {
            TokenType::Identifier(s) => s.clone(),
            _ => { return Err(text("Expected variable name in global declaration")); },
        };
        proof { lemma_not_last(ts, self.at()); }
        self.advance();
        match self.expect(TokenType::Colon) {
            Ok(()) => {},
            Err(e) => { return Err(e); },
        }
        let typ = match self.parse_type() {
            Ok(t) => t,
            Err(e) => { return Err(e); },
        };
        let initializer = if matches!(self.current().typ, TokenType::Assign) {
            proof { lemma_not_last(ts, self.at()); }
            self.advance();
            match self.parse_expression() {
                Ok(e) => Some(e),
                Err(e) => { return Err(e); },
            }
        } else {
            None
        };
        match self.expect(TokenType::Semicolon) {
            Ok(()) => {},
            Err(e) => { return Err(e); },
        }
        Ok(GlobalVar { name, typ, initializer })
    }

    pub fn parse_function(&mut self) -> (r: Result<Function, String>)
        requires
            old(self).wf(),
        ensures
            final(self).stepped(old(self)),
            r is Ok ==> final(self).at() > old(self).at(),
            outcome(r, sp_function(old(self).toks(), old(self).at()), final(self).at(), |f: Function| function_m(f)),
    {
        reveal(sp_function);
        let ghost ts = self.toks();
        match self.expect(TokenType::Fn) {
            Ok(()) => {},
            Err(e) => { return Err(e); },
        }
        let name = match &self.current().typ {
            TokenType::Identifier(s) => s.clone(),
            _ => { return Err(text("Expected function name")); },
        };
        proof { lemma_not_last(ts, self.at()); }
        self.advance();
        match self.expect(TokenType::LParen) {
            Ok(()) => {},
            Err(e) => { return Err(e); },
        }
        let parameters = match self.parse_parameters() {
            Ok(v) => v,
            Err(e) => { return Err(e); },
        };
        match self.expect(TokenType::RParen) {
            Ok(()) => {},
            Err(e) => { return Err(e); },
        }
        match self.expect(TokenType::Arrow) {
            Ok(()) => {},
            Err(e) => { return Err(e); },
        }
        let return_type = match self.parse_type() {
            Ok(t) => t,
            Err(e) => { return Err(e); },
        };
        let ghost p7 = self.at();
        match self.expect(TokenType::LBrace) {
            Ok(()) => {},
            Err(e) => { return Err(e); },
        }
        let body = match self.parse_block() {
            Ok(b) => b,
            Err(e) => { return Err(e); },
        };
        match self.expect(TokenType::RBrace) {
            Ok(()) => {},
            Err(e) => { return Err(e); },
        }
        assert(sp_braced(ts, p7, p7) is Ok);
        Ok(Function { name, parameters, return_type, body })
    }

    /// Top-level items until `Eof`.
    pub fn parse_program(&mut self) -> (r: Result<Program, String>)
        requires
            old(self).wf(),
        ensures
            final(self).stepped(old(self)),
            match sp_items(old(self).toks(), old(self).at(), empty_program()) {
                Ok((m, q)) => r is Ok && program_m(r->Ok_0) == m && final(self).at() == q,
                Err(e) => r is Err && r->Err_0@ == e,
            },
    {
        let ghost ts = self.toks();
        let ghost p0 = self.at();
        let mut globals: Vec<GlobalVar> = Vec::new();
        let mut functions: Vec<Function> = Vec::new();
        let mut externs: Vec<ExternFunction> = Vec::new();
        let mut structs: Vec<StructDef> = Vec::new();
        assert(parts_m(globals@, functions@, externs@, structs@) =~= empty_program());
        while !matches!(self.current().typ, TokenType::Eof)
            invariant
                self.stepped(old(self)),
                ts == self.toks(),
                ts == old(self).toks(),
                p0 == old(self).at(),
                sp_items(ts, p0, empty_program())
                    == sp_items(ts, self.at(), parts_m(globals@, functions@, externs@, structs@)),
            decreases ts.len() - self.at(),
        {
            let ghost before = parts_m(globals@, functions@, externs@, structs@);
            if matches!(self.current().typ, TokenType::Fn) {
                let f = match self.parse_function() {
                    Ok(f) => f,
                    Err(e) => { return Err(e); },
                };
                functions.push(f);
                assert(parts_m(globals@, functions@, externs@, structs@)
                    =~= ProgramM { functions: before.functions.push(function_m(f)), ..before });
            } else if matches!(self.current().typ, TokenType::Let) {
                let g = match self.parse_global_decl() {
                    Ok(g) => g,
                    Err(e) => { return Err(e); },
                };
                globals.push(g);
                assert(parts_m(globals@, functions@, externs@, structs@)
                    =~= ProgramM { globals: before.globals.push(global_m(g)), ..before });
            } else if matches!(self.current().typ, TokenType::Extern) {
                let x = match self.parse_extern_function() {
                    Ok(x) => x,
                    Err(e) => { return Err(e); },
                };
                externs.push(x);
                assert(parts_m(globals@, functions@, externs@, structs@)
                    =~= ProgramM { externs: before.externs.push(extern_m(x)), ..before });
            } else if matches!(self.current().typ, TokenType::Struct) {
                let d = match self.parse_struct_def() {
                    Ok(d) => d,
                    Err(e) => { return Err(e); },
                };
                structs.push(d);
                assert(parts_m(globals@, functions@, externs@, structs@)
                    =~= ProgramM { structs: before.structs.push(struct_def_m(d)), ..before });
            } else {
                let mut s = text("Expected 'fn', 'let', 'extern' or 'struct' at top level, got ");
                self.current().typ.append_debug_to(&mut s);
                self.append_position(&mut s);
                assert(s@ =~= top_level_msg(ts, self.at()));
                return Err(s);
            }
        }
        let prog = Program { globals, functions, externs, structs };
        assert(program_m(prog) =~= parts_m(prog.globals@, prog.functions@, prog.externs@, prog.structs@));
        Ok(prog)
    }
}

/// Parses a whole token sequence, as the lexer produces it (ending with `Eof`),
/// into a program, or gives the first error met.
pub fn parse(tokens: Vec<Token>) -> (r: Result<Program, String>)
    requires
        tokens_wf(tokens@),
    ensures
        match sp_program(tokens@) {
            Ok(m) => r is Ok && program_m(r->Ok_0) == m,
            Err(e) => r is Err && r->Err_0@ == e,
        },
{
    let mut parser = Parser::new(tokens);
    parser.parse_program()
}

} // verus!

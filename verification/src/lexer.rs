//! Source text to tokens. A float literal's value is not computed here: its
//! token holds the literal's digits (`FloatText`), and the caller converts them.
use vstd::prelude::*;
use crate::grammar::tokens_wf;
use crate::text::{text, push_char, text_eq, nat_text};
use crate::token::{Token, TokenType};

verus! {

/// `str::chars`, collected: the characters of `s`, in order.
#[verifier::external_body]
fn chars_of(s: &str) -> (r: Vec<char>)
    ensures
        r@ == s@,
{
    s.chars().collect()
}

/// The value of a run of decimal digits.
pub open spec fn digits_value(s: Seq<char>) -> nat
    decreases s.len(),
{
    if s.len() == 0 { 0 } else { digits_value(s.drop_last()) * 10 + (s.last() as nat - '0' as nat) as nat }
}

/// A run of digits is worth at least any of its prefixes.
proof fn lemma_digits_prefix(s: Seq<char>, k: int)
    requires
        0 <= k <= s.len(),
        forall|i: int| 0 <= i < s.len() ==> is_digit(#[trigger] s[i]),
    ensures
        digits_value(s.take(k)) <= digits_value(s),
    decreases s.len() - k,
{
    if k == s.len() {
        assert(s.take(k) =~= s);
    } else {
        lemma_digits_prefix(s, k + 1);
        assert(s.take(k + 1).drop_last() =~= s.take(k));
        let prev = digits_value(s.take(k));
        assert(prev * 10 >= prev) by (nonlinear_arith) requires prev >= 0;
    }
}

/// The number a non-empty run of decimal digits writes, or nothing when it does
/// not fit in an `i64`.
fn parse_i64(s: &str) -> (r: Option<i64>)
    requires
        s@.len() > 0,
        forall|i: int| 0 <= i < s@.len() ==> is_digit(#[trigger] s@[i]),
    ensures
        match r {
            Some(v) => v as int == digits_value(s@),
            None => digits_value(s@) > i64::MAX,
        },
{
    let cs = chars_of(s);
    let mut v: i64 = 0;
    let mut i: usize = 0;
    assert(cs@.take(0) =~= Seq::<char>::empty());
    while i < cs.len()
        invariant
            i <= cs@.len(),
            cs@ == s@,
            forall|j: int| 0 <= j < s@.len() ==> is_digit(#[trigger] s@[j]),
            0 <= v,
            v as int == digits_value(cs@.take(i as int)),
        decreases cs@.len() - i,
    {
        let c = cs[i];
        assert(is_digit(s@[i as int]));
        let d: i64 = (c as u32 - '0' as u32) as i64;
        assert(cs@.take(i + 1).drop_last() =~= cs@.take(i as int));
        assert(digits_value(cs@.take(i + 1)) == v * 10 + d);
        if v > (i64::MAX - d) / 10 {
            proof {
                let m = i64::MAX as int;
                assert(v * 10 + d > m) by (nonlinear_arith)
                    requires v > (m - d) / 10, 0 <= d <= 9, m > 0;
                lemma_digits_prefix(s@, i + 1);
            }
            return None;
        }
        proof {
            let m = i64::MAX as int;
            assert(v * 10 + d <= m) by (nonlinear_arith)
                requires v <= (m - d) / 10, 0 <= d <= 9, m > 0, v >= 0;
        }
        v = v * 10 + d;
        i = i + 1;
    }
    assert(cs@.take(cs@.len() as int) =~= cs@);
    Some(v)
}

pub open spec fn is_digit(c: char) -> bool {
    '0' <= c <= '9'
}

pub open spec fn is_ident_start(c: char) -> bool {
    ('a' <= c <= 'z') || ('A' <= c <= 'Z') || c == '_'
}

pub open spec fn is_ident_char(c: char) -> bool {
    is_ident_start(c) || is_digit(c)
}

/// The keyword or type name a word is, if it is one.
pub open spec fn keyword_kind(w: Seq<char>) -> Option<TokenType> {
    if w == "fn"@ { Some(TokenType::Fn) }
    else if w == "let"@ { Some(TokenType::Let) }
    else if w == "extern"@ { Some(TokenType::Extern) }
    else if w == "struct"@ { Some(TokenType::Struct) }
    else if w == "return"@ { Some(TokenType::Return) }
    else if w == "if"@ { Some(TokenType::If) }
    else if w == "else"@ { Some(TokenType::Else) }
    else if w == "while"@ { Some(TokenType::While) }
    else if w == "for"@ { Some(TokenType::For) }
    else if w == "in"@ { Some(TokenType::In) }
    else if w == "print"@ { Some(TokenType::Print) }
    else if w == "input"@ { Some(TokenType::Input) }
    else if w == "break"@ { Some(TokenType::Break) }
    else if w == "continue"@ { Some(TokenType::Continue) }
    else if w == "as"@ { Some(TokenType::As) }
    else if w == "true"@ { Some(TokenType::True) }
    else if w == "false"@ { Some(TokenType::False) }
    else if w == "map"@ { Some(TokenType::KwMap) }
    else if w == "i32"@ { Some(TokenType::I32) }
    else if w == "i64"@ { Some(TokenType::I64) }
    else if w == "f32"@ { Some(TokenType::F32) }
    else if w == "f64"@ { Some(TokenType::F64) }
    else if w == "bool"@ { Some(TokenType::Bool) }
    else if w == "str"@ { Some(TokenType::Str) }
    else if w == "void"@ { Some(TokenType::Void) }
    else { None }
}

/// The token kind a word stands for: a keyword, a type name, or an identifier.
pub open spec fn word_kind(w: String) -> TokenType {
    match keyword_kind(w@) {
        Some(k) => k,
        None => TokenType::Identifier(w),
    }
}

/// The token kind a word stands for: a keyword, a type name, or an identifier.
pub fn keyword_or_identifier(w: String) -> (r: TokenType)
    ensures
        r == word_kind(w),
{
    let s = w.as_str();
    if text_eq(s, "fn") { TokenType::Fn }
    else if text_eq(s, "let") { TokenType::Let }
    else if text_eq(s, "extern") { TokenType::Extern }
    else if text_eq(s, "struct") { TokenType::Struct }
    else if text_eq(s, "return") { TokenType::Return }
    else if text_eq(s, "if") { TokenType::If }
    else if text_eq(s, "else") { TokenType::Else }
    else if text_eq(s, "while") { TokenType::While }
    else if text_eq(s, "for") { TokenType::For }
    else if text_eq(s, "in") { TokenType::In }
    else if text_eq(s, "print") { TokenType::Print }
    else if text_eq(s, "input") { TokenType::Input }
    else if text_eq(s, "break") { TokenType::Break }
    else if text_eq(s, "continue") { TokenType::Continue }
    else if text_eq(s, "as") { TokenType::As }
    else if text_eq(s, "true") { TokenType::True }
    else if text_eq(s, "false") { TokenType::False }
    else if text_eq(s, "map") { TokenType::KwMap }
    else if text_eq(s, "i32") { TokenType::I32 }
    else if text_eq(s, "i64") { TokenType::I64 }
    else if text_eq(s, "f32") { TokenType::F32 }
    else if text_eq(s, "f64") { TokenType::F64 }
    else if text_eq(s, "bool") { TokenType::Bool }
    else if text_eq(s, "str") { TokenType::Str }
    else if text_eq(s, "void") { TokenType::Void }
    else { TokenType::Identifier(w) }
}

/// The two-character operator `c` `e`, if it is one.
pub open spec fn two_char_op(c: char, e: char) -> Option<TokenType> {
    if c == '-' && e == '>' { Some(TokenType::Arrow) }
    else if c == '=' && e == '=' { Some(TokenType::Equal) }
    else if c == '!' && e == '=' { Some(TokenType::NotEqual) }
    else if c == '<' && e == '=' { Some(TokenType::LessEqual) }
    else if c == '>' && e == '=' { Some(TokenType::GreaterEqual) }
    else if c == '<' && e == '<' { Some(TokenType::LShift) }
    else if c == '>' && e == '>' { Some(TokenType::RShift) }
    else if c == '&' && e == '&' { Some(TokenType::And) }
    else if c == '|' && e == '|' { Some(TokenType::Or) }
    else if c == '+' && e == '=' { Some(TokenType::PlusAssign) }
    else if c == '-' && e == '=' { Some(TokenType::MinusAssign) }
    else if c == '*' && e == '=' { Some(TokenType::StarAssign) }
    else if c == '/' && e == '=' { Some(TokenType::SlashAssign) }
    else if c == '%' && e == '=' { Some(TokenType::PercentAssign) }
    else if c == '.' && e == '.' { Some(TokenType::DotDot) }
    else { None }
}

/// The one-character operator or delimiter `c`, if it is one.
pub open spec fn one_char_op(c: char) -> Option<TokenType> {
    if c == '{' { Some(TokenType::LBrace) }
    else if c == '}' { Some(TokenType::RBrace) }
    else if c == ',' { Some(TokenType::Comma) }
    else if c == ':' { Some(TokenType::Colon) }
    else if c == '(' { Some(TokenType::LParen) }
    else if c == ')' { Some(TokenType::RParen) }
    else if c == ';' { Some(TokenType::Semicolon) }
    else if c == '[' { Some(TokenType::LBracket) }
    else if c == ']' { Some(TokenType::RBracket) }
    else if c == '=' { Some(TokenType::Assign) }
    else if c == '<' { Some(TokenType::Less) }
    else if c == '>' { Some(TokenType::Greater) }
    else if c == '+' { Some(TokenType::Plus) }
    else if c == '-' { Some(TokenType::Minus) }
    else if c == '*' { Some(TokenType::Star) }
    else if c == '/' { Some(TokenType::Slash) }
    else if c == '%' { Some(TokenType::Percent) }
    else if c == '&' { Some(TokenType::Ampersand) }
    else if c == '|' { Some(TokenType::Pipe) }
    else if c == '^' { Some(TokenType::Caret) }
    else if c == '!' { Some(TokenType::Bang) }
    else if c == '.' { Some(TokenType::Dot) }
    else { None }
}

/// The operator at `c` followed by `d`: the two-character one when there is one,
/// else the one-character one.
pub open spec fn operator_at(c: char, d: Option<char>) -> Option<(TokenType, usize)> {
    match d {
        Some(e) if two_char_op(c, e) is Some => Some((two_char_op(c, e)->Some_0, 2)),
        _ => match one_char_op(c) {
            Some(k) => Some((k, 1)),
            None => None,
        },
    }
}

/// The kind of a one- or two-character operator starting with `c` (followed by
/// `d`, if any), and how many characters it takes.
pub fn operator(c: char, d: Option<char>) -> (r: Option<(TokenType, usize)>)
    ensures
        r == operator_at(c, d),
{
    let two = match d {
        Some(e) => {
            if c == '-' && e == '>' { Some(TokenType::Arrow) }
            else if c == '=' && e == '=' { Some(TokenType::Equal) }
            else if c == '!' && e == '=' { Some(TokenType::NotEqual) }
            else if c == '<' && e == '=' { Some(TokenType::LessEqual) }
            else if c == '>' && e == '=' { Some(TokenType::GreaterEqual) }
            else if c == '<' && e == '<' { Some(TokenType::LShift) }
            else if c == '>' && e == '>' { Some(TokenType::RShift) }
            else if c == '&' && e == '&' { Some(TokenType::And) }
            else if c == '|' && e == '|' { Some(TokenType::Or) }
            else if c == '+' && e == '=' { Some(TokenType::PlusAssign) }
            else if c == '-' && e == '=' { Some(TokenType::MinusAssign) }
            else if c == '*' && e == '=' { Some(TokenType::StarAssign) }
            else if c == '/' && e == '=' { Some(TokenType::SlashAssign) }
            else if c == '%' && e == '=' { Some(TokenType::PercentAssign) }
            else if c == '.' && e == '.' { Some(TokenType::DotDot) }
            else { None }
        },
        None => None,
    };
    match two {
        Some(k) => { return Some((k, 2)); },
        None => {},
    }
    let one = if c == '{' { Some(TokenType::LBrace) }
        else if c == '}' { Some(TokenType::RBrace) }
        else if c == ',' { Some(TokenType::Comma) }
        else if c == ':' { Some(TokenType::Colon) }
        else if c == '(' { Some(TokenType::LParen) }
        else if c == ')' { Some(TokenType::RParen) }
        else if c == ';' { Some(TokenType::Semicolon) }
        else if c == '[' { Some(TokenType::LBracket) }
        else if c == ']' { Some(TokenType::RBracket) }
        else if c == '=' { Some(TokenType::Assign) }
        else if c == '<' { Some(TokenType::Less) }
        else if c == '>' { Some(TokenType::Greater) }
        else if c == '+' { Some(TokenType::Plus) }
        else if c == '-' { Some(TokenType::Minus) }
        else if c == '*' { Some(TokenType::Star) }
        else if c == '/' { Some(TokenType::Slash) }
        else if c == '%' { Some(TokenType::Percent) }
        else if c == '&' { Some(TokenType::Ampersand) }
        else if c == '|' { Some(TokenType::Pipe) }
        else if c == '^' { Some(TokenType::Caret) }
        else if c == '!' { Some(TokenType::Bang) }
        else if c == '.' { Some(TokenType::Dot) }
        else { None };
    match one {
        Some(k) => Some((k, 1)),
        None => None,
    }
}

/// `x + k`, or `usize::MAX` when that is larger.
pub open spec fn sat(x: usize, k: int) -> usize {
    if x + k > usize::MAX { usize::MAX } else { (x + k) as usize }
}

/// The character classes runs are made of: 0 identifier characters, 1 digits,
/// 2 anything but a line break.
pub open spec fn in_class(which: u8, c: char) -> bool {
    if which == 0 { is_ident_char(c) } else if which == 1 { is_digit(c) } else { c != '\n' }
}

/// The end of the run of characters of a class that starts at `i`.
pub open spec fn run_end(cs: Seq<char>, i: int, which: u8) -> int
    decreases cs.len() - i,
{
    if 0 <= i < cs.len() && in_class(which, cs[i]) { run_end(cs, i + 1, which) } else { i }
}

pub proof fn lemma_run_end(cs: Seq<char>, i: int, which: u8)
    ensures
        run_end(cs, i, which) >= i,
        i <= cs.len() ==> run_end(cs, i, which) <= cs.len(),
        forall|k: int| i <= k < run_end(cs, i, which) ==> in_class(which, #[trigger] cs[k]),
        0 <= i ==> (run_end(cs, i, which) < cs.len() ==> !in_class(which, cs[run_end(cs, i, which)])),
    decreases cs.len() - i,
{
    if 0 <= i < cs.len() && in_class(which, cs[i]) {
        lemma_run_end(cs, i + 1, which);
    }
}

/// The character an escape `\e` in a string literal stands for.
pub open spec fn unescape(e: char) -> char {
    if e == 'n' { '\n' } else if e == 'r' { '\r' } else if e == 't' { '\t' } else { e }
}

/// The rest of a string literal from `i` (after its opening quote): its text,
/// the index after its closing quote, and the line and column there; `None`
/// when the source ends first.
pub open spec fn scan_str(cs: Seq<char>, i: int, line: usize, col: usize) -> Option<(Seq<char>, int, usize, usize)>
    decreases cs.len() - i,
{
    if i < 0 || i >= cs.len() {
        None
    } else if cs[i] == '"' {
        Some((Seq::empty(), i + 1, line, sat(col, 1)))
    } else if cs[i] == '\\' && i + 1 < cs.len() {
        match scan_str(cs, i + 2, line, sat(col, 2)) {
            Some((t, j, l, c)) => Some((seq![unescape(cs[i + 1])] + t, j, l, c)),
            None => None,
        }
    } else {
        let l2 = if cs[i] == '\n' { sat(line, 1) } else { line };
        let c2 = if cs[i] == '\n' { 1usize } else { sat(col, 1) };
        match scan_str(cs, i + 1, l2, c2) {
            Some((t, j, l, c)) => Some((seq![cs[i]] + t, j, l, c)),
            None => None,
        }
    }
}

pub proof fn lemma_scan_str(cs: Seq<char>, i: int, line: usize, col: usize)
    ensures
        scan_str(cs, i, line, col) matches Some((_, j, _, _)) ==> i < j <= cs.len(),
    decreases cs.len() - i,
{
    if 0 <= i < cs.len() && cs[i] != '"' {
        if cs[i] == '\\' && i + 1 < cs.len() {
            lemma_scan_str(cs, i + 2, line, sat(col, 2));
        } else {
            let l2 = if cs[i] == '\n' { sat(line, 1) } else { line };
            let c2 = if cs[i] == '\n' { 1usize } else { sat(col, 1) };
            lemma_scan_str(cs, i + 1, l2, c2);
        }
    }
}

/// What a token is, before its text becomes a value.
pub enum Lexeme {
    /// A keyword, a type name or an identifier.
    Word(Seq<char>),
    /// An integer literal's digits.
    Int(Seq<char>),
    /// A float literal's text.
    Float(Seq<char>),
    /// A string literal's text, its escapes decoded.
    Text(Seq<char>),
    /// An operator, a delimiter, or the end.
    Sym(TokenType),
}

/// A lexeme with the line and column where it starts.
pub type Placed = (Lexeme, usize, usize);

/// `what at LINE:COLUMN`.
pub open spec fn position_text(what: Seq<char>, line: usize, col: usize) -> Seq<char> {
    what + " at "@ + nat_text(line as nat) + ":"@ + nat_text(col as nat)
}

/// A token in front of the tokens that follow, unless what follows is an error.
pub open spec fn then_token(p: Placed, rest: Result<Seq<Placed>, Seq<char>>) -> Result<Seq<Placed>, Seq<char>> {
    match rest {
        Ok(ts) => Ok(seq![p] + ts),
        Err(e) => Err(e),
    }
}

/// The lexemes of the source from `i`, which stands at `line` and `col`, ending
/// with `Eof`; or the error that stops them. Spaces, tabs, carriage returns and
/// `//` comments separate tokens; a line break starts a new line at column 1.
pub open spec fn lex_from(cs: Seq<char>, i: int, line: usize, col: usize) -> Result<Seq<Placed>, Seq<char>>
    decreases cs.len() - i,
{
    if i < 0 || i >= cs.len() {
        Ok(seq![(Lexeme::Sym(TokenType::Eof), line, col)])
    } else {
        let c = cs[i];
        if c == '\n' {
            lex_from(cs, i + 1, sat(line, 1), 1)
        } else if c == ' ' || c == '\t' || c == '\r' {
            lex_from(cs, i + 1, line, sat(col, 1))
        } else if c == '/' && i + 1 < cs.len() && cs[i + 1] == '/' {
            proof { lemma_run_end(cs, i + 2, 2); }
            lex_from(cs, run_end(cs, i + 2, 2), line, col)
        } else if is_ident_start(c) {
            proof { lemma_run_end(cs, i + 1, 0); }
            let j = run_end(cs, i + 1, 0);
            then_token((Lexeme::Word(cs.subrange(i, j)), line, col), lex_from(cs, j, line, sat(col, j - i)))
        } else if is_digit(c) {
            proof { lemma_run_end(cs, i + 1, 1); }
            let j = run_end(cs, i + 1, 1);
            if j + 1 < cs.len() && cs[j] == '.' && is_digit(cs[j + 1]) {
                proof { lemma_run_end(cs, j + 1, 1); }
                let k = run_end(cs, j + 1, 1);
                then_token((Lexeme::Float(cs.subrange(i, k)), line, col), lex_from(cs, k, line, sat(col, k - i)))
            } else if digits_value(cs.subrange(i, j)) > i64::MAX {
                Err(position_text("Integer literal out of range"@, line, col))
            } else {
                then_token((Lexeme::Int(cs.subrange(i, j)), line, col), lex_from(cs, j, line, sat(col, j - i)))
            }
        } else if c == '"' {
            proof { lemma_scan_str(cs, i + 1, line, sat(col, 1)); }
            match scan_str(cs, i + 1, line, sat(col, 1)) {
                None => Err(position_text("Unterminated string literal"@, line, col)),
                Some((t, j, l, c2)) => then_token((Lexeme::Text(t), line, col), lex_from(cs, j, l, c2)),
            }
        } else {
            let d = if i + 1 < cs.len() { Some(cs[i + 1]) } else { None };
            match operator_at(c, d) {
                Some((k, n)) => if n == 1 || n == 2 {
                    then_token((Lexeme::Sym(k), line, col), lex_from(cs, i + n, line, sat(col, n as int)))
                } else {
                    Err(Seq::empty())
                },
                None => Err(position_text("Unexpected character '"@ + seq![c] + "'"@, line, col)),
            }
        }
    }
}

/// The lexemes of a whole source text.
pub open spec fn lex(cs: Seq<char>) -> Result<Seq<Placed>, Seq<char>> {
    lex_from(cs, 0, 1, 1)
}

/// A token is a lexeme read into a value, at the lexeme's place.
pub open spec fn token_is(t: Token, p: Placed) -> bool {
    &&& t.line == p.1
    &&& t.column == p.2
    &&& match p.0 {
        Lexeme::Word(w) => match keyword_kind(w) {
            Some(k) => t.typ == k,
            None => t.typ matches TokenType::Identifier(s) && s@ == w,
        },
        Lexeme::Int(ds) => t.typ matches TokenType::IntLiteral(v) && v as int == digits_value(ds),
        Lexeme::Float(x) => t.typ matches TokenType::FloatText(s) && s@ == x,
        Lexeme::Text(x) => t.typ matches TokenType::StringLiteral(s) && s@ == x,
        Lexeme::Sym(k) => t.typ == k,
    }
}

pub open spec fn tokens_are(ts: Seq<Token>, ps: Seq<Placed>) -> bool {
    ts.len() == ps.len() && forall|i: int| 0 <= i < ts.len() ==> token_is(#[trigger] ts[i], ps[i])
}

/// The lexemes so far in front of those from here on.
pub open spec fn after(done: Seq<Placed>, rest: Result<Seq<Placed>, Seq<char>>) -> Result<Seq<Placed>, Seq<char>> {
    match rest {
        Ok(ts) => Ok(done + ts),
        Err(e) => Err(e),
    }
}

proof fn lemma_after_token(done: Seq<Placed>, p: Placed, rest: Result<Seq<Placed>, Seq<char>>)
    ensures
        after(done, then_token(p, rest)) == after(done.push(p), rest),
{
    if let Ok(ts) = rest {
        assert(done + (seq![p] + ts) =~= done.push(p) + ts);
    }
}

/// Whether `c` is of the class `which`.
fn class_has(which: u8, c: char) -> (r: bool)
    ensures
        r == in_class(which, c),
{
    if which == 0 {
        ('a' <= c && c <= 'z') || ('A' <= c && c <= 'Z') || c == '_' || ('0' <= c && c <= '9')
    } else if which == 1 {
        '0' <= c && c <= '9'
    } else {
        c != '\n'
    }
}

/// The end of the run of characters of a class that starts at `i`.
fn run_end_at(cs: &Vec<char>, i: usize, which: u8) -> (r: usize)
    requires
        i <= cs@.len(),
    ensures
        r == run_end(cs@, i as int, which),
{
    let mut j = i;
    while j < cs.len() && class_has(which, cs[j])
        invariant
            i <= j <= cs@.len(),
            run_end(cs@, i as int, which) == run_end(cs@, j as int, which),
        decreases cs@.len() - j,
    {
        j = j + 1;
    }
    j
}

/// The characters of `cs` from `lo` to `hi`.
fn text_of(cs: &Vec<char>, lo: usize, hi: usize) -> (r: String)
    requires
        lo <= hi <= cs@.len(),
    ensures
        r@ == cs@.subrange(lo as int, hi as int),
{
    let mut out = String::new();
    let mut k = lo;
    while k < hi
        invariant
            lo <= k <= hi,
            hi <= cs@.len(),
            out@ == cs@.subrange(lo as int, k as int),
        decreases hi - k,
    {
        push_char(&mut out, cs[k]);
        assert(out@ =~= cs@.subrange(lo as int, k + 1));
        k = k + 1;
    }
    out
}

/// Reads a string literal from `i`, after its opening quote, as `scan_str` does.
fn read_string(cs: &Vec<char>, i: usize, line: usize, col: usize) -> (r: Option<(String, usize, usize, usize)>)
    requires
        i <= cs@.len(),
    ensures
        match scan_str(cs@, i as int, line, col) {
            Some((t, j, l, c)) => r matches Some((s, j2, l2, c2)) && s@ == t && j2 == j && l2 == l && c2 == c,
            None => r is None,
        },
{
    let n = cs.len();
    let mut k = i;
    let mut ln = line;
    let mut cl = col;
    let mut s = String::new();
    while k < n
        invariant
            i <= k <= n,
            n == cs@.len(),
            scan_str(cs@, i as int, line, col) == match scan_str(cs@, k as int, ln, cl) {
                Some((t, j, l, c)) => Some((s@ + t, j, l, c)),
                None => None,
            },
        decreases n - k,
    {
        let d = cs[k];
        let ghost before = s@;
        if d == '"' {
            assert(s@ + Seq::<char>::empty() =~= s@);
            return Some((s, k + 1, ln, cl.saturating_add(1)));
        } else if d == '\\' && k + 1 < n {
            let e = cs[k + 1];
            let x = if e == 'n' { '\n' } else if e == 'r' { '\r' } else if e == 't' { '\t' } else { e };
            push_char(&mut s, x);
            proof {
                match scan_str(cs@, k + 2, ln, sat(cl, 2)) {
                    Some((t, j, l, c)) => { assert(before + (seq![x] + t) =~= s@ + t); },
                    None => {},
                }
            }
            k = k + 2;
            cl = cl.saturating_add(2);
        } else {
            push_char(&mut s, d);
            let ghost (l2, c2) = if d == '\n' { (sat(ln, 1), 1usize) } else { (ln, sat(cl, 1)) };
            proof {
                match scan_str(cs@, k + 1, l2, c2) {
                    Some((t, j, l, c)) => { assert(before + (seq![d] + t) =~= s@ + t); },
                    None => {},
                }
            }
            k = k + 1;
            if d == '\n' {
                ln = ln.saturating_add(1);
                cl = 1;
            } else {
                cl = cl.saturating_add(1);
            }
        }
    }
    None
}

/// One step of the lexer at `i`: something skipped, a token read, or an error.
enum Step {
    Skip(usize, usize, usize),
    Tok(Token, usize, usize, usize),
    Fail(String),
}

/// The lexer's step at `i` (on `line`, at `col`), as `lex_from` takes it: where it
/// goes on from, with the token it read, if any.
#[verifier::rlimit(40)]
fn lex_step(cs: &Vec<char>, i: usize, line: usize, col: usize) -> (r: (Step, Ghost<Placed>))
    requires
        i < cs@.len(),
    ensures
        match r.0 {
            Step::Skip(j, l, c) => i < j <= cs@.len() && lex_from(cs@, i as int, line, col) == lex_from(cs@, j as int, l, c),
            Step::Tok(t, j, l, c) => i < j <= cs@.len() && token_is(t, r.1@)
                && lex_from(cs@, i as int, line, col) == then_token(r.1@, lex_from(cs@, j as int, l, c)),
            Step::Fail(e) => lex_from(cs@, i as int, line, col) == Err::<Seq<Placed>, Seq<char>>(e@),
        },
{
    let n = cs.len();
    let c = cs[i];
    let none: Ghost<Placed> = Ghost((Lexeme::Sym(TokenType::Eof), line, col));
    if c == '\n' {
        let l = line.saturating_add(1);
        assert(l == sat(line, 1));
        assert(lex_from(cs@, i as int, line, col) == lex_from(cs@, i + 1, l, 1));
        (Step::Skip(i + 1, l, 1), none)
    } else if c == ' ' || c == '\t' || c == '\r' {
        let c2 = col.saturating_add(1);
        assert(lex_from(cs@, i as int, line, col) == lex_from(cs@, i + 1, line, c2));
        (Step::Skip(i + 1, line, c2), none)
    } else if c == '/' && i + 1 < n && cs[i + 1] == '/' {
        proof { lemma_run_end(cs@, i + 2, 2); }
        let j = run_end_at(cs, i + 2, 2);
        assert(lex_from(cs@, i as int, line, col) == lex_from(cs@, j as int, line, col));
        (Step::Skip(j, line, col), none)
    } else if ('a' <= c && c <= 'z') || ('A' <= c && c <= 'Z') || c == '_' {
        proof { lemma_run_end(cs@, i + 1, 0); }
        let j = run_end_at(cs, i + 1, 0);
        let w = text_of(cs, i, j);
        let p: Ghost<Placed> = Ghost((Lexeme::Word(cs@.subrange(i as int, j as int)), line, col));
        (Step::Tok(Token { typ: keyword_or_identifier(w), line, column: col }, j, line, col.saturating_add(j - i)), p)
    } else if '0' <= c && c <= '9' {
        proof { lemma_run_end(cs@, i + 1, 1); }
        let j = run_end_at(cs, i + 1, 1);
        if j < n && cs[j] == '.' && j + 1 < n && '0' <= cs[j + 1] && cs[j + 1] <= '9' {
            proof { lemma_run_end(cs@, j + 1, 1); }
            let k = run_end_at(cs, j + 1, 1);
            let w = text_of(cs, i, k);
            let p: Ghost<Placed> = Ghost((Lexeme::Float(cs@.subrange(i as int, k as int)), line, col));
            (Step::Tok(Token { typ: TokenType::FloatText(w), line, column: col }, k, line, col.saturating_add(k - i)), p)
        } else {
            let w = text_of(cs, i, j);
            proof {
                assert forall|m: int| 0 <= m < w@.len() implies is_digit(#[trigger] w@[m]) by {
                    assert(w@[m] == cs@[i + m]);
                    assert(in_class(1, cs@[i + m]));
                }
            }
            match parse_i64(w.as_str()) {
                Some(v) => {
                    let p: Ghost<Placed> = Ghost((Lexeme::Int(cs@.subrange(i as int, j as int)), line, col));
                    (Step::Tok(Token { typ: TokenType::IntLiteral(v), line, column: col }, j, line, col.saturating_add(j - i)), p)
                },
                None => (Step::Fail(position_message("Integer literal out of range", line, col)), none),
            }
        }
    } else if c == '"' {
        proof { lemma_scan_str(cs@, i + 1, line, sat(col, 1)); }
        match read_string(cs, i + 1, line, col.saturating_add(1)) {
            Some((s, j, l, c2)) => {
                let p: Ghost<Placed> = Ghost((Lexeme::Text(s@), line, col));
                (Step::Tok(Token { typ: TokenType::StringLiteral(s), line, column: col }, j, l, c2), p)
            },
            None => (Step::Fail(position_message("Unterminated string literal", line, col)), none),
        }
    } else {
        let d = if i + 1 < n { Some(cs[i + 1]) } else { None };
        match operator(c, d) {
            Some((k, len)) => {
                let p: Ghost<Placed> = Ghost((Lexeme::Sym(k), line, col));
                (Step::Tok(Token { typ: k, line, column: col }, i + len, line, col.saturating_add(len)), p)
            },
            None => {
                let mut s = text("Unexpected character '");
                push_char(&mut s, c);
                crate::text::append(&mut s, "'");
                assert(s@ =~= "Unexpected character '"@ + seq![c] + "'"@);
                (Step::Fail(position_message(s.as_str(), line, col)), none)
            },
        }
    }
}

/// Splits source text into tokens, ending with `Eof`, as `lex` says; or gives the
/// error that stops it, which names the line and column of what could not be read.
pub fn tokenize(source: &str) -> (r: Result<Vec<Token>, String>)
    ensures
        match lex(source@) {
            Ok(ps) => r is Ok && tokens_are(r->Ok_0@, ps),
            Err(e) => r is Err && r->Err_0@ == e,
        },
        r matches Ok(ts) ==> tokens_wf(ts@),
{
    let cs = chars_of(source);
    let n = cs.len();
    let mut tokens: Vec<Token> = Vec::new();
    let mut i: usize = 0;
    let mut line: usize = 1;
    let mut col: usize = 1;
    let ghost mut done: Seq<Placed> = Seq::empty();
    assert(after(done, lex_from(cs@, 0, 1, 1)) == lex_from(cs@, 0, 1, 1)) by {
        if let Ok(ts) = lex_from(cs@, 0, 1, 1) {
            assert(done + ts =~= ts);
        }
    }
    while i < n
        invariant
            n == cs@.len(),
            cs@ == source@,
            i <= n,
            tokens_are(tokens@, done),
            lex(source@) == after(done, lex_from(cs@, i as int, line, col)),
        decreases n - i,
    {
        let (step, p) = lex_step(&cs, i, line, col);
        match step {
            Step::Skip(j, l, c) => {
                i = j;
                line = l;
                col = c;
            },
            Step::Tok(t, j, l, c) => {
                tokens.push(t);
                proof {
                    lemma_after_token(done, p@, lex_from(cs@, j as int, l, c));
                    done = done.push(p@);
                }
                i = j;
                line = l;
                col = c;
            },
            Step::Fail(e) => { return Err(e); },
        }
    }
    let p: Ghost<Placed> = Ghost((Lexeme::Sym(TokenType::Eof), line, col));
    tokens.push(Token { typ: TokenType::Eof, line, column: col });
    proof {
        assert(done + seq![p@] =~= done.push(p@));
        done = done.push(p@);
    }
    Ok(tokens)
}

/// `what at LINE:COLUMN`.
pub fn position_message(what: &str, line: usize, col: usize) -> (r: String)
    ensures
        r@ == position_text(what@, line, col),
{
    let mut s = text(what);
    crate::text::append(&mut s, " at ");
    crate::text::append_nat(&mut s, line as u64);
    crate::text::append(&mut s, ":");
    crate::text::append_nat(&mut s, col as u64);
    assert(s@ =~= what@ + " at "@ + crate::text::nat_text(line as nat) + ":"@ + crate::text::nat_text(col as nat));
    s
}

} // verus!

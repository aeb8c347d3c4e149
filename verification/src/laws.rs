//! Properties of the grammar that hold for all inputs.
use vstd::prelude::*;
use crate::ast::TypeM;
use crate::grammar::{tokens_wf, tk, adv, map_cap_ok, sp_map_cap, sp_type, sp_expect};
use crate::token::{Token, TokenType};

verus! {

/// `n` is a power of two.
pub open spec fn is_pow2(n: nat) -> bool
    decreases n,
{
    if n == 1 {
        true
    } else if n < 2 || n % 2 != 0 {
        false
    } else {
        is_pow2(n / 2)
    }
}

proof fn lemma_pow2_step(n: usize)
    requires
        n >= 2,
    ensures
        (n & ((n - 1) as usize)) == 0 <==> (n % 2 == 0 && ((n / 2) as usize & ((n / 2 - 1) as usize)) == 0),
{
    assert(n >= 2 ==> ((n & ((n - 1) as usize)) == 0 <==> (n % 2 == 0 && ((n / 2) as usize & ((n / 2 - 1) as usize)) == 0)))
        by (bit_vector);
}

/// A map capacity is accepted exactly when it is a power of two.
pub proof fn law_map_capacity_is_power_of_two(n: usize)
    ensures
        map_cap_ok(n) <==> is_pow2(n as nat),
    decreases n,
{
    if n == 0 {
    } else if n == 1 {
        assert((1usize & 0usize) == 0) by (bit_vector);
    } else {
        lemma_pow2_step(n);
        if n % 2 == 0 {
            let h: usize = n / 2;
            law_map_capacity_is_power_of_two(h);
            assert(h >= 1);
            if h == 1 {
                assert((1usize & 0usize) == 0) by (bit_vector);
            }
        }
    }
}

/// The number of tokens that spell a type.
pub open spec fn type_len(t: TypeM) -> nat
    decreases t,
{
    match t {
        TypeM::Array { element, size } => type_len(*element) + 4,
        TypeM::HashMap { key, value, cap } => type_len(*key) + type_len(*value) + 4 + (if cap is Some { 2nat } else { 0nat }),
        _ => 1,
    }
}

/// The integer literal token `v` stands for the count `n`.
pub open spec fn literal_for(k: TokenType, n: usize) -> bool {
    k matches TokenType::IntLiteral(v) && 0 <= v && v as int == n as int
}

/// The tokens from `p` on spell the type `t`: `i32`, `[T; N]`, `map[K, V]`,
/// `map[K, V; N]`, or a struct's name.
pub open spec fn spells_type(ts: Seq<Token>, p: int, t: TypeM) -> bool
    decreases t,
{
    &&& 0 <= p
    &&& p + type_len(t) <= ts.len()
    &&& match t {
        TypeM::I32 => tk(ts, p) is I32,
        TypeM::I64 => tk(ts, p) is I64,
        TypeM::F32 => tk(ts, p) is F32,
        TypeM::F64 => tk(ts, p) is F64,
        TypeM::Bool => tk(ts, p) is Bool,
        TypeM::Str => tk(ts, p) is Str,
        TypeM::Void => tk(ts, p) is Void,
        TypeM::Struct(name) => tk(ts, p) matches TokenType::Identifier(s) && s@ == name,
        TypeM::Array { element, size } => {
            let q = p + 1 + type_len(*element);
            &&& tk(ts, p) is LBracket
            &&& spells_type(ts, p + 1, *element)
            &&& tk(ts, q) is Semicolon
            &&& literal_for(tk(ts, q + 1), size)
            &&& tk(ts, q + 2) is RBracket
        },
        TypeM::HashMap { key, value, cap } => {
            let q = p + 2 + type_len(*key);
            let r = q + 1 + type_len(*value);
            &&& tk(ts, p) is KwMap
            &&& tk(ts, p + 1) is LBracket
            &&& spells_type(ts, p + 2, *key)
            &&& tk(ts, q) is Comma
            &&& spells_type(ts, q + 1, *value)
            &&& match cap {
                Some(n) => {
                    &&& tk(ts, r) is Semicolon
                    &&& literal_for(tk(ts, r + 1), n)
                    &&& tk(ts, r + 2) is RBracket
                },
                None => tk(ts, r) is RBracket,
            }
        },
    }
}

/// Every map capacity in the type is a power of two.
pub open spec fn caps_valid(t: TypeM) -> bool
    decreases t,
{
    match t {
        TypeM::Array { element, size } => caps_valid(*element),
        TypeM::HashMap { key, value, cap } => caps_valid(*key) && caps_valid(*value) && match cap {
            Some(n) => is_pow2(n as nat),
            None => true,
        },
        _ => true,
    }
}

proof fn lemma_array_read_back(ts: Seq<Token>, p: int, element: TypeM, size: usize)
    requires
        tokens_wf(ts),
        spells_type(ts, p, TypeM::Array { element: Box::new(element), size }),
        p + type_len(element) + 4 < ts.len(),
        sp_type(ts, p + 1) == Ok::<(TypeM, int), Seq<char>>((element, p + 1 + type_len(element))),
    ensures
        sp_type(ts, p) == Ok::<(TypeM, int), Seq<char>>((TypeM::Array { element: Box::new(element), size }, p + type_len(element) + 4)),
{
    let q = p + 1 + type_len(element);
    assert(adv(ts, p) == p + 1);
    assert(sp_expect(ts, q, TokenType::Semicolon) == Ok::<int, Seq<char>>(q + 1));
    assert(adv(ts, q + 1) == q + 2);
    assert(sp_expect(ts, q + 2, TokenType::RBracket) == Ok::<int, Seq<char>>(q + 3));
}

proof fn lemma_map_read_back(ts: Seq<Token>, p: int, key: TypeM, value: TypeM, cap: Option<usize>)
    requires
        tokens_wf(ts),
        spells_type(ts, p, TypeM::HashMap { key: Box::new(key), value: Box::new(value), cap }),
        p + type_len(TypeM::HashMap { key: Box::new(key), value: Box::new(value), cap }) < ts.len(),
        sp_type(ts, p + 2) == Ok::<(TypeM, int), Seq<char>>((key, p + 2 + type_len(key))),
        sp_type(ts, p + 3 + type_len(key))
            == Ok::<(TypeM, int), Seq<char>>((value, p + 3 + type_len(key) + type_len(value))),
        cap matches Some(n) ==> map_cap_ok(n),
    ensures
        sp_type(ts, p) == Ok::<(TypeM, int), Seq<char>>((
            TypeM::HashMap { key: Box::new(key), value: Box::new(value), cap },
            p + type_len(TypeM::HashMap { key: Box::new(key), value: Box::new(value), cap }),
        )),
{
    let q = p + 2 + type_len(key);
    let r = q + 1 + type_len(value);
    assert(sp_expect(ts, p + 1, TokenType::LBracket) == Ok::<int, Seq<char>>(p + 2));
    assert(sp_expect(ts, q, TokenType::Comma) == Ok::<int, Seq<char>>(q + 1));
    match cap {
        Some(n) => {
            assert(adv(ts, r) == r + 1);
            assert(adv(ts, r + 1) == r + 2);
            assert(sp_expect(ts, r + 2, TokenType::RBracket) == Ok::<int, Seq<char>>(r + 3));
            assert(sp_map_cap(ts, r) == Ok::<(Option<usize>, int), Seq<char>>((Some(n), r + 3)));
        },
        None => {
            assert(sp_map_cap(ts, r) == Ok::<(Option<usize>, int), Seq<char>>((None, r + 1)));
        },
    }
}

/// Reading a type back from its spelling gives the type, and stops just after it
/// (whatever follows), provided its map capacities are powers of two.
pub proof fn law_type_read_back(ts: Seq<Token>, p: int, t: TypeM)
    requires
        tokens_wf(ts),
        spells_type(ts, p, t),
        p + type_len(t) < ts.len(),
        caps_valid(t),
    ensures
        sp_type(ts, p) == Ok::<(TypeM, int), Seq<char>>((t, p + type_len(t))),
    decreases t,
{
    match t {
        TypeM::Array { element, size } => {
            law_type_read_back(ts, p + 1, *element);
            lemma_array_read_back(ts, p, *element, size);
        },
        TypeM::HashMap { key, value, cap } => {
            law_type_read_back(ts, p + 2, *key);
            law_type_read_back(ts, p + 3 + type_len(*key), *value);
            if let Some(n) = cap {
                law_map_capacity_is_power_of_two(n);
            }
            lemma_map_read_back(ts, p, *key, *value, cap);
        },
        _ => {},
    }
}

} // verus!

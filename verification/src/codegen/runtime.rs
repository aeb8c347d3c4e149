//! The runtime's helper functions, built into every module: comparators for
//! `sort`, the string built-ins, and the hash maps.
use vstd::prelude::*;
use inkwell::values::{BasicValueEnum, FunctionValue};
use crate::llvm;
use crate::llvm::Emitted;
use crate::text::text;
use crate::vtype::{VType, VTypeM, str_vtype, str_m, MapKind, vt_m, map_tag_spec, map_key_spec, map_value_spec};
use super::{Codegen, cat, builder_failed, built, llvm_type_error, build_failure, opt_vt_m, outside_refusal,
    undefined_function, signature_error, lemma_basic_types_ok, lemma_first_type_error, grows};

verus! {

broadcast use crate::codegen::Codegen::lemma_same_but_emitted;

impl<'ctx> Codegen<'ctx> {
    /// An `i64` constant.
    pub(crate) fn k64(&mut self, v: u64) -> (r: Result<BasicValueEnum<'ctx>, String>)
        ensures
            final(self).same_but_emitted(old(self)),
            r is Ok ==> final(self).emitted() == old(self).emitted().push(Emitted::IntConstant(v, false, r->Ok_0)),
            r is Err ==> final(self).emitted() == old(self).emitted(),
            r is Err ==> r->Err_0@ == build_failure("an integer constant"@),
    {
        built(llvm::const_int(llvm::i64_ty(self.context), &mut self.trace, v, false), "an integer constant")
    }

    /// An `i32` constant.
    pub(crate) fn k32(&mut self, v: u64) -> (r: Result<BasicValueEnum<'ctx>, String>)
        ensures
            final(self).same_but_emitted(old(self)),
            r is Ok ==> final(self).emitted() == old(self).emitted().push(Emitted::IntConstant(v, false, r->Ok_0)),
            r is Err ==> final(self).emitted() == old(self).emitted(),
            r is Err ==> r->Err_0@ == build_failure("an integer constant"@),
    {
        built(llvm::const_int(llvm::i32_ty(self.context), &mut self.trace, v, false), "an integer constant")
    }

    pub(crate) fn ld(&self, p: BasicValueEnum<'ctx>, name: &str) -> (r: Result<BasicValueEnum<'ctx>, String>)
        ensures
            r is Err ==> r->Err_0@ == build_failure("a load"@),
    {
        built(llvm::load(&self.builder, p, name), "a load")
    }

    pub(crate) fn st(&self, p: BasicValueEnum<'ctx>, v: BasicValueEnum<'ctx>) -> (r: Result<(), String>)
        ensures
            r is Err ==> r->Err_0@ == build_failure("a store"@),
    {
        if llvm::store(&self.builder, p, v) { Ok(()) } else { Err(builder_failed("a store")) }
    }

    pub(crate) fn jump(&mut self, bb: inkwell::basic_block::BasicBlock<'ctx>) -> (r: Result<(), String>)
        ensures
            final(self).same_but_emitted(old(self)),
            r is Err ==> r->Err_0@ == build_failure("a branch"@),
            r is Ok ==> final(self).emitted() == old(self).emitted().push(Emitted::Jump(bb)),
            r is Err ==> final(self).emitted() == old(self).emitted(),
    {
        if llvm::br(&self.builder, &mut self.trace, bb) { Ok(()) } else { Err(builder_failed("a branch")) }
    }

    pub(crate) fn branch(&mut self, c: BasicValueEnum<'ctx>, t: inkwell::basic_block::BasicBlock<'ctx>,
        e: inkwell::basic_block::BasicBlock<'ctx>) -> (r: Result<(), String>)
        ensures
            final(self).same_but_emitted(old(self)),
            r is Err ==> r->Err_0@ == build_failure("a branch"@),
            r is Ok ==> final(self).emitted() == old(self).emitted().push(Emitted::Branch(c, t, e)),
            r is Err ==> final(self).emitted() == old(self).emitted(),
    {
        if llvm::cond_br(&self.builder, &mut self.trace, c, t, e) { Ok(()) } else { Err(builder_failed("a branch")) }
    }

    pub(crate) fn give(&self, v: Option<BasicValueEnum<'ctx>>) -> (r: Result<(), String>)
        ensures
            r is Err ==> r->Err_0@ == build_failure("a return"@),
    {
        if llvm::ret(&self.builder, v) { Ok(()) } else { Err(builder_failed("a return")) }
    }

    pub(crate) fn func(&mut self, name: &str) -> (r: Result<FunctionValue<'ctx>, String>)
        ensures
            final(self).same_but_emitted(old(self)),
            final(self).emitted() == old(self).emitted().push(Emitted::Lookup(Ghost(name@), match r {
                Ok(f) => Some(f),
                Err(_) => None,
            })),
            r is Err ==> r->Err_0@ == undefined_function(name@),
    {
        match llvm::get_function(&self.module, &mut self.trace, name) {
            Some(f) => Ok(f),
            None => Err(cat("Undefined function: ", name)),
        }
    }

    /// Calls the function `f` for its value.
    pub(crate) fn call_for(&mut self, f: FunctionValue<'ctx>, args: Vec<BasicValueEnum<'ctx>>, name: &str) -> (r: Result<BasicValueEnum<'ctx>, String>)
        ensures
            final(self).same_but_emitted(old(self)),
            r is Ok ==> final(self).emitted() == old(self).emitted().push(Emitted::Call(f, args, Some(r->Ok_0))),
            r is Err ==> crate::codegen::grows(old(self).emitted(), final(self).emitted()),
            r is Err ==> r->Err_0@ == build_failure("a call"@),
    {
        match llvm::call(&self.builder, &mut self.trace, f, &args, name) {
            Some(Some(v)) => Ok(v),
            _ => Err(builder_failed("a call")),
        }
    }

    /// Calls the function `f`, ignoring any value.
    pub(crate) fn call_do(&mut self, f: FunctionValue<'ctx>, args: Vec<BasicValueEnum<'ctx>>, name: &str) -> (r: Result<(), String>)
        ensures
            final(self).same_but_emitted(old(self)),
            r is Ok ==> exists|x: Option<BasicValueEnum<'ctx>>| final(self).emitted() == old(self).emitted().push(Emitted::Call(f, args, x)),
            crate::codegen::grows(old(self).emitted(), final(self).emitted()),
            r is Err ==> r->Err_0@ == build_failure("a call"@),
    {
        match llvm::call(&self.builder, &mut self.trace, f, &args, name) {
            Some(x) => {
                assert(self.emitted() == old(self).emitted().push(Emitted::Call(f, args, x)));
                Ok(())
            },
            None => Err(builder_failed("a call")),
        }
    }

    pub(crate) fn nth(&self, f: FunctionValue<'ctx>, n: u32) -> (r: Result<BasicValueEnum<'ctx>, String>)
        ensures
            r is Err ==> r->Err_0@ == build_failure("a parameter"@),
    {
        built(llvm::param(f, n), "a parameter")
    }

    pub(crate) fn block(&self, f: FunctionValue<'ctx>, name: &str) -> (r: inkwell::basic_block::BasicBlock<'ctx>) {
        llvm::append_block(self.context, f, name)
    }

    pub(crate) fn at(&self, bb: inkwell::basic_block::BasicBlock<'ctx>) {
        llvm::position_at_end(&self.builder, bb)
    }

    /// The address `off` bytes after `base`, as a pointer to `pointee`.
    pub(crate) fn at_offset(&mut self, base: BasicValueEnum<'ctx>, off: BasicValueEnum<'ctx>, pointee: &VType, name: &str)
        -> (r: Result<BasicValueEnum<'ctx>, String>)
        ensures
            crate::codegen::grows(old(self).emitted(), final(self).emitted()),
            final(self).same_but_emitted(old(self)),
            match llvm_type_error(vt_m(*pointee), old(self).struct_names()) {
                Some(e) => r is Err && r->Err_0@ == e,
                None => r is Err ==> r->Err_0@ == build_failure("an address"@)
                    || r->Err_0@ == build_failure("an addition"@),
            },
            r is Ok ==> final(self).emitted().len() == old(self).emitted().len() + 1
                && final(self).emitted().drop_last() == old(self).emitted()
                && (final(self).emitted().last() matches Emitted::IntOperation(llvm::IntOp::Add, _, o, _) && o == off),
    {
        let pt = match self.llvm_type(pointee) {
            Ok(t) => t,
            Err(m) => { return Err(m); },
        };
        let i64t = llvm::i64_ty(self.context);
        let start = built(llvm::ptr_to_int(&self.builder, base, i64t, "base"), "an address")?;
        let addr = built(llvm::int_add(&self.builder, &mut self.trace, start, off, name), "an addition")?;
        assert(self.emitted().drop_last() =~= old(self).emitted());
        built(llvm::int_to_ptr(&self.builder, addr, llvm::ptr_to(pt), name), "an address")
    }

    /// `__vit_cmp_i32`, `__vit_cmp_i64`, `__vit_cmp_f64`: `qsort` comparators
    /// giving `(a > b) - (a < b)`.
    pub(crate) fn build_sort_comparators(&mut self) -> (r: Result<(), String>)
        ensures
            final(self).struct_names() == old(self).struct_names(),
            final(self).loop_depth() == old(self).loop_depth(),
            forall|k: Seq<char>| old(self).fn_sig(k) is Some ==> final(self).fn_sig(k) is Some,
            r is Ok ==> final(self).declares_all(seq!["__vit_cmp_i32"@, "__vit_cmp_i64"@, "__vit_cmp_f64"@]),
            r is Err ==> outside_refusal(r->Err_0@),
            r is Ok ==> exists|i1: int, i2: int, i3: int| old(self).emitted().len() <= i1 < i2 < i3
                && #[trigger] compares_at(final(self).emitted(), i1, false)
                && #[trigger] compares_at(final(self).emitted(), i2, false)
                && #[trigger] compares_at(final(self).emitted(), i3, true),
    {
        let kinds: Vec<(&str, VType)> = vec![
            ("__vit_cmp_i32", VType::Int(32)),
            ("__vit_cmp_i64", VType::Int(64)),
            ("__vit_cmp_f64", VType::Double),
        ];
        let ghost names = seq!["__vit_cmp_i32"@, "__vit_cmp_i64"@, "__vit_cmp_f64"@];
        assert(forall|i: int| 0 <= i < 3 ==> plain_vtype(vt_m(#[trigger] kinds@[i].1)));
        assert(forall|i: int| 0 <= i < 3 ==> (vt_m(#[trigger] kinds@[i].1) is Double <==> i == 2));
        let ghost mut idx: Seq<int> = Seq::empty();
        assert(forall|i: int| 0 <= i < 3 ==> #[trigger] names[i] == kinds@[i].0@);
        let mut kinds = kinds;
        while kinds.len() > 0
            invariant
                self.struct_names() == old(self).struct_names(),
                self.loop_depth() == old(self).loop_depth(),
                forall|k: Seq<char>| old(self).fn_sig(k) is Some ==> self.fn_sig(k) is Some,
                kinds@.len() <= 3,
                forall|i: int| 0 <= i < kinds@.len() ==> #[trigger] kinds@[i].0@ == names[i + 3 - kinds@.len()],
                forall|i: int| 0 <= i < kinds@.len() ==> plain_vtype(vt_m(#[trigger] kinds@[i].1)),
                forall|i: int| 0 <= i < 3 - kinds@.len() ==> self.fn_sig(#[trigger] names[i]) is Some,
                forall|i: int| 0 <= i < kinds@.len() ==> (vt_m(#[trigger] kinds@[i].1) is Double <==> i + 3 - kinds@.len() == 2),
                idx.len() == 3 - kinds@.len(),
                forall|j: int| 0 <= j < idx.len() ==> old(self).emitted().len() <= #[trigger] idx[j],
                forall|j: int| 0 <= j < idx.len() - 1 ==> #[trigger] idx[j] < idx[j + 1],
                forall|j: int| 0 <= j < idx.len() ==> compares_at(self.emitted(), #[trigger] idx[j], j == 2),
                idx.len() > 0 ==> idx.last() + 2 < self.emitted().len(),
                grows(old(self).emitted(), self.emitted()),
            decreases kinds@.len(),
        {
            let ghost prev = kinds@;
            let ghost done = 3 - kinds@.len();
            let (name, t) = kinds.remove(0);
            assert(name@ == names[done]);
            assert(forall|i: int| 0 <= i < kinds@.len() ==> kinds@[i] == prev[i + 1]);
            let is_float = t.is_float();
            let elem_ptr = VType::Ptr(Box::new(t.duplicate()));
            let ps = vec![elem_ptr.duplicate(), elem_ptr];
            proof {
                lemma_basic_types_ok(self.struct_names());
                assert(plain_vtype(vt_m(t)));
                assert(llvm_type_error(VTypeM::Int(16), self.struct_names()) is None);
                assert(llvm_type_error(vt_m(t), self.struct_names()) is None);
                assert(vt_m(ps@[0]) == VTypeM::Ptr(Box::new(vt_m(t))));
                assert(llvm_type_error(vt_m(ps@[0]), self.struct_names()) is None);
                lemma_known_signature(Some(VType::Int(32)), ps@, self.struct_names());
            }
            let f = self.declare(name, Some(VType::Int(32)), ps, false)?;
            let bb = self.block(f, "entry");
            self.at(bb);
            let pa = self.nth(f, 0)?;
            let pb = self.nth(f, 1)?;
            let a = self.ld(pa, "a")?;
            let b = self.ld(pb, "b")?;
            let ghost before = self.emitted();
            let ghost c_at = self.emitted().len() as int;
            let (gt, lt) = if is_float {
                (built(llvm::float_compare(&self.builder, &mut self.trace, llvm::FloatCmp::Ogt, a, b, "gt"), "a comparison")?,
                 built(llvm::float_compare(&self.builder, &mut self.trace, llvm::FloatCmp::Olt, a, b, "lt"), "a comparison")?)
            } else {
                (built(llvm::int_compare(&self.builder, &mut self.trace, llvm::IntCmp::Sgt, a, b, "gt"), "a comparison")?,
                 built(llvm::int_compare(&self.builder, &mut self.trace, llvm::IntCmp::Slt, a, b, "lt"), "a comparison")?)
            };
            let i32t = llvm::i32_ty(self.context);
            let gt_i = built(llvm::zext(&self.builder, gt, i32t, "gti"), "an extension")?;
            let lt_i = built(llvm::zext(&self.builder, lt, i32t, "lti"), "an extension")?;
            let res = built(llvm::int_sub(&self.builder, &mut self.trace, gt_i, lt_i, "res"), "a subtraction")?;
            proof {
                let t = self.emitted();
                assert(is_float == (done == 2));
                assert(compares_at(t, c_at, done == 2));
                assert forall|j: int| 0 <= j < idx.len() implies compares_at(t, #[trigger] idx[j], j == 2) by {
                    assert(idx[j] <= idx.last());
                    assert(t[idx[j]] == before[idx[j]] && t[idx[j] + 1] == before[idx[j] + 1]
                        && t[idx[j] + 2] == before[idx[j] + 2]);
                    assert(compares_at(before, idx[j], j == 2));
                }
                idx = idx.push(c_at);
                assert(forall|j: int| 0 <= j < idx.len() ==> compares_at(t, #[trigger] idx[j], j == 2));
            }
            self.give(Some(res))?;
        }
        proof {
            assert(compares_at(self.emitted(), idx[0], false));
            assert(compares_at(self.emitted(), idx[1], false));
            assert(compares_at(self.emitted(), idx[2], true));
        }
        Ok(())
    }

    /// `__vit_add(s1, s2)`: a new string holding `s1` then `s2`.
    pub(crate) fn build_vit_add(&mut self) -> (r: Result<(), String>)
        ensures
            final(self).struct_names() == old(self).struct_names(),
            final(self).loop_depth() == old(self).loop_depth(),
            forall|k: Seq<char>| old(self).fn_sig(k) is Some ==> final(self).fn_sig(k) is Some,
            r is Ok ==> final(self).fn_sig("__vit_add"@) == Some((seq![str_m(), str_m()], Some(str_m()))),
            r is Err ==> outside_refusal(r->Err_0@),
    {
        let params = vec![str_vtype(), str_vtype()];
        assert(params@.map_values(|t: VType| vt_m(t)) =~= seq![str_m(), str_m()]);
        proof { lemma_signature_m(seq![str_m(), str_m()], Some(str_m()), self.struct_names()); }
        let f = self.declare("__vit_add", Some(str_vtype()), params, false)?;
        let entry = self.block(f, "entry");
        self.at(entry);
        let s1 = self.nth(f, 0)?;
        let s2 = self.nth(f, 1)?;
        let strlen = self.func("strlen")?;
        let malloc = self.func("malloc")?;
        let strcpy = self.func("strcpy")?;
        let strcat = self.func("strcat")?;
        let n1 = self.call_for(strlen, vec![s1], "n1")?;
        let n2 = self.call_for(strlen, vec![s2], "n2")?;
        let total = built(llvm::int_add(&self.builder, &mut self.trace, n1, n2, "t"), "an addition")?;
        let one = self.k64(1)?;
        let total = built(llvm::int_add(&self.builder, &mut self.trace, total, one, "t1"), "an addition")?;
        let result = self.call_for(malloc, vec![total], "res")?;
        self.call_do(strcpy, vec![result, s1], "")?;
        self.call_do(strcat, vec![result, s2], "")?;
        self.give(Some(result))
    }
}

} // verus!

verus! {

impl<'ctx> Codegen<'ctx> {
    /// `__vit_remove(s, sub)`: `s` without the first occurrence of `sub`, or `s`
    /// itself when `sub` does not occur.
    pub(crate) fn build_vit_remove(&mut self) -> (r: Result<(), String>)
        ensures
            final(self).struct_names() == old(self).struct_names(),
            final(self).loop_depth() == old(self).loop_depth(),
            forall|k: Seq<char>| old(self).fn_sig(k) is Some ==> final(self).fn_sig(k) is Some,
            r is Ok ==> final(self).fn_sig("__vit_remove"@) == Some((seq![str_m(), str_m()], Some(str_m()))),
            r is Err ==> outside_refusal(r->Err_0@),
    {
        let params = vec![str_vtype(), str_vtype()];
        assert(params@.map_values(|t: VType| vt_m(t)) =~= seq![str_m(), str_m()]);
        proof { lemma_signature_m(seq![str_m(), str_m()], Some(str_m()), self.struct_names()); }
        let f = self.declare("__vit_remove", Some(str_vtype()), params, false)?;
        let entry = self.block(f, "entry");
        let not_found = self.block(f, "not_found");
        let found = self.block(f, "found");
        self.at(entry);
        let s = self.nth(f, 0)?;
        let sub = self.nth(f, 1)?;
        let strstr = self.func("strstr")?;
        let strlen = self.func("strlen")?;
        let malloc = self.func("malloc")?;
        let memcpy = self.func("memcpy")?;
        let strcpy = self.func("strcpy")?;
        let i64t = llvm::i64_ty(self.context);
        let pos = self.call_for(strstr, vec![s, sub], "pos")?;
        let pos_int = built(llvm::ptr_to_int(&self.builder, pos, i64t, "pi"), "an address")?;
        let zero = self.k64(0)?;
        let is_null = built(llvm::int_compare(&self.builder, &mut self.trace, llvm::IntCmp::Eq, pos_int, zero, "is_null"), "a comparison")?;
        self.branch(is_null, not_found, found)?;
        self.at(not_found);
        self.give(Some(s))?;
        self.at(found);
        let s_len = self.call_for(strlen, vec![s], "sl")?;
        let sub_len = self.call_for(strlen, vec![sub], "subl")?;
        let diff = built(llvm::int_sub(&self.builder, &mut self.trace, s_len, sub_len, "diff"), "a subtraction")?;
        let one = self.k64(1)?;
        let total = built(llvm::int_add(&self.builder, &mut self.trace, diff, one, "tot"), "an addition")?;
        let result = self.call_for(malloc, vec![total], "res")?;
        let s_int = built(llvm::ptr_to_int(&self.builder, s, i64t, "si"), "an address")?;
        let prefix_len = built(llvm::int_sub(&self.builder, &mut self.trace, pos_int, s_int, "plen"), "a subtraction")?;
        self.call_do(memcpy, vec![result, s, prefix_len], "")?;
        let dest = self.at_offset(result, prefix_len, &VType::Int(8), "dest")?;
        let after_sub = self.at_offset(pos, sub_len, &VType::Int(8), "asub")?;
        self.call_do(strcpy, vec![dest, after_sub], "")?;
        self.give(Some(result))
    }

    /// `__vit_replace(s, old, new)`: `s` with its first `old` replaced by `new`,
    /// or `s` itself when `old` does not occur.
    pub(crate) fn build_vit_replace(&mut self) -> (r: Result<(), String>)
        ensures
            final(self).struct_names() == old(self).struct_names(),
            final(self).loop_depth() == old(self).loop_depth(),
            forall|k: Seq<char>| old(self).fn_sig(k) is Some ==> final(self).fn_sig(k) is Some,
            r is Ok ==> final(self).fn_sig("__vit_replace"@) == Some((seq![str_m(), str_m(), str_m()], Some(str_m()))),
            r is Err ==> outside_refusal(r->Err_0@),
    {
        let params = vec![str_vtype(), str_vtype(), str_vtype()];
        assert(params@.map_values(|t: VType| vt_m(t)) =~= seq![str_m(), str_m(), str_m()]);
        proof { lemma_signature_m(seq![str_m(), str_m(), str_m()], Some(str_m()), self.struct_names()); }
        let f = self.declare("__vit_replace", Some(str_vtype()), params, false)?;
        let entry = self.block(f, "entry");
        let not_found = self.block(f, "not_found");
        let found = self.block(f, "found");
        self.at(entry);
        let s = self.nth(f, 0)?;
        let old = self.nth(f, 1)?;
        let new = self.nth(f, 2)?;
        let strstr = self.func("strstr")?;
        let strlen = self.func("strlen")?;
        let malloc = self.func("malloc")?;
        let memcpy = self.func("memcpy")?;
        let strcpy = self.func("strcpy")?;
        let i64t = llvm::i64_ty(self.context);
        let pos = self.call_for(strstr, vec![s, old], "pos")?;
        let pos_int = built(llvm::ptr_to_int(&self.builder, pos, i64t, "pi"), "an address")?;
        let zero = self.k64(0)?;
        let is_null = built(llvm::int_compare(&self.builder, &mut self.trace, llvm::IntCmp::Eq, pos_int, zero, "is_null"), "a comparison")?;
        self.branch(is_null, not_found, found)?;
        self.at(not_found);
        self.give(Some(s))?;
        self.at(found);
        let s_len = self.call_for(strlen, vec![s], "sl")?;
        let old_len = self.call_for(strlen, vec![old], "ol")?;
        let new_len = self.call_for(strlen, vec![new], "nl")?;
        let diff = built(llvm::int_sub(&self.builder, &mut self.trace, s_len, old_len, "diff"), "a subtraction")?;
        let base = built(llvm::int_add(&self.builder, &mut self.trace, diff, new_len, "base"), "an addition")?;
        let one = self.k64(1)?;
        let total = built(llvm::int_add(&self.builder, &mut self.trace, base, one, "tot"), "an addition")?;
        let result = self.call_for(malloc, vec![total], "res")?;
        let s_int = built(llvm::ptr_to_int(&self.builder, s, i64t, "si"), "an address")?;
        let prefix_len = built(llvm::int_sub(&self.builder, &mut self.trace, pos_int, s_int, "plen"), "a subtraction")?;
        self.call_do(memcpy, vec![result, s, prefix_len], "")?;
        let dest_new = self.at_offset(result, prefix_len, &VType::Int(8), "dn")?;
        self.call_do(strcpy, vec![dest_new, new], "")?;
        let after_old = self.at_offset(pos, old_len, &VType::Int(8), "ao")?;
        let suffix_dest = self.at_offset(dest_new, new_len, &VType::Int(8), "sd")?;
        self.call_do(strcpy, vec![suffix_dest, after_old], "")?;
        self.give(Some(result))
    }

    /// `__vit_split(s, sep, arr, max)`: stores at most `max` `strtok` pieces of a
    /// copy of `s` into `arr` and gives their number.
    pub(crate) fn build_vit_split(&mut self) -> (r: Result<(), String>)
        ensures
            final(self).struct_names() == old(self).struct_names(),
            final(self).loop_depth() == old(self).loop_depth(),
            forall|k: Seq<char>| old(self).fn_sig(k) is Some ==> final(self).fn_sig(k) is Some,
            r is Ok ==> final(self).fn_sig("__vit_split"@) == Some((seq![str_m(), str_m(),
                VTypeM::Ptr(Box::new(str_m())), VTypeM::Int(32)], Some(VTypeM::Int(32)))),
            r is Err ==> outside_refusal(r->Err_0@),
    {
        let s = str_vtype();
        let strs = VType::Ptr(Box::new(s));
        assert(vt_m(strs) == VTypeM::Ptr(Box::new(str_m())));
        let i32v = VType::Int(32);
        assert(vt_m(i32v) == VTypeM::Int(32));
        let params = vec![str_vtype(), str_vtype(), strs, i32v];
        assert(params@.map_values(|t: VType| vt_m(t)) =~= seq![str_m(), str_m(),
            VTypeM::Ptr(Box::new(str_m())), VTypeM::Int(32)]);
        proof {
            lemma_basic_types_ok(self.struct_names());
            assert(llvm_type_error(VTypeM::Ptr(Box::new(str_m())), self.struct_names()) is None);
            lemma_signature_m(seq![str_m(), str_m(), VTypeM::Ptr(Box::new(str_m())), VTypeM::Int(32)],
                Some(VTypeM::Int(32)), self.struct_names());
        }
        let f = self.declare("__vit_split", Some(VType::Int(32)), params, false)?;
        let entry = self.block(f, "entry");
        let cond = self.block(f, "cond");
        let body = self.block(f, "body");
        let after = self.block(f, "after");
        self.at(entry);
        let s = self.nth(f, 0)?;
        let sep = self.nth(f, 1)?;
        let arr = self.nth(f, 2)?;
        let max = self.nth(f, 3)?;
        let strdup = self.func("strdup")?;
        let strtok = self.func("strtok")?;
        let i32t = llvm::i32_ty(self.context);
        let i64t = llvm::i64_ty(self.context);
        let i8p = llvm::ptr_to(llvm::i8_ty(self.context));
        let copy = self.call_for(strdup, vec![s], "copy")?;
        let count_ptr = built(llvm::alloca(&self.builder, i32t, "cnt"), "an alloca")?;
        let zero = self.k32(0)?;
        self.st(count_ptr, zero)?;
        let tok_ptr = built(llvm::alloca(&self.builder, i8p, "tok_slot"), "an alloca")?;
        let first_tok = self.call_for(strtok, vec![copy, sep], "tok0")?;
        self.st(tok_ptr, first_tok)?;
        self.jump(cond)?;

        self.at(cond);
        let tok = self.ld(tok_ptr, "tok")?;
        let count = self.ld(count_ptr, "cnt")?;
        let tok_int = built(llvm::ptr_to_int(&self.builder, tok, i64t, "ti"), "an address")?;
        let zero64 = self.k64(0)?;
        let not_null = built(llvm::int_compare(&self.builder, &mut self.trace, llvm::IntCmp::Ne, tok_int, zero64, "nn"), "a comparison")?;
        let under_max = built(llvm::int_compare(&self.builder, &mut self.trace, llvm::IntCmp::Slt, count, max, "um"), "a comparison")?;
        let go = built(llvm::int_and(&self.builder, &mut self.trace, not_null, under_max, "go"), "a conjunction")?;
        self.branch(go, body, after)?;

        self.at(body);
        let tok = self.ld(tok_ptr, "tok")?;
        let count = self.ld(count_ptr, "cnt")?;
        let idx = built(llvm::zext(&self.builder, count, i64t, "idx"), "an extension")?;
        let slot = self.element_ptr(arr, &str_vtype(), &super::Val { v: idx, ty: VType::Int(64) })?;
        self.st(slot, tok)?;
        let one = self.k32(1)?;
        let next_count = built(llvm::int_add(&self.builder, &mut self.trace, count, one, "nc"), "an addition")?;
        self.st(count_ptr, next_count)?;
        let ghost before_null = *self;
        let null = llvm::zero_of(i8p, &mut self.trace);
        assert(self.same_but_emitted(&before_null));
        let next_tok = self.call_for(strtok, vec![null, sep], "ntok")?;
        self.st(tok_ptr, next_tok)?;
        self.jump(cond)?;

        self.at(after);
        let final_count = self.ld(count_ptr, "fc")?;
        self.give(Some(final_count))
    }

    /// `strbuf_new`, `strbuf_append`, `strbuf_to_str`, `strbuf_len`, `strbuf_free`:
    /// a growable string `{ data, len, cap }`.
    #[verifier::rlimit(50)]
    pub(crate) fn build_strbuf_helpers(&mut self) -> (r: Result<(), String>)
        ensures
            final(self).struct_names() == old(self).struct_names(),
            final(self).loop_depth() == old(self).loop_depth(),
            forall|k: Seq<char>| old(self).fn_sig(k) is Some ==> final(self).fn_sig(k) is Some,
            r is Ok ==> final(self).declares_all(seq!["strbuf_new"@, "strbuf_append"@, "strbuf_to_str"@,
                "strbuf_len"@, "strbuf_free"@]),
            r is Err ==> outside_refusal(r->Err_0@) || !old(self).struct_names().contains("StrBuf"@),
            r is Ok ==> exists|i: int| old(self).emitted().len() <= i && #[trigger] appends_at(final(self).emitted(), i),
            grows(old(self).emitted(), final(self).emitted()),
    {
        let sb = VType::Struct(text("StrBuf"));
        let inner = VType::Struct(text("StrBuf"));
        assert(vt_m(inner) == VTypeM::Struct("StrBuf"@));
        let sbp = VType::Ptr(Box::new(inner));
        let malloc_fn = self.func("malloc")?;
        let strlen_fn = self.func("strlen")?;
        let memcpy_fn = self.func("memcpy")?;
        let realloc_fn = self.func("realloc")?;
        let free_fn = self.func("free")?;
        let sbt = self.llvm_type(&sb)?;
        let ghost known = self.struct_names();
        assert(vt_m(sb) == VTypeM::Struct("StrBuf"@));
        assert(vt_m(sbp) == VTypeM::Ptr(Box::new(VTypeM::Struct("StrBuf"@))));
        assert(llvm_type_error(vt_m(sbp), known) == llvm_type_error(VTypeM::Struct("StrBuf"@), known));
        assert(llvm_type_error(vt_m(sbp), known) is None);

        // strbuf_new() -> StrBuf
        let ps: Vec<VType> = Vec::new();
        proof { lemma_known_signature(Some(sb), ps@, known); }
        let f = self.declare("strbuf_new", Some(sb), ps, false)?;
        let entry = self.block(f, "entry");
        self.at(entry);
        let init_cap = self.k64(64)?;
        let data = self.call_for(malloc_fn, vec![init_cap], "data")?;
        let ghost before_agg = *self;
        let agg = llvm::zero_of(sbt, &mut self.trace);
        assert(self.same_but_emitted(&before_agg));
        let agg = built(llvm::insert_value(&self.builder, agg, data, 0, "s0"), "a struct value")?;
        let zero = self.k64(0)?;
        let agg = built(llvm::insert_value(&self.builder, agg, zero, 1, "s1"), "a struct value")?;
        let agg = built(llvm::insert_value(&self.builder, agg, init_cap, 2, "s2"), "a struct value")?;
        self.give(Some(agg))?;

        // strbuf_append(buf: StrBuf*, s: i8*) -> void
        let ps = vec![sbp.duplicate(), str_vtype()];
        proof { lemma_known_signature(None, ps@, known); }
        let f = self.declare("strbuf_append", None, ps, false)?;
        let ghost appended = *self;
        let buf_ptr = self.nth(f, 0)?;
        let s_ptr = self.nth(f, 1)?;
        let entry = self.block(f, "entry");
        let grow_bb = self.block(f, "grow");
        let copy_bb = self.block(f, "copy");
        self.at(entry);
        let data_field = built(llvm::struct_field_ptr(&self.builder, buf_ptr, 0, "dp"), "a field address")?;
        let len_field = built(llvm::struct_field_ptr(&self.builder, buf_ptr, 1, "lp"), "a field address")?;
        let cap_field = built(llvm::struct_field_ptr(&self.builder, buf_ptr, 2, "cp"), "a field address")?;
        let len = self.ld(len_field, "len")?;
        let cap = self.ld(cap_field, "cap")?;
        let ghost i = self.emitted().len() as int;
        let slen = self.call_for(strlen_fn, vec![s_ptr], "slen")?;
        let tmp = built(llvm::int_add(&self.builder, &mut self.trace, len, slen, "tmp"), "an addition")?;
        let one = self.k64(1)?;
        let needed = built(llvm::int_add(&self.builder, &mut self.trace, tmp, one, "needed"), "an addition")?;
        let cond = built(llvm::int_compare(&self.builder, &mut self.trace, llvm::IntCmp::Ugt, needed, cap, "need_grow"), "a comparison")?;
        self.branch(cond, grow_bb, copy_bb)?;
        self.at(grow_bb);
        let two = self.k64(2)?;
        let new_cap = built(llvm::int_mul(&self.builder, &mut self.trace, needed, two, "new_cap"), "a multiplication")?;
        let old_data = self.ld(data_field, "old_data")?;
        let new_data = self.call_for(realloc_fn, vec![old_data, new_cap], "new_data")?;
        self.st(data_field, new_data)?;
        self.st(cap_field, new_cap)?;
        self.jump(copy_bb)?;
        self.at(copy_bb);
        let data = self.ld(data_field, "data")?;
        let dest = self.at_offset(data, len, &VType::Int(8), "dest")?;
        let copy_len = built(llvm::int_add(&self.builder, &mut self.trace, slen, one, "cplen"), "an addition")?;
        self.call_do(memcpy_fn, vec![dest, s_ptr, copy_len], "")?;
        let new_len = built(llvm::int_add(&self.builder, &mut self.trace, len, slen, "new_len"), "an addition")?;
        assert(appends_at(self.emitted(), i));
        let ghost appended_reqs = self.emitted();
        self.st(len_field, new_len)?;
        self.give(None)?;

        assert(self.same_but_emitted(&appended));

        // strbuf_to_str(buf: StrBuf*) -> i8*
        let ps = vec![sbp.duplicate()];
        let rt = str_vtype();
        proof { lemma_known_signature(Some(rt), ps@, known); }
        let f = self.declare("strbuf_to_str", Some(rt), ps, false)?;
        let buf_ptr = self.nth(f, 0)?;
        let entry = self.block(f, "entry");
        self.at(entry);
        let data_field = built(llvm::struct_field_ptr(&self.builder, buf_ptr, 0, "dp"), "a field address")?;
        let data = self.ld(data_field, "data")?;
        self.give(Some(data))?;

        // strbuf_len(buf: StrBuf*) -> i64
        let ps = vec![sbp.duplicate()];
        proof { lemma_known_signature(Some(VType::Int(64)), ps@, known); }
        let f = self.declare("strbuf_len", Some(VType::Int(64)), ps, false)?;
        let buf_ptr = self.nth(f, 0)?;
        let entry = self.block(f, "entry");
        self.at(entry);
        let len_field = built(llvm::struct_field_ptr(&self.builder, buf_ptr, 1, "lp"), "a field address")?;
        let len = self.ld(len_field, "len")?;
        self.give(Some(len))?;

        // strbuf_free(buf: StrBuf*) -> void
        let ps = vec![sbp];
        proof { lemma_known_signature(None, ps@, known); }
        let f = self.declare("strbuf_free", None, ps, false)?;
        let buf_ptr = self.nth(f, 0)?;
        let entry = self.block(f, "entry");
        self.at(entry);
        let data_field = built(llvm::struct_field_ptr(&self.builder, buf_ptr, 0, "dp"), "a field address")?;
        let data = self.ld(data_field, "data")?;
        self.call_do(free_fn, vec![data], "")?;
        proof {
            let t = self.emitted();
            assert(grows(appended_reqs, t));
            assert forall|k: int| i <= k <= i + 13 implies t[k] == appended_reqs[k] by {}
            assert(appends_at(t, i));
        }
        self.give(None)
    }
}

} // verus!

verus! {

/// The three operations on a map.
pub enum MapOp {
    Store,
    Get,
    Has,
}

/// The name of the helper that performs `op` on maps of kind `k`.
pub open spec fn map_helper_name(k: MapKind, op: MapOp) -> Seq<char> {
    "__vit_map_"@ + map_tag_spec(k) + match op {
        MapOp::Store => "_set"@,
        MapOp::Get => "_get"@,
        MapOp::Has => "_has"@,
    }
}

/// The parameter and result types of that helper: the storage and the key, and
/// for a store the value; a store returns nothing, a lookup the value, a test an
/// `i32`.
pub open spec fn map_helper_sig(k: MapKind, op: MapOp) -> (Seq<VTypeM>, Option<VTypeM>) {
    match op {
        MapOp::Store => (seq![str_m(), map_key_spec(k), map_value_spec(k)], None),
        MapOp::Get => (seq![str_m(), map_key_spec(k)], Some(map_value_spec(k))),
        MapOp::Has => (seq![str_m(), map_key_spec(k)], Some(VTypeM::Int(32))),
    }
}

impl<'ctx> Codegen<'ctx> {
    /// `__vit_hash_str(s)`: djb2 over the bytes of `s`, masked to a slot.
    pub(crate) fn build_hash_str(&mut self) -> (r: Result<(), String>)
        ensures
            final(self).struct_names() == old(self).struct_names(),
            final(self).loop_depth() == old(self).loop_depth(),
            forall|k: Seq<char>| old(self).fn_sig(k) is Some ==> final(self).fn_sig(k) is Some,
            r is Ok ==> final(self).fn_sig("__vit_hash_str"@) == Some((seq![str_m()], Some(VTypeM::Int(32)))),
            r is Err ==> outside_refusal(r->Err_0@),
            r is Ok ==> hashes_djb2(final(self).emitted(), old(self).emitted().len() as int),
            grows(old(self).emitted(), final(self).emitted()),
    {
        let params = vec![str_vtype()];
        assert(params@.map_values(|t: VType| vt_m(t)) =~= seq![str_m()]);
        proof { lemma_plain_signature(Some(VType::Int(32)), params@, self.struct_names()); }
        let f = self.declare("__vit_hash_str", Some(VType::Int(32)), params, false)?;
        let entry = self.block(f, "entry");
        let cond_bb = self.block(f, "cond");
        let body_bb = self.block(f, "body");
        let exit_bb = self.block(f, "exit");
        let i64t = llvm::i64_ty(self.context);
        self.at(entry);
        let s = self.nth(f, 0)?;
        let hash_ptr = built(llvm::alloca(&self.builder, i64t, "hp"), "an alloca")?;
        let pos_ptr = built(llvm::alloca(&self.builder, i64t, "pp"), "an alloca")?;
        let ghost i = self.emitted().len() as int;
        let seed = self.k64(5381)?;
        let ghost t_seed = self.emitted();
        self.st(hash_ptr, seed)?;
        let zero = self.k64(0)?;
        self.st(pos_ptr, zero)?;
        self.jump(cond_bb)?;

        self.at(cond_bb);
        let pos = self.ld(pos_ptr, "pos")?;
        let cptr = self.at_offset(s, pos, &VType::Int(8), "cp")?;
        let c = self.ld(cptr, "c")?;
        let nul = built(llvm::const_int(llvm::i8_ty(self.context), &mut self.trace, 0, false), "an integer constant")?;
        let iz = built(llvm::int_compare(&self.builder, &mut self.trace, llvm::IntCmp::Eq, c, nul, "iz"), "a comparison")?;
        self.branch(iz, exit_bb, body_bb)?;

        self.at(body_bb);
        let hash = self.ld(hash_ptr, "hash")?;
        let c64 = built(llvm::zext(&self.builder, c, i64t, "c64"), "an extension")?;
        let ghost j = self.emitted().len() as int;
        let five = self.k64(5)?;
        let h5 = built(llvm::int_shl(&self.builder, &mut self.trace, hash, five, "h5"), "a shift")?;
        let h33 = built(llvm::int_add(&self.builder, &mut self.trace, h5, hash, "h33"), "an addition")?;
        let nh = built(llvm::int_xor(&self.builder, &mut self.trace, h33, c64, "nh"), "an exclusive or")?;
        let ghost t_mix = self.emitted();
        assert(t_mix[i] == t_seed[i]);
        self.st(hash_ptr, nh)?;
        let one = self.k64(1)?;
        let np = built(llvm::int_add(&self.builder, &mut self.trace, pos, one, "np"), "an addition")?;
        self.st(pos_ptr, np)?;
        self.jump(cond_bb)?;

        self.at(exit_bb);
        let hash = self.ld(hash_ptr, "hash")?;
        let ghost m = self.emitted().len() as int;
        let mask = self.k64(4095)?;
        let s64 = built(llvm::int_and(&self.builder, &mut self.trace, hash, mask, "s64"), "a conjunction")?;
        proof {
            let t = self.emitted();
            assert(t[i] == t_mix[i]);
            assert(t[j] == t_mix[j] && t[j + 1] == t_mix[j + 1] && t[j + 2] == t_mix[j + 2] && t[j + 3] == t_mix[j + 3]);
            assert(djb2_steps(t, i, j, m));
        }
        let slot = built(llvm::trunc(&self.builder, s64, llvm::i32_ty(self.context), "slot"), "a truncation")?;
        self.give(Some(slot))
    }

    /// The byte offset `base + i * width`, with `i` the slot held at `pp`.
    pub(crate) fn slot_offset(&mut self, pp: BasicValueEnum<'ctx>, base: u64, width: u64, name: &str) -> (r: Result<BasicValueEnum<'ctx>, String>)
        ensures
            crate::codegen::grows(old(self).emitted(), final(self).emitted()),
            final(self).same_but_emitted(old(self)),
            r is Err ==> r->Err_0@ == build_failure("a load"@) || r->Err_0@ == build_failure("a sign extension"@)
                || r->Err_0@ == build_failure("an integer constant"@)
                || r->Err_0@ == build_failure("a multiplication"@) || r->Err_0@ == build_failure("an addition"@),
    {
        let i = self.ld(pp, "i")?;
        let i64v = built(llvm::sext(&self.builder, i, llvm::i64_ty(self.context), "i64"), "a sign extension")?;
        let w = self.k64(width)?;
        let x = built(llvm::int_mul(&self.builder, &mut self.trace, i64v, w, "x"), "a multiplication")?;
        if base == 0 {
            Ok(x)
        } else {
            let b = self.k64(base)?;
            built(llvm::int_add(&self.builder, &mut self.trace, b, x, name), "an addition")
        }
    }

    /// The block where a map operation found its key: `map_set` marks the slot
    /// used and stores the key and the value there, `map_get` reads the value,
    /// `map_has` gives 1; each then returns.
    fn map_found(&mut self, op: &MapOp, f: FunctionValue<'ctx>, pp: BasicValueEnum<'ctx>, map: BasicValueEnum<'ctx>,
        key: BasicValueEnum<'ctx>, kt: &VType, vt: &VType, kind: &MapKind) -> (r: Result<(), String>)
        requires
            vt_m(*kt) == map_key_spec(*kind),
            vt_m(*vt) == map_value_spec(*kind),
        ensures
            final(self).same_but_emitted(old(self)),
            grows(old(self).emitted(), final(self).emitted()),
            r is Err ==> outside_refusal(r->Err_0@),
            r is Ok ==> found_answer(final(self).emitted(), old(self).emitted().len() as int, *op),
    {
        proof { lemma_map_types_ok(*kind, self.struct_names()); }
        let (kb, vb, values_base, used_base) = crate::vtype::map_layout(kind);
        match op {
            MapOp::Store => {
                let val = self.nth(f, 2)?;
                let uo = self.slot_offset(pp, used_base, 4, "uo")?;
                let up = self.at_offset(map, uo, &VType::Int(32), "up")?;
                let one = self.k32(1)?;
                self.store_noted(up, one)?;
                let ko = self.slot_offset(pp, 0, kb, "ko")?;
                let kp = self.at_offset(map, ko, kt, "kp")?;
                self.store_noted(kp, key)?;
                let vo = self.slot_offset(pp, values_base, vb, "vo")?;
                let vp = self.at_offset(map, vo, vt, "vp")?;
                self.store_noted(vp, val)?;
                self.give_noted(None)
            },
            MapOp::Get => {
                let vo = self.slot_offset(pp, values_base, vb, "vo")?;
                let vp = self.at_offset(map, vo, vt, "vp")?;
                let v = self.load_noted(vp, "v")?;
                self.give_noted(Some(v))
            },
            MapOp::Has => {
                let one = self.k32(1)?;
                self.give_noted(Some(one))
            },
        }
    }

    /// The block where a map operation meets another key: the next slot, the
    /// slot plus one modulo the capacity, then back to the probe loop.
    fn map_advance(&mut self, nxt: inkwell::basic_block::BasicBlock<'ctx>, pp: BasicValueEnum<'ctx>,
        cap: BasicValueEnum<'ctx>, lp: inkwell::basic_block::BasicBlock<'ctx>) -> (r: Result<(), String>)
        ensures
            final(self).same_but_emitted(old(self)),
            grows(old(self).emitted(), final(self).emitted()),
            r is Err ==> outside_refusal(r->Err_0@),
            r is Ok ==> advances(final(self).emitted(), old(self).emitted().len() as int, nxt, cap, lp),
    {
        self.position(nxt);
        let i = self.ld(pp, "i")?;
        let one = self.k32(1)?;
        let i1 = built(llvm::int_add(&self.builder, &mut self.trace, i, one, "i1"), "an addition")?;
        let i1m = built(llvm::int_srem(&self.builder, &mut self.trace, i1, cap, "i1m"), "a remainder")?;
        self.st(pp, i1m)?;
        self.jump(lp)
    }

    /// The block an unused slot leads to: `map_get` returns a zero value,
    /// `map_has` the constant `zero`; `map_set` has none (it inserts there).
    fn map_miss(&mut self, op: &MapOp, miss: inkwell::basic_block::BasicBlock<'ctx>, vt: &VType,
        zero: BasicValueEnum<'ctx>, kind: &MapKind) -> (r: Result<(), String>)
        requires
            vt_m(*vt) == map_value_spec(*kind),
        ensures
            final(self).same_but_emitted(old(self)),
            grows(old(self).emitted(), final(self).emitted()),
            r is Err ==> outside_refusal(r->Err_0@),
            r is Ok ==> misses(final(self).emitted(), old(self).emitted().len() as int, *op, miss, zero),
    {
        proof { lemma_map_types_ok(*kind, self.struct_names()); }
        match op {
            MapOp::Store => Ok(()),
            MapOp::Get => {
                self.position(miss);
                let vl = self.llvm_type(vt)?;
                let ghost before_zero = *self;
                let zv = llvm::zero_of(vl, &mut self.trace);
                assert(self.same_but_emitted(&before_zero));
                self.give_noted(Some(zv))
            },
            MapOp::Has => {
                self.position(miss);
                self.give_noted(Some(zero))
            },
        }
    }

    /// One of `__vit_map_<tag>_set`, `_get`, `_has`: open addressing with linear
    /// probing over the map's storage, laid out as [`crate::vtype::map_layout`] says.
    #[verifier::rlimit(80)]
    pub(crate) fn build_map_op(&mut self, kind: &MapKind, op: &MapOp) -> (r: Result<(), String>)
        ensures
            final(self).struct_names() == old(self).struct_names(),
            final(self).loop_depth() == old(self).loop_depth(),
            forall|k: Seq<char>| old(self).fn_sig(k) is Some ==> final(self).fn_sig(k) is Some,
            r is Ok ==> final(self).fn_sig(map_helper_name(*kind, *op)) == Some(map_helper_sig(*kind, *op)),
            r is Err ==> outside_refusal(r->Err_0@),
            grows(old(self).emitted(), final(self).emitted()),
            r is Ok ==> probe_start(final(self).emitted(), old(self).emitted().len() as int, map_key_spec(*kind) == str_m()),
            r is Ok ==> exists|p: int, j0: int, j: int, m: int| old(self).emitted().len() <= p
                && #[trigger] probes(final(self).emitted(), p, j0, j, m) && answers(final(self).emitted(), j0, m, *op),
    {
        let (kb, vb, values_base, used_base) = crate::vtype::map_layout(kind);
        let kt = crate::vtype::map_key_type(kind);
        let vt = crate::vtype::map_value_type(kind);
        let str_key = kt.is_ptr();
        let op_name = match op {
            MapOp::Store => "_set",
            MapOp::Get => "_get",
            MapOp::Has => "_has",
        };
        let mut name = cat("__vit_map_", crate::vtype::map_tag(kind));
        crate::text::append(&mut name, op_name);
        assert(name@ == map_helper_name(*kind, *op));
        let mut params = vec![str_vtype(), kt.duplicate()];
        let ret = match op {
            MapOp::Store => { params.push(vt.duplicate()); None },
            MapOp::Get => Some(vt.duplicate()),
            MapOp::Has => Some(VType::Int(32)),
        };
        assert(params@.map_values(|t: VType| vt_m(t)) =~= map_helper_sig(*kind, *op).0);
        assert(opt_vt_m(ret) == map_helper_sig(*kind, *op).1);
        proof { lemma_map_helper_sig_ok(*kind, *op, self.struct_names()); }
        let f = self.declare(name.as_str(), ret, params, false)?;
        let entry = self.block(f, "entry");
        let lp = self.block(f, "lp");
        let chk = self.block(f, "chk");
        let hit = match op {
            MapOp::Store => self.block(f, "ins"),
            _ => self.block(f, "fnd"),
        };
        let nxt = self.block(f, "nxt");
        let miss = match op {
            MapOp::Store => hit,
            _ => self.block(f, "nf"),
        };
        let i32t = llvm::i32_ty(self.context);
        let cap32 = self.k32(4096)?;

        self.at(entry);
        let map = self.nth(f, 0)?;
        let key = self.nth(f, 1)?;
        let ghost q = self.emitted().len() as int;
        let slot = if str_key {
            let hash_str = self.func("__vit_hash_str")?;
            self.call_for(hash_str, vec![key], "slot")?
        } else {
            let kl = self.llvm_type(&kt)?;
            let capk = built(llvm::const_int(kl, &mut self.trace, 4096, false), "an integer constant")?;
            let rem = built(llvm::int_srem(&self.builder, &mut self.trace, key, capk, "r"), "a remainder")?;
            let adj = built(llvm::int_add(&self.builder, &mut self.trace, rem, capk, "a"), "an addition")?;
            let s = built(llvm::int_srem(&self.builder, &mut self.trace, adj, capk, "s"), "a remainder")?;
            assert(slot_of_int_key(self.emitted(), q));
            if matches!(kt, VType::Int(64)) {
                built(llvm::trunc(&self.builder, s, i32t, "slot"), "a truncation")?
            } else {
                s
            }
        };
        let ghost probed = self.emitted();
        assert(if str_key { found_and_called(probed, q, q + 1, "__vit_hash_str"@) } else { slot_of_int_key(probed, q) });
        let pp = built(llvm::alloca(&self.builder, i32t, "pp"), "an alloca")?;
        self.st(pp, slot)?;
        self.jump(lp)?;

        // lp: an unused slot ends the probe.
        let ghost p_at = self.emitted().len() as int;
        self.position(lp);
        let uo = self.slot_offset(pp, used_base, 4, "uo")?;
        let up = self.at_offset(map, uo, &VType::Int(32), "up")?;
        let u = self.ld(up, "u")?;
        let zero32 = self.k32(0)?;
        let ghost j0 = self.emitted().len() as int;
        let ie = built(llvm::int_compare(&self.builder, &mut self.trace, llvm::IntCmp::Eq, u, zero32, "ie"), "a comparison")?;
        self.branch(ie, miss, chk)?;
        let ghost tested_unused = self.emitted();
        assert(tested_unused[j0 - 1] == Emitted::IntConstant(0, false, zero32));

        // chk: the slot holds the key?
        self.position(chk);
        let ghost at_chk = self.emitted();
        let ko = self.slot_offset(pp, 0, kb, "ko")?;
        let kp = self.at_offset(map, ko, &kt, "kp")?;
        let k = self.ld(kp, "k")?;
        let sm = if str_key {
            let compare_fn = self.func("strcmp")?;
            let order = self.call_for(compare_fn, vec![k, key], "order")?;
            built(llvm::int_compare(&self.builder, &mut self.trace, llvm::IntCmp::Eq, order, zero32, "sm"), "a comparison")?
        } else {
            built(llvm::int_compare(&self.builder, &mut self.trace, llvm::IntCmp::Eq, k, key, "sm"), "a comparison")?
        };
        let ghost j = self.emitted().len() as int - 1;
        self.branch(sm, hit, nxt)?;

        self.position(hit);
        let ghost at_hit = self.emitted();
        self.map_found(op, f, pp, map, key, &kt, &vt, kind)?;

        // nxt: the following slot, wrapping around.
        let ghost m = self.emitted().len() as int;
        let ghost found_end = self.emitted();
        self.map_advance(nxt, pp, cap32, lp)?;
        let ghost advanced = self.emitted();
        assert(probes(advanced, p_at, j0, j, m)) by {
            reveal(probes);
            assert(grows(at_chk, advanced));
            assert(grows(at_hit, advanced));
            assert(advanced[p_at] == at_chk[p_at]);
            assert(advanced[j0] == at_chk[j0] && advanced[j0 + 1] == at_chk[j0 + 1] && advanced[j0 + 2] == at_chk[j0 + 2]);
            assert(advanced[j] == at_hit[j] && advanced[j + 1] == at_hit[j + 1] && advanced[j + 2] == at_hit[j + 2]);
        }
        proof {
            assert(grows(tested_unused, found_end));
            lemma_map_unused_test_kept(tested_unused, found_end, j0, zero32, miss);
        }

        self.map_miss(op, miss, &vt, zero32, kind)?;
        proof {
            let t = self.emitted();
            lemma_map_op_answers(found_end, advanced, t, p_at, j0, j, m, *op, nxt, cap32, lp, miss, zero32);
            assert(grows(probed, t));
            assert(t[q] == probed[q] && t[q + 1] == probed[q + 1]);
            assert(str_key == (map_key_spec(*kind) == str_m())) by {
                match *kind {
                    MapKind::I32I32 => {},
                    MapKind::StrI32 => {},
                    MapKind::StrStr => {},
                    MapKind::I32I64 => {},
                    MapKind::I64I32 => {},
                    MapKind::I64I64 => {},
                }
            }
            if str_key {
                assert(found_and_called(t, q, q + 1, "__vit_hash_str"@));
            } else {
                assert(t[q + 2] == probed[q + 2] && t[q + 3] == probed[q + 3]);
                assert(slot_of_int_key(t, q));
            }
        }
        Ok(())
    }

    /// The hash-map helpers of every supported key and value type.
    pub(crate) fn build_map_helpers(&mut self) -> (r: Result<(), String>)
        ensures
            final(self).struct_names() == old(self).struct_names(),
            final(self).loop_depth() == old(self).loop_depth(),
            forall|k: Seq<char>| old(self).fn_sig(k) is Some ==> final(self).fn_sig(k) is Some,
            r is Ok ==> final(self).fn_sig("__vit_hash_str"@) is Some,
            r is Ok ==> forall|k: MapKind, op: MapOp| final(self).fn_sig(#[trigger] map_helper_name(k, op)) is Some,
            r is Err ==> outside_refusal(r->Err_0@),
            r is Ok ==> hashes_djb2(final(self).emitted(), old(self).emitted().len() as int),
            r is Ok ==> forall|k: MapKind| probe_start(final(self).emitted(), old(self).emitted().len() as int,
                #[trigger] map_key_spec(k) == str_m()),
    {
        self.build_hash_str()?;
        let ghost hashed = self.emitted();
        let kinds: Vec<MapKind> = vec![MapKind::I32I32, MapKind::StrI32, MapKind::StrStr,
            MapKind::I32I64, MapKind::I64I32, MapKind::I64I64];
        let mut i: usize = 0;
        while i < kinds.len()
            invariant
                self.struct_names() == old(self).struct_names(),
                self.loop_depth() == old(self).loop_depth(),
                forall|k: Seq<char>| old(self).fn_sig(k) is Some ==> self.fn_sig(k) is Some,
                self.fn_sig("__vit_hash_str"@) is Some,
                kinds@ == seq![MapKind::I32I32, MapKind::StrI32, MapKind::StrStr,
                    MapKind::I32I64, MapKind::I64I32, MapKind::I64I64],
                forall|j: int, op: MapOp| 0 <= j < i ==> self.fn_sig(#[trigger] map_helper_name(kinds@[j], op)) is Some,
                grows(hashed, self.emitted()),
                grows(old(self).emitted(), hashed),
                forall|j: int| 0 <= j < i ==> probe_start(self.emitted(), old(self).emitted().len() as int,
                    map_key_spec(#[trigger] kinds@[j]) == str_m()),
            decreases kinds@.len() - i,
        {
            let ghost before = self.emitted();
            self.build_map_op(&kinds[i], &MapOp::Store)?;
            let ghost stored = self.emitted();
            self.build_map_op(&kinds[i], &MapOp::Get)?;
            self.build_map_op(&kinds[i], &MapOp::Has)?;
            proof {
                assert(grows(stored, self.emitted()));
                assert forall|j: int| 0 <= j < i + 1 implies probe_start(self.emitted(), old(self).emitted().len() as int,
                    map_key_spec(#[trigger] kinds@[j]) == str_m()) by {
                    if j < i {
                        assert(grows(before, self.emitted()));
                        lemma_probe_grow(before, self.emitted(), old(self).emitted().len() as int, map_key_spec(kinds@[j]) == str_m());
                    } else {
                        lemma_probe_grow(stored, self.emitted(), before.len() as int, map_key_spec(kinds@[j]) == str_m());
                        lemma_probe_start_earlier(self.emitted(), before.len() as int, old(self).emitted().len() as int,
                            map_key_spec(kinds@[j]) == str_m());
                    }
                }
            }
            assert forall|j: int, op: MapOp| 0 <= j < i + 1 implies self.fn_sig(#[trigger] map_helper_name(kinds@[j], op)) is Some by {
                if j == i {
                    match op {
                        MapOp::Store => {},
                        MapOp::Get => {},
                        MapOp::Has => {},
                    }
                }
            }
            i = i + 1;
        }
        assert forall|k: MapKind, op: MapOp| self.fn_sig(#[trigger] map_helper_name(k, op)) is Some by {
            let j: int = match k {
                MapKind::I32I32 => 0,
                MapKind::StrI32 => 1,
                MapKind::StrStr => 2,
                MapKind::I32I64 => 3,
                MapKind::I64I32 => 4,
                MapKind::I64I64 => 5,
            };
            assert(kinds@[j] == k);
            assert(self.fn_sig(map_helper_name(kinds@[j], op)) is Some);
        }
        proof {
            lemma_djb2_grow(hashed, self.emitted(), old(self).emitted().len() as int);
            assert forall|k: MapKind| probe_start(self.emitted(), old(self).emitted().len() as int,
                #[trigger] map_key_spec(k) == str_m()) by {
                let j: int = match k {
                    MapKind::I32I32 => 0,
                    MapKind::StrI32 => 1,
                    MapKind::StrStr => 2,
                    MapKind::I32I64 => 3,
                    MapKind::I64I32 => 4,
                    MapKind::I64I64 => 5,
                };
                assert(kinds@[j] == k);
                assert(probe_start(self.emitted(), old(self).emitted().len() as int, map_key_spec(kinds@[j]) == str_m()));
            }
        }
        Ok(())
    }
}

} // verus!

verus! {

/// A comparator's requests at `i`: whether the first element is greater than
/// the second, whether it is less (ordered float comparisons for `f64`, signed
/// integer ones otherwise), and a subtraction (of the second test from the
/// first, each widened to `i32`).
pub open spec fn compares_at<'ctx>(t: Seq<Emitted<'ctx>>, i: int, float: bool) -> bool {
    &&& 0 <= i && i + 2 < t.len()
    &&& t[i + 2] matches Emitted::IntOperation(llvm::IntOp::Sub, _, _, _)
    &&& if float {
        match (t[i], t[i + 1]) {
            (Emitted::FloatComparison(p, a, b, _), Emitted::FloatComparison(q, a2, b2, _)) =>
                p == llvm::FloatCmp::Ogt && q == llvm::FloatCmp::Olt && a2 == a && b2 == b,
            _ => false,
        }
    } else {
        match (t[i], t[i + 1]) {
            (Emitted::IntComparison(p, a, b, _), Emitted::IntComparison(q, a2, b2, _)) =>
                p == llvm::IntCmp::Sgt && q == llvm::IntCmp::Slt && a2 == a && b2 == b,
            _ => false,
        }
    }
}

/// The requests of `strbuf_append` from `i` on: a call of one argument (the
/// added text's length); the length so far plus that, plus one, compared
/// (unsigned) with the capacity, and a branch on the comparison; the constant 2,
/// the needed size times it, and a call whose second argument is that product
/// (the reallocation), then a branch on; the address at the length so far, the
/// text's length plus one, a call whose third argument is that sum (the copy),
/// and the length so far plus the text's length (the new length).
pub open spec fn appends_at<'ctx>(t: Seq<Emitted<'ctx>>, i: int) -> bool {
    &&& 0 <= i && i + 13 < t.len()
    &&& match (t[i], t[i + 1], t[i + 2], t[i + 3], t[i + 4], t[i + 5]) {
        (Emitted::Call(_, sa, Some(slen)), Emitted::IntOperation(llvm::IntOp::Add, len, s1, tmp),
            Emitted::IntConstant(c1, _, one), Emitted::IntOperation(llvm::IntOp::Add, t1, o1, needed),
            Emitted::IntComparison(p, n1, _, c), Emitted::Branch(c2, _, _)) => {
            &&& sa@.len() == 1 && s1 == slen && c1 == 1 && t1 == tmp && o1 == one
            &&& p == llvm::IntCmp::Ugt && n1 == needed && c2 == c
            &&& match (t[i + 6], t[i + 7], t[i + 8], t[i + 9]) {
                (Emitted::IntConstant(c3, _, two), Emitted::IntOperation(llvm::IntOp::Mul, n2, w, cap),
                    Emitted::Call(_, ra, _), Emitted::Jump(_)) =>
                    c3 == 2 && n2 == needed && w == two && ra@.len() == 2 && ra@[1] == cap,
                _ => false,
            }
            &&& match (t[i + 10], t[i + 11], t[i + 12], t[i + 13]) {
                (Emitted::IntOperation(llvm::IntOp::Add, _, at, _), Emitted::IntOperation(llvm::IntOp::Add, s2, o2, n),
                    Emitted::Call(_, ma, _), Emitted::IntOperation(llvm::IntOp::Add, l2, s3, _)) =>
                    at == len && s2 == slen && o2 == one && ma@.len() == 3 && ma@[2] == n && l2 == len && s3 == slen,
                _ => false,
            }
        },
        _ => false,
    }
}

/// Request `i` of `t` found the function `name` in the module, and request `k`,
/// later, calls it.
pub open spec fn found_and_called<'ctx>(t: Seq<Emitted<'ctx>>, i: int, k: int, name: Seq<char>) -> bool {
    &&& 0 <= i < k < t.len()
    &&& match (t[i], t[k]) {
        (Emitted::Lookup(n, Some(f)), Emitted::Call(g, _, _)) => n@ == name && g == f,
        _ => false,
    }
}

/// From request `start` on, `t` holds calls of `socket`, `setsockopt`, `bind`
/// and `listen`, in that order, each of the function found by that name.
pub open spec fn listens_in_order<'ctx>(t: Seq<Emitted<'ctx>>, start: int) -> bool {
    exists|i1: int, k1: int, i2: int, k2: int, i3: int, k3: int, i4: int, k4: int| {
        &&& start <= i1 && k1 < i2 && k2 < i3 && k3 < i4
        &&& #[trigger] found_and_called(t, i1, k1, "socket"@)
        &&& #[trigger] found_and_called(t, i2, k2, "setsockopt"@)
        &&& #[trigger] found_and_called(t, i3, k3, "bind"@)
        &&& #[trigger] found_and_called(t, i4, k4, "listen"@)
    }
}

/// The requests of a djb2 string hash: the seed 5381 at `i`; at `j` the constant
/// 5, the hash shifted left by it, that plus the hash, and that exclusive-or the
/// next byte; at `m` the constant 4095 and the hash masked with it.
pub open spec fn djb2_steps<'ctx>(t: Seq<Emitted<'ctx>>, i: int, j: int, m: int) -> bool {
    &&& 0 <= i < j && j + 3 < m && m + 1 < t.len()
    &&& t[i] matches Emitted::IntConstant(seed, _, _) && seed == 5381
    &&& match (t[j], t[j + 1], t[j + 2], t[j + 3]) {
        (Emitted::IntConstant(c5, _, five), Emitted::IntOperation(llvm::IntOp::Shl, h, s, h5),
            Emitted::IntOperation(llvm::IntOp::Add, a, b, h33), Emitted::IntOperation(llvm::IntOp::Xor, x, _, _)) =>
            c5 == 5 && s == five && a == h5 && b == h && x == h33,
        _ => false,
    }
    &&& match (t[m], t[m + 1]) {
        (Emitted::IntConstant(c, _, mask), Emitted::IntOperation(llvm::IntOp::And, _, y, _)) => c == 4095 && y == mask,
        _ => false,
    }
}

/// The first slot a map operation probes, from request `start` on: for a string
/// key the value of a call of `__vit_hash_str`; for an integer key the remainder
/// of the key by 4096, plus 4096, again by 4096 (a slot in `0..4096` for a
/// negative key too).
pub open spec fn probe_start<'ctx>(t: Seq<Emitted<'ctx>>, start: int, str_key: bool) -> bool {
    if str_key {
        exists|i: int| start <= i && #[trigger] found_and_called(t, i, i + 1, "__vit_hash_str"@)
    } else {
        exists|q: int| start <= q && q + 3 < t.len() && #[trigger] slot_of_int_key(t, q)
    }
}

/// At `q`: the constant 4096, the key's remainder by it, that plus 4096, and
/// the remainder of that by 4096.
pub open spec fn slot_of_int_key<'ctx>(t: Seq<Emitted<'ctx>>, q: int) -> bool {
    &&& 0 <= q && q + 3 < t.len()
    &&& match (t[q], t[q + 1], t[q + 2], t[q + 3]) {
        (Emitted::IntConstant(c, _, cap), Emitted::IntOperation(llvm::IntOp::SignedRem, _, d1, rem),
            Emitted::IntOperation(llvm::IntOp::Add, a, d2, adj), Emitted::IntOperation(llvm::IntOp::SignedRem, b, d3, _)) =>
            c == 4096 && d1 == cap && a == rem && d2 == cap && b == adj && d3 == cap,
        _ => false,
    }
}

/// Requests added after those of `a` keep where its probe starts.
proof fn lemma_probe_grow<'ctx>(a: Seq<Emitted<'ctx>>, b: Seq<Emitted<'ctx>>, start: int, str_key: bool)
    requires
        probe_start(a, start, str_key),
        grows(a, b),
    ensures
        probe_start(b, start, str_key),
{
    if str_key {
        let i = choose|i: int| start <= i && #[trigger] found_and_called(a, i, i + 1, "__vit_hash_str"@);
        assert(b[i] == a[i] && b[i + 1] == a[i + 1]);
        assert(found_and_called(b, i, i + 1, "__vit_hash_str"@));
    } else {
        let q = choose|q: int| start <= q && q + 3 < a.len() && #[trigger] slot_of_int_key(a, q);
        assert(b[q] == a[q] && b[q + 1] == a[q + 1] && b[q + 2] == a[q + 2] && b[q + 3] == a[q + 3]);
        assert(slot_of_int_key(b, q));
    }
}

/// A probe found from `start` on is found from any earlier request on.
proof fn lemma_probe_start_earlier<'ctx>(t: Seq<Emitted<'ctx>>, start: int, earlier: int, str_key: bool)
    requires
        probe_start(t, start, str_key),
        earlier <= start,
    ensures
        probe_start(t, earlier, str_key),
{
    if str_key {
        let i = choose|i: int| start <= i && #[trigger] found_and_called(t, i, i + 1, "__vit_hash_str"@);
        assert(found_and_called(t, i, i + 1, "__vit_hash_str"@));
    } else {
        let q = choose|q: int| start <= q && q + 3 < t.len() && #[trigger] slot_of_int_key(t, q);
        assert(slot_of_int_key(t, q));
    }
}

/// A map operation's probe loop: at `p` the builder enters the loop's block;
/// at `j0` a test whether the slot is unused and a branch on it, whose second
/// target (a used slot) is entered next; at `j` a test whether the slot's key
/// equals the key searched for and a branch on it, whose first target (the
/// key found: its value is stored, read or reported there) is entered next; at
/// `m` the builder enters the branch's second target (another key), which
/// takes the slot plus one, its remainder by the capacity, and branches back
/// to the loop's block.
#[verifier::opaque]
pub open spec fn probes<'ctx>(t: Seq<Emitted<'ctx>>, p: int, j0: int, j: int, m: int) -> bool {
    &&& 0 <= p < j0 && j0 + 2 < j && j + 2 < m && m + 4 < t.len()
    &&& t[p] matches Emitted::Position(lp) && match (t[m + 1], t[m + 2], t[m + 3], t[m + 4]) {
        (Emitted::IntConstant(c1, _, one), Emitted::IntOperation(llvm::IntOp::Add, _, o, i1),
            Emitted::IntOperation(llvm::IntOp::SignedRem, a, _, _), Emitted::Jump(back)) =>
            c1 == 1 && o == one && a == i1 && back == lp,
        _ => false,
    }
    &&& match (t[j0], t[j0 + 1], t[j0 + 2]) {
        (Emitted::IntComparison(q, _, _, ie), Emitted::Branch(c, _, used), Emitted::Position(u2)) =>
            q == llvm::IntCmp::Eq && c == ie && u2 == used,
        _ => false,
    }
    &&& match (t[j], t[j + 1], t[j + 2], t[m]) {
        (Emitted::IntComparison(q, _, _, same), Emitted::Branch(c, found, other), Emitted::Position(f2), Emitted::Position(o2)) =>
            q == llvm::IntCmp::Eq && c == same && f2 == found && o2 == other,
        _ => false,
    }
}

/// The requests of the block where a map operation found its key, from
/// `start` on: the last two are a store followed by a return of nothing
/// (`map_set`), a load followed by a return of the value read (`map_get`), or
/// the constant 1 followed by a return of it (`map_has`).
pub open spec fn found_answer<'ctx>(t: Seq<Emitted<'ctx>>, start: int, op: MapOp) -> bool {
    let n = t.len() as int;
    &&& start <= n - 2
    &&& match op {
        MapOp::Store => t[n - 1] == Emitted::<'ctx>::Return(None) && t[n - 2] is Store,
        MapOp::Get => match (t[n - 2], t[n - 1]) {
            (Emitted::Load(_, v), Emitted::Return(Some(r))) => r == v,
            _ => false,
        },
        MapOp::Has => match (t[n - 2], t[n - 1]) {
            (Emitted::IntConstant(c, _, o), Emitted::Return(Some(r))) => c == 1 && r == o,
            _ => false,
        },
    }
}

/// The requests from `start` on are exactly: the builder entering `nxt`, the
/// constant 1, the slot plus it, that modulo `cap`, and a branch to `lp`.
pub open spec fn advances<'ctx>(t: Seq<Emitted<'ctx>>, start: int, nxt: inkwell::basic_block::BasicBlock<'ctx>,
    cap: BasicValueEnum<'ctx>, lp: inkwell::basic_block::BasicBlock<'ctx>) -> bool {
    &&& 0 <= start && t.len() == start + 5
    &&& t[start] == Emitted::Position(nxt)
    &&& match (t[start + 1], t[start + 2], t[start + 3], t[start + 4]) {
        (Emitted::IntConstant(c1, _, one), Emitted::IntOperation(llvm::IntOp::Add, _, o, i1),
            Emitted::IntOperation(llvm::IntOp::SignedRem, a, m, _), Emitted::Jump(back)) =>
            c1 == 1 && o == one && a == i1 && m == cap && back == lp,
        _ => false,
    }
}

/// The requests from `start` on are exactly those of the block an unused slot
/// leads to: none for `map_set`; the builder entering `miss`, a zero value and a
/// return of it for `map_get`; the builder entering `miss` and a return of
/// `zero` for `map_has`.
pub open spec fn misses<'ctx>(t: Seq<Emitted<'ctx>>, start: int, op: MapOp,
    miss: inkwell::basic_block::BasicBlock<'ctx>, zero: BasicValueEnum<'ctx>) -> bool {
    &&& 0 <= start
    &&& match op {
        MapOp::Store => t.len() == start,
        MapOp::Get => t.len() == start + 3 && t[start] == Emitted::Position(miss)
            && match (t[start + 1], t[start + 2]) {
                (Emitted::Zero(z), Emitted::Return(Some(r))) => r == z,
                _ => false,
            },
        MapOp::Has => t.len() == start + 2 && t[start] == Emitted::Position(miss)
            && t[start + 1] == Emitted::Return(Some(zero)),
    }
}

/// What a map operation answers, given its probe's tests at `j0` (unused
/// slot) and the block entered at `m` (another key): the block where the key
/// was found ends, just before `m`, with a store of the value after the key's
/// (`map_set`), or returns the value it reads (`map_get`) or the constant 1
/// (`map_has`); an unused slot leads to the block entered after the probe,
/// which returns a zero value (`map_get`) or the constant 0 (`map_has`).
#[verifier::opaque]
pub open spec fn answers<'ctx>(t: Seq<Emitted<'ctx>>, j0: int, m: int, op: MapOp) -> bool {
    &&& 1 <= j0 && j0 + 1 < m && 2 <= m && m + 4 < t.len()
    &&& match op {
        MapOp::Store => t[m - 1] == Emitted::<'ctx>::Return(None) && t[m - 2] is Store,
        MapOp::Get => {
            &&& m + 7 < t.len()
            &&& match (t[m - 2], t[m - 1]) {
                (Emitted::Load(_, v), Emitted::Return(Some(r))) => r == v,
                _ => false,
            }
            &&& match (t[j0 + 1], t[m + 5], t[m + 6], t[m + 7]) {
                (Emitted::Branch(_, miss, _), Emitted::Position(b), Emitted::Zero(z), Emitted::Return(Some(r))) =>
                    b == miss && r == z,
                _ => false,
            }
        },
        MapOp::Has => {
            &&& m + 6 < t.len()
            &&& match (t[m - 2], t[m - 1]) {
                (Emitted::IntConstant(c, _, o), Emitted::Return(Some(r))) => c == 1 && r == o,
                _ => false,
            }
            &&& match (t[j0 - 1], t[j0], t[j0 + 1], t[m + 5], t[m + 6]) {
                (Emitted::IntConstant(c0, _, z0), Emitted::IntComparison(_, _, zero, _), Emitted::Branch(_, miss, _),
                    Emitted::Position(b), Emitted::Return(Some(r))) => c0 == 0 && z0 == zero && b == miss && r == zero,
                _ => false,
            }
        },
    }
}

/// The unused-slot test and what follows it are kept by later requests.
proof fn lemma_map_unused_test_kept<'ctx>(a: Seq<Emitted<'ctx>>, b: Seq<Emitted<'ctx>>, j0: int,
    zero: BasicValueEnum<'ctx>, miss: inkwell::basic_block::BasicBlock<'ctx>)
    requires
        1 <= j0 && j0 + 1 < a.len(),
        grows(a, b),
        a[j0 - 1] == Emitted::IntConstant(0, false, zero),
        a[j0] matches Emitted::IntComparison(_, _, z, _) && z == zero,
        a[j0 + 1] matches Emitted::Branch(_, m, _) && m == miss,
    ensures
        b[j0 - 1] == Emitted::IntConstant(0, false, zero),
        b[j0] matches Emitted::IntComparison(_, _, z, _) && z == zero,
        b[j0 + 1] matches Emitted::Branch(_, m, _) && m == miss,
{
    assert(b[j0 - 1] == a[j0 - 1] && b[j0] == a[j0] && b[j0 + 1] == a[j0 + 1]);
}

/// A map operation's probe, found block, advance and miss block, built one
/// after the other, give its probe and its answers.
proof fn lemma_map_op_answers<'ctx>(
    found_end: Seq<Emitted<'ctx>>,
    advanced: Seq<Emitted<'ctx>>,
    t: Seq<Emitted<'ctx>>,
    p: int, j0: int, j: int, m: int,
    op: MapOp,
    nxt: inkwell::basic_block::BasicBlock<'ctx>,
    cap: BasicValueEnum<'ctx>,
    lp: inkwell::basic_block::BasicBlock<'ctx>,
    miss: inkwell::basic_block::BasicBlock<'ctx>,
    zero: BasicValueEnum<'ctx>,
)
    requires
        m == found_end.len(),
        1 <= j0 && j0 + 1 < m,
        found_answer(found_end, j + 3, op),
        found_end[j0 - 1] == Emitted::IntConstant(0, false, zero),
        found_end[j0] matches Emitted::IntComparison(_, _, z, _) && z == zero,
        found_end[j0 + 1] matches Emitted::Branch(_, b, _) && b == miss,
        grows(found_end, advanced),
        advances(advanced, m, nxt, cap, lp),
        probes(advanced, p, j0, j, m),
        grows(advanced, t),
        misses(t, m + 5, op, miss, zero),
    ensures
        probes(t, p, j0, j, m),
        answers(t, j0, m, op),
{
    reveal(probes);
    reveal(answers);
    assert(t[p] == advanced[p]);
    assert(t[j0] == advanced[j0] && t[j0 + 1] == advanced[j0 + 1] && t[j0 + 2] == advanced[j0 + 2]);
    assert(t[j] == advanced[j] && t[j + 1] == advanced[j + 1] && t[j + 2] == advanced[j + 2]);
    assert(t[m] == advanced[m] && t[m + 1] == advanced[m + 1] && t[m + 2] == advanced[m + 2]);
    assert(t[m + 3] == advanced[m + 3] && t[m + 4] == advanced[m + 4]);
    assert(t[m - 1] == found_end[m - 1] && t[m - 2] == found_end[m - 2]);
    assert(t[j0 - 1] == found_end[j0 - 1]);
    assert(found_end[j0] == advanced[j0] && found_end[j0 + 1] == advanced[j0 + 1]);
}

/// From request `start` on, `t` holds the requests of a djb2 string hash.
pub open spec fn hashes_djb2<'ctx>(t: Seq<Emitted<'ctx>>, start: int) -> bool {
    exists|i: int, j: int, m: int| start <= i && #[trigger] djb2_steps(t, i, j, m)
}

/// Requests added after those of `a` keep its hash.
proof fn lemma_djb2_grow<'ctx>(a: Seq<Emitted<'ctx>>, b: Seq<Emitted<'ctx>>, start: int)
    requires
        hashes_djb2(a, start),
        grows(a, b),
    ensures
        hashes_djb2(b, start),
{
    let (i, j, m) = choose|i: int, j: int, m: int| start <= i && #[trigger] djb2_steps(a, i, j, m);
    assert(b[i] == a[i] && b[j] == a[j] && b[j + 1] == a[j + 1] && b[j + 2] == a[j + 2] && b[j + 3] == a[j + 3]);
    assert(b[m] == a[m] && b[m + 1] == a[m + 1]);
    assert(djb2_steps(b, i, j, m));
}

/// Requests added after those of `a` keep its calls in order.
proof fn lemma_listens_grow<'ctx>(a: Seq<Emitted<'ctx>>, b: Seq<Emitted<'ctx>>, start: int)
    requires
        listens_in_order(a, start),
        grows(a, b),
    ensures
        listens_in_order(b, start),
{
    let (i1, k1, i2, k2, i3, k3, i4, k4) = choose|i1: int, k1: int, i2: int, k2: int, i3: int, k3: int, i4: int, k4: int| {
        &&& start <= i1 && k1 < i2 && k2 < i3 && k3 < i4
        &&& #[trigger] found_and_called(a, i1, k1, "socket"@)
        &&& #[trigger] found_and_called(a, i2, k2, "setsockopt"@)
        &&& #[trigger] found_and_called(a, i3, k3, "bind"@)
        &&& #[trigger] found_and_called(a, i4, k4, "listen"@)
    };
    assert(b[i1] == a[i1] && b[k1] == a[k1] && b[i2] == a[i2] && b[k2] == a[k2]);
    assert(b[i3] == a[i3] && b[k3] == a[k3] && b[i4] == a[i4] && b[k4] == a[k4]);
    assert(found_and_called(b, i1, k1, "socket"@));
    assert(found_and_called(b, i2, k2, "setsockopt"@));
    assert(found_and_called(b, i3, k3, "bind"@));
    assert(found_and_called(b, i4, k4, "listen"@));
}

/// Integers of the widths LLVM has, `f64` and `str`: the types the runtime's
/// helpers are declared with.
pub open spec fn plain_vtype(t: VTypeM) -> bool {
    ||| t == VTypeM::Int(8) || t == VTypeM::Int(16) || t == VTypeM::Int(32) || t == VTypeM::Int(64)
    ||| t == VTypeM::Double || t == str_m()
}

/// A signature of plain types has no error, whatever structs are known.
proof fn lemma_plain_signature(ret: Option<VType>, params: Seq<VType>, known: Set<Seq<char>>)
    requires
        forall|j: int| 0 <= j < params.len() ==> plain_vtype(vt_m(#[trigger] params[j])),
        ret matches Some(t) ==> plain_vtype(vt_m(t)),
    ensures
        signature_error(params.map_values(|t: VType| vt_m(t)), opt_vt_m(ret), known) is None,
{
    lemma_basic_types_ok(known);
    assert(llvm_type_error(VTypeM::Int(16), known) is None);
    lemma_known_signature(ret, params, known);
}

/// The key and value types of every map kind are types that LLVM has.
proof fn lemma_map_types_ok(k: MapKind, known: Set<Seq<char>>)
    ensures
        llvm_type_error(map_key_spec(k), known) is None,
        llvm_type_error(map_value_spec(k), known) is None,
{
    lemma_basic_types_ok(known);
    match k {
        MapKind::I32I32 => {},
        MapKind::StrI32 => {},
        MapKind::StrStr => {},
        MapKind::I32I64 => {},
        MapKind::I64I32 => {},
        MapKind::I64I64 => {},
    }
}

/// The helpers of every map kind are declared with types that LLVM has.
proof fn lemma_map_helper_sig_ok(k: MapKind, op: MapOp, known: Set<Seq<char>>)
    ensures
        signature_error(map_helper_sig(k, op).0, map_helper_sig(k, op).1, known) is None,
{
    lemma_basic_types_ok(known);
    let sig = map_helper_sig(k, op);
    assert(llvm_type_error(map_key_spec(k), known) is None && llvm_type_error(map_value_spec(k), known) is None) by {
        match k {
            MapKind::I32I32 => {},
            MapKind::StrI32 => {},
            MapKind::StrStr => {},
            MapKind::I32I64 => {},
            MapKind::I64I32 => {},
            MapKind::I64I64 => {},
        }
    }
    assert forall|j: int| 0 <= j < sig.0.len() implies llvm_type_error(#[trigger] sig.0[j], known) is None by {
        match op {
            MapOp::Store => {},
            MapOp::Get => {},
            MapOp::Has => {},
        }
    }
    lemma_first_type_error(sig.0, sig.0.len() as int, known);
}

/// A signature over plain types, or types that LLVM has, has no error.
proof fn lemma_signature_m(params: Seq<VTypeM>, ret: Option<VTypeM>, known: Set<Seq<char>>)
    requires
        forall|j: int| 0 <= j < params.len() ==> llvm_type_error(#[trigger] params[j], known) is None
            || plain_vtype(params[j]),
        ret matches Some(t) ==> (llvm_type_error(t, known) is None || plain_vtype(t)),
    ensures
        signature_error(params, ret, known) is None,
{
    lemma_basic_types_ok(known);
    assert(llvm_type_error(VTypeM::Int(16), known) is None);
    assert forall|j: int| 0 <= j < params.len() implies llvm_type_error(#[trigger] params[j], known) is None by {}
    lemma_first_type_error(params, params.len() as int, known);
}

/// A signature whose every type has an LLVM counterpart has no error.
proof fn lemma_known_signature(ret: Option<VType>, params: Seq<VType>, known: Set<Seq<char>>)
    requires
        forall|j: int| 0 <= j < params.len() ==> llvm_type_error(vt_m(#[trigger] params[j]), known) is None
            || plain_vtype(vt_m(params[j])),
        ret matches Some(t) ==> (llvm_type_error(vt_m(t), known) is None || plain_vtype(vt_m(t))),
    ensures
        signature_error(params.map_values(|t: VType| vt_m(t)), opt_vt_m(ret), known) is None,
{
    lemma_basic_types_ok(known);
    assert(llvm_type_error(VTypeM::Int(16), known) is None);
    let ms = params.map_values(|t: VType| vt_m(t));
    assert forall|j: int| 0 <= j < ms.len() implies llvm_type_error(#[trigger] ms[j], known) is None by {
        assert(ms[j] == vt_m(params[j]));
    }
    lemma_first_type_error(ms, ms.len() as int, known);
}

impl<'ctx> Codegen<'ctx> {
    /// A pointer converted to `i8*`, as C's `void*` parameters take it.
    pub(crate) fn as_bytes(&self, p: BasicValueEnum<'ctx>) -> (r: Result<BasicValueEnum<'ctx>, String>)
        ensures
            r is Err ==> r->Err_0@ == build_failure("a pointer conversion"@),
    {
        built(llvm::bit_cast(&self.builder, p, llvm::ptr_to(llvm::i8_ty(self.context)), "bytes"), "a pointer conversion")
    }

    /// `__vit_tcp_listen`, `__vit_tcp_accept`, `__vit_tcp_recv`, `__vit_tcp_send`,
    /// `__vit_tcp_close`: thin helpers over the socket functions.
    #[verifier::rlimit(50)]
    pub(crate) fn build_tcp_helpers(&mut self) -> (r: Result<(), String>)
        ensures
            final(self).struct_names() == old(self).struct_names(),
            final(self).loop_depth() == old(self).loop_depth(),
            forall|k: Seq<char>| old(self).fn_sig(k) is Some ==> final(self).fn_sig(k) is Some,
            r is Ok ==> final(self).declares_all(seq!["__vit_tcp_listen"@, "__vit_tcp_accept"@, "__vit_tcp_recv"@,
                "__vit_tcp_send"@, "__vit_tcp_close"@]),
            r is Err ==> outside_refusal(r->Err_0@),
            r is Ok ==> listens_in_order(final(self).emitted(), old(self).emitted().len() as int),
    {
        let i32v = VType::Int(32);
        let i16t = llvm::i16_ty(self.context);
        let i32t = llvm::i32_ty(self.context);
        let i8p = llvm::ptr_to(llvm::i8_ty(self.context));

        // __vit_tcp_listen(port) -> fd: socket, SO_REUSEADDR, bind to INADDR_ANY:port, listen.
        let ps = vec![VType::Int(32)];
        proof { lemma_plain_signature(Some(VType::Int(32)), ps@, self.struct_names()); }
        let f = self.declare("__vit_tcp_listen", Some(VType::Int(32)), ps, false)?;
        let bb = self.block(f, "entry");
        self.at(bb);
        let port = self.nth(f, 0)?;
        let ghost i1 = self.emitted().len() as int;
        let socket = self.func("socket")?;
        let two = self.k32(2)?;
        let one = self.k32(1)?;
        let zero = self.k32(0)?;
        let ghost k1 = self.emitted().len() as int;
        let fd = self.call_for(socket, vec![two, one, zero], "fd")?;
        let ghost t1 = self.emitted();
        assert(found_and_called(t1, i1, k1, "socket"@));
        let opt = built(llvm::alloca(&self.builder, i32t, "opt"), "an alloca")?;
        self.st(opt, one)?;
        let ghost i2 = self.emitted().len() as int;
        let setsockopt = self.func("setsockopt")?;
        let optp = self.as_bytes(opt)?;
        let four = self.k32(4)?;
        let ghost k2 = self.emitted().len() as int;
        self.call_do(setsockopt, vec![fd, one, two, optp, four], "")?;
        let ghost t2 = self.emitted();
        assert(found_and_called(t2, i1, k1, "socket"@)) by {
            assert(t2[i1] == t1[i1] && t2[k1] == t1[k1]);
        }
        assert(found_and_called(t2, i2, k2, "setsockopt"@));
        let arr16 = llvm::array_of(llvm::i8_ty(self.context), 16);
        let addr = built(llvm::alloca(&self.builder, arr16, "addr"), "an alloca")?;
        let z16 = llvm::zero_of(arr16, &mut self.trace);
        self.st(addr, z16)?;
        let base = self.as_bytes(addr)?;
        let zero64 = self.k64(0)?;
        let famp = self.at_offset(base, zero64, &VType::Int(16), "famp")?;
        let af_inet = built(llvm::const_int(i16t, &mut self.trace, 2, false), "an integer constant")?;
        self.st(famp, af_inet)?;
        let port16 = built(llvm::trunc(&self.builder, port, i16t, "p16"), "a truncation")?;
        let ff = built(llvm::const_int(i16t, &mut self.trace, 0xFF, false), "an integer constant")?;
        let eight = built(llvm::const_int(i16t, &mut self.trace, 8, false), "an integer constant")?;
        let lo = built(llvm::int_and(&self.builder, &mut self.trace, port16, ff, "lo"), "a conjunction")?;
        let hi = built(llvm::int_lshr(&self.builder, &mut self.trace, port16, eight, "hi"), "a shift")?;
        let lo_sh = built(llvm::int_shl(&self.builder, &mut self.trace, lo, eight, "lsh"), "a shift")?;
        let htons = built(llvm::int_or(&self.builder, &mut self.trace, lo_sh, hi, "htons"), "a disjunction")?;
        let two64 = self.k64(2)?;
        let pptr = self.at_offset(base, two64, &VType::Int(16), "pptr")?;
        self.st(pptr, htons)?;
        let ghost i3 = self.emitted().len() as int;
        let bind = self.func("bind")?;
        let sixteen = self.k32(16)?;
        let ghost k3 = self.emitted().len() as int;
        self.call_do(bind, vec![fd, base, sixteen], "")?;
        let ghost t3 = self.emitted();
        assert(grows(t2, t3));
        assert(found_and_called(t3, i3, k3, "bind"@));
        let ghost i4 = self.emitted().len() as int;
        let listen = self.func("listen")?;
        let backlog = self.k32(128)?;
        let ghost k4 = self.emitted().len() as int;
        self.call_do(listen, vec![fd, backlog], "")?;
        let ghost t4 = self.emitted();
        assert(grows(t3, t4));
        assert(found_and_called(t4, i1, k1, "socket"@)) by {
            assert(t4[i1] == t1[i1] && t4[k1] == t1[k1]);
        }
        assert(found_and_called(t4, i2, k2, "setsockopt"@)) by {
            assert(t4[i2] == t2[i2] && t4[k2] == t2[k2]);
        }
        assert(found_and_called(t4, i3, k3, "bind"@)) by {
            assert(t4[i3] == t3[i3] && t4[k3] == t3[k3]);
        }
        assert(found_and_called(t4, i4, k4, "listen"@));
        assert(listens_in_order(t4, old(self).emitted().len() as int));
        self.give(Some(fd))?;

        // __vit_tcp_accept(fd) -> client fd
        let ps = vec![VType::Int(32)];
        proof { lemma_plain_signature(Some(VType::Int(32)), ps@, self.struct_names()); }
        let f = self.declare("__vit_tcp_accept", Some(VType::Int(32)), ps, false)?;
        let bb = self.block(f, "entry");
        self.at(bb);
        let fd = self.nth(f, 0)?;
        let accept = self.func("accept")?;
        let ghost before_null = *self;
        let null = llvm::zero_of(i8p, &mut self.trace);
        assert(self.same_but_emitted(&before_null));
        let client = self.call_for(accept, vec![fd, null, null], "client")?;
        self.give(Some(client))?;

        // __vit_tcp_recv(fd, buf, size) and __vit_tcp_send(fd, buf, len): flags 0.
        let pairs: Vec<(&str, &str)> = vec![("__vit_tcp_recv", "recv"), ("__vit_tcp_send", "send")];
        assert(self.fn_sig("__vit_tcp_listen"@) is Some);
        assert(self.fn_sig("__vit_tcp_accept"@) is Some);
        let ghost before_loop = *self;
        assert(grows(t4, self.emitted()));
        let mut k: usize = 0;
        while k < pairs.len()
            invariant
                grows(t4, self.emitted()),
                self.struct_names() == old(self).struct_names(),
                self.loop_depth() == old(self).loop_depth(),
                forall|n: Seq<char>| old(self).fn_sig(n) is Some ==> self.fn_sig(n) is Some,
                forall|n: Seq<char>| before_loop.fn_sig(n) is Some ==> self.fn_sig(n) is Some,
                pairs@ == seq![("__vit_tcp_recv", "recv"), ("__vit_tcp_send", "send")],
                forall|j: int| 0 <= j < k ==> self.fn_sig(#[trigger] pairs@[j].0@) is Some,
            decreases pairs@.len() - k,
        {
            let (helper, libc) = pairs[k];
            let ps = vec![VType::Int(32), str_vtype(), VType::Int(32)];
            proof { lemma_plain_signature(Some(VType::Int(32)), ps@, self.struct_names()); }
            let f = self.declare(helper, Some(VType::Int(32)), ps, false)?;
            let bb = self.block(f, "entry");
            self.at(bb);
            let fd = self.nth(f, 0)?;
            let buf = self.nth(f, 1)?;
            let size = self.nth(f, 2)?;
            let target = self.func(libc)?;
            let n = self.call_for(target, vec![fd, buf, size, zero], "n")?;
            self.give(Some(n))?;
            k = k + 1;
        }
        assert(self.fn_sig(pairs@[0].0@) is Some && self.fn_sig(pairs@[1].0@) is Some);

        // __vit_tcp_close(fd)
        let ps = vec![VType::Int(32)];
        proof { lemma_plain_signature(Some(VType::Int(32)), ps@, self.struct_names()); }
        let f = self.declare("__vit_tcp_close", Some(VType::Int(32)), ps, false)?;
        let bb = self.block(f, "entry");
        self.at(bb);
        let fd = self.nth(f, 0)?;
        let close = self.func("close")?;
        let r = self.call_for(close, vec![fd], "r")?;
        self.give(Some(r))?;
        assert(seq!["__vit_tcp_listen"@, "__vit_tcp_accept"@, "__vit_tcp_recv"@, "__vit_tcp_send"@,
            "__vit_tcp_close"@][2] == pairs@[0].0@);
        proof {
            assert(grows(t4, self.emitted()));
            lemma_listens_grow(t4, self.emitted(), old(self).emitted().len() as int);
        }
        Ok(())
    }
}

} // verus!

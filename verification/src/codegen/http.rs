//! The HTTP built-ins: `http_handle(method, path, handler)` records a route in the
//! route table, `http_listen(port)` serves requests with the routes recorded.
//! They call the functions and use the structs of the HTTP library module
//! (`http_read`, `http_parse`, `Request`, `Response`, ...).
use vstd::prelude::*;
use inkwell::values::BasicValueEnum;
use crate::ast::Expression;
use crate::llvm;
use crate::text::{text, text_eq};
use crate::vtype::{VType, str_vtype};
use super::{Codegen, Val, cat, cat3, builder_failed, built};

verus! {

broadcast use crate::codegen::Codegen::lemma_same_but_emitted;

/// Where the `method` field stands among the fields `names` of a request: at the
/// first field of that name, or at 0 when no field within `u32` range has it.
pub open spec fn method_position(names: Seq<Seq<char>>, idx: int) -> bool {
    ||| (0 <= idx < names.len() && names[idx] == "method"@
        && forall|j: int| 0 <= j < idx ==> names[j] != "method"@)
    ||| (idx == 0 && forall|j: int| 0 <= j < names.len() && j <= u32::MAX ==> names[j] != "method"@)
}

/// `http_handle(): handler 'name' must return str or Response`.
fn handler_type_message(name: &str) -> (r: String)
    ensures
        r@ == "http_handle(): handler '"@ + name@ + "' must return str or Response"@,
{
    cat3("http_handle(): handler '", name, "' must return str or Response")
}

/// `what(): name not found - did you import lib/http.vit?`.
fn missing_message(what: &str, name: &str) -> (r: String)
    ensures
        r@ == what@ + "(): "@ + name@ + " not found - did you import lib/http.vit?"@,
{
    let mut s = text(what);
    crate::text::append(&mut s, "(): ");
    crate::text::append(&mut s, name);
    crate::text::append(&mut s, " not found - did you import lib/http.vit?");
    s
}

impl<'ctx> Codegen<'ctx> {
    /// A function of the HTTP library module, which the built-in `what` needs.
    fn http_func(&mut self, what: &str, name: &str) -> (r: Result<inkwell::values::FunctionValue<'ctx>, String>)
        ensures
            final(self).same_but_emitted(old(self)),
            crate::codegen::grows(old(self).emitted(), final(self).emitted()),
            r is Err ==> r->Err_0@ == what@ + "(): "@ + name@ + " not found - did you import lib/http.vit?"@,
    {
        match llvm::get_function(&self.module, &mut self.trace, name) {
            Some(f) => Ok(f),
            None => Err(missing_message(what, name)),
        }
    }

    /// The address of one of the route table's globals.
    fn route_global(&self, name: &str) -> (r: Result<BasicValueEnum<'ctx>, String>)
        ensures
            r is Err ==> r->Err_0@ == "Undefined global: "@ + name@,
    {
        match llvm::get_global(&self.module, name) {
            Some(g) => Ok(llvm::global_ptr(g)),
            None => Err(cat("Undefined global: ", name)),
        }
    }

    /// The address of entry `i` of the route table `table` (an array of `i8*`).
    fn route_entry(&mut self, table: BasicValueEnum<'ctx>, i: BasicValueEnum<'ctx>) -> (r: Result<BasicValueEnum<'ctx>, String>)
        ensures
            crate::codegen::grows(old(self).emitted(), final(self).emitted()),
            final(self).same_but_emitted(old(self)),
    {
        let first = self.as_bytes(table)?;
        let first = built(llvm::bit_cast(&self.builder, first, llvm::ptr_to(llvm::ptr_to(llvm::i8_ty(self.context))), "route_base"),
            "a pointer conversion")?;
        self.element_ptr(first, &str_vtype(), &Val { v: i, ty: VType::Int(32) })
    }

    /// The function that `http_listen` calls for a request of the route of
    /// `handler_name`, as an `i8*`: the handler itself when it returns `str`, or,
    /// when it returns a `Response`, a wrapper `__vit_http_wrap_<handler>` that
    /// builds the response text and frees the response.
    pub(crate) fn ensure_http_handler_wrapper(&mut self, handler_name: &str) -> (r: Result<BasicValueEnum<'ctx>, String>)
        ensures
            crate::codegen::grows(old(self).emitted(), final(self).emitted()),
            final(self).struct_names() == old(self).struct_names(),
            final(self).loop_depth() == old(self).loop_depth(),
            old(self).emitted().len() < final(self).emitted().len(),
            final(self).emitted()[old(self).emitted().len() as int] matches llvm::Emitted::Lookup(n, found)
                && n@ == "__vit_http_wrap_"@ + handler_name@
                && (found is Some ==> final(self).same_but_emitted(old(self))
                    && final(self).emitted().len() == old(self).emitted().len() + 1),
    {
        let wrapper_name = cat("__vit_http_wrap_", handler_name);
        let saved = llvm::insert_block(&self.builder);
        proof { reveal_strlit("__vit_http_wrap_"); }
        match llvm::get_function(&self.module, &mut self.trace, wrapper_name.as_str()) {
            Some(existing) => { return self.as_bytes(llvm::function_ptr(existing)); },
            None => {},
        }
        let handler_fn = match llvm::get_function(&self.module, &mut self.trace, handler_name) {
            Some(f) => f,
            None => { return Err(cat3("http_handle(): unknown function '", handler_name, "'")); },
        };
        let ret = match llvm::fn_return_type(handler_fn) {
            Some(t) => t,
            None => { return Err(handler_type_message(handler_name)); },
        };
        if llvm::is_pointer_type(ret) {
            return self.as_bytes(llvm::function_ptr(handler_fn));
        }
        let response = match self.struct_defs.get("Response") {
            Some(info) => llvm::struct_basic(info.llvm),
            None => {
                return Err(text("http_handle(): Response struct not found — did you import lib/http.vit?"));
            },
        };
        if !llvm::same_type(ret, response) {
            return Err(handler_type_message(handler_name));
        }
        let build_fn = match llvm::get_function(&self.module, &mut self.trace, "http_build") {
            Some(f) => f,
            None => { return Err(text("http_handle(): http_build not found — did you import lib/http.vit?")); },
        };
        let free_fn = match llvm::get_function(&self.module, &mut self.trace, "http_response_free") {
            Some(f) => f,
            None => { return Err(text("http_handle(): http_response_free not found — did you import lib/http.vit?")); },
        };
        let i8p = str_vtype();
        let wrapper = self.declare(wrapper_name.as_str(), Some(i8p.duplicate()), vec![i8p], false)?;
        let entry = self.block(wrapper, "entry");
        self.at(entry);
        let req = self.nth(wrapper, 0)?;
        let req = match llvm::fn_param_type(handler_fn, 0) {
            Some(t) => built(llvm::bit_cast(&self.builder, req, t, "req"), "a pointer conversion")?,
            None => req,
        };
        let resp = match llvm::call(&self.builder, &mut self.trace, handler_fn, &vec![req], "handler_resp") {
            Some(Some(v)) => v,
            _ => { return Err(cat3("http_handle(): handler '", handler_name, "' returned no value")); },
        };
        let resp_slot = built(llvm::alloca(&self.builder, response, "resp_slot"), "an alloca")?;
        self.st(resp_slot, resp)?;
        let resp_arg = match llvm::fn_param_type(build_fn, 0) {
            Some(t) => built(llvm::bit_cast(&self.builder, resp_slot, t, "resp_arg"), "a pointer conversion")?,
            None => resp_slot,
        };
        let text_resp = match llvm::call(&self.builder, &mut self.trace, build_fn, &vec![resp_arg], "built_resp") {
            Some(Some(v)) => v,
            _ => { return Err(text("http_handle(): http_build returned no value")); },
        };
        let free_arg = match llvm::fn_param_type(free_fn, 0) {
            Some(t) => built(llvm::bit_cast(&self.builder, resp_slot, t, "free_arg"), "a pointer conversion")?,
            None => resp_slot,
        };
        self.call_do(free_fn, vec![free_arg], "free_resp")?;
        if !llvm::ret(&self.builder, Some(text_resp)) {
            return Err(builder_failed("a return"));
        }
        match saved {
            Some(bb) => self.at(bb),
            None => {},
        }
        self.as_bytes(llvm::function_ptr(wrapper))
    }

    /// `http_handle(method, path, handler)`: appends the route to the route table.
    pub(crate) fn generate_http_handle(&mut self, expr: &Expression) -> (r: Result<Val<'ctx>, String>)
        ensures
            crate::codegen::grows(old(self).emitted(), final(self).emitted()),
            final(self).struct_names() == old(self).struct_names(),
            final(self).loop_depth() == old(self).loop_depth(),
            *expr matches Expression::Call { arguments, .. } ==> (arguments@.len() != 3 ==>
                (r is Err && r->Err_0@ == "http_handle() takes 3 arguments: method, path, handler"@)),
        decreases expr, 2nat,
    {
        let arguments = match expr {
            Expression::Call { arguments, .. } => arguments,
            _ => { return Err(text("Expected a call")); },
        };
        if arguments.len() != 3 {
            return Err(text("http_handle() takes 3 arguments: method, path, handler"));
        }
        let method = self.gen_arg(expr, 0)?;
        let path = self.gen_arg(expr, 1)?;
        let handler_name = match &arguments[2] {
            Expression::Identifier(n) => n.clone(),
            _ => { return Err(text("http_handle(): third argument must be a function name")); },
        };
        let handler = self.ensure_http_handler_wrapper(handler_name.as_str())?;
        let count_g = self.route_global("__vit_route_count")?;
        let methods_g = self.route_global("__vit_route_methods")?;
        let paths_g = self.route_global("__vit_route_paths")?;
        let handlers_g = self.route_global("__vit_route_handlers")?;
        let count = self.ld(count_g, "cnt")?;
        let mp = self.route_entry(methods_g, count)?;
        self.st(mp, method.v)?;
        let pp = self.route_entry(paths_g, count)?;
        self.st(pp, path.v)?;
        let hp = self.route_entry(handlers_g, count)?;
        self.st(hp, handler)?;
        let one = self.k32(1)?;
        let next = built(llvm::int_add(&self.builder, &mut self.trace, count, one, "cnt1"), "an addition")?;
        self.st(count_g, next)?;
        let zero = self.k32(0)?;
        Ok(Val { v: zero, ty: VType::Int(32) })
    }

    /// The LLVM type of the `Request` struct and the position of its `method` field
    /// (0 when it has none).
    fn request_layout(&self) -> (r: Result<(inkwell::types::BasicTypeEnum<'ctx>, u32), String>)
        ensures
            match self.struct_fields("Request"@) {
                None => r is Err && r->Err_0@ == "http_listen(): Request struct not found - did you import lib/http.vit?"@,
                Some((names, _)) => r is Ok && method_position(names, r->Ok_0.1 as int),
            },
    {
        match self.struct_defs.get("Request") {
            Some(info) => {
                let ghost names = info.fields@.map_values(|f: String| f@);
                let mut idx: u32 = 0;
                let mut found = false;
                let mut i: usize = 0;
                while i < info.fields.len() && !found
                    invariant
                        i <= info.fields@.len(),
                        names == info.fields@.map_values(|f: String| f@),
                        found ==> idx < i && names[idx as int] == "method"@
                            && forall|j: int| 0 <= j < idx ==> names[j] != "method"@,
                        !found ==> idx == 0 && forall|j: int| 0 <= j < i && j <= u32::MAX ==> names[j] != "method"@,
                    decreases info.fields@.len() - i,
                {
                    if text_eq(info.fields[i].as_str(), "method") && i <= u32::MAX as usize {
                        idx = i as u32;
                        found = true;
                    }
                    i = i + 1;
                }
                Ok((llvm::struct_basic(info.llvm), idx))
            },
            None => Err(text("http_listen(): Request struct not found - did you import lib/http.vit?")),
        }
    }

    /// `http_listen(port)`: accepts connections forever; for each request, the
    /// first recorded route whose method is the request's and whose path pattern
    /// matches answers it (its parameters filled in), or `http_not_found()` does.
    pub(crate) fn generate_http_listen(&mut self, expr: &Expression) -> (r: Result<Val<'ctx>, String>)
        ensures
            crate::codegen::grows(old(self).emitted(), final(self).emitted()),
            final(self).struct_names() == old(self).struct_names(),
            final(self).loop_depth() == old(self).loop_depth(),
            *expr matches Expression::Call { arguments, .. } ==> (arguments@.len() != 1 ==>
                (r is Err && r->Err_0@ == "http_listen() takes 1 argument: port"@)),
        decreases expr, 2nat,
    {
        let n = match expr {
            Expression::Call { arguments, .. } => arguments.len(),
            _ => { return Err(text("Expected a call")); },
        };
        if n != 1 {
            return Err(text("http_listen() takes 1 argument: port"));
        }
        let port = self.gen_arg(expr, 0)?;
        let i8p = llvm::ptr_to(llvm::i8_ty(self.context));
        let listen_fn = self.func("__vit_tcp_listen")?;
        let accept_fn = self.func("__vit_tcp_accept")?;
        let close_fn = self.func("__vit_tcp_close")?;
        let compare_fn = self.func("strcmp")?;
        let free_fn = self.func("free")?;
        let read_fn = self.http_func("http_listen", "http_read")?;
        let send_fn = self.http_func("http_listen", "http_send")?;
        let not_found_fn = self.http_func("http_listen", "http_not_found")?;
        let request_free_fn = self.http_func("http_listen", "http_request_free")?;
        let matches_fn = self.http_func("http_listen", "http_route_matches")?;
        let apply_fn = self.http_func("http_listen", "http_route_apply")?;
        let parse_fn = self.http_func("http_listen", "http_parse")?;
        let (req_type, method_idx) = self.request_layout()?;
        let count_g = self.route_global("__vit_route_count")?;
        let methods_g = self.route_global("__vit_route_methods")?;
        let paths_g = self.route_global("__vit_route_paths")?;
        let handlers_g = self.route_global("__vit_route_handlers")?;
        let zero = self.k32(0)?;
        let one = self.k32(1)?;

        let server = self.call_for(listen_fn, vec![port.v], "srv_fd")?;
        let srv_slot = built(llvm::alloca(&self.builder, llvm::i32_ty(self.context), "srv_slot"), "an alloca")?;
        self.st(srv_slot, server)?;

        let current = match self.current_function {
            Some(f) => f,
            None => { return Err(builder_failed("a block")); },
        };
        let accept_bb = self.block(current, "http_accept");
        let check_bb = self.block(current, "dispatch_check");
        let body_bb = self.block(current, "dispatch_body");
        let path_bb = self.block(current, "check_path");
        let match_bb = self.block(current, "dispatch_match");
        let next_bb = self.block(current, "dispatch_next");
        let done_bb = self.block(current, "dispatch_done");
        let send_bb = self.block(current, "http_send");
        let after_bb = self.block(current, "http_after");
        self.jump(accept_bb)?;

        // Accept a client, read and parse its request.
        self.at(accept_bb);
        let srv = self.ld(srv_slot, "srv")?;
        let client = self.call_for(accept_fn, vec![srv], "cli")?;
        let cli_slot = built(llvm::alloca(&self.builder, llvm::i32_ty(self.context), "cli_slot"), "an alloca")?;
        self.st(cli_slot, client)?;
        let buf = self.call_for(read_fn, vec![client], "rbuf")?;
        let req_val = self.call_for(parse_fn, vec![buf], "req_val")?;
        self.call_do(free_fn, vec![buf], "free_http_buf")?;
        let req_slot = built(llvm::alloca(&self.builder, req_type, "req_slot"), "an alloca")?;
        self.st(req_slot, req_val)?;
        let i_slot = built(llvm::alloca(&self.builder, llvm::i32_ty(self.context), "i_slot"), "an alloca")?;
        let resp_slot = built(llvm::alloca(&self.builder, i8p, "resp_slot"), "an alloca")?;
        self.st(i_slot, zero)?;
        let znull = llvm::zero_of(i8p, &mut self.trace);
        self.st(resp_slot, znull)?;
        self.jump(check_bb)?;

        // Stop when every route was tried.
        self.at(check_bb);
        let i = self.ld(i_slot, "i")?;
        let cnt = self.ld(count_g, "cnt")?;
        let exhausted = built(llvm::int_compare(&self.builder, &mut self.trace, llvm::IntCmp::Sge, i, cnt, "exh"), "a comparison")?;
        self.branch(exhausted, done_bb, body_bb)?;

        // Compare the request's method with the route's.
        self.at(body_bb);
        let i2 = self.ld(i_slot, "i2")?;
        let method_ptr = built(llvm::struct_field_ptr(&self.builder, req_slot, method_idx, "req_method_ptr"), "a field address")?;
        let req_method = self.ld(method_ptr, "req_method")?;
        let mptr = self.route_entry(methods_g, i2)?;
        let route_method = self.ld(mptr, "rm")?;
        let method_diff = self.call_for(compare_fn, vec![req_method, route_method], "mcmp")?;
        let meq = built(llvm::int_compare(&self.builder, &mut self.trace, llvm::IntCmp::Eq, method_diff, zero, "meq"), "a comparison")?;
        self.branch(meq, path_bb, next_bb)?;

        // Match the path pattern, filling in the request's parameters.
        self.at(path_bb);
        let i3 = self.ld(i_slot, "i3")?;
        let pptr = self.route_entry(paths_g, i3)?;
        let route_path = self.ld(pptr, "rp")?;
        let req_arg = match llvm::fn_param_type(matches_fn, 0) {
            Some(t) => built(llvm::bit_cast(&self.builder, req_slot, t, "req_arg"), "a pointer conversion")?,
            None => req_slot,
        };
        let route_match = self.call_for(matches_fn, vec![req_arg, route_path], "route_match")?;
        let apply_arg = match llvm::fn_param_type(apply_fn, 0) {
            Some(t) => built(llvm::bit_cast(&self.builder, req_slot, t, "apply_arg"), "a pointer conversion")?,
            None => req_slot,
        };
        let applied = self.call_for(apply_fn, vec![apply_arg, route_path], "route_applied")?;
        self.st(req_slot, applied)?;
        let matched = built(llvm::int_compare(&self.builder, &mut self.trace, llvm::IntCmp::Ne, route_match, zero, "matched"), "a comparison")?;
        self.branch(matched, match_bb, next_bb)?;

        // Call the route's handler with the request.
        self.at(match_bb);
        let i4 = self.ld(i_slot, "i4")?;
        let hptr = self.route_entry(handlers_g, i4)?;
        let handler_bytes = self.ld(hptr, "hfn")?;
        let str_t = self.llvm_type(&str_vtype())?;
        let handler_ty = llvm::fn_ty(self.context, Some(str_t), &vec![str_t], false);
        let handler = built(llvm::bit_cast(&self.builder, handler_bytes, llvm::fn_ptr_ty(handler_ty), "hfn_typed"),
            "a pointer conversion")?;
        let req_bytes = self.as_bytes(req_slot)?;
        let resp = match llvm::call_pointer(&self.builder, handler, &vec![req_bytes], "resp") {
            Some(Some(v)) => v,
            _ => { return Err(builder_failed("a call")); },
        };
        self.st(resp_slot, resp)?;
        self.jump(done_bb)?;

        // Try the next route.
        self.at(next_bb);
        let i5 = self.ld(i_slot, "i5")?;
        let i5p = built(llvm::int_add(&self.builder, &mut self.trace, i5, one, "i5p"), "an addition")?;
        self.st(i_slot, i5p)?;
        self.jump(check_bb)?;

        // No route answered: not found.
        self.at(done_bb);
        let resp_val = self.ld(resp_slot, "respv")?;
        let none = built(llvm::is_null(&self.builder, resp_val, "isnull"), "a comparison")?;
        let not_found = self.call_for(not_found_fn, Vec::new(), "nf_str")?;
        let final_resp = built(llvm::select(&self.builder, none, not_found, resp_val, "final_resp"), "a selection")?;
        self.st(resp_slot, final_resp)?;
        self.jump(send_bb)?;

        // Send the response, free the request, close the connection, and go on.
        self.at(send_bb);
        let final_resp2 = self.ld(resp_slot, "final_resp2")?;
        let cli = self.ld(cli_slot, "cli2")?;
        self.call_do(send_fn, vec![cli, final_resp2], "nsent")?;
        let free_arg = match llvm::fn_param_type(request_free_fn, 0) {
            Some(t) => built(llvm::bit_cast(&self.builder, req_slot, t, "free_req_arg"), "a pointer conversion")?,
            None => req_slot,
        };
        self.call_do(request_free_fn, vec![free_arg], "free_req")?;
        self.call_do(close_fn, vec![cli], "closed")?;
        self.jump(accept_bb)?;

        self.at(after_bb);
        Ok(Val { v: zero, ty: VType::Int(32) })
    }
}

} // verus!

//! What the requests recorded by the code generator mean when the program
//! runs, and what the generator's constructs therefore do. A run is described
//! by what it gives each value: a number (`num`) and, for a condition, whether
//! it holds (`truth`). A run obeys a request when the request's value is what
//! its operation makes of its operands in that run.
use vstd::prelude::*;
use inkwell::basic_block::BasicBlock;
use inkwell::values::BasicValueEnum;
use crate::llvm;
use crate::llvm::Emitted;
use super::stmt::{counts_up, stores_value, loops_while, chooses_between, returns_value};
use super::call::passes_args;
use super::expr::{on_operands, indexes};
use super::builtin::picks_by;
use super::runtime::{probes, answers, MapOp};

verus! {

/// Whether a run that gives each value the number `num` and each condition the
/// truth `truth` agrees with the request `e`: integer sums, differences and
/// products, signed comparisons and equality tests, ordered float comparisons,
/// selections on a condition, widenings (which keep the number), and small
/// non-negative integer constants.
pub open spec fn obeys<'ctx>(
    e: Emitted<'ctx>,
    num: spec_fn(BasicValueEnum<'ctx>) -> int,
    truth: spec_fn(BasicValueEnum<'ctx>) -> bool,
) -> bool {
    match e {
        Emitted::IntOperation(op, a, b, r) => match op {
            llvm::IntOp::Add => num(r) == num(a) + num(b),
            llvm::IntOp::Sub => num(r) == num(a) - num(b),
            llvm::IntOp::Mul => num(r) == num(a) * num(b),
            _ => true,
        },
        Emitted::IntComparison(p, a, b, c) => match p {
            llvm::IntCmp::Eq => truth(c) == (num(a) == num(b)),
            llvm::IntCmp::Ne => truth(c) == (num(a) != num(b)),
            llvm::IntCmp::Slt => truth(c) == (num(a) < num(b)),
            llvm::IntCmp::Sgt => truth(c) == (num(a) > num(b)),
            llvm::IntCmp::Sle => truth(c) == (num(a) <= num(b)),
            llvm::IntCmp::Sge => truth(c) == (num(a) >= num(b)),
            _ => true,
        },
        Emitted::FloatComparison(p, a, b, c) => match p {
            llvm::FloatCmp::Oeq => truth(c) == (num(a) == num(b)),
            llvm::FloatCmp::One => truth(c) == (num(a) != num(b)),
            llvm::FloatCmp::Olt => truth(c) == (num(a) < num(b)),
            llvm::FloatCmp::Ogt => truth(c) == (num(a) > num(b)),
            llvm::FloatCmp::Ole => truth(c) == (num(a) <= num(b)),
            llvm::FloatCmp::Oge => truth(c) == (num(a) >= num(b)),
        },
        Emitted::Select(c, a, b, r) => num(r) == if truth(c) { num(a) } else { num(b) },
        Emitted::Widen(a, w) => num(w) == num(a),
        Emitted::IntConstant(bits, _, v) => bits < 0x8000_0000 ==> num(v) == bits,
        _ => true,
    }
}

/// Where a branch request sends control when its condition holds (`holds`)
/// or not; an unconditional branch goes to its block either way.
pub open spec fn branch_target<'ctx>(e: Emitted<'ctx>, holds: bool) -> Option<BasicBlock<'ctx>> {
    match e {
        Emitted::Branch(_, yes, no) => Some(if holds { yes } else { no }),
        Emitted::Jump(b) => Some(b),
        _ => None,
    }
}

/// The condition a conditional branch tests.
pub open spec fn branch_condition<'ctx>(e: Emitted<'ctx>) -> Option<BasicValueEnum<'ctx>> {
    match e {
        Emitted::Branch(c, _, _) => Some(c),
        _ => None,
    }
}

/// The block whose code the requests after `e` build, when `e` moves the
/// builder there.
pub open spec fn entered<'ctx>(e: Emitted<'ctx>) -> Option<BasicBlock<'ctx>> {
    match e {
        Emitted::Position(b) => Some(b),
        _ => None,
    }
}

/// The value last stored at `p` by the requests of `t`, if any.
pub open spec fn last_stored<'ctx>(t: Seq<Emitted<'ctx>>, p: BasicValueEnum<'ctx>) -> Option<BasicValueEnum<'ctx>>
    decreases t.len(),
{
    if t.len() == 0 {
        None
    } else {
        match t.last() {
            Emitted::Store(q, v) => if q == p { Some(v) } else { last_stored(t.drop_last(), p) },
            _ => last_stored(t.drop_last(), p),
        }
    }
}

/// A `for` loop runs its body while its counter is below its end: the counter
/// is read from the storage its start value was stored in and compared with the
/// end; in every run, when the counter is below the end, control goes to the
/// block where the body is built; and the step reads the counter from that
/// storage again and adds one to it.
pub proof fn law_for_runs_body_while_below_end<'ctx>(
    t: Seq<Emitted<'ctx>>,
    s: int,
    l: int,
    k: int,
    num: spec_fn(BasicValueEnum<'ctx>) -> int,
    truth: spec_fn(BasicValueEnum<'ctx>) -> bool,
)
    requires
        counts_up(t, s, l, k),
        obeys(t[k], num, truth),
        obeys(t[t.len() - 3], num, truth),
        obeys(t[t.len() - 2], num, truth),
    ensures
        match (t[s], t[l], t[k], t[k + 1]) {
            (Emitted::Store(slot, _), Emitted::Load(p, counter), Emitted::IntComparison(_, a, end, c),
                Emitted::Branch(c2, _, _)) => {
                &&& p == slot && a == counter && c2 == c
                &&& truth(c) <==> num(counter) < num(end)
                &&& num(counter) < num(end) ==> branch_target(t[k + 1], truth(c)) == entered(t[k + 2])
                &&& match (t[t.len() - 4], t[t.len() - 2]) {
                    (Emitted::Load(p2, j), Emitted::IntOperation(_, _, _, next)) => p2 == slot && num(next) == num(j) + 1,
                    _ => false,
                }
            },
            _ => false,
        },
{
}

/// The value a request notes as an operand.
pub open spec fn operand<'ctx>(e: Emitted<'ctx>) -> Option<BasicValueEnum<'ctx>> {
    match e {
        Emitted::Operand(v) => Some(v),
        _ => None,
    }
}

/// The left and right operands noted before the last request of `t` (after
/// which a widening may come).
pub open spec fn noted_pair<'ctx>(t: Seq<Emitted<'ctx>>) -> Option<(BasicValueEnum<'ctx>, BasicValueEnum<'ctx>)> {
    let n = t.len() as int;
    match (operand(t[n - 3]), operand(t[n - 2])) {
        (Some(a), Some(b)) => Some((a, b)),
        _ => match (operand(t[n - 4]), operand(t[n - 3])) {
            (Some(a), Some(b)) => Some((a, b)),
            _ => None,
        },
    }
}

/// A binary operation works on its left operand then its right one: in every
/// run that agrees with the requests, the result of `l + r`, `l - r`, `l * r` is
/// the left value's number plus, minus, times the right value's, and the
/// comparisons `l < r`, `l > r`, `l <= r`, `l >= r`, `l == r`, `l != r` hold
/// exactly when the left value's number stands so to the right one's.
pub proof fn law_binary_left_then_right<'ctx>(
    t: Seq<Emitted<'ctx>>,
    num: spec_fn(BasicValueEnum<'ctx>) -> int,
    truth: spec_fn(BasicValueEnum<'ctx>) -> bool,
)
    requires
        on_operands(t),
        obeys(t.last(), num, truth),
        obeys(t[t.len() - 2], num, truth),
    ensures
        noted_pair(t) matches Some((left, right)) && match t.last() {
            Emitted::IntOperation(op, _, _, res) => {
                &&& op is Add ==> num(res) == num(left) + num(right)
                &&& op is Sub ==> num(res) == num(left) - num(right)
                &&& op is Mul ==> num(res) == num(left) * num(right)
            },
            Emitted::IntComparison(p, _, _, c) => {
                &&& p is Slt ==> (truth(c) <==> num(left) < num(right))
                &&& p is Sgt ==> (truth(c) <==> num(left) > num(right))
                &&& p is Sle ==> (truth(c) <==> num(left) <= num(right))
                &&& p is Sge ==> (truth(c) <==> num(left) >= num(right))
                &&& p is Eq ==> (truth(c) <==> num(left) == num(right))
                &&& p is Ne ==> (truth(c) <==> num(left) != num(right))
            },
            Emitted::FloatOperation(_, _, _, _) => true,
            Emitted::FloatComparison(p, _, _, c) => {
                &&& p is Olt ==> (truth(c) <==> num(left) < num(right))
                &&& p is Ogt ==> (truth(c) <==> num(left) > num(right))
            },
            _ => false,
        },
{
}

/// `min(a, b)` is `a` when `a < b` and `b` otherwise, `max(a, b)` is `a` when
/// `a > b` and `b` otherwise: in every run that agrees with the requests, the
/// result's number is the smaller (larger) of the two arguments' numbers.
pub proof fn law_min_max_pick<'ctx>(
    t: Seq<Emitted<'ctx>>,
    min: bool,
    v: BasicValueEnum<'ctx>,
    num: spec_fn(BasicValueEnum<'ctx>) -> int,
    truth: spec_fn(BasicValueEnum<'ctx>) -> bool,
)
    requires
        picks_by(t, min, v),
        obeys(t.last(), num, truth),
        obeys(t[t.len() - 2], num, truth),
    ensures
        match t[t.len() - 2] {
            Emitted::IntComparison(_, a, b, _) | Emitted::FloatComparison(_, a, b, _) =>
                num(v) == if min {
                    if num(a) < num(b) { num(a) } else { num(b) }
                } else {
                    if num(a) > num(b) { num(a) } else { num(b) }
                },
            _ => false,
        },
{
    reveal(picks_by);
}

/// An assignment `x = e` (or a declaration `let x: T = e`) leaves in `x`'s
/// storage the value of `e`: the last
/// value stored there is the value noted for `e`, or that value widened, which
/// in every run that agrees with the requests has the same number.
pub proof fn law_assignment_stores_value<'ctx>(
    t: Seq<Emitted<'ctx>>,
    start: int,
    slot: BasicValueEnum<'ctx>,
    num: spec_fn(BasicValueEnum<'ctx>) -> int,
    truth: spec_fn(BasicValueEnum<'ctx>) -> bool,
)
    requires
        0 <= start,
        stores_value(t, start, slot),
        obeys(t[t.len() - 2], num, truth),
    ensures
        last_stored(t, slot) matches Some(x) && {
            ||| operand(t[t.len() - 2]) matches Some(e) && num(x) == num(e)
            ||| operand(t[t.len() - 3]) matches Some(e) && num(x) == num(e)
        },
{
}

/// A map operation's probe follows its tests: when the probed slot is used,
/// control goes to the block where its key is compared; when that key equals
/// the key searched for, to the block entered next (where the value is stored,
/// read or reported); when it does not, to the block that takes the next slot
/// (the slot plus one) and goes back to the probe loop.
pub proof fn law_map_probe_follows_key_test<'ctx>(
    t: Seq<Emitted<'ctx>>,
    p: int,
    j0: int,
    j: int,
    m: int,
    num: spec_fn(BasicValueEnum<'ctx>) -> int,
    truth: spec_fn(BasicValueEnum<'ctx>) -> bool,
)
    requires
        probes(t, p, j0, j, m),
        obeys(t[j0], num, truth),
        obeys(t[j], num, truth),
        obeys(t[m + 1], num, truth),
        obeys(t[m + 2], num, truth),
    ensures
        match (t[j0], t[j]) {
            (Emitted::IntComparison(_, used, zero, unused), Emitted::IntComparison(_, k, key, same)) => {
                &&& branch_condition(t[j0 + 1]) == Some(unused) && branch_condition(t[j + 1]) == Some(same)
                &&& num(used) != num(zero) ==> branch_target(t[j0 + 1], truth(unused)) == entered(t[j0 + 2])
                &&& num(k) == num(key) ==> branch_target(t[j + 1], truth(same)) == entered(t[j + 2])
                &&& num(k) != num(key) ==> branch_target(t[j + 1], truth(same)) == entered(t[m])
                &&& branch_target(t[m + 4], true) == entered(t[p])
                &&& match t[m + 2] {
                    Emitted::IntOperation(_, i, _, next) => num(next) == num(i) + 1,
                    _ => false,
                }
            },
            _ => false,
        },
{
    reveal(probes);
}

/// What `map_has` and `map_get` answer: when the key is found, `map_has`
/// returns a value that is 1 in every run, `map_get` the value it reads from
/// the slot; when an unused slot is reached first, control goes to a block that
/// returns a value that is 0 in every run (`map_has`) or a zero value
/// (`map_get`); `map_set` ends the found (or inserting) block with a store
/// followed by a return.
pub proof fn law_map_answers<'ctx>(
    t: Seq<Emitted<'ctx>>,
    p: int,
    j0: int,
    j: int,
    m: int,
    op: MapOp,
    num: spec_fn(BasicValueEnum<'ctx>) -> int,
    truth: spec_fn(BasicValueEnum<'ctx>) -> bool,
)
    requires
        probes(t, p, j0, j, m),
        answers(t, j0, m, op),
        obeys(t[j0 - 1], num, truth),
        obeys(t[j0], num, truth),
        obeys(t[m - 2], num, truth),
    ensures
        match op {
            MapOp::Has => {
                &&& t[m - 1] matches Emitted::Return(Some(found)) && num(found) == 1
                &&& match (t[j0], t[m + 6]) {
                    (Emitted::IntComparison(_, used, zero, unused), Emitted::Return(Some(missing))) =>
                        (num(used) == num(zero) ==> branch_target(t[j0 + 1], truth(unused)) == entered(t[m + 5]))
                        && num(missing) == 0,
                    _ => false,
                }
            },
            MapOp::Get => {
                &&& match (t[m - 2], t[m - 1]) {
                    (Emitted::Load(_, v), Emitted::Return(Some(r))) => r == v,
                    _ => false,
                }
                &&& match (t[j0], t[m + 6], t[m + 7]) {
                    (Emitted::IntComparison(_, used, zero, unused), Emitted::Zero(z), Emitted::Return(Some(r))) =>
                        (num(used) == num(zero) ==> branch_target(t[j0 + 1], truth(unused)) == entered(t[m + 5]))
                        && r == z,
                    _ => false,
                }
            },
            MapOp::Store => t[m - 2] is Store && t[m - 1] == Emitted::<'ctx>::Return(None),
        },
{
    reveal(probes);
    reveal(answers);
}

/// A `while` loop goes, in every run, to the block where its body is built
/// when its condition holds, and to the block where the code after it goes
/// when not.
pub proof fn law_while_follows_condition<'ctx>(t: Seq<Emitted<'ctx>>, k: int, truth: spec_fn(BasicValueEnum<'ctx>) -> bool)
    requires
        loops_while(t, k),
    ensures
        branch_condition(t[k]) matches Some(c) && {
            &&& truth(c) ==> branch_target(t[k], truth(c)) == entered(t[k + 1])
            &&& !truth(c) ==> branch_target(t[k], truth(c)) == entered(t.last())
        },
{
}

/// An `if` goes, in every run, to the block where its `then` body is built when
/// its condition holds, and to the block of its `else` body when not.
pub proof fn law_if_follows_condition<'ctx>(t: Seq<Emitted<'ctx>>, k: int, e: int, truth: spec_fn(BasicValueEnum<'ctx>) -> bool)
    requires
        chooses_between(t, k, e),
    ensures
        branch_condition(t[k]) matches Some(c) && {
            &&& truth(c) ==> branch_target(t[k], truth(c)) == entered(t[k + 1])
            &&& !truth(c) ==> branch_target(t[k], truth(c)) == entered(t[e])
        },
{
}

/// Strictly increasing between neighbours means strictly increasing.
proof fn lemma_increasing(ks: Seq<int>, i: int, j: int)
    requires
        0 <= i < j < ks.len(),
        forall|x: int| 0 <= x < ks.len() - 1 ==> #[trigger] ks[x] < ks[x + 1],
    ensures
        ks[i] < ks[j],
    decreases j - i,
{
    if j > i + 1 {
        lemma_increasing(ks, i, j - 1);
        assert(ks[j - 1] < ks[j]);
    }
}

/// A call passes its arguments in their order: its i-th argument is the value
/// of the i-th argument expression, and the values of earlier arguments are
/// worked out before those of later ones.
pub proof fn law_call_passes_arguments_in_order<'ctx>(t: Seq<Emitted<'ctx>>, start: int, ks: Seq<int>, k: int)
    requires
        passes_args(t, start, ks, k),
    ensures
        match t[k] {
            Emitted::Call(_, a, _) => {
                &&& a@.len() == ks.len()
                &&& forall|i: int| 0 <= i < ks.len() ==> operand(t[#[trigger] ks[i]]) == Some(a@[i])
                &&& forall|i: int, j: int| 0 <= i < j < ks.len() ==> start <= #[trigger] ks[i] < #[trigger] ks[j] < k
            },
            _ => false,
        },
{
    if let Emitted::Call(_, a, _) = t[k] {
        assert forall|i: int, j: int| 0 <= i < j < ks.len() implies start <= #[trigger] ks[i] < #[trigger] ks[j] < k by {
            lemma_increasing(ks, i, j);
        }
    }
}

/// `return e` returns the value of `e`: the function's last request returns
/// the value noted for `e`, which in every run has `e`'s number.
pub proof fn law_return_gives_value<'ctx>(t: Seq<Emitted<'ctx>>, start: int)
    requires
        returns_value(t, start, true),
    ensures
        match (t[t.len() - 2], t.last()) {
            (Emitted::Operand(e), Emitted::Return(Some(x))) => x == e,
            _ => false,
        },
{
}

/// Element `idx` of an array lies `idx` element sizes after its start: in every
/// run that agrees with the requests, the address worked out is the start plus
/// the index's number times the element size.
pub proof fn law_element_address<'ctx>(
    t: Seq<Emitted<'ctx>>,
    start: int,
    idx: BasicValueEnum<'ctx>,
    num: spec_fn(BasicValueEnum<'ctx>) -> int,
    truth: spec_fn(BasicValueEnum<'ctx>) -> bool,
)
    requires
        0 <= start,
        indexes(t, start, idx),
        obeys(t[t.len() - 1], num, truth),
        obeys(t[t.len() - 2], num, truth),
        obeys(t[t.len() - 3], num, truth),
    ensures
        match (t[t.len() - 2], t[t.len() - 1]) {
            (Emitted::IntOperation(_, _, size, _), Emitted::IntOperation(_, base, _, addr)) =>
                num(addr) == num(base) + num(idx) * num(size),
            _ => false,
        },
{
}

} // verus!

//! What the kernels compute, under the IR's reference semantics.
use vstd::prelude::*;
use crate::interp::{
    run, arg_values, operand_value, block_prefix, op_value, run_from, run_spec, shaped, zero_params, zero_results,
};
use crate::ir::{Cond, FunctionIr, Op, Operand, Terminator, ValueKind, operand_ok, valid_function};
use crate::kernel::{
    blocked_shape, build_blocked_kernel, build_simple_kernel, param, res, simple_shape, swar_ops,
};
use crate::sum::{
    byte_sum, le_word, lemma_sum_prefix_bounds, lemma_sum_prefix_eight, sum_fits, sum_prefix,
};
use crate::swar::{MASK_BYTES, MASK_HALVES, MASK_LOW, byte_of, lemma_swar_rounds_sum, word_byte_sum};

verus! {

/// Blocks `h`, `body` and `exit` of `f` form the scalar loop: `h` tests
/// `index < length` (entry parameter 1), `body` adds the byte at the entry
/// pointer plus `index` and steps `index` by the entry's result 2, and `exit`
/// returns its parameter.
pub open spec fn scalar_loop(f: FunctionIr, h: usize, body: usize, exit: usize) -> bool {
    &&& h < f.blocks@.len() && body < f.blocks@.len() && exit < f.blocks@.len()
    &&& h != body && h != exit && body != exit && h != 0 && body != 0 && exit != 0
    &&& f.blocks@[h as int].insts@ == seq![Op::Compare(Cond::UnsignedLess, param(h, 0), param(0, 1))]
    &&& f.blocks@[h as int].terminator matches Some(
        Terminator::Branch { cond, then_block, then_args, else_block, else_args },
    ) && cond == res(h, 0) && then_block == body && then_args@ == Seq::<Operand>::empty()
        && else_block == exit && else_args@ == seq![param(h, 1)]
    &&& f.blocks@[body as int].params@ == Seq::<ValueKind>::empty()
    &&& f.blocks@[body as int].insts@ == seq![
        Op::Add(param(0, 0), param(h, 0)),
        Op::LoadByte(res(body, 0)),
        Op::Add(param(h, 1), res(body, 1)),
        Op::Add(param(h, 0), res(0, 2)),
    ]
    &&& f.blocks@[body as int].terminator matches Some(Terminator::Jump { target, args })
        && target == h && args@ == seq![res(body, 3), res(body, 2)]
    &&& f.blocks@[exit as int].params@.len() == 1
    &&& f.blocks@[exit as int].insts@ == Seq::<Op>::empty()
    &&& f.blocks@[exit as int].terminator == Some(Terminator::Return(param(exit, 0)))
}

/// The scalar loop of `f` at the top of its header `h`, `i` bytes in with sum `acc`.
pub open spec fn at_header(
    f: FunctionIr,
    mem: Seq<u8>,
    params: Seq<Seq<u64>>,
    results: Seq<Seq<u64>>,
    h: usize,
    i: u64,
    acc: u64,
) -> bool {
    &&& shaped(f, params, results)
    &&& params[0] == seq![0u64, mem.len() as u64]
    &&& params[h as int] == seq![i, acc]
    &&& results[0].len() >= 3
    &&& results[0][2] == 1u64
}

/// From its header, the scalar loop adds the remaining bytes and returns the sum.
proof fn lemma_scalar_loop(
    f: FunctionIr,
    mem: Seq<u8>,
    params: Seq<Seq<u64>>,
    results: Seq<Seq<u64>>,
    h: usize,
    body: usize,
    exit: usize,
    i: u64,
    acc: u64,
    fuel: nat,
)
    requires
        scalar_loop(f, h, body, exit),
        valid_function(f),
        sum_fits(mem.len() as int),
        i <= mem.len(),
        acc == sum_prefix(mem, i as int),
        at_header(f, mem, params, results, h, i, acc),
        fuel >= 2 * (mem.len() - i) + 2,
    ensures
        run_from(f, mem, h as int, params, results, fuel) == Some(byte_sum(mem) as u64),
    decreases mem.len() - i,
{
    let len = mem.len() as u64;
    let more: u64 = if i < len { 1 } else { 0 };
    let cur1 = seq![more];
    let hh = h as int;
    let bb = body as int;
    let xx = exit as int;
    assert(block_prefix(f, mem, params, results, hh, 0) == Some(Seq::<u64>::empty()));
    assert(op_value(mem, params, results, Seq::<u64>::empty(), hh, f.blocks@[hh].insts@[0]) == Some(more));
    assert(Seq::<u64>::empty().push(more) == cur1);
    assert(block_prefix(f, mem, params, results, hh, 1) == Some(cur1));
    if i < len {
        let ps2 = params.update(bb, Seq::<u64>::empty());
        let rs2 = results.update(hh, cur1);
        assert(arg_values(params, results, cur1, hh, Seq::<Operand>::empty()) =~= Seq::<u64>::empty());
        assert(run_from(f, mem, hh, params, results, fuel) == run_from(f, mem, bb, ps2, rs2, (fuel - 1) as nat));
        let byte = mem[i as int] as u64;
        lemma_sum_prefix_bounds(mem, i as int + 1);
        let next_acc = (acc + byte) as u64;
        let c0 = seq![i];
        let c1 = seq![i, byte];
        let c2 = seq![i, byte, next_acc];
        let c3 = seq![i, byte, next_acc, (i + 1) as u64];
        assert(rs2[0] == results[0]);
        assert(ps2[hh] == params[hh]);
        assert(block_prefix(f, mem, ps2, rs2, bb, 0) == Some(Seq::<u64>::empty()));
        assert(op_value(mem, ps2, rs2, Seq::<u64>::empty(), bb, f.blocks@[bb].insts@[0]) == Some(i));
        assert(Seq::<u64>::empty().push(i) =~= c0);
        assert(block_prefix(f, mem, ps2, rs2, bb, 1) == Some(c0));
        assert(op_value(mem, ps2, rs2, c0, bb, f.blocks@[bb].insts@[1]) == Some(byte));
        assert(c0.push(byte) =~= c1);
        assert(block_prefix(f, mem, ps2, rs2, bb, 2) == Some(c1));
        assert(op_value(mem, ps2, rs2, c1, bb, f.blocks@[bb].insts@[2]) == Some(next_acc));
        assert(c1.push(next_acc) =~= c2);
        assert(block_prefix(f, mem, ps2, rs2, bb, 3) == Some(c2));
        assert(op_value(mem, ps2, rs2, c2, bb, f.blocks@[bb].insts@[3]) == Some((i + 1) as u64));
        assert(c2.push((i + 1) as u64) =~= c3);
        assert(block_prefix(f, mem, ps2, rs2, bb, 4) == Some(c3));
        let ps3 = ps2.update(hh, seq![(i + 1) as u64, next_acc]);
        let rs3 = rs2.update(bb, c3);
        assert(arg_values(ps2, rs2, c3, bb, seq![res(body, 3), res(body, 2)]) =~= seq![(i + 1) as u64, next_acc]);
        assert(ps3[hh] =~= seq![(i + 1) as u64, next_acc]);
        assert(run_from(f, mem, bb, ps2, rs2, (fuel - 1) as nat) == run_from(f, mem, hh, ps3, rs3, (fuel - 2) as nat));
        assert(sum_prefix(mem, i + 1) == sum_prefix(mem, i as int) + mem[i as int]);
        assert(rs3[0] == results[0]);
        assert(ps3[0] == params[0]);
        lemma_scalar_loop(f, mem, ps3, rs3, h, body, exit, (i + 1) as u64, next_acc, (fuel - 2) as nat);
    } else {
        let ps3 = params.update(xx, seq![acc]);
        let rs3 = results.update(hh, cur1);
        assert(arg_values(params, results, cur1, hh, seq![param(h, 1)]) =~= seq![acc]);
        assert(run_from(f, mem, hh, params, results, fuel) == run_from(f, mem, xx, ps3, rs3, (fuel - 1) as nat));
        assert(block_prefix(f, mem, ps3, rs3, xx, 0) == Some(Seq::<u64>::empty()));
    }
}

/// Run under the reference semantics on a buffer at address 0, the scalar
/// kernel returns the sum of the buffer's bytes, given enough fuel.
pub proof fn lemma_simple_kernel_sums(f: FunctionIr, mem: Seq<u8>, fuel: nat)
    requires
        simple_shape(f),
        valid_function(f),
        sum_fits(mem.len() as int),
        fuel >= 2 * mem.len() + 3,
    ensures
        run_spec(f, mem, seq![0u64, mem.len() as u64], fuel) == Some(byte_sum(mem) as u64),
{
    let len = mem.len() as u64;
    let args = seq![0u64, len];
    let ps0 = zero_params(f).update(0, args);
    let rs0 = zero_results(f);
    let cur0 = seq![0u64, 0u64, 1u64];
    assert(block_prefix(f, mem, ps0, rs0, 0, 0) == Some(Seq::<u64>::empty()));
    assert(Seq::<u64>::empty().push(0u64) =~= seq![0u64]);
    assert(block_prefix(f, mem, ps0, rs0, 0, 1) == Some(seq![0u64]));
    assert(seq![0u64].push(0u64) =~= seq![0u64, 0u64]);
    assert(block_prefix(f, mem, ps0, rs0, 0, 2) == Some(seq![0u64, 0u64]));
    assert(seq![0u64, 0u64].push(1u64) =~= cur0);
    assert(block_prefix(f, mem, ps0, rs0, 0, 3) == Some(cur0));
    let ps1 = ps0.update(1, seq![0u64, 0u64]);
    let rs1 = rs0.update(0, cur0);
    assert(arg_values(ps0, rs0, cur0, 0, seq![res(0, 1), res(0, 0)]) =~= seq![0u64, 0u64]);
    assert(run_from(f, mem, 0, ps0, rs0, fuel) == run_from(f, mem, 1, ps1, rs1, (fuel - 1) as nat));
    assert(ps1[0] =~= args);
    assert(ps1[1] =~= seq![0u64, 0u64]);
    assert(shaped(f, ps1, rs1));
    assert(scalar_loop(f, 1, 2, 3));
    lemma_scalar_loop(f, mem, ps1, rs1, 1, 2, 3, 0, 0, (fuel - 1) as nat);
}

/// The bytes of a little-endian word are the bytes it was read from.
pub proof fn lemma_le_word_sum(s: Seq<u8>, i: int)
    requires
        0 <= i,
        i + 8 <= s.len(),
    ensures
        word_byte_sum(le_word(s, i)) == s[i] + s[i + 1] + s[i + 2] + s[i + 3] + s[i + 4] + s[i
            + 5] + s[i + 6] + s[i + 7],
{
    let b0 = s[i] as u64;
    let b1 = s[i + 1] as u64;
    let b2 = s[i + 2] as u64;
    let b3 = s[i + 3] as u64;
    let b4 = s[i + 4] as u64;
    let b5 = s[i + 5] as u64;
    let b6 = s[i + 6] as u64;
    let b7 = s[i + 7] as u64;
    let w = le_word(s, i);
    assert(w == b0 | (b1 << 8u64) | (b2 << 16u64) | (b3 << 24u64) | (b4 << 32u64) | (b5 << 40u64) | (
    b6 << 48u64) | (b7 << 56u64));
    assert(byte_of(w, 0) == b0 && byte_of(w, 1) == b1 && byte_of(w, 2) == b2 && byte_of(w, 3)
        == b3 && byte_of(w, 4) == b4 && byte_of(w, 5) == b5 && byte_of(w, 6) == b6 && byte_of(w, 7)
        == b7) by (bit_vector)
        requires
            b0 <= 255 && b1 <= 255 && b2 <= 255 && b3 <= 255 && b4 <= 255 && b5 <= 255 && b6 <= 255
                && b7 <= 255,
            w == b0 | (b1 << 8u64) | (b2 << 16u64) | (b3 << 24u64) | (b4 << 32u64) | (b5 << 40u64)
                | (b6 << 48u64) | (b7 << 56u64),
    ;
}

/// The fourteen values the register reduction of `w` produces, in order.
pub open spec fn swar_values(w: u64) -> Seq<u64> {
    let lo = w & MASK_BYTES;
    let sh = w >> 8u64;
    let hi = sh & MASK_BYTES;
    let pairs = lo.wrapping_add(hi);
    let lo16 = pairs & MASK_HALVES;
    let sh16 = pairs >> 16u64;
    let hi16 = sh16 & MASK_HALVES;
    let quads = lo16.wrapping_add(hi16);
    let lo32 = quads & MASK_LOW;
    let hi32 = quads >> 32u64;
    seq![
        MASK_BYTES,
        lo,
        sh,
        hi,
        pairs,
        MASK_HALVES,
        lo16,
        sh16,
        hi16,
        quads,
        MASK_LOW,
        lo32,
        hi32,
        lo32.wrapping_add(hi32),
    ]
}

/// The last of those values is the sum of the word's bytes.
pub proof fn lemma_swar_values_sum(w: u64)
    ensures
        swar_values(w).len() == 14,
        swar_values(w)[13] as int == word_byte_sum(w),
{
    lemma_swar_rounds_sum(w);
    let lo = w & MASK_BYTES;
    let hi = (w >> 8u64) & MASK_BYTES;
    assert(lo + hi < 0x1_0000_0000_0000_0000) by (bit_vector)
        requires
            lo == w & MASK_BYTES,
            hi == (w >> 8u64) & MASK_BYTES,
    ;
    let pairs = (lo + hi) as u64;
    let lo16 = pairs & MASK_HALVES;
    let hi16 = (pairs >> 16u64) & MASK_HALVES;
    assert(lo16 + hi16 < 0x1_0000_0000_0000_0000) by (bit_vector)
        requires
            lo16 == pairs & MASK_HALVES,
            hi16 == (pairs >> 16u64) & MASK_HALVES,
    ;
    let quads = (lo16 + hi16) as u64;
    let lo32 = quads & MASK_LOW;
    let hi32 = quads >> 32u64;
    assert(lo32 + hi32 < 0x1_0000_0000_0000_0000) by (bit_vector)
        requires
            lo32 == quads & MASK_LOW,
            hi32 == quads >> 32u64,
    ;
}

/// Running the first `k` reduction instructions placed at `n` in block `b`,
/// on any word `w` usable there, appends the first `k` of `swar_values` of
/// the word's value.
pub proof fn lemma_swar_run(
    f: FunctionIr,
    mem: Seq<u8>,
    p: Seq<Seq<u64>>,
    r: Seq<Seq<u64>>,
    b: usize,
    n: usize,
    w: Operand,
    cur: Seq<u64>,
    k: int,
)
    requires
        0 <= k <= 14,
        b < f.blocks@.len(),
        n + 14 <= f.blocks@[b as int].insts@.len(),
        n + 14 <= usize::MAX,
        operand_ok(f, b as int, n as int, w),
        cur.len() == n,
        block_prefix(f, mem, p, r, b as int, n as nat) == Some(cur),
        forall|m: int| 0 <= m < 14 ==> f.blocks@[b as int].insts@[n + m] == #[trigger] swar_ops(b, n, w)[m],
    ensures
        block_prefix(f, mem, p, r, b as int, (n + k) as nat) == Some(
            cur + swar_values(operand_value(p, r, cur, b as int, w)).subrange(0, k),
        ),
    decreases k,
{
    let vals = swar_values(operand_value(p, r, cur, b as int, w));
    let ops = swar_ops(b, n, w);
    if k == 0 {
        assert(cur + vals.subrange(0, 0) =~= cur);
    } else {
        lemma_swar_run(f, mem, p, r, b, n, w, cur, k - 1);
        let c = cur + vals.subrange(0, k - 1);
        assert(operand_value(p, r, c, b as int, w) == operand_value(p, r, cur, b as int, w));
        assert(f.blocks@[b as int].insts@[n + k - 1] == ops[k - 1]);
        assert(op_value(mem, p, r, c, b as int, ops[k - 1]) == Some(vals[k - 1]));
        assert(cur + vals.subrange(0, k) =~= c.push(vals[k - 1]));
    }
}

/// The fourteen reduction instructions placed at `n` in block `b` (as
/// `emit_swar_reduction` places them) leave, as their last result, the sum of
/// the eight bytes of whatever word `w` holds.
pub proof fn lemma_swar_reduction_sums(
    f: FunctionIr,
    mem: Seq<u8>,
    p: Seq<Seq<u64>>,
    r: Seq<Seq<u64>>,
    b: usize,
    n: usize,
    w: Operand,
    cur: Seq<u64>,
)
    requires
        b < f.blocks@.len(),
        n + 14 <= f.blocks@[b as int].insts@.len(),
        n + 14 <= usize::MAX,
        operand_ok(f, b as int, n as int, w),
        cur.len() == n,
        block_prefix(f, mem, p, r, b as int, n as nat) == Some(cur),
        f.blocks@[b as int].insts@.subrange(n as int, n + 14) == swar_ops(b, n, w),
    ensures
        block_prefix(f, mem, p, r, b as int, (n + 14) as nat) == Some(
            cur + swar_values(operand_value(p, r, cur, b as int, w)),
        ),
        swar_values(operand_value(p, r, cur, b as int, w))[13] as int == word_byte_sum(
            operand_value(p, r, cur, b as int, w),
        ),
{
    let x = operand_value(p, r, cur, b as int, w);
    assert forall|m: int| 0 <= m < 14 implies f.blocks@[b as int].insts@[n + m] == #[trigger] swar_ops(b, n, w)[m] by {
        assert(f.blocks@[b as int].insts@.subrange(n as int, n + 14)[m] == f.blocks@[b as int].insts@[n + m]);
    }
    lemma_swar_run(f, mem, p, r, b, n, w, cur, 14);
    lemma_swar_values_sum(x);
    assert(swar_values(x).subrange(0, 14) =~= swar_values(x));
}

/// The blocked kernel past its entry block, over a buffer at address 0.
pub open spec fn blocked_entered(
    f: FunctionIr,
    mem: Seq<u8>,
    params: Seq<Seq<u64>>,
    results: Seq<Seq<u64>>,
) -> bool {
    &&& shaped(f, params, results)
    &&& params[0] == seq![0u64, mem.len() as u64]
    &&& results[0] == seq![0u64, 0u64, 1u64, 16u64]
}

/// The loads and both reductions of the wide body: its first 31 results.
#[verifier::rlimit(100)]
proof fn lemma_blocked_wide_prefix(
    f: FunctionIr,
    mem: Seq<u8>,
    params: Seq<Seq<u64>>,
    results: Seq<Seq<u64>>,
    i: u64,
)
    requires
        blocked_shape(f),
        i + 16 <= mem.len(),
        shaped(f, params, results),
        params[0] == seq![0u64, mem.len() as u64],
        params[1][0] == i,
        params[1].len() == 2,
    ensures
        block_prefix(f, mem, params, results, 2, 31) == Some(
            seq![i, le_word(mem, i as int), le_word(mem, i + 8)] + swar_values(le_word(mem, i as int))
                + swar_values(le_word(mem, i + 8)),
        ),
{
    let w1 = le_word(mem, i as int);
    let w2 = le_word(mem, i + 8);
    let c0 = seq![i];
    let c1 = seq![i, w1];
    let c2 = seq![i, w1, w2];
    let insts = f.blocks@[2].insts@;
    assert(block_prefix(f, mem, params, results, 2, 0) == Some(Seq::<u64>::empty()));
    assert(op_value(mem, params, results, Seq::<u64>::empty(), 2, insts[0]) == Some(i));
    assert(Seq::<u64>::empty().push(i) =~= c0);
    assert(block_prefix(f, mem, params, results, 2, 1) == Some(c0));
    assert(op_value(mem, params, results, c0, 2, insts[1]) == Some(w1));
    assert(c0.push(w1) =~= c1);
    assert(block_prefix(f, mem, params, results, 2, 2) == Some(c1));
    assert(op_value(mem, params, results, c1, 2, insts[2]) == Some(w2));
    assert(c1.push(w2) =~= c2);
    assert(block_prefix(f, mem, params, results, 2, 3) == Some(c2));
    lemma_swar_values_sum(w1);
    lemma_swar_values_sum(w2);
    assert forall|m: int| 0 <= m < 14 implies insts[3 + m] == #[trigger] swar_ops(2, 3, res(2, 1))[m] by {}
    lemma_swar_run(f, mem, params, results, 2, 3, res(2, 1), c2, 14);
    assert(swar_values(w1).subrange(0, 14) =~= swar_values(w1));
    let c17 = c2 + swar_values(w1);
    assert(block_prefix(f, mem, params, results, 2, 17) == Some(c17));
    assert(c17.len() == 17);
    assert(c17[2] == w2);
    assert forall|m: int| 0 <= m < 14 implies insts[17 + m] == #[trigger] swar_ops(2, 17, res(2, 2))[m] by {}
    lemma_swar_run(f, mem, params, results, 2, 17, res(2, 2), c17, 14);
    assert(swar_values(w2).subrange(0, 14) =~= swar_values(w2));
}

/// One pass through the wide body: sixteen bytes from `i` on are added to
/// `acc`, and control returns to the header with `i + 16`.
#[verifier::rlimit(100)]
proof fn lemma_blocked_wide(
    f: FunctionIr,
    mem: Seq<u8>,
    params: Seq<Seq<u64>>,
    results: Seq<Seq<u64>>,
    i: u64,
    acc: u64,
    fuel: nat,
) -> (r: (Seq<Seq<u64>>, Seq<Seq<u64>>, u64))
    requires
        blocked_shape(f),
        valid_function(f),
        sum_fits(mem.len() as int),
        i + 16 <= mem.len(),
        acc == sum_prefix(mem, i as int),
        blocked_entered(f, mem, params, results),
        params[1] == seq![i, acc],
        fuel >= 1,
    ensures
        blocked_entered(f, mem, r.0, r.1),
        r.0[1] == seq![(i + 16) as u64, r.2],
        r.2 == sum_prefix(mem, i + 16),
        run_from(f, mem, 2, params, results, fuel) == run_from(f, mem, 1, r.0, r.1, (fuel - 1) as nat),
{
    let w1 = le_word(mem, i as int);
    let w2 = le_word(mem, i + 8);
    let insts = f.blocks@[2].insts@;
    lemma_blocked_wide_prefix(f, mem, params, results, i);
    lemma_swar_values_sum(w1);
    lemma_swar_values_sum(w2);
    let c31 = seq![i, w1, w2] + swar_values(w1) + swar_values(w2);
    let s1 = c31[16];
    let s2 = c31[30];
    assert(s1 == swar_values(w1)[13]);
    assert(s2 == swar_values(w2)[13]);
    lemma_le_word_sum(mem, i as int);
    lemma_le_word_sum(mem, i + 8);
    lemma_sum_prefix_eight(mem, i as int);
    lemma_sum_prefix_eight(mem, i + 8);
    lemma_sum_prefix_bounds(mem, i + 16);
    let both = (s1 + s2) as u64;
    let next_acc = (acc + both) as u64;
    let next_i = (i + 16) as u64;
    assert(op_value(mem, params, results, c31, 2, insts[31]) == Some(both));
    let c32 = c31.push(both);
    assert(block_prefix(f, mem, params, results, 2, 32) == Some(c32));
    assert(op_value(mem, params, results, c32, 2, insts[32]) == Some(next_acc));
    let c33 = c32.push(next_acc);
    assert(block_prefix(f, mem, params, results, 2, 33) == Some(c33));
    assert(op_value(mem, params, results, c33, 2, insts[33]) == Some(next_i));
    let c34 = c33.push(next_i);
    assert(insts.len() == 34);
    assert(block_prefix(f, mem, params, results, 2, 34) == Some(c34));
    let ps3 = params.update(1, seq![next_i, next_acc]);
    let rs3 = results.update(2, c34);
    assert(arg_values(params, results, c34, 2, seq![res(2, 33), res(2, 32)]) =~= seq![next_i, next_acc]);
    (ps3, rs3, next_acc)
}

proof fn lemma_blocked_header(
    f: FunctionIr,
    mem: Seq<u8>,
    params: Seq<Seq<u64>>,
    results: Seq<Seq<u64>>,
    i: u64,
    acc: u64,
    fuel: nat,
)
    requires
        blocked_shape(f),
        valid_function(f),
        sum_fits(mem.len() as int),
        i <= mem.len(),
        acc == sum_prefix(mem, i as int),
        blocked_entered(f, mem, params, results),
        params[1] == seq![i, acc],
        fuel >= 2 * (mem.len() - i) + 3,
    ensures
        run_from(f, mem, 1, params, results, fuel) == Some(byte_sum(mem) as u64),
    decreases mem.len() - i,
{
    let len = mem.len() as u64;
    let remaining = (len - i) as u64;
    let wide: u64 = if remaining >= 16 { 1 } else { 0 };
    let c0 = seq![remaining];
    let c1 = seq![remaining, wide];
    assert(block_prefix(f, mem, params, results, 1, 0) == Some(Seq::<u64>::empty()));
    assert(op_value(mem, params, results, Seq::<u64>::empty(), 1, f.blocks@[1].insts@[0]) == Some(remaining));
    assert(Seq::<u64>::empty().push(remaining) =~= c0);
    assert(block_prefix(f, mem, params, results, 1, 1) == Some(c0));
    assert(op_value(mem, params, results, c0, 1, f.blocks@[1].insts@[1]) == Some(wide));
    assert(c0.push(wide) =~= c1);
    assert(block_prefix(f, mem, params, results, 1, 2) == Some(c1));
    if remaining >= 16 {
        let ps2 = params.update(2, Seq::<u64>::empty());
        let rs2 = results.update(1, c1);
        assert(arg_values(params, results, c1, 1, Seq::<Operand>::empty()) =~= Seq::<u64>::empty());
        assert(run_from(f, mem, 1, params, results, fuel) == run_from(f, mem, 2, ps2, rs2, (fuel - 1) as nat));
        let (ps3, rs3, next_acc) = lemma_blocked_wide(f, mem, ps2, rs2, i, acc, (fuel - 1) as nat);
        lemma_blocked_header(f, mem, ps3, rs3, (i + 16) as u64, next_acc, (fuel - 2) as nat);
    } else {
        let ps3 = params.update(3, seq![i, acc]);
        let rs3 = results.update(1, c1);
        assert(arg_values(params, results, c1, 1, seq![param(1, 0), param(1, 1)]) =~= seq![i, acc]);
        assert(run_from(f, mem, 1, params, results, fuel) == run_from(f, mem, 3, ps3, rs3, (fuel - 1) as nat));
        assert(scalar_loop(f, 3, 4, 5));
        lemma_scalar_loop(f, mem, ps3, rs3, 3, 4, 5, i, acc, (fuel - 1) as nat);
    }
}

/// Run under the reference semantics on a buffer at address 0, the blocked
/// kernel returns the sum of the buffer's bytes, given enough fuel.
pub proof fn lemma_blocked_kernel_sums(f: FunctionIr, mem: Seq<u8>, fuel: nat)
    requires
        blocked_shape(f),
        valid_function(f),
        sum_fits(mem.len() as int),
        fuel >= 2 * mem.len() + 4,
    ensures
        run_spec(f, mem, seq![0u64, mem.len() as u64], fuel) == Some(byte_sum(mem) as u64),
{
    let len = mem.len() as u64;
    let args = seq![0u64, len];
    let ps0 = zero_params(f).update(0, args);
    let rs0 = zero_results(f);
    let cur0 = seq![0u64, 0u64, 1u64, 16u64];
    assert(block_prefix(f, mem, ps0, rs0, 0, 0) == Some(Seq::<u64>::empty()));
    assert(Seq::<u64>::empty().push(0u64) =~= seq![0u64]);
    assert(block_prefix(f, mem, ps0, rs0, 0, 1) == Some(seq![0u64]));
    assert(seq![0u64].push(0u64) =~= seq![0u64, 0u64]);
    assert(block_prefix(f, mem, ps0, rs0, 0, 2) == Some(seq![0u64, 0u64]));
    assert(seq![0u64, 0u64].push(1u64) =~= seq![0u64, 0u64, 1u64]);
    assert(block_prefix(f, mem, ps0, rs0, 0, 3) == Some(seq![0u64, 0u64, 1u64]));
    assert(seq![0u64, 0u64, 1u64].push(16u64) =~= cur0);
    assert(block_prefix(f, mem, ps0, rs0, 0, 4) == Some(cur0));
    let ps1 = ps0.update(1, seq![0u64, 0u64]);
    let rs1 = rs0.update(0, cur0);
    assert(arg_values(ps0, rs0, cur0, 0, seq![res(0, 1), res(0, 0)]) =~= seq![0u64, 0u64]);
    assert(run_from(f, mem, 0, ps0, rs0, fuel) == run_from(f, mem, 1, ps1, rs1, (fuel - 1) as nat));
    assert(ps1[0] =~= args);
    assert(ps1[1] =~= seq![0u64, 0u64]);
    assert(shaped(f, ps1, rs1));
    lemma_blocked_header(f, mem, ps1, rs1, 0, 0, (fuel - 1) as nat);
}

/// Run under the reference semantics on any buffer at address 0 whose sum
/// fits in 64 bits, with enough fuel, `f` returns the sum of the bytes.
pub open spec fn sums_bytes(f: FunctionIr) -> bool {
    forall|mem: Seq<u8>, fuel: nat|
        sum_fits(mem.len() as int) && fuel >= 2 * mem.len() + 4 ==> #[trigger] run_spec(
            f,
            mem,
            kernel_args(mem),
            fuel,
        ) == Some(byte_sum(mem) as u64)
}

/// The arguments of a kernel over `mem`: the buffer at address 0, and its length.
pub open spec fn kernel_args(mem: Seq<u8>) -> Seq<u64> {
    seq![0u64, mem.len() as u64]
}

/// Either kernel shape, run on any buffer whose sum fits in 64 bits, returns
/// exactly what folding the bytes one at a time gives.
pub proof fn lemma_kernel_sum_is_reference_sum(f: FunctionIr, mem: Seq<u8>, fuel: nat)
    requires
        simple_shape(f) || blocked_shape(f),
        valid_function(f),
        sum_fits(mem.len() as int),
        fuel >= 2 * mem.len() + 4,
    ensures
        run_spec(f, mem, seq![0u64, mem.len() as u64], fuel) == Some(byte_sum(mem) as u64),
{
    if simple_shape(f) {
        lemma_simple_kernel_sums(f, mem, fuel);
    } else {
        lemma_blocked_kernel_sums(f, mem, fuel);
    }
}

/// Two builds of the same kernel shape give the same result on the same input.
pub proof fn lemma_same_shape_same_sum(f1: FunctionIr, f2: FunctionIr, mem: Seq<u8>, fuel: nat)
    requires
        (simple_shape(f1) && simple_shape(f2)) || (blocked_shape(f1) && blocked_shape(f2)),
        valid_function(f1),
        valid_function(f2),
        sum_fits(mem.len() as int),
        fuel >= 2 * mem.len() + 4,
    ensures
        run_spec(f1, mem, seq![0u64, mem.len() as u64], fuel) == run_spec(
            f2,
            mem,
            seq![0u64, mem.len() as u64],
            fuel,
        ),
{
    lemma_kernel_sum_is_reference_sum(f1, mem, fuel);
    lemma_kernel_sum_is_reference_sum(f2, mem, fuel);
}

/// Builds the blocked kernel (`wide`) or the scalar one, and runs it on
/// `data` under the reference semantics: the result is the byte sum.
pub fn interpret_sum_kernel(data: &[u8], wide: bool) -> (r: u64)
    requires
        sum_fits(data@.len() as int),
    ensures
        r as int == byte_sum(data@),
{
    let built = if wide {
        build_blocked_kernel()
    } else {
        build_simple_kernel()
    };
    let f = match built {
        Ok(f) => f,
        Err(_) => return 0,
    };
    let len = data.len() as u64;
    let fuel = 2 * len + 4;
    proof {
        lemma_kernel_sum_is_reference_sum(f, data@, fuel as nat);
        crate::sum::lemma_sum_prefix_bounds(data@, data@.len() as int);
    }
    let args = vec![0u64, len];
    assert(args@ == seq![0u64, data@.len() as u64]);
    match run(&f, data, &args, fuel) {
        Some(x) => x,
        None => 0,
    }
}

/// Either kernel shape sums the bytes of every buffer it is run on.
pub proof fn lemma_shape_sums_bytes(f: FunctionIr)
    requires
        simple_shape(f) || blocked_shape(f),
        valid_function(f),
    ensures
        sums_bytes(f),
{
    assert forall|mem: Seq<u8>, fuel: nat|
        sum_fits(mem.len() as int) && fuel >= 2 * mem.len() + 4 implies #[trigger] run_spec(
        f,
        mem,
        kernel_args(mem),
        fuel,
    ) == Some(byte_sum(mem) as u64) by {
        lemma_kernel_sum_is_reference_sum(f, mem, fuel);
    }
}

} // verus!

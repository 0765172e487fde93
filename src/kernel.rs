//! The two kernel shapes, `(pointer, length) -> u64`, built in the IR.
use vstd::prelude::*;
use crate::ir::{
    Cond, FunctionIr, Terminator, IrBuilder, IrError, Op, Operand, ValueKind, extends,
    valid_function, same_except,
};
use crate::swar::{MASK_BYTES, MASK_HALVES, MASK_LOW};
use crate::semantics::{lemma_shape_sums_bytes, sums_bytes};

verus! {

/// The signature both kernels share: two pointer-sized parameters, one 64-bit result.
pub open spec fn kernel_signature(f: FunctionIr) -> bool {
    &&& f.params@ == seq![ValueKind::Pointer, ValueKind::Pointer]
    &&& f.results@ == seq![ValueKind::Int64]
}

/// What appending instructions to the block under the cursor leaves as it was.
pub open spec fn appended(b1: IrBuilder, b2: IrBuilder) -> bool {
    &&& b2.inv()
    &&& b2.open_block()
    &&& b2.cursor == b1.cursor
    &&& extends(b1.func, b2.func)
    &&& same_except(b1.func, b2.func, b1.cur())
    &&& b2.func.blocks@[b1.cur()].params == b1.func.blocks@[b1.cur()].params
    &&& b2.func.blocks@[b1.cur()].sealed == b1.func.blocks@[b1.cur()].sealed
}

/// The fourteen instructions that reduce the word `w` in block `c`, placed
/// from index `n` on.
pub open spec fn swar_ops(c: usize, n: usize, w: Operand) -> Seq<Op> {
    seq![
        Op::Const { kind: ValueKind::Int64, value: MASK_BYTES },
        Op::And(w, res(c, n)),
        Op::ShiftRight(w, 8),
        Op::And(res(c, (n + 2) as usize), res(c, n)),
        Op::Add(res(c, (n + 1) as usize), res(c, (n + 3) as usize)),
        Op::Const { kind: ValueKind::Int64, value: MASK_HALVES },
        Op::And(res(c, (n + 4) as usize), res(c, (n + 5) as usize)),
        Op::ShiftRight(res(c, (n + 4) as usize), 16),
        Op::And(res(c, (n + 7) as usize), res(c, (n + 5) as usize)),
        Op::Add(res(c, (n + 6) as usize), res(c, (n + 8) as usize)),
        Op::Const { kind: ValueKind::Int64, value: MASK_LOW },
        Op::And(res(c, (n + 9) as usize), res(c, (n + 10) as usize)),
        Op::ShiftRight(res(c, (n + 9) as usize), 32),
        Op::Add(res(c, (n + 11) as usize), res(c, (n + 12) as usize)),
    ]
}

/// Emits the three mask-and-add rounds that reduce the word `w` to the sum
/// of its eight bytes, and returns that sum.
pub fn emit_swar_reduction(b: &mut IrBuilder, w: Operand) -> (r: Operand)
    requires
        old(b).inv(),
        old(b).open_block(),
        old(b).available(w),
        old(b).func.blocks@[old(b).cur()].insts@.len() + 14 <= usize::MAX,
    ensures
        appended(*old(b), *final(b)),
        final(b).func.blocks@[old(b).cur()].insts@ == old(b).func.blocks@[old(b).cur()].insts@
            + swar_ops(old(b).cursor->0, old(b).func.blocks@[old(b).cur()].insts@.len() as usize, w),
        r == (Operand::Result { block: old(b).cursor->0, index: (final(b).func.blocks@[old(b).cur()].insts@.len() - 1) as usize }),
{
    let m8 = b.emit(Op::Const { kind: ValueKind::Int64, value: MASK_BYTES });
    let lo = b.emit(Op::And(w, m8));
    let sh = b.emit(Op::ShiftRight(w, 8));
    let hi = b.emit(Op::And(sh, m8));
    let pairs = b.emit(Op::Add(lo, hi));
    let m16 = b.emit(Op::Const { kind: ValueKind::Int64, value: MASK_HALVES });
    let lo16 = b.emit(Op::And(pairs, m16));
    let sh16 = b.emit(Op::ShiftRight(pairs, 16));
    let hi16 = b.emit(Op::And(sh16, m16));
    let quads = b.emit(Op::Add(lo16, hi16));
    let m32 = b.emit(Op::Const { kind: ValueKind::Int64, value: MASK_LOW });
    let lo32 = b.emit(Op::And(quads, m32));
    let hi32 = b.emit(Op::ShiftRight(quads, 32));
    let r = b.emit(Op::Add(lo32, hi32));
    assert(b.func.blocks@[old(b).cur()].insts@ =~= old(b).func.blocks@[old(b).cur()].insts@
        + swar_ops(old(b).cursor->0, old(b).func.blocks@[old(b).cur()].insts@.len() as usize, w));
    r
}

pub open spec fn param(block: usize, index: usize) -> Operand {
    Operand::Param { block, index }
}

pub open spec fn res(block: usize, index: usize) -> Operand {
    Operand::Result { block, index }
}

/// The scalar loop, block by block: the entry makes the constants and
/// enters the header with index 0 and sum 0; the header branches on
/// `index < length`; the body loads, widens and adds one byte and steps
/// the index; the exit returns its parameter.
pub open spec fn simple_shape(f: FunctionIr) -> bool {
    &&& f.blocks@.len() == 4
    &&& f.blocks@[0].params@ == seq![ValueKind::Pointer, ValueKind::Pointer]
    &&& f.blocks@[0].insts@ == seq![
        Op::Const { kind: ValueKind::Int64, value: 0 },
        Op::Const { kind: ValueKind::Pointer, value: 0 },
        Op::Const { kind: ValueKind::Pointer, value: 1 },
    ]
    &&& f.blocks@[0].terminator matches Some(Terminator::Jump { target, args })
        && target == 1 && args@ == seq![res(0, 1), res(0, 0)]
    &&& f.blocks@[1].params@ == seq![ValueKind::Pointer, ValueKind::Int64]
    &&& f.blocks@[1].insts@ == seq![Op::Compare(Cond::UnsignedLess, param(1, 0), param(0, 1))]
    &&& f.blocks@[1].terminator matches Some(
        Terminator::Branch { cond, then_block, then_args, else_block, else_args },
    ) && cond == res(1, 0) && then_block == 2 && then_args@ == Seq::<Operand>::empty()
        && else_block == 3 && else_args@ == seq![param(1, 1)]
    &&& f.blocks@[2].params@ == Seq::<ValueKind>::empty()
    &&& f.blocks@[2].insts@ == seq![
        Op::Add(param(0, 0), param(1, 0)),
        Op::LoadByte(res(2, 0)),
        Op::Add(param(1, 1), res(2, 1)),
        Op::Add(param(1, 0), res(0, 2)),
    ]
    &&& f.blocks@[2].terminator matches Some(Terminator::Jump { target, args })
        && target == 1 && args@ == seq![res(2, 3), res(2, 2)]
    &&& f.blocks@[3].params@ == seq![ValueKind::Int64]
    &&& f.blocks@[3].insts@ == Seq::<Op>::empty()
    &&& f.blocks@[3].terminator == Some(Terminator::Return(param(3, 0)))
}

/// Builds the scalar loop: the header tests `index < length`, the body adds
/// one widened byte to the accumulator, and the exit returns it.
pub fn build_simple_kernel() -> (r: Result<FunctionIr, IrError>)
    ensures
        r matches Ok(f) && valid_function(f) && kernel_signature(f) && simple_shape(f) && sums_bytes(f),
{
    let params = vec![ValueKind::Pointer, ValueKind::Pointer];
    let results = vec![ValueKind::Int64];
    assert(params@ == seq![ValueKind::Pointer, ValueKind::Pointer]);
    assert(results@ == seq![ValueKind::Int64]);
    let mut b = match IrBuilder::new(params, results) {
        Ok(b) => b,
        Err(e) => return Err(e),
    };
    let entry = b.create_block();
    let ptr = b.add_block_parameter(entry, ValueKind::Pointer);
    let len = b.add_block_parameter(entry, ValueKind::Pointer);
    b.switch_to(entry);
    b.seal(entry);
    let zero_sum = b.emit(Op::Const { kind: ValueKind::Int64, value: 0 });
    let zero = b.emit(Op::Const { kind: ValueKind::Pointer, value: 0 });
    let one = b.emit(Op::Const { kind: ValueKind::Pointer, value: 1 });
    let header = b.create_block();
    let body = b.create_block();
    let exit = b.create_block();
    let i = b.add_block_parameter(header, ValueKind::Pointer);
    let acc = b.add_block_parameter(header, ValueKind::Int64);
    let total = b.add_block_parameter(exit, ValueKind::Int64);
    let args = vec![zero, zero_sum];
    assert(args@ == seq![zero, zero_sum]);
    let _ = b.jump(header, args);

    b.switch_to(header);
    let more = b.emit(Op::Compare(Cond::UnsignedLess, i, len));
    let exit_args = vec![acc];
    assert(exit_args@ == seq![acc]);
    let _ = b.branch(more, body, Vec::new(), exit, exit_args);

    b.switch_to(body);
    b.seal(body);
    let addr = b.emit(Op::Add(ptr, i));
    let byte = b.emit(Op::LoadByte(addr));
    let next_acc = b.emit(Op::Add(acc, byte));
    let next_i = b.emit(Op::Add(i, one));
    let args = vec![next_i, next_acc];
    assert(args@ == seq![next_i, next_acc]);
    let _ = b.jump(header, args);
    b.seal(header);

    b.switch_to(exit);
    b.seal(exit);
    b.ret(total);
    assert(b.func.blocks@[0].insts@ =~= seq![
        Op::Const { kind: ValueKind::Int64, value: 0 },
        Op::Const { kind: ValueKind::Pointer, value: 0 },
        Op::Const { kind: ValueKind::Pointer, value: 1 },
    ]);
    assert(b.func.blocks@[0].params@ =~= seq![ValueKind::Pointer, ValueKind::Pointer]);
    assert(b.func.blocks@[1].params@ =~= seq![ValueKind::Pointer, ValueKind::Int64]);
    assert(b.func.blocks@[1].insts@ =~= seq![Op::Compare(Cond::UnsignedLess, param(1, 0), param(0, 1))]);
    assert(b.func.blocks@[2].insts@ =~= seq![
        Op::Add(param(0, 0), param(1, 0)),
        Op::LoadByte(res(2, 0)),
        Op::Add(param(1, 1), res(2, 1)),
        Op::Add(param(1, 0), res(0, 2)),
    ]);
    assert(b.func.blocks@[2].params@ =~= Seq::<ValueKind>::empty());
    assert(b.func.blocks@[3].params@ =~= seq![ValueKind::Int64]);
    assert(b.func.blocks@[3].insts@ =~= Seq::<Op>::empty());
    let r = b.finalize();
    proof {
        if r is Ok {
            lemma_shape_sums_bytes(r->Ok_0);
        }
    }
    r
}

/// The blocked loop, block by block: entry (constants), header (remaining
/// length test), wide body (two words, each reduced in the register), scalar
/// tail header, scalar tail body, and the exit returning its parameter.
pub open spec fn blocked_shape(f: FunctionIr) -> bool {
    &&& f.blocks@.len() == 6
    &&& f.blocks@[0].params@ == seq![ValueKind::Pointer, ValueKind::Pointer]
    &&& f.blocks@[0].insts@ == seq![
        Op::Const { kind: ValueKind::Int64, value: 0 },
        Op::Const { kind: ValueKind::Pointer, value: 0 },
        Op::Const { kind: ValueKind::Pointer, value: 1 },
        Op::Const { kind: ValueKind::Pointer, value: 16 },
    ]
    &&& f.blocks@[0].terminator matches Some(Terminator::Jump { target, args })
        && target == 1 && args@ == seq![res(0, 1), res(0, 0)]
    &&& f.blocks@[1].params@ == seq![ValueKind::Pointer, ValueKind::Int64]
    &&& f.blocks@[1].insts@ == seq![
        Op::Sub(param(0, 1), param(1, 0)),
        Op::Compare(Cond::UnsignedGreaterOrEqual, res(1, 0), res(0, 3)),
    ]
    &&& f.blocks@[1].terminator matches Some(
        Terminator::Branch { cond, then_block, then_args, else_block, else_args },
    ) && cond == res(1, 1) && then_block == 2 && then_args@ == Seq::<Operand>::empty()
        && else_block == 3 && else_args@ == seq![param(1, 0), param(1, 1)]
    &&& f.blocks@[2].params@ == Seq::<ValueKind>::empty()
    &&& f.blocks@[2].insts@ == seq![
        Op::Add(param(0, 0), param(1, 0)),
        Op::LoadWord { addr: res(2, 0), offset: 0 },
        Op::LoadWord { addr: res(2, 0), offset: 8 },
    ] + swar_ops(2, 3, res(2, 1)) + swar_ops(2, 17, res(2, 2)) + seq![
        Op::Add(res(2, 16), res(2, 30)),
        Op::Add(param(1, 1), res(2, 31)),
        Op::Add(param(1, 0), res(0, 3)),
    ]
    &&& f.blocks@[2].terminator matches Some(Terminator::Jump { target, args })
        && target == 1 && args@ == seq![res(2, 33), res(2, 32)]
    &&& f.blocks@[3].params@ == seq![ValueKind::Pointer, ValueKind::Int64]
    &&& f.blocks@[3].insts@ == seq![Op::Compare(Cond::UnsignedLess, param(3, 0), param(0, 1))]
    &&& f.blocks@[3].terminator matches Some(
        Terminator::Branch { cond, then_block, then_args, else_block, else_args },
    ) && cond == res(3, 0) && then_block == 4 && then_args@ == Seq::<Operand>::empty()
        && else_block == 5 && else_args@ == seq![param(3, 1)]
    &&& f.blocks@[4].params@ == Seq::<ValueKind>::empty()
    &&& f.blocks@[4].insts@ == seq![
        Op::Add(param(0, 0), param(3, 0)),
        Op::LoadByte(res(4, 0)),
        Op::Add(param(3, 1), res(4, 1)),
        Op::Add(param(3, 0), res(0, 2)),
    ]
    &&& f.blocks@[4].terminator matches Some(Terminator::Jump { target, args })
        && target == 3 && args@ == seq![res(4, 3), res(4, 2)]
    &&& f.blocks@[5].params@ == seq![ValueKind::Int64]
    &&& f.blocks@[5].insts@ == Seq::<Op>::empty()
    &&& f.blocks@[5].terminator == Some(Terminator::Return(param(5, 0)))
}

/// Builds the blocked loop: while at least sixteen bytes remain, two words
/// are loaded, each reduced in the register, and both partial sums added;
/// the last 0 to 15 bytes go through a scalar tail; both paths meet in an
/// exit block whose parameter is the final accumulator.
#[verifier::rlimit(100)]
pub fn build_blocked_kernel() -> (r: Result<FunctionIr, IrError>)
    ensures
        r matches Ok(f) && valid_function(f) && kernel_signature(f) && blocked_shape(f) && sums_bytes(f),
{
    let params = vec![ValueKind::Pointer, ValueKind::Pointer];
    let results = vec![ValueKind::Int64];
    assert(params@ == seq![ValueKind::Pointer, ValueKind::Pointer]);
    assert(results@ == seq![ValueKind::Int64]);
    let mut b = match IrBuilder::new(params, results) {
        Ok(b) => b,
        Err(e) => return Err(e),
    };
    let entry = b.create_block();
    let ptr = b.add_block_parameter(entry, ValueKind::Pointer);
    let len = b.add_block_parameter(entry, ValueKind::Pointer);
    b.switch_to(entry);
    b.seal(entry);
    let zero_sum = b.emit(Op::Const { kind: ValueKind::Int64, value: 0 });
    let zero = b.emit(Op::Const { kind: ValueKind::Pointer, value: 0 });
    let one = b.emit(Op::Const { kind: ValueKind::Pointer, value: 1 });
    let sixteen = b.emit(Op::Const { kind: ValueKind::Pointer, value: 16 });
    let header = b.create_block();
    let wide = b.create_block();
    let tail = b.create_block();
    let tail_body = b.create_block();
    let exit = b.create_block();
    let i = b.add_block_parameter(header, ValueKind::Pointer);
    let acc = b.add_block_parameter(header, ValueKind::Int64);
    let j = b.add_block_parameter(tail, ValueKind::Pointer);
    let tail_acc = b.add_block_parameter(tail, ValueKind::Int64);
    let total = b.add_block_parameter(exit, ValueKind::Int64);
    let args = vec![zero, zero_sum];
    assert(args@ == seq![zero, zero_sum]);
    let _ = b.jump(header, args);

    b.switch_to(header);
    let remaining = b.emit(Op::Sub(len, i));
    let has_block = b.emit(Op::Compare(Cond::UnsignedGreaterOrEqual, remaining, sixteen));
    let tail_args = vec![i, acc];
    assert(tail_args@ == seq![i, acc]);
    let _ = b.branch(has_block, wide, Vec::new(), tail, tail_args);

    b.switch_to(wide);
    b.seal(wide);
    let addr = b.emit(Op::Add(ptr, i));
    let w1 = b.emit(Op::LoadWord { addr, offset: 0 });
    let w2 = b.emit(Op::LoadWord { addr, offset: 8 });
    let s1 = emit_swar_reduction(&mut b, w1);
    let s2 = emit_swar_reduction(&mut b, w2);
    let both = b.emit(Op::Add(s1, s2));
    let next_acc = b.emit(Op::Add(acc, both));
    let next_i = b.emit(Op::Add(i, sixteen));
    let args = vec![next_i, next_acc];
    assert(args@ == seq![next_i, next_acc]);
    let _ = b.jump(header, args);
    b.seal(header);

    b.switch_to(tail);
    let more = b.emit(Op::Compare(Cond::UnsignedLess, j, len));
    let exit_args = vec![tail_acc];
    assert(exit_args@ == seq![tail_acc]);
    let _ = b.branch(more, tail_body, Vec::new(), exit, exit_args);

    b.switch_to(tail_body);
    b.seal(tail_body);
    let byte_addr = b.emit(Op::Add(ptr, j));
    let byte = b.emit(Op::LoadByte(byte_addr));
    let next_tail_acc = b.emit(Op::Add(tail_acc, byte));
    let next_j = b.emit(Op::Add(j, one));
    let args = vec![next_j, next_tail_acc];
    assert(args@ == seq![next_j, next_tail_acc]);
    let _ = b.jump(tail, args);
    b.seal(tail);

    b.switch_to(exit);
    b.seal(exit);
    b.ret(total);
    assert(b.func.blocks@[0].insts@ =~= seq![
        Op::Const { kind: ValueKind::Int64, value: 0 },
        Op::Const { kind: ValueKind::Pointer, value: 0 },
        Op::Const { kind: ValueKind::Pointer, value: 1 },
        Op::Const { kind: ValueKind::Pointer, value: 16 },
    ]);
    assert(b.func.blocks@[0].params@ =~= seq![ValueKind::Pointer, ValueKind::Pointer]);
    assert(b.func.blocks@[1].params@ =~= seq![ValueKind::Pointer, ValueKind::Int64]);
    assert(b.func.blocks@[1].insts@ =~= seq![
        Op::Sub(param(0, 1), param(1, 0)),
        Op::Compare(Cond::UnsignedGreaterOrEqual, res(1, 0), res(0, 3)),
    ]);
    assert(b.func.blocks@[2].params@ =~= Seq::<ValueKind>::empty());
    assert(b.func.blocks@[2].insts@ =~= seq![
        Op::Add(param(0, 0), param(1, 0)),
        Op::LoadWord { addr: res(2, 0), offset: 0 },
        Op::LoadWord { addr: res(2, 0), offset: 8 },
    ] + swar_ops(2, 3, res(2, 1)) + swar_ops(2, 17, res(2, 2)) + seq![
        Op::Add(res(2, 16), res(2, 30)),
        Op::Add(param(1, 1), res(2, 31)),
        Op::Add(param(1, 0), res(0, 3)),
    ]);
    assert(b.func.blocks@[3].params@ =~= seq![ValueKind::Pointer, ValueKind::Int64]);
    assert(b.func.blocks@[3].insts@ =~= seq![Op::Compare(Cond::UnsignedLess, param(3, 0), param(0, 1))]);
    assert(b.func.blocks@[4].params@ =~= Seq::<ValueKind>::empty());
    assert(b.func.blocks@[4].insts@ =~= seq![
        Op::Add(param(0, 0), param(3, 0)),
        Op::LoadByte(res(4, 0)),
        Op::Add(param(3, 1), res(4, 1)),
        Op::Add(param(3, 0), res(0, 2)),
    ]);
    assert(b.func.blocks@[5].params@ =~= seq![ValueKind::Int64]);
    assert(b.func.blocks@[5].insts@ =~= Seq::<Op>::empty());
    let r = b.finalize();
    proof {
        if r is Ok {
            lemma_shape_sums_bytes(r->Ok_0);
        }
    }
    r
}

} // verus!

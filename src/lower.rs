//! Lowering a valid IR function to Cranelift, block by block, and what the
//! lowering emits: one instruction-builder call for each IR instruction, on
//! the values that stand for its operands. (A shift by an immediate is one
//! such call; Cranelift expands it into a constant and a shift.)
use vstd::prelude::*;
use cranelift_codegen::ir::{Block, Type, Value};
use crate::backend::{
    BinaryOp, BlockState, Emitted, Emitter, append_block_param, create_block, ins_band, ins_brif,
    ins_iadd, ins_icmp, ins_iconst, ins_isub, ins_jump, ins_load_word, ins_return, ins_uload8,
    ins_ushr_imm, int64_type, seal_all_blocks, switch_to_block,
};
use crate::ir::{
    FunctionIr, Op, Operand, Terminator, ValueKind, args_ok, op_ok, operand_ok, terminator_ok,
    valid_function,
};

verus! {

/// The contents of a list of lists of Cranelift values.
pub open spec fn deep_values(v: Seq<Vec<Value>>) -> Seq<Seq<Value>> {
    v.map_values(|x: Vec<Value>| x@)
}

/// The Cranelift value that stands for `o`, given the values of every block's
/// parameters and results.
pub open spec fn value_of(params: Seq<Seq<Value>>, results: Seq<Seq<Value>>, o: Operand) -> Value {
    match o {
        Operand::Param { block, index } => params[block as int][index as int],
        Operand::Result { block, index } => results[block as int][index as int],
    }
}

pub open spec fn values_of(params: Seq<Seq<Value>>, results: Seq<Seq<Value>>, args: Seq<Operand>) -> Seq<Value> {
    args.map_values(|o: Operand| value_of(params, results, o))
}

/// `en` is the Cranelift instruction for `op`, producing `res`.
pub open spec fn op_lowered(
    en: Emitted,
    op: Op,
    params: Seq<Seq<Value>>,
    results: Seq<Seq<Value>>,
    ptr_ty: Type,
    res: Value,
) -> bool {
    let v = |o: Operand| value_of(params, results, o);
    match op {
        Op::Const { kind, value } => en matches Emitted::Iconst { ty, imm, value: out } && imm == value
            && out == res && (kind == ValueKind::Pointer ==> ty == ptr_ty),
        Op::Add(x, y) => en == (Emitted::Binary { op: BinaryOp::Add, x: v(x), y: v(y), value: res }),
        Op::Sub(x, y) => en == (Emitted::Binary { op: BinaryOp::Sub, x: v(x), y: v(y), value: res }),
        Op::And(x, y) => en == (Emitted::Binary { op: BinaryOp::And, x: v(x), y: v(y), value: res }),
        Op::ShiftRight(x, amount) => en == (Emitted::ShiftRight { x: v(x), amount, value: res }),
        Op::LoadByte(a) => en == (Emitted::LoadByte { addr: v(a), value: res }),
        Op::LoadWord { addr, offset } => en == (Emitted::LoadWord { addr: v(addr), offset, value: res }),
        Op::Compare(cond, x, y) => en == (Emitted::Compare { cond, x: v(x), y: v(y), value: res }),
    }
}

/// `en` is the Cranelift terminator for `t`, with `blocks` standing for the IR's blocks.
pub open spec fn term_lowered(
    en: Emitted,
    t: Terminator,
    params: Seq<Seq<Value>>,
    results: Seq<Seq<Value>>,
    blocks: Seq<Block>,
) -> bool {
    match t {
        Terminator::Jump { target, args } => en == (Emitted::Jump {
            target: blocks[target as int],
            args: values_of(params, results, args@),
        }),
        Terminator::Branch { cond, then_block, then_args, else_block, else_args } => en == (
        Emitted::Branch {
            cond: value_of(params, results, cond),
            then_block: blocks[then_block as int],
            then_args: values_of(params, results, then_args@),
            else_block: blocks[else_block as int],
            else_args: values_of(params, results, else_args@),
        }),
        Terminator::Return(v) => en == (Emitted::Return { value: value_of(params, results, v) }),
    }
}

/// `en` appends parameter `value` of kind `kind` to `block`.
pub open spec fn param_lowered(en: Emitted, kind: ValueKind, block: Block, ptr_ty: Type, value: Value) -> bool {
    en matches Emitted::BlockParam { block: b, ty, value: out } && b == block && out == value && (kind
        == ValueKind::Pointer ==> ty == ptr_ty)
}

/// The log of `blocks[k]` holds the first `pn` of its parameters, then the
/// first `n` of its instructions, and its terminator if `term`.
pub open spec fn block_log(
    f: FunctionIr,
    log: Seq<Emitted>,
    blocks: Seq<Block>,
    params: Seq<Seq<Value>>,
    results: Seq<Seq<Value>>,
    ptr_ty: Type,
    k: int,
    pn: int,
    n: int,
    term: bool,
) -> bool {
    &&& log.len() == pn + n + if term { 1int } else { 0int }
    &&& forall|p: int| 0 <= p < pn ==> param_lowered(#[trigger] log[p], f.blocks@[k].params@[p], blocks[k], ptr_ty, params[k][p])
    &&& forall|i: int| 0 <= i < n ==> op_lowered(#[trigger] log[pn + i], f.blocks@[k].insts@[i], params, results, ptr_ty, results[k][i])
    &&& term ==> term_lowered(log[pn + n], f.blocks@[k].terminator->0, params, results, blocks)
}

/// Block `k` of `f` was lowered completely, parameters, instructions and terminator.
pub open spec fn block_lowered(
    f: FunctionIr,
    log: Seq<Emitted>,
    blocks: Seq<Block>,
    params: Seq<Seq<Value>>,
    results: Seq<Seq<Value>>,
    ptr_ty: Type,
    k: int,
) -> bool {
    block_log(f, log, blocks, params, results, ptr_ty, k, f.blocks@[k].params@.len() as int, f.blocks@[k].insts@.len() as int, true)
}

/// `r2` agrees with `r1` on every block before `j` and on the first `i` results of `j`.
pub open spec fn agree(r1: Seq<Seq<Value>>, r2: Seq<Seq<Value>>, j: int, i: int) -> bool {
    &&& forall|m: int| 0 <= m < j ==> r2[m] == #[trigger] r1[m]
    &&& forall|x: int| 0 <= x < i ==> r2[j][x] == #[trigger] r1[j][x]
}

proof fn lemma_value_agrees(f: FunctionIr, p: Seq<Seq<Value>>, r1: Seq<Seq<Value>>, r2: Seq<Seq<Value>>, j: int, i: int, o: Operand)
    requires
        operand_ok(f, j, i, o),
        agree(r1, r2, j, i),
    ensures
        value_of(p, r1, o) == value_of(p, r2, o),
{
    match o {
        Operand::Param { .. } => {},
        Operand::Result { block, index } => {
            if block < j {
                assert(r2[block as int] == r1[block as int]);
            } else {
                assert(r2[j][index as int] == r1[j][index as int]);
            }
        },
    }
}

proof fn lemma_op_agrees(f: FunctionIr, en: Emitted, op: Op, p: Seq<Seq<Value>>, r1: Seq<Seq<Value>>, r2: Seq<Seq<Value>>, ptr_ty: Type, res: Value, j: int, i: int)
    requires
        op_ok(f, j, i, op),
        agree(r1, r2, j, i),
        op_lowered(en, op, p, r1, ptr_ty, res),
    ensures
        op_lowered(en, op, p, r2, ptr_ty, res),
{
    match op {
        Op::Const { .. } => {},
        Op::Add(x, y) => {
            lemma_value_agrees(f, p, r1, r2, j, i, x);
            lemma_value_agrees(f, p, r1, r2, j, i, y);
        },
        Op::Sub(x, y) => {
            lemma_value_agrees(f, p, r1, r2, j, i, x);
            lemma_value_agrees(f, p, r1, r2, j, i, y);
        },
        Op::And(x, y) => {
            lemma_value_agrees(f, p, r1, r2, j, i, x);
            lemma_value_agrees(f, p, r1, r2, j, i, y);
        },
        Op::ShiftRight(x, _) => lemma_value_agrees(f, p, r1, r2, j, i, x),
        Op::LoadByte(a) => lemma_value_agrees(f, p, r1, r2, j, i, a),
        Op::LoadWord { addr, .. } => lemma_value_agrees(f, p, r1, r2, j, i, addr),
        Op::Compare(_, x, y) => {
            lemma_value_agrees(f, p, r1, r2, j, i, x);
            lemma_value_agrees(f, p, r1, r2, j, i, y);
        },
    }
}

proof fn lemma_args_agree(f: FunctionIr, p: Seq<Seq<Value>>, r1: Seq<Seq<Value>>, r2: Seq<Seq<Value>>, j: int, args: Seq<Operand>)
    requires
        0 <= j < f.blocks@.len(),
        args_ok(f, j, args),
        agree(r1, r2, j, f.blocks@[j].insts@.len() as int),
    ensures
        values_of(p, r1, args) == values_of(p, r2, args),
{
    assert forall|x: int| 0 <= x < args.len() implies values_of(p, r1, args)[x] == values_of(p, r2, args)[x] by {
        lemma_value_agrees(f, p, r1, r2, j, f.blocks@[j].insts@.len() as int, args[x]);
    }
    assert(values_of(p, r1, args) =~= values_of(p, r2, args));
}

proof fn lemma_term_agrees(f: FunctionIr, en: Emitted, t: Terminator, p: Seq<Seq<Value>>, r1: Seq<Seq<Value>>, r2: Seq<Seq<Value>>, bh: Seq<Block>, j: int)
    requires
        0 <= j < f.blocks@.len(),
        terminator_ok(f, j, t),
        agree(r1, r2, j, f.blocks@[j].insts@.len() as int),
        term_lowered(en, t, p, r1, bh),
    ensures
        term_lowered(en, t, p, r2, bh),
{
    let end = f.blocks@[j].insts@.len() as int;
    match t {
        Terminator::Jump { args, .. } => lemma_args_agree(f, p, r1, r2, j, args@),
        Terminator::Branch { cond, then_args, else_args, .. } => {
            lemma_value_agrees(f, p, r1, r2, j, end, cond);
            lemma_args_agree(f, p, r1, r2, j, then_args@);
            lemma_args_agree(f, p, r1, r2, j, else_args@);
        },
        Terminator::Return(v) => lemma_value_agrees(f, p, r1, r2, j, end, v),
    }
}

/// A block's log stays a lowering of it when results it cannot see change.
proof fn lemma_block_log_agrees(
    f: FunctionIr,
    log: Seq<Emitted>,
    bh: Seq<Block>,
    p: Seq<Seq<Value>>,
    r1: Seq<Seq<Value>>,
    r2: Seq<Seq<Value>>,
    ptr_ty: Type,
    k: int,
    n: int,
    term: bool,
)
    requires
        valid_function(f),
        0 <= k < f.blocks@.len(),
        0 <= n <= f.blocks@[k].insts@.len(),
        term ==> n == f.blocks@[k].insts@.len(),
        block_log(f, log, bh, p, r1, ptr_ty, k, f.blocks@[k].params@.len() as int, n, term),
        agree(r1, r2, k, n),
    ensures
        block_log(f, log, bh, p, r2, ptr_ty, k, f.blocks@[k].params@.len() as int, n, term),
{
    let pn = f.blocks@[k].params@.len() as int;
    assert forall|i: int| 0 <= i < n implies op_lowered(#[trigger] log[pn + i], f.blocks@[k].insts@[i], p, r2, ptr_ty, r2[k][i]) by {
        assert(op_ok(f, k, i, f.blocks@[k].insts@[i]));
        assert(agree(r1, r2, k, i));
        assert(r2[k][i] == r1[k][i]);
        lemma_op_agrees(f, log[pn + i], f.blocks@[k].insts@[i], p, r1, r2, ptr_ty, r1[k][i], k, i);
    }
    if term {
        assert(terminator_ok(f, k, f.blocks@[k].terminator->0));
        lemma_term_agrees(f, log[pn + n], f.blocks@[k].terminator->0, p, r1, r2, bh, k);
    }
}

/// The Cranelift type of an IR value kind.
pub(crate) fn kind_type(ptr_ty: Type, kind: ValueKind) -> (r: Type)
    ensures
        kind == ValueKind::Pointer ==> r == ptr_ty,
{
    match kind {
        ValueKind::Pointer => ptr_ty,
        ValueKind::Int64 => int64_type(),
    }
}

/// The values made so far cover every parameter of every block, every
/// result of the blocks before `b`, and the results of `b` so far.
pub open spec fn values_cover(f: FunctionIr, params: Seq<Vec<Value>>, results: Seq<Vec<Value>>, b: int) -> bool {
    &&& params.len() == f.blocks@.len()
    &&& forall|k: int| 0 <= k < params.len() ==> (#[trigger] params[k])@.len() == f.blocks@[k].params@.len()
    &&& results.len() == b
    &&& b < f.blocks@.len()
    &&& forall|k: int| 0 <= k < b ==> (#[trigger] results[k])@.len() == f.blocks@[k].insts@.len()
}

/// The value that stands for `o` inside block `b`, before its instruction
/// number `current.len()`.
fn lookup(
    f: &FunctionIr,
    params: &Vec<Vec<Value>>,
    results: &Vec<Vec<Value>>,
    current: &Vec<Value>,
    b: usize,
    o: Operand,
) -> (r: Value)
    requires
        values_cover(*f, params@, results@, b as int),
        operand_ok(*f, b as int, current@.len() as int, o),
    ensures
        r == value_of(deep_values(params@), deep_values(results@).push(current@), o),
{
    match o {
        Operand::Param { block, index } => {
            assert(params@[block as int]@.len() == f.blocks@[block as int].params@.len());
            params[block][index]
        },
        Operand::Result { block, index } => {
            if block < b {
                assert(results@[block as int]@.len() == f.blocks@[block as int].insts@.len());
                results[block][index]
            } else {
                current[index]
            }
        },
    }
}

/// Emits one instruction into the current block.
fn lower_op(
    e: &mut Emitter,
    f: &FunctionIr,
    params: &Vec<Vec<Value>>,
    results: &Vec<Vec<Value>>,
    current: &Vec<Value>,
    b: usize,
    op: Op,
    ptr_ty: Type,
) -> (r: Value)
    requires
        values_cover(*f, params@, results@, b as int),
        op_ok(*f, b as int, current@.len() as int, op),
        old(e).writable(),
    ensures
        final(e).writable(),
        final(e).current@ == old(e).current@,
        final(e).blocks@ == old(e).blocks@.insert(old(e).current@->0, BlockState::Partial),
        final(e).log@ == old(e).log@.insert(old(e).current@->0, old(e).log@[old(e).current@->0].push(final(e).log@[old(e).current@->0].last())),
        op_lowered(final(e).log@[old(e).current@->0].last(), op, deep_values(params@), deep_values(results@).push(current@), ptr_ty, r),
{
    match op {
        Op::Const { kind, value } => ins_iconst(e, kind_type(ptr_ty, kind), value),
        Op::Add(x, y) => {
            let x = lookup(f, params, results, current, b, x);
            let y = lookup(f, params, results, current, b, y);
            ins_iadd(e, x, y)
        },
        Op::Sub(x, y) => {
            let x = lookup(f, params, results, current, b, x);
            let y = lookup(f, params, results, current, b, y);
            ins_isub(e, x, y)
        },
        Op::And(x, y) => {
            let x = lookup(f, params, results, current, b, x);
            let y = lookup(f, params, results, current, b, y);
            ins_band(e, x, y)
        },
        Op::ShiftRight(x, amount) => {
            let x = lookup(f, params, results, current, b, x);
            ins_ushr_imm(e, x, amount)
        },
        Op::LoadByte(addr) => {
            let addr = lookup(f, params, results, current, b, addr);
            ins_uload8(e, addr)
        },
        Op::LoadWord { addr, offset } => {
            let addr = lookup(f, params, results, current, b, addr);
            ins_load_word(e, addr, offset)
        },
        Op::Compare(cond, x, y) => {
            let x = lookup(f, params, results, current, b, x);
            let y = lookup(f, params, results, current, b, y);
            ins_icmp(e, cond, x, y)
        },
    }
}

/// The values for a list of jump arguments at the end of block `b`.
fn lower_args(
    f: &FunctionIr,
    params: &Vec<Vec<Value>>,
    results: &Vec<Vec<Value>>,
    current: &Vec<Value>,
    b: usize,
    args: &Vec<Operand>,
) -> (r: Vec<Value>)
    requires
        values_cover(*f, params@, results@, b as int),
        current@.len() == f.blocks@[b as int].insts@.len(),
        args_ok(*f, b as int, args@),
    ensures
        r@ == values_of(deep_values(params@), deep_values(results@).push(current@), args@),
{
    let ghost want = values_of(deep_values(params@), deep_values(results@).push(current@), args@);
    let mut out: Vec<Value> = Vec::new();
    let mut k: usize = 0;
    while k < args.len()
        invariant
            values_cover(*f, params@, results@, b as int),
            current@.len() == f.blocks@[b as int].insts@.len(),
            args_ok(*f, b as int, args@),
            k <= args@.len(),
            want == values_of(deep_values(params@), deep_values(results@).push(current@), args@),
            out@ == want.subrange(0, k as int),
        decreases args@.len() - k,
    {
        let v = lookup(f, params, results, current, b, args[k]);
        out.push(v);
        assert(out@ =~= want.subrange(0, k + 1));
        k = k + 1;
    }
    assert(want.subrange(0, args@.len() as int) =~= want);
    out
}

/// Emits the terminator of block `b`.
fn lower_terminator(
    e: &mut Emitter,
    f: &FunctionIr,
    blocks: &Vec<Block>,
    params: &Vec<Vec<Value>>,
    results: &Vec<Vec<Value>>,
    current: &Vec<Value>,
    b: usize,
    t: &Terminator,
)
    requires
        values_cover(*f, params@, results@, b as int),
        blocks@.len() == f.blocks@.len(),
        current@.len() == f.blocks@[b as int].insts@.len(),
        terminator_ok(*f, b as int, *t),
        old(e).writable(),
    ensures
        final(e).current@ == old(e).current@,
        final(e).sealed@ == old(e).sealed@,
        final(e).blocks@ == old(e).blocks@.insert(old(e).current@->0, BlockState::Filled),
        final(e).log@ == old(e).log@.insert(old(e).current@->0, old(e).log@[old(e).current@->0].push(final(e).log@[old(e).current@->0].last())),
        term_lowered(final(e).log@[old(e).current@->0].last(), *t, deep_values(params@), deep_values(results@).push(current@), blocks@),
{
    match t {
        Terminator::Jump { target, args } => {
            let args = lower_args(f, params, results, current, b, args);
            ins_jump(e, blocks[*target], &args);
        },
        Terminator::Branch { cond, then_block, then_args, else_block, else_args } => {
            let c = lookup(f, params, results, current, b, *cond);
            let then_args = lower_args(f, params, results, current, b, then_args);
            let else_args = lower_args(f, params, results, current, b, else_args);
            ins_brif(e, c, blocks[*then_block], &then_args, blocks[*else_block], &else_args);
        },
        Terminator::Return(v) => {
            let v = lookup(f, params, results, current, b, *v);
            ins_return(e, v);
        },
    }
}

/// Emits the whole of `f` through `e`: every block and its parameters
/// first, then each block's instructions and terminator in block order, and
/// finally seals every block. `ptr_ty` is the host's pointer type. Returns
/// the Cranelift blocks that stand for `f`'s blocks and the values that stand
/// for its parameters and results; each block's log is its lowering.
pub(crate) fn lower_function(e: &mut Emitter, f: &FunctionIr, ptr_ty: Type) -> (r: (
    Vec<Block>,
    Vec<Vec<Value>>,
    Vec<Vec<Value>>,
))
    requires
        valid_function(*f),
        old(e).blocks@.dom().is_empty(),
        old(e).log@.dom().is_empty(),
        old(e).current@ is None,
        !old(e).sealed@,
    ensures
        final(e).sealed@,
        forall|b: Block| #[trigger] final(e).blocks@.contains_key(b) ==> final(e).blocks@[b] != BlockState::Partial,
        r.0@.len() == f.blocks@.len(),
        forall|k: int| 0 <= k < f.blocks@.len() ==> block_lowered(*f, #[trigger] final(e).log@[r.0@[k]], r.0@, deep_values(r.1@), deep_values(r.2@), ptr_ty, k),
{
    let n = f.blocks.len();
    let mut blocks: Vec<Block> = Vec::new();
    let mut k: usize = 0;
    while k < n
        invariant
            n == f.blocks@.len(),
            k <= n,
            blocks@.len() == k,
            !e.sealed@,
            e.current@ is None,
            forall|j: int| 0 <= j < k ==> e.blocks@.contains_key(#[trigger] blocks@[j]),
            forall|j: int| 0 <= j < k ==> e.blocks@[#[trigger] blocks@[j]] == BlockState::Pristine,
            forall|j: int| 0 <= j < k ==> e.log@[#[trigger] blocks@[j]] == Seq::<Emitted>::empty(),
            forall|i: int, j: int| 0 <= i < j < k ==> blocks@[i] != blocks@[j],
            forall|b: Block| #[trigger] e.blocks@.contains_key(b) ==> e.blocks@[b] == BlockState::Pristine,
        decreases n - k,
    {
        let blk = create_block(e);
        blocks.push(blk);
        k = k + 1;
    }
    let mut params: Vec<Vec<Value>> = Vec::new();
    k = 0;
    while k < n
        invariant
            n == f.blocks@.len(),
            blocks@.len() == n,
            k <= n,
            params@.len() == k,
            forall|m: int| 0 <= m < k ==> (#[trigger] params@[m])@.len() == f.blocks@[m].params@.len(),
            !e.sealed@,
            e.current@ is None,
            forall|j: int| 0 <= j < n ==> e.blocks@.contains_key(#[trigger] blocks@[j]),
            forall|j: int| 0 <= j < n ==> e.blocks@[#[trigger] blocks@[j]] == BlockState::Pristine,
            forall|i: int, j: int| 0 <= i < j < n ==> blocks@[i] != blocks@[j],
            forall|b: Block| #[trigger] e.blocks@.contains_key(b) ==> e.blocks@[b] == BlockState::Pristine,
            forall|j: int| k <= j < n ==> e.log@[#[trigger] blocks@[j]] == Seq::<Emitted>::empty(),
            forall|j: int| 0 <= j < k ==> (#[trigger] e.log@[blocks@[j]]).len() == f.blocks@[j].params@.len(),
            forall|j: int, p: int| 0 <= j < k && 0 <= p < f.blocks@[j].params@.len() ==> param_lowered(
                #[trigger] e.log@[blocks@[j]][p], f.blocks@[j].params@[p], blocks@[j], ptr_ty, params@[j]@[p]),
        decreases n - k,
    {
        let here = blocks[k];
        let mut ps: Vec<Value> = Vec::new();
        let mut p: usize = 0;
        while p < f.blocks[k].params.len()
            invariant
                n == f.blocks@.len(),
                blocks@.len() == n,
                k < n,
                here == blocks@[k as int],
                p <= f.blocks@[k as int].params@.len(),
                ps@.len() == p,
                params@.len() == k,
                !e.sealed@,
                e.current@ is None,
                forall|j: int| 0 <= j < n ==> e.blocks@.contains_key(#[trigger] blocks@[j]),
                forall|j: int| 0 <= j < n ==> e.blocks@[#[trigger] blocks@[j]] == BlockState::Pristine,
                forall|i: int, j: int| 0 <= i < j < n ==> blocks@[i] != blocks@[j],
                forall|b: Block| #[trigger] e.blocks@.contains_key(b) ==> e.blocks@[b] == BlockState::Pristine,
                forall|j: int| k < j < n ==> e.log@[#[trigger] blocks@[j]] == Seq::<Emitted>::empty(),
                forall|j: int| 0 <= j < k ==> (#[trigger] e.log@[blocks@[j]]).len() == f.blocks@[j].params@.len(),
                forall|j: int, q: int| 0 <= j < k && 0 <= q < f.blocks@[j].params@.len() ==> param_lowered(
                    #[trigger] e.log@[blocks@[j]][q], f.blocks@[j].params@[q], blocks@[j], ptr_ty, params@[j]@[q]),
                e.log@[here].len() == p,
                forall|q: int| 0 <= q < p ==> param_lowered(#[trigger] e.log@[here][q], f.blocks@[k as int].params@[q], here, ptr_ty, ps@[q]),
            decreases f.blocks@[k as int].params@.len() - p,
        {
            let ty = kind_type(ptr_ty, f.blocks[k].params[p]);
            let v = append_block_param(e, here, ty);
            ps.push(v);
            p = p + 1;
        }
        params.push(ps);
        k = k + 1;
    }
    let ghost pv = deep_values(params@);
    assert forall|j: int| 0 <= j < n implies block_log(*f, #[trigger] e.log@[blocks@[j]], blocks@, pv, deep_values(Seq::<Vec<Value>>::empty()), ptr_ty, j, f.blocks@[j].params@.len() as int, 0, false) by {
        assert(pv[j] == params@[j]@);
    }
    let mut results: Vec<Vec<Value>> = Vec::new();
    k = 0;
    while k < n
        invariant
            valid_function(*f),
            n == f.blocks@.len(),
            blocks@.len() == n,
            k <= n,
            params@.len() == n,
            pv == deep_values(params@),
            forall|m: int| 0 <= m < n ==> (#[trigger] params@[m])@.len() == f.blocks@[m].params@.len(),
            results@.len() == k,
            forall|m: int| 0 <= m < k ==> (#[trigger] results@[m])@.len() == f.blocks@[m].insts@.len(),
            !e.sealed@,
            e.current@ matches Some(c) ==> e.blocks@.contains_key(c),
            forall|j: int| 0 <= j < n ==> e.blocks@.contains_key(#[trigger] blocks@[j]),
            forall|j: int| k <= j < n ==> e.blocks@[#[trigger] blocks@[j]] == BlockState::Pristine,
            forall|i: int, j: int| 0 <= i < j < n ==> blocks@[i] != blocks@[j],
            forall|b: Block| #[trigger] e.blocks@.contains_key(b) ==> e.blocks@[b] != BlockState::Partial,
            forall|j: int| 0 <= j < k ==> block_lowered(*f, #[trigger] e.log@[blocks@[j]], blocks@, pv, deep_values(results@), ptr_ty, j),
            forall|j: int| k <= j < n ==> block_log(*f, #[trigger] e.log@[blocks@[j]], blocks@, pv, deep_values(results@), ptr_ty, j, f.blocks@[j].params@.len() as int, 0, false),
        decreases n - k,
    {
        let here = blocks[k];
        switch_to_block(e, here);
        let mut current: Vec<Value> = Vec::new();
        let ghost done = deep_values(results@);
        assert(block_log(*f, e.log@[here], blocks@, pv, done.push(current@), ptr_ty, k as int, f.blocks@[k as int].params@.len() as int, 0, false));
        let mut i: usize = 0;
        while i < f.blocks[k].insts.len()
            invariant
                valid_function(*f),
                values_cover(*f, params@, results@, k as int),
                i <= f.blocks@[k as int].insts@.len(),
                current@.len() == i,
                n == f.blocks@.len(),
                blocks@.len() == n,
                here == blocks@[k as int],
                pv == deep_values(params@),
                done == deep_values(results@),
                !e.sealed@,
                e.current@ == Some(here),
                e.blocks@.contains_key(here),
                e.blocks@[here] != BlockState::Filled,
                forall|j: int| 0 <= j < n ==> e.blocks@.contains_key(#[trigger] blocks@[j]),
                forall|j: int| k < j < n ==> e.blocks@[#[trigger] blocks@[j]] == BlockState::Pristine,
                forall|i2: int, j: int| 0 <= i2 < j < n ==> blocks@[i2] != blocks@[j],
                forall|b: Block| #[trigger] e.blocks@.contains_key(b) && b != here ==> e.blocks@[b] != BlockState::Partial,
                forall|j: int| 0 <= j < k ==> block_lowered(*f, #[trigger] e.log@[blocks@[j]], blocks@, pv, done, ptr_ty, j),
                forall|j: int| k < j < n ==> block_log(*f, #[trigger] e.log@[blocks@[j]], blocks@, pv, done, ptr_ty, j, f.blocks@[j].params@.len() as int, 0, false),
                block_log(*f, e.log@[here], blocks@, pv, done.push(current@), ptr_ty, k as int, f.blocks@[k as int].params@.len() as int, i as int, false),
            decreases f.blocks@[k as int].insts@.len() - i,
        {
            let op = f.blocks[k].insts[i];
            assert(op_ok(*f, k as int, i as int, op));
            let ghost before = done.push(current@);
            let ghost old_log = e.log@[here];
            let v = lower_op(e, f, &params, &results, &current, k, op, ptr_ty);
            current.push(v);
            proof {
                let after = done.push(current@);
                assert(agree(before, after, k as int, i as int));
                lemma_block_log_agrees(*f, old_log, blocks@, pv, before, after, ptr_ty, k as int, i as int, false);
                lemma_op_agrees(*f, e.log@[here].last(), op, pv, before, after, ptr_ty, v, k as int, i as int);
                let pn = f.blocks@[k as int].params@.len() as int;
                assert forall|i3: int| 0 <= i3 < i + 1 implies op_lowered(#[trigger] e.log@[here][pn + i3], f.blocks@[k as int].insts@[i3], pv, after, ptr_ty, after[k as int][i3]) by {
                    if i3 < i {
                        assert(e.log@[here][pn + i3] == old_log[pn + i3]);
                    }
                }
                assert forall|q: int| 0 <= q < pn implies param_lowered(#[trigger] e.log@[here][q], f.blocks@[k as int].params@[q], blocks@[k as int], ptr_ty, pv[k as int][q]) by {
                    assert(e.log@[here][q] == old_log[q]);
                }
            }
            i = i + 1;
        }
        assert(f.blocks@[k as int].terminator is Some);
        let ghost before_term = e.log@[here];
        match &f.blocks[k].terminator {
            Some(t) => {
                assert(terminator_ok(*f, k as int, *t));
                lower_terminator(e, f, &blocks, &params, &results, &current, k, t);
            },
            None => {},
        }
        proof {
            let pn = f.blocks@[k as int].params@.len() as int;
            let il = f.blocks@[k as int].insts@.len() as int;
            let rr = done.push(current@);
            assert forall|i3: int| 0 <= i3 < il implies op_lowered(#[trigger] e.log@[here][pn + i3], f.blocks@[k as int].insts@[i3], pv, rr, ptr_ty, rr[k as int][i3]) by {
                assert(e.log@[here][pn + i3] == before_term[pn + i3]);
            }
            assert forall|q: int| 0 <= q < pn implies param_lowered(#[trigger] e.log@[here][q], f.blocks@[k as int].params@[q], blocks@[k as int], ptr_ty, pv[k as int][q]) by {
                assert(e.log@[here][q] == before_term[q]);
            }
            assert(block_lowered(*f, e.log@[here], blocks@, pv, rr, ptr_ty, k as int));
        }
        results.push(current);
        proof {
            let now = deep_values(results@);
            assert(now =~= done.push(current@));
            assert forall|j: int| 0 <= j < k implies block_lowered(*f, #[trigger] e.log@[blocks@[j]], blocks@, pv, now, ptr_ty, j) by {
                assert(blocks@[j] != here);
                assert(agree(done, now, j, f.blocks@[j].insts@.len() as int));
                lemma_block_log_agrees(*f, e.log@[blocks@[j]], blocks@, pv, done, now, ptr_ty, j, f.blocks@[j].insts@.len() as int, true);
            }
            assert forall|j: int| k < j < n implies block_log(*f, #[trigger] e.log@[blocks@[j]], blocks@, pv, now, ptr_ty, j, f.blocks@[j].params@.len() as int, 0, false) by {
                assert(blocks@[j] != here);
            }
        }
        k = k + 1;
    }
    seal_all_blocks(e);
    (blocks, params, results)
}

} // verus!

//! What an IR function computes: a reference semantics over a byte memory,
//! and an interpreter proved to follow it.
//!
//! Every value is a 64-bit word; a pointer is an offset into the memory.
//! Arithmetic wraps, shift amounts are taken modulo 64, a comparison gives
//! 1 or 0, and a load outside the memory faults.
use vstd::prelude::*;
use crate::ir::{
    Cond, FunctionIr, Op, Operand, Terminator, valid_function, operand_ok, op_ok, args_ok,
    terminator_ok,
};
use crate::sum::{le_word, load_word_le};

verus! {

/// The contents of a list of lists of words.
pub open spec fn deep(v: Seq<Vec<u64>>) -> Seq<Seq<u64>> {
    v.map_values(|x: Vec<u64>| x@)
}

/// The value of `o` in block `b`, given the current parameters of every
/// block, the latest results of every block, and the results of `b` so far.
pub open spec fn operand_value(
    params: Seq<Seq<u64>>,
    results: Seq<Seq<u64>>,
    cur: Seq<u64>,
    b: int,
    o: Operand,
) -> u64 {
    match o {
        Operand::Param { block, index } => params[block as int][index as int],
        Operand::Result { block, index } => if block == b {
            cur[index as int]
        } else {
            results[block as int][index as int]
        },
    }
}

pub open spec fn compare(c: Cond, x: u64, y: u64) -> bool {
    match c {
        Cond::Equal => x == y,
        Cond::UnsignedLess => x < y,
        Cond::UnsignedGreaterOrEqual => x >= y,
        Cond::UnsignedGreater => x > y,
    }
}

/// The value an instruction produces, or `None` where it faults.
pub open spec fn op_value(
    mem: Seq<u8>,
    params: Seq<Seq<u64>>,
    results: Seq<Seq<u64>>,
    cur: Seq<u64>,
    b: int,
    op: Op,
) -> Option<u64> {
    let v = |o: Operand| operand_value(params, results, cur, b, o);
    match op {
        Op::Const { value, .. } => Some(value),
        Op::Add(x, y) => Some(v(x).wrapping_add(v(y))),
        Op::Sub(x, y) => Some(v(x).wrapping_sub(v(y))),
        Op::And(x, y) => Some(v(x) & v(y)),
        Op::ShiftRight(x, n) => Some(v(x) >> ((n % 64) as u64)),
        Op::LoadByte(a) => if v(a) < mem.len() {
            Some(mem[v(a) as int] as u64)
        } else {
            None
        },
        Op::LoadWord { addr, offset } => if v(addr) + offset + 8 <= mem.len() {
            Some(le_word(mem, v(addr) + offset))
        } else {
            None
        },
        Op::Compare(c, x, y) => Some(
            if compare(c, v(x), v(y)) {
                1u64
            } else {
                0u64
            },
        ),
    }
}

/// The results of the first `n` instructions of block `b`, or `None` if one faults.
pub open spec fn block_prefix(
    f: FunctionIr,
    mem: Seq<u8>,
    params: Seq<Seq<u64>>,
    results: Seq<Seq<u64>>,
    b: int,
    n: nat,
) -> Option<Seq<u64>>
    decreases n,
{
    if n == 0 {
        Some(Seq::empty())
    } else {
        match block_prefix(f, mem, params, results, b, (n - 1) as nat) {
            None => None,
            Some(cur) => match op_value(mem, params, results, cur, b, f.blocks@[b].insts@[n - 1]) {
                None => None,
                Some(x) => Some(cur.push(x)),
            },
        }
    }
}

pub open spec fn arg_values(
    params: Seq<Seq<u64>>,
    results: Seq<Seq<u64>>,
    cur: Seq<u64>,
    b: int,
    args: Seq<Operand>,
) -> Seq<u64> {
    args.map_values(|o: Operand| operand_value(params, results, cur, b, o))
}

/// The result of running `f` from the start of block `b` for at most `fuel`
/// blocks: `None` on a fault, an argument count mismatch, or running out of fuel.
pub open spec fn run_from(
    f: FunctionIr,
    mem: Seq<u8>,
    b: int,
    params: Seq<Seq<u64>>,
    results: Seq<Seq<u64>>,
    fuel: nat,
) -> Option<u64>
    decreases fuel,
{
    if fuel == 0 {
        None
    } else {
        match block_prefix(f, mem, params, results, b, f.blocks@[b].insts@.len()) {
            None => None,
            Some(cur) => match f.blocks@[b].terminator {
                Some(Terminator::Return(v)) => Some(operand_value(params, results, cur, b, v)),
                Some(Terminator::Jump { target, args }) => if args@.len()
                    == f.blocks@[target as int].params@.len() {
                    run_from(
                        f,
                        mem,
                        target as int,
                        params.update(target as int, arg_values(params, results, cur, b, args@)),
                        results.update(b, cur),
                        (fuel - 1) as nat,
                    )
                } else {
                    None
                },
                Some(Terminator::Branch { cond, then_block, then_args, else_block, else_args }) => {
                    let taken = operand_value(params, results, cur, b, cond) != 0;
                    let target = if taken {
                        then_block
                    } else {
                        else_block
                    };
                    let args = if taken {
                        then_args
                    } else {
                        else_args
                    };
                    if args@.len() == f.blocks@[target as int].params@.len() {
                        run_from(
                            f,
                            mem,
                            target as int,
                            params.update(
                                target as int,
                                arg_values(params, results, cur, b, args@),
                            ),
                            results.update(b, cur),
                            (fuel - 1) as nat,
                        )
                    } else {
                        None
                    }
                },
                None => None,
            },
        }
    }
}

/// Zero words in the shape of every block's parameters.
pub open spec fn zero_params(f: FunctionIr) -> Seq<Seq<u64>> {
    Seq::new(f.blocks@.len(), |k: int| Seq::new(f.blocks@[k].params@.len(), |j: int| 0u64))
}

/// Zero words in the shape of every block's results.
pub open spec fn zero_results(f: FunctionIr) -> Seq<Seq<u64>> {
    Seq::new(f.blocks@.len(), |k: int| Seq::new(f.blocks@[k].insts@.len(), |j: int| 0u64))
}

/// The result of calling `f` with `args` over `mem`, within `fuel` blocks.
pub open spec fn run_spec(f: FunctionIr, mem: Seq<u8>, args: Seq<u64>, fuel: nat) -> Option<u64> {
    if args.len() != f.blocks@[0].params@.len() {
        None
    } else {
        run_from(f, mem, 0, zero_params(f).update(0, args), zero_results(f), fuel)
    }
}

/// The word shapes match the function's blocks.
pub open spec fn shaped(f: FunctionIr, params: Seq<Seq<u64>>, results: Seq<Seq<u64>>) -> bool {
    &&& params.len() == f.blocks@.len()
    &&& results.len() == f.blocks@.len()
    &&& forall|k: int| 0 <= k < params.len() ==> (#[trigger] params[k]).len() == f.blocks@[k].params@.len()
    &&& forall|k: int| 0 <= k < results.len() ==> (#[trigger] results[k]).len() == f.blocks@[k].insts@.len()
}

fn operand_word(
    f: &FunctionIr,
    params: &Vec<Vec<u64>>,
    results: &Vec<Vec<u64>>,
    cur: &Vec<u64>,
    b: usize,
    i: usize,
    o: Operand,
) -> (r: u64)
    requires
        b < f.blocks@.len(),
        shaped(*f, deep(params@), deep(results@)),
        i <= cur@.len(),
        operand_ok(*f, b as int, i as int, o),
    ensures
        r == operand_value(deep(params@), deep(results@), cur@, b as int, o),
{
    match o {
        Operand::Param { block, index } => {
            assert(deep(params@)[block as int] == params@[block as int]@);
            params[block][index]
        },
        Operand::Result { block, index } => if block == b {
            cur[index]
        } else {
            assert(deep(results@)[block as int] == results@[block as int]@);
            results[block][index]
        },
    }
}

fn op_word(
    f: &FunctionIr,
    mem: &[u8],
    params: &Vec<Vec<u64>>,
    results: &Vec<Vec<u64>>,
    cur: &Vec<u64>,
    b: usize,
    op: Op,
) -> (r: Option<u64>)
    requires
        b < f.blocks@.len(),
        shaped(*f, deep(params@), deep(results@)),
        op_ok(*f, b as int, cur@.len() as int, op),
    ensures
        r == op_value(mem@, deep(params@), deep(results@), cur@, b as int, op),
{
    let i = cur.len();
    match op {
        Op::Const { value, .. } => Some(value),
        Op::Add(x, y) => {
            let x = operand_word(f, params, results, cur, b, i, x);
            let y = operand_word(f, params, results, cur, b, i, y);
            Some(x.wrapping_add(y))
        },
        Op::Sub(x, y) => {
            let x = operand_word(f, params, results, cur, b, i, x);
            let y = operand_word(f, params, results, cur, b, i, y);
            Some(x.wrapping_sub(y))
        },
        Op::And(x, y) => {
            let x = operand_word(f, params, results, cur, b, i, x);
            let y = operand_word(f, params, results, cur, b, i, y);
            Some(x & y)
        },
        Op::ShiftRight(x, n) => {
            let x = operand_word(f, params, results, cur, b, i, x);
            Some(x >> ((n % 64) as u64))
        },
        Op::LoadByte(a) => {
            let a = operand_word(f, params, results, cur, b, i, a);
            if a < mem.len() as u64 {
                Some(mem[a as usize] as u64)
            } else {
                None
            }
        },
        Op::LoadWord { addr, offset } => {
            let a = operand_word(f, params, results, cur, b, i, addr);
            if a <= mem.len() as u64 && (offset as u64) + 8 <= mem.len() as u64 - a {
                Some(load_word_le(mem, (a + offset as u64) as usize))
            } else {
                None
            }
        },
        Op::Compare(c, x, y) => {
            let x = operand_word(f, params, results, cur, b, i, x);
            let y = operand_word(f, params, results, cur, b, i, y);
            let holds = match c {
                Cond::Equal => x == y,
                Cond::UnsignedLess => x < y,
                Cond::UnsignedGreaterOrEqual => x >= y,
                Cond::UnsignedGreater => x > y,
            };
            Some(
                if holds {
                    1u64
                } else {
                    0u64
                },
            )
        },
    }
}

/// Once an instruction faults, every longer prefix of the block faults too.
proof fn lemma_prefix_fault_stays(
    f: FunctionIr,
    mem: Seq<u8>,
    params: Seq<Seq<u64>>,
    results: Seq<Seq<u64>>,
    b: int,
    i: nat,
    m: nat,
)
    requires
        i <= m,
        block_prefix(f, mem, params, results, b, i) is None,
    ensures
        block_prefix(f, mem, params, results, b, m) is None,
    decreases m - i,
{
    if i < m {
        lemma_prefix_fault_stays(f, mem, params, results, b, i, (m - 1) as nat);
    }
}

/// Runs the instructions of block `b`, giving their results, or `None` if one faults.
fn run_block(
    f: &FunctionIr,
    mem: &[u8],
    params: &Vec<Vec<u64>>,
    results: &Vec<Vec<u64>>,
    b: usize,
) -> (r: Option<Vec<u64>>)
    requires
        valid_function(*f),
        b < f.blocks@.len(),
        shaped(*f, deep(params@), deep(results@)),
    ensures
        r matches Some(c) ==> block_prefix(*f, mem@, deep(params@), deep(results@), b as int, f.blocks@[b as int].insts@.len()) == Some(c@),
        r is None ==> block_prefix(*f, mem@, deep(params@), deep(results@), b as int, f.blocks@[b as int].insts@.len()) is None,
        r matches Some(c) ==> c@.len() == f.blocks@[b as int].insts@.len(),
{
    let n = f.blocks[b].insts.len();
    let mut cur: Vec<u64> = Vec::new();
    let mut i: usize = 0;
    while i < n
        invariant
            valid_function(*f),
            b < f.blocks@.len(),
            n == f.blocks@[b as int].insts@.len(),
            shaped(*f, deep(params@), deep(results@)),
            i <= n,
            cur@.len() == i,
            block_prefix(*f, mem@, deep(params@), deep(results@), b as int, i as nat) == Some(cur@),
        decreases n - i,
    {
        assert(op_ok(*f, b as int, i as int, f.blocks@[b as int].insts@[i as int]));
        match op_word(f, mem, params, results, &cur, b, f.blocks[b].insts[i]) {
            Some(x) => {
                cur.push(x);
            },
            None => {
                proof {
                    lemma_prefix_fault_stays(*f, mem@, deep(params@), deep(results@), b as int, (i + 1) as nat, n as nat);
                }
                return None;
            },
        }
        i = i + 1;
    }
    Some(cur)
}

/// The words passed along an edge out of block `b`.
fn arg_words(
    f: &FunctionIr,
    params: &Vec<Vec<u64>>,
    results: &Vec<Vec<u64>>,
    cur: &Vec<u64>,
    b: usize,
    args: &Vec<Operand>,
) -> (r: Vec<u64>)
    requires
        b < f.blocks@.len(),
        shaped(*f, deep(params@), deep(results@)),
        cur@.len() == f.blocks@[b as int].insts@.len(),
        args_ok(*f, b as int, args@),
    ensures
        r@ == arg_values(deep(params@), deep(results@), cur@, b as int, args@),
{
    let mut out: Vec<u64> = Vec::new();
    let mut k: usize = 0;
    while k < args.len()
        invariant
            b < f.blocks@.len(),
            shaped(*f, deep(params@), deep(results@)),
            cur@.len() == f.blocks@[b as int].insts@.len(),
            args_ok(*f, b as int, args@),
            k <= args@.len(),
            out@ == arg_values(deep(params@), deep(results@), cur@, b as int, args@.subrange(0, k as int)),
        decreases args@.len() - k,
    {
        let x = operand_word(f, params, results, cur, b, cur.len(), args[k]);
        out.push(x);
        proof {
            assert(args@.subrange(0, k + 1) =~= args@.subrange(0, k as int).push(args@[k as int]));
            assert(out@ =~= arg_values(deep(params@), deep(results@), cur@, b as int, args@.subrange(0, k + 1)));
        }
        k = k + 1;
    }
    assert(args@.subrange(0, args@.len() as int) =~= args@);
    out
}

/// `n` zero words.
fn zeros(n: usize) -> (r: Vec<u64>)
    ensures
        r@ == Seq::new(n as nat, |j: int| 0u64),
{
    let mut out: Vec<u64> = Vec::new();
    while out.len() < n
        invariant
            out@.len() <= n,
            out@ == Seq::new(out@.len(), |j: int| 0u64),
        decreases n - out@.len(),
    {
        out.push(0);
        assert(out@ =~= Seq::new(out@.len(), |j: int| 0u64));
    }
    out
}

/// Runs `f` on `args` over the memory `mem` for at most `fuel` blocks.
pub fn run(f: &FunctionIr, mem: &[u8], args: &Vec<u64>, fuel: u64) -> (r: Option<u64>)
    requires
        valid_function(*f),
    ensures
        r == run_spec(*f, mem@, args@, fuel as nat),
{
    let n = f.blocks.len();
    if args.len() != f.blocks[0].params.len() {
        return None;
    }
    let mut params: Vec<Vec<u64>> = Vec::new();
    let mut results: Vec<Vec<u64>> = Vec::new();
    let mut k: usize = 0;
    while k < n
        invariant
            n == f.blocks@.len(),
            k <= n,
            args@.len() == f.blocks@[0].params@.len(),
            params@.len() == k,
            results@.len() == k,
            forall|m: int| 0 <= m < k ==> (#[trigger] params@[m])@ == zero_params(*f).update(0, args@)[m],
            forall|m: int| 0 <= m < k ==> (#[trigger] results@[m])@ == zero_results(*f)[m],
        decreases n - k,
    {
        if k == 0 {
            let mut a: Vec<u64> = Vec::new();
            let mut j: usize = 0;
            while j < args.len()
                invariant
                    j <= args@.len(),
                    a@ == args@.subrange(0, j as int),
                decreases args@.len() - j,
            {
                a.push(args[j]);
                assert(a@ =~= args@.subrange(0, j + 1));
                j = j + 1;
            }
            assert(a@ =~= args@);
            params.push(a);
        } else {
            params.push(zeros(f.blocks[k].params.len()));
        }
        results.push(zeros(f.blocks[k].insts.len()));
        k = k + 1;
    }
    assert(deep(params@) =~= zero_params(*f).update(0, args@));
    assert(deep(results@) =~= zero_results(*f));
    let mut b: usize = 0;
    let mut left: u64 = fuel;
    loop
        invariant
            valid_function(*f),
            n == f.blocks@.len(),
            b < n,
            shaped(*f, deep(params@), deep(results@)),
            run_spec(*f, mem@, args@, fuel as nat) == run_from(*f, mem@, b as int, deep(params@), deep(results@), left as nat),
        decreases left,
    {
        if left == 0 {
            return None;
        }
        let cur = match run_block(f, mem, &params, &results, b) {
            Some(c) => c,
            None => return None,
        };
        assert(terminator_ok(*f, b as int, f.blocks@[b as int].terminator->0));
        let (target, edge) = match &f.blocks[b].terminator {
            Some(Terminator::Return(v)) => {
                return Some(operand_word(f, &params, &results, &cur, b, cur.len(), *v));
            },
            Some(Terminator::Jump { target, args }) => (*target, args),
            Some(Terminator::Branch { cond, then_block, then_args, else_block, else_args }) => {
                if operand_word(f, &params, &results, &cur, b, cur.len(), *cond) != 0 {
                    (*then_block, then_args)
                } else {
                    (*else_block, else_args)
                }
            },
            None => return None,
        };
        if edge.len() != f.blocks[target].params.len() {
            return None;
        }
        let vals = arg_words(f, &params, &results, &cur, b, edge);
        let ghost ps0 = deep(params@);
        let ghost rs0 = deep(results@);
        params.set(target, vals);
        results.set(b, cur);
        assert(deep(params@) =~= ps0.update(target as int, vals@));
        assert(deep(results@) =~= rs0.update(b as int, cur@));
        b = target;
        left = left - 1;
    }
}

} // verus!

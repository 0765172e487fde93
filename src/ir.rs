//! An SSA intermediate representation for small integer kernels, and the
//! builder that enforces its sealing and termination discipline.
use vstd::prelude::*;

verus! {

/// The kind of a value: pointer-sized, or a 64-bit integer.
#[derive(Clone, Copy, PartialEq, Eq, Structural, Debug)]
pub enum ValueKind {
    Pointer,
    Int64,
}

/// A value: a parameter of a block, or the result of an instruction.
#[derive(Clone, Copy, PartialEq, Eq, Structural, Debug)]
pub enum Operand {
    Param { block: usize, index: usize },
    Result { block: usize, index: usize },
}

/// An unsigned integer comparison.
#[derive(Clone, Copy, PartialEq, Eq, Structural, Debug)]
pub enum Cond {
    Equal,
    UnsignedLess,
    UnsignedGreaterOrEqual,
    UnsignedGreater,
}

/// A non-terminating instruction; each one produces exactly one value.
#[derive(Clone, Copy, PartialEq, Eq, Structural, Debug)]
pub enum Op {
    Const { kind: ValueKind, value: u64 },
    Add(Operand, Operand),
    Sub(Operand, Operand),
    And(Operand, Operand),
    ShiftRight(Operand, u8),
    /// Loads one byte at the address and widens it to 64 bits.
    LoadByte(Operand),
    /// Loads the 64-bit word at the address plus the offset.
    LoadWord { addr: Operand, offset: u8 },
    Compare(Cond, Operand, Operand),
}

/// The instruction that ends a block.
#[derive(Debug)]
pub enum Terminator {
    Jump { target: usize, args: Vec<Operand> },
    Branch {
        cond: Operand,
        then_block: usize,
        then_args: Vec<Operand>,
        else_block: usize,
        else_args: Vec<Operand>,
    },
    Return(Operand),
}

/// A basic block: its parameters, its instructions, its terminator once
/// emitted, and whether all its predecessors are known.
#[derive(Debug)]
pub struct BlockData {
    pub params: Vec<ValueKind>,
    pub insts: Vec<Op>,
    pub terminator: Option<Terminator>,
    pub sealed: bool,
}

/// A function: its signature and its blocks; block 0 is the entry.
#[derive(Debug)]
pub struct FunctionIr {
    pub params: Vec<ValueKind>,
    pub results: Vec<ValueKind>,
    pub blocks: Vec<BlockData>,
}

/// What the builder refuses.
#[derive(Clone, Copy, PartialEq, Eq, Structural, Debug)]
pub enum IrError {
    /// A signature without parameters or without a return value.
    EmptySignature,
    /// An edge into a block that was already sealed.
    UnsealedPredecessor,
    /// A block left unsealed or without a terminator, or no block at all.
    IncompleteFunction,
}

/// `o` may be used by instruction `i` of block `b`: a parameter of an existing
/// block, an earlier result of `b`, or a result of an earlier block.
pub open spec fn operand_ok(f: FunctionIr, b: int, i: int, o: Operand) -> bool {
    match o {
        Operand::Param { block, index } => block < f.blocks@.len() && index
            < f.blocks@[block as int].params@.len(),
        Operand::Result { block, index } => (block < b && block < f.blocks@.len() && index
            < f.blocks@[block as int].insts@.len()) || (block == b && index < i),
    }
}

pub open spec fn op_ok(f: FunctionIr, b: int, i: int, op: Op) -> bool {
    match op {
        Op::Const { .. } => true,
        Op::Add(x, y) => operand_ok(f, b, i, x) && operand_ok(f, b, i, y),
        Op::Sub(x, y) => operand_ok(f, b, i, x) && operand_ok(f, b, i, y),
        Op::And(x, y) => operand_ok(f, b, i, x) && operand_ok(f, b, i, y),
        Op::ShiftRight(x, _) => operand_ok(f, b, i, x),
        Op::LoadByte(x) => operand_ok(f, b, i, x),
        Op::LoadWord { addr, .. } => operand_ok(f, b, i, addr),
        Op::Compare(_, x, y) => operand_ok(f, b, i, x) && operand_ok(f, b, i, y),
    }
}

/// Every operand may be used at the end of block `b`.
pub open spec fn args_ok(f: FunctionIr, b: int, args: Seq<Operand>) -> bool {
    forall|k: int|
        0 <= k < args.len() ==> operand_ok(f, b, f.blocks@[b].insts@.len() as int, #[trigger] args[k])
}

pub open spec fn terminator_ok(f: FunctionIr, b: int, t: Terminator) -> bool {
    let end = f.blocks@[b].insts@.len() as int;
    match t {
        Terminator::Jump { target, args } => target < f.blocks@.len() && args_ok(f, b, args@),
        Terminator::Branch { cond, then_block, then_args, else_block, else_args } => operand_ok(
            f,
            b,
            end,
            cond,
        ) && then_block < f.blocks@.len() && else_block < f.blocks@.len() && args_ok(
            f,
            b,
            then_args@,
        ) && args_ok(f, b, else_args@),
        Terminator::Return(v) => operand_ok(f, b, end, v),
    }
}

/// Every operand refers to a value that exists where it is used.
pub open spec fn well_formed(f: FunctionIr) -> bool {
    &&& forall|b: int, i: int|
        0 <= b < f.blocks@.len() && 0 <= i < f.blocks@[b].insts@.len() ==> op_ok(
            f,
            b,
            i,
            #[trigger] f.blocks@[b].insts@[i],
        )
    &&& forall|b: int|
        0 <= b < f.blocks@.len() && (#[trigger] f.blocks@[b]).terminator is Some ==> terminator_ok(
            f,
            b,
            f.blocks@[b].terminator->0,
        )
}

/// Every block is terminated and sealed.
pub open spec fn complete(f: FunctionIr) -> bool {
    &&& f.blocks@.len() > 0
    &&& forall|b: int|
        0 <= b < f.blocks@.len() ==> (#[trigger] f.blocks@[b]).terminator is Some
            && f.blocks@[b].sealed
}

/// A function that is ready to be lowered to machine code.
pub open spec fn valid_function(f: FunctionIr) -> bool {
    &&& well_formed(f)
    &&& complete(f)
    &&& f.params@.len() > 0
    &&& f.results@.len() > 0
}

/// A block with neither instructions nor a terminator.
pub open spec fn pristine(d: BlockData) -> bool {
    d.insts@.len() == 0 && d.terminator is None
}

/// `d2` is `d1` grown: parameters and instructions only appended, and a
/// terminated block left as it was.
pub open spec fn block_extends(d1: BlockData, d2: BlockData) -> bool {
    &&& d1.params@.len() <= d2.params@.len()
    &&& d1.insts@.len() <= d2.insts@.len()
    &&& forall|i: int| 0 <= i < d1.insts@.len() ==> d2.insts@[i] == #[trigger] d1.insts@[i]
    &&& d1.terminator is Some ==> d2.terminator == d1.terminator && d2.insts@.len()
        == d1.insts@.len()
}

/// `f2` is `f1` grown block by block, possibly with more blocks.
pub open spec fn extends(f1: FunctionIr, f2: FunctionIr) -> bool {
    &&& f1.blocks@.len() <= f2.blocks@.len()
    &&& forall|b: int|
        0 <= b < f1.blocks@.len() ==> block_extends(#[trigger] f1.blocks@[b], f2.blocks@[b])
}

pub proof fn lemma_operand_grows(f1: FunctionIr, f2: FunctionIr, b: int, i: int, o: Operand)
    requires
        extends(f1, f2),
        operand_ok(f1, b, i, o),
    ensures
        operand_ok(f2, b, i, o),
{
    match o {
        Operand::Param { block, .. } => {
            assert(block_extends(f1.blocks@[block as int], f2.blocks@[block as int]));
        },
        Operand::Result { block, .. } => {
            if block < b {
                assert(block_extends(f1.blocks@[block as int], f2.blocks@[block as int]));
            }
        },
    }
}

pub proof fn lemma_op_grows(f1: FunctionIr, f2: FunctionIr, b: int, i: int, op: Op)
    requires
        extends(f1, f2),
        op_ok(f1, b, i, op),
    ensures
        op_ok(f2, b, i, op),
{
    match op {
        Op::Const { .. } => {},
        Op::Add(x, y) => {
            lemma_operand_grows(f1, f2, b, i, x);
            lemma_operand_grows(f1, f2, b, i, y);
        },
        Op::Sub(x, y) => {
            lemma_operand_grows(f1, f2, b, i, x);
            lemma_operand_grows(f1, f2, b, i, y);
        },
        Op::And(x, y) => {
            lemma_operand_grows(f1, f2, b, i, x);
            lemma_operand_grows(f1, f2, b, i, y);
        },
        Op::ShiftRight(x, _) => lemma_operand_grows(f1, f2, b, i, x),
        Op::LoadByte(x) => lemma_operand_grows(f1, f2, b, i, x),
        Op::LoadWord { addr, .. } => lemma_operand_grows(f1, f2, b, i, addr),
        Op::Compare(_, x, y) => {
            lemma_operand_grows(f1, f2, b, i, x);
            lemma_operand_grows(f1, f2, b, i, y);
        },
    }
}

/// Arguments usable at the end of block `b` stay usable when `b` keeps its length.
pub proof fn lemma_args_grow(f1: FunctionIr, f2: FunctionIr, b: int, args: Seq<Operand>)
    requires
        extends(f1, f2),
        0 <= b < f1.blocks@.len(),
        f2.blocks@[b].insts@.len() == f1.blocks@[b].insts@.len(),
        args_ok(f1, b, args),
    ensures
        args_ok(f2, b, args),
{
    assert forall|k: int| 0 <= k < args.len() implies operand_ok(
        f2,
        b,
        f2.blocks@[b].insts@.len() as int,
        #[trigger] args[k],
    ) by {
        lemma_operand_grows(f1, f2, b, f1.blocks@[b].insts@.len() as int, args[k]);
    }
}

pub proof fn lemma_terminator_grows(f1: FunctionIr, f2: FunctionIr, b: int, t: Terminator)
    requires
        extends(f1, f2),
        0 <= b < f1.blocks@.len(),
        f2.blocks@[b].insts@.len() == f1.blocks@[b].insts@.len(),
        terminator_ok(f1, b, t),
    ensures
        terminator_ok(f2, b, t),
{
    let end = f1.blocks@[b].insts@.len() as int;
    match t {
        Terminator::Jump { args, .. } => lemma_args_grow(f1, f2, b, args@),
        Terminator::Branch { cond, then_args, else_args, .. } => {
            lemma_operand_grows(f1, f2, b, end, cond);
            lemma_args_grow(f1, f2, b, then_args@);
            lemma_args_grow(f1, f2, b, else_args@);
        },
        Terminator::Return(v) => lemma_operand_grows(f1, f2, b, end, v),
    }
}

/// Growing a well-formed function keeps every old instruction and terminator
/// well-formed; only what was added remains to be checked.
pub proof fn lemma_well_formed_grows(f1: FunctionIr, f2: FunctionIr)
    requires
        well_formed(f1),
        extends(f1, f2),
    ensures
        forall|b: int, i: int|
            0 <= b < f1.blocks@.len() && 0 <= i < f1.blocks@[b].insts@.len() ==> op_ok(
                f2,
                b,
                i,
                #[trigger] f2.blocks@[b].insts@[i],
            ),
        forall|b: int|
            0 <= b < f1.blocks@.len() && (#[trigger] f1.blocks@[b]).terminator is Some
                ==> terminator_ok(f2, b, f2.blocks@[b].terminator->0),
{
    assert forall|b: int, i: int|
        0 <= b < f1.blocks@.len() && 0 <= i < f1.blocks@[b].insts@.len() implies op_ok(
        f2,
        b,
        i,
        #[trigger] f2.blocks@[b].insts@[i],
    ) by {
        assert(block_extends(f1.blocks@[b], f2.blocks@[b]));
        assert(op_ok(f1, b, i, f1.blocks@[b].insts@[i]));
        lemma_op_grows(f1, f2, b, i, f1.blocks@[b].insts@[i]);
    }
    assert forall|b: int|
        0 <= b < f1.blocks@.len() && (#[trigger] f1.blocks@[b]).terminator is Some
            implies terminator_ok(f2, b, f2.blocks@[b].terminator->0) by {
        assert(block_extends(f1.blocks@[b], f2.blocks@[b]));
        lemma_terminator_grows(f1, f2, b, f1.blocks@[b].terminator->0);
    }
}

/// `f2` is `f1` with the same signature and at most block `c` changed.
pub open spec fn same_except(f1: FunctionIr, f2: FunctionIr, c: int) -> bool {
    &&& f2.params == f1.params
    &&& f2.results == f1.results
    &&& f2.blocks@.len() == f1.blocks@.len()
    &&& forall|b: int| 0 <= b < f1.blocks@.len() && b != c ==> f2.blocks@[b] == #[trigger] f1.blocks@[b]
}

/// The one compilation session: the function under construction and the
/// block that the write cursor is in.
pub struct IrBuilder {
    pub func: FunctionIr,
    pub cursor: Option<usize>,
}

impl IrBuilder {
    /// The cursor, if set, names an existing block.
    pub open spec fn inv(&self) -> bool {
        &&& well_formed(self.func)
        &&& self.func.params@.len() > 0
        &&& self.func.results@.len() > 0
        &&& (self.cursor matches Some(c) ==> c < self.func.blocks@.len())
    }

    /// The block under the cursor accepts instructions.
    pub open spec fn open_block(&self) -> bool {
        self.cursor matches Some(c) && c < self.func.blocks@.len()
            && self.func.blocks@[c as int].terminator is None
    }

    pub open spec fn cur(&self) -> int {
        self.cursor->0 as int
    }

    /// `o` may be used at the current end of the block under the cursor.
    pub open spec fn available(&self, o: Operand) -> bool {
        operand_ok(self.func, self.cur(), self.func.blocks@[self.cur()].insts@.len() as int, o)
    }

    /// Starts a function with the given signature; both lists must be non-empty.
    pub fn new(params: Vec<ValueKind>, results: Vec<ValueKind>) -> (r: Result<IrBuilder, IrError>)
        ensures
            (params@.len() == 0 || results@.len() == 0) <==> r is Err,
            r is Err ==> r == Err::<IrBuilder, IrError>(IrError::EmptySignature),
            r matches Ok(b) ==> b.inv() && b.func.params@ == params@ && b.func.results@
                == results@ && b.func.blocks@.len() == 0 && b.cursor is None,
    {
        if params.len() == 0 || results.len() == 0 {
            return Err(IrError::EmptySignature);
        }
        Ok(IrBuilder { func: FunctionIr { params, results, blocks: Vec::new() }, cursor: None })
    }

    /// Adds a new, empty, unsealed block and results its index.
    pub fn create_block(&mut self) -> (r: usize)
        requires
            old(self).inv(),
        ensures
            final(self).inv(),
            r == old(self).func.blocks@.len(),
            final(self).func.blocks@ == old(self).func.blocks@.push(
                BlockData { params: final(self).func.blocks@[r as int].params, insts: final(self).func.blocks@[r as int].insts, terminator: None, sealed: false },
            ),
            final(self).func.blocks@.len() == old(self).func.blocks@.len() + 1,
            forall|b: int|
                0 <= b < old(self).func.blocks@.len() ==> final(self).func.blocks@[b]
                    == #[trigger] old(self).func.blocks@[b],
            final(self).func.blocks@[r as int].terminator is None,
            !final(self).func.blocks@[r as int].sealed,
            final(self).func.blocks@[r as int].params@.len() == 0,
            final(self).func.blocks@[r as int].insts@.len() == 0,
            final(self).func.params == old(self).func.params,
            final(self).func.results == old(self).func.results,
            final(self).cursor == old(self).cursor,
    {
        let r = self.func.blocks.len();
        let d = BlockData { params: Vec::new(), insts: Vec::new(), terminator: None, sealed: false };
        self.func.blocks.push(d);
        proof {
            lemma_well_formed_grows(old(self).func, self.func);
        }
        r
    }

    /// Appends a parameter of the given kind to `block`.
    pub fn add_block_parameter(&mut self, block: usize, kind: ValueKind) -> (r: Operand)
        requires
            old(self).inv(),
            block < old(self).func.blocks@.len(),
        ensures
            final(self).inv(),
            r == (Operand::Param { block, index: old(self).func.blocks@[block as int].params@.len() as usize }),
            same_except(old(self).func, final(self).func, block as int),
            final(self).func.blocks@[block as int].params@ == old(self).func.blocks@[block as int].params@.push(kind),
            final(self).func.blocks@[block as int].insts@ == old(self).func.blocks@[block as int].insts@,
            final(self).func.blocks@[block as int].terminator == old(self).func.blocks@[block as int].terminator,
            final(self).func.blocks@[block as int].sealed == old(self).func.blocks@[block as int].sealed,
            final(self).cursor == old(self).cursor,
    {
        let index = self.func.blocks[block].params.len();
        self.func.blocks[block].params.push(kind);
        proof {
            lemma_well_formed_grows(old(self).func, self.func);
        }
        Operand::Param { block, index }
    }

    /// Moves the write cursor to `block`. The block left behind must be
    /// terminated or untouched, and `block` must not be terminated.
    pub fn switch_to(&mut self, block: usize)
        requires
            old(self).inv(),
            block < old(self).func.blocks@.len(),
            old(self).func.blocks@[block as int].terminator is None,
            old(self).cursor matches Some(c) ==> old(self).func.blocks@[c as int].terminator is Some
                || pristine(old(self).func.blocks@[c as int]),
        ensures
            final(self).inv(),
            final(self).func == old(self).func,
            final(self).cursor == Some(block),
    {
        self.cursor = Some(block);
    }

    /// Declares every edge into `block` known.
    pub fn seal(&mut self, block: usize)
        requires
            old(self).inv(),
            block < old(self).func.blocks@.len(),
        ensures
            final(self).inv(),
            same_except(old(self).func, final(self).func, block as int),
            final(self).func.blocks@[block as int].params == old(self).func.blocks@[block as int].params,
            final(self).func.blocks@[block as int].insts == old(self).func.blocks@[block as int].insts,
            final(self).func.blocks@[block as int].terminator == old(self).func.blocks@[block as int].terminator,
            final(self).func.blocks@[block as int].sealed,
            final(self).cursor == old(self).cursor,
    {
        self.func.blocks[block].sealed = true;
        proof {
            lemma_well_formed_grows(old(self).func, self.func);
        }
    }

    /// Appends `op` to the block under the cursor and returns its value.
    pub fn emit(&mut self, op: Op) -> (r: Operand)
        requires
            old(self).inv(),
            old(self).open_block(),
            op_ok(old(self).func, old(self).cur(), old(self).func.blocks@[old(self).cur()].insts@.len() as int, op),
        ensures
            final(self).inv(),
            r == (Operand::Result { block: old(self).cursor->0, index: old(self).func.blocks@[old(self).cur()].insts@.len() as usize }),
            same_except(old(self).func, final(self).func, old(self).cur()),
            final(self).func.blocks@[old(self).cur()].params == old(self).func.blocks@[old(self).cur()].params,
            final(self).func.blocks@[old(self).cur()].insts@ == old(self).func.blocks@[old(self).cur()].insts@.push(op),
            final(self).func.blocks@[old(self).cur()].terminator is None,
            final(self).func.blocks@[old(self).cur()].sealed == old(self).func.blocks@[old(self).cur()].sealed,
            final(self).cursor == old(self).cursor,
    {
        let c = match self.cursor {
            Some(c) => c,
            None => 0,
        };
        let index = self.func.blocks[c].insts.len();
        self.func.blocks[c].insts.push(op);
        proof {
            let f1 = old(self).func;
            let f2 = self.func;
            lemma_well_formed_grows(f1, f2);
            lemma_op_grows(f1, f2, c as int, index as int, op);
        }
        Operand::Result { block: c, index }
    }

    /// Ends the block under the cursor with `t`, whose targets must not be sealed.
    fn terminate(&mut self, t: Terminator)
        requires
            old(self).inv(),
            old(self).open_block(),
            terminator_ok(old(self).func, old(self).cur(), t),
        ensures
            final(self).inv(),
            same_except(old(self).func, final(self).func, old(self).cur()),
            final(self).func.blocks@[old(self).cur()].params == old(self).func.blocks@[old(self).cur()].params,
            final(self).func.blocks@[old(self).cur()].insts == old(self).func.blocks@[old(self).cur()].insts,
            final(self).func.blocks@[old(self).cur()].terminator == Some(t),
            final(self).func.blocks@[old(self).cur()].sealed == old(self).func.blocks@[old(self).cur()].sealed,
            final(self).cursor == old(self).cursor,
    {
        let c = match self.cursor {
            Some(c) => c,
            None => 0,
        };
        self.func.blocks[c].terminator = Some(t);
        proof {
            let f1 = old(self).func;
            let f2 = self.func;
            lemma_well_formed_grows(f1, f2);
            lemma_terminator_grows(f1, f2, c as int, t);
        }
    }

    /// Ends the block under the cursor with a jump to `target` passing `args`;
    /// fails if `target` is already sealed, and then changes nothing.
    pub fn jump(&mut self, target: usize, args: Vec<Operand>) -> (r: Result<(), IrError>)
        requires
            old(self).inv(),
            old(self).open_block(),
            target < old(self).func.blocks@.len(),
            args_ok(old(self).func, old(self).cur(), args@),
        ensures
            final(self).inv(),
            old(self).func.blocks@[target as int].sealed <==> r is Err,
            r is Err ==> r == Err::<(), IrError>(IrError::UnsealedPredecessor),
            r is Err ==> *final(self) == *old(self),
            r is Ok ==> same_except(old(self).func, final(self).func, old(self).cur())
                && final(self).func.blocks@[old(self).cur()].params == old(self).func.blocks@[old(self).cur()].params
                && final(self).func.blocks@[old(self).cur()].insts == old(self).func.blocks@[old(self).cur()].insts
                && final(self).func.blocks@[old(self).cur()].terminator == Some(Terminator::Jump { target, args })
                && final(self).func.blocks@[old(self).cur()].sealed == old(self).func.blocks@[old(self).cur()].sealed
                && final(self).cursor == old(self).cursor,
    {
        if self.func.blocks[target].sealed {
            return Err(IrError::UnsealedPredecessor);
        }
        self.terminate(Terminator::Jump { target, args });
        Ok(())
    }

    /// Ends the block under the cursor with a two-way branch on `cond`; fails
    /// if either target is already sealed, and then changes nothing.
    pub fn branch(
        &mut self,
        cond: Operand,
        then_block: usize,
        then_args: Vec<Operand>,
        else_block: usize,
        else_args: Vec<Operand>,
    ) -> (r: Result<(), IrError>)
        requires
            old(self).inv(),
            old(self).open_block(),
            old(self).available(cond),
            then_block < old(self).func.blocks@.len(),
            else_block < old(self).func.blocks@.len(),
            args_ok(old(self).func, old(self).cur(), then_args@),
            args_ok(old(self).func, old(self).cur(), else_args@),
        ensures
            final(self).inv(),
            (old(self).func.blocks@[then_block as int].sealed || old(self).func.blocks@[else_block as int].sealed)
                <==> r is Err,
            r is Err ==> r == Err::<(), IrError>(IrError::UnsealedPredecessor),
            r is Err ==> *final(self) == *old(self),
            r is Ok ==> same_except(old(self).func, final(self).func, old(self).cur())
                && final(self).func.blocks@[old(self).cur()].params == old(self).func.blocks@[old(self).cur()].params
                && final(self).func.blocks@[old(self).cur()].insts == old(self).func.blocks@[old(self).cur()].insts
                && final(self).func.blocks@[old(self).cur()].terminator == Some(
                Terminator::Branch { cond, then_block, then_args, else_block, else_args },
            ) && final(self).func.blocks@[old(self).cur()].sealed == old(self).func.blocks@[old(self).cur()].sealed
                && final(self).cursor == old(self).cursor,
    {
        if self.func.blocks[then_block].sealed || self.func.blocks[else_block].sealed {
            return Err(IrError::UnsealedPredecessor);
        }
        self.terminate(Terminator::Branch { cond, then_block, then_args, else_block, else_args });
        Ok(())
    }

    /// Ends the block under the cursor by returning `v`.
    pub fn ret(&mut self, v: Operand)
        requires
            old(self).inv(),
            old(self).open_block(),
            old(self).available(v),
        ensures
            final(self).inv(),
            same_except(old(self).func, final(self).func, old(self).cur()),
            final(self).func.blocks@[old(self).cur()].params == old(self).func.blocks@[old(self).cur()].params,
            final(self).func.blocks@[old(self).cur()].insts == old(self).func.blocks@[old(self).cur()].insts,
            final(self).func.blocks@[old(self).cur()].terminator == Some(Terminator::Return(v)),
            final(self).func.blocks@[old(self).cur()].sealed == old(self).func.blocks@[old(self).cur()].sealed,
            final(self).cursor == old(self).cursor,
    {
        self.terminate(Terminator::Return(v));
    }

    /// Hands out the function once every block is sealed and terminated.
    pub fn finalize(self) -> (r: Result<FunctionIr, IrError>)
        requires
            self.inv(),
        ensures
            complete(self.func) <==> r is Ok,
            r matches Ok(f) ==> f == self.func && valid_function(f),
            r is Err ==> r == Err::<FunctionIr, IrError>(IrError::IncompleteFunction),
    {
        let n = self.func.blocks.len();
        if n == 0 {
            return Err(IrError::IncompleteFunction);
        }
        let mut b: usize = 0;
        while b < n
            invariant
                n == self.func.blocks@.len(),
                b <= n,
                forall|k: int| 0 <= k < b ==> (#[trigger] self.func.blocks@[k]).terminator is Some
                    && self.func.blocks@[k].sealed,
            decreases n - b,
        {
            if self.func.blocks[b].terminator.is_none() || !self.func.blocks[b].sealed {
                return Err(IrError::IncompleteFunction);
            }
            b = b + 1;
        }
        Ok(self.func)
    }
}

} // verus!

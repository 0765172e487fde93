//! Cranelift, as the library uses it: the outside types, and one thin
//! trusted wrapper per Cranelift call. Cranelift's values, blocks and types
//! are opaque handles. The state that decides whether a Cranelift call may
//! panic (which blocks are untouched or filled, where the builder's cursor
//! is, which functions are declared, defined and finalized) is mirrored in
//! ghost fields, which only the wrappers' contracts change.
use vstd::prelude::*;
use cranelift_codegen::Context;
use cranelift_codegen::ir::{Block, BlockArg, InstBuilder, MemFlagsData, Type, Value, types};
use cranelift_codegen::ir::condcodes::IntCC;
use cranelift_codegen::settings::Configurable;
use cranelift_frontend::{FunctionBuilder, FunctionBuilderContext};
use cranelift_jit::{JITBuilder, JITModule};
use cranelift_module::{FuncId, Linkage, Module, ModuleError};
use crate::ir::Cond;
use vstd::set::Set;

verus! {

#[verifier::external_type_specification]
#[verifier::external_body]
pub struct ExValue(Value);

#[verifier::external_type_specification]
#[verifier::external_body]
pub struct ExBlock(Block);

#[verifier::external_type_specification]
#[verifier::external_body]
pub struct ExType(Type);

#[verifier::external_type_specification]
#[verifier::external_body]
pub struct ExFuncId(FuncId);

#[verifier::external_type_specification]
#[verifier::external_body]
pub struct ExModuleError(ModuleError);

#[verifier::external_type_specification]
#[verifier::external_body]
pub struct ExJITModule(JITModule);

#[verifier::external_type_specification]
#[verifier::external_body]
pub struct ExContext(Context);

#[verifier::external_type_specification]
#[verifier::external_body]
pub struct ExFunctionBuilderContext(FunctionBuilderContext);

#[verifier::external_type_specification]
#[verifier::external_body]
pub struct ExFunctionBuilder<'a>(FunctionBuilder<'a>);

/// The state of a block in a `FunctionBuilder`: no instruction yet, some
/// instructions, or ended by a terminator.
#[derive(Clone, Copy, PartialEq, Eq, Structural, Debug)]
pub enum BlockState {
    Pristine,
    Partial,
    Filled,
}

/// Two-operand integer instructions.
#[derive(Clone, Copy, PartialEq, Eq, Structural, Debug)]
pub enum BinaryOp {
    Add,
    Sub,
    And,
}

/// One thing emitted through a `FunctionBuilder`, with the value it made.
pub enum Emitted {
    BlockParam { block: Block, ty: Type, value: Value },
    Iconst { ty: Type, imm: u64, value: Value },
    Binary { op: BinaryOp, x: Value, y: Value, value: Value },
    ShiftRight { x: Value, amount: u8, value: Value },
    LoadByte { addr: Value, value: Value },
    LoadWord { addr: Value, offset: u8, value: Value },
    Compare { cond: Cond, x: Value, y: Value, value: Value },
    Jump { target: Block, args: Seq<Value> },
    Branch {
        cond: Value,
        then_block: Block,
        then_args: Seq<Value>,
        else_block: Block,
        else_args: Seq<Value>,
    },
    Return { value: Value },
}

/// A `FunctionBuilderContext`, and whether it holds no function.
pub(crate) struct BuilderContext {
    pub(crate) ctx: FunctionBuilderContext,
    pub(crate) empty: Ghost<bool>,
}

/// The per-function context and the builder context that writes into it.
pub(crate) struct Workspace {
    pub(crate) ctx: Context,
    pub(crate) fbc: BuilderContext,
}

/// A `FunctionBuilder` and what is known of its state: the blocks it made
/// and their states, the block under its cursor, whether every block has
/// been sealed, and for each block the log of what was emitted into it.
pub(crate) struct Emitter<'a> {
    pub(crate) fb: FunctionBuilder<'a>,
    pub(crate) blocks: Ghost<Map<Block, BlockState>>,
    pub(crate) current: Ghost<Option<Block>>,
    pub(crate) sealed: Ghost<bool>,
    pub(crate) log: Ghost<Map<Block, Seq<Emitted>>>,
}

impl<'a> Emitter<'a> {
    /// The cursor is in a block that accepts instructions.
    pub(crate) open spec fn writable(&self) -> bool {
        &&& self.current@ matches Some(c)
        &&& self.blocks@.contains_key(c)
        &&& self.blocks@[c] != BlockState::Filled
        &&& !self.sealed@
    }

    /// What an instruction changes: the block under the cursor becomes
    /// `state`, and `e` is logged against it.
    pub(crate) open spec fn emitted(&self, next: Emitter<'a>, state: BlockState, e: Emitted) -> bool {
        &&& next.blocks@ == self.blocks@.insert(self.current@->0, state)
        &&& next.current@ == self.current@
        &&& next.sealed@ == self.sealed@
        &&& next.log@ == self.log@.insert(self.current@->0, self.log@[self.current@->0].push(e))
    }
}

/// A `JITModule` and the functions it has declared, compiled (defined),
/// compiled but not yet finalized, and finalized.
pub(crate) struct CodeModule {
    pub(crate) module: JITModule,
    pub(crate) declared: Ghost<Set<FuncId>>,
    pub(crate) defined: Ghost<Set<FuncId>>,
    pub(crate) pending: Ghost<Set<FuncId>>,
    pub(crate) finalized: Ghost<Set<FuncId>>,
}

impl CodeModule {
    /// Nothing finalized is still pending, and all of it was defined.
    pub(crate) open spec fn inv(&self) -> bool {
        &&& self.finalized@.subset_of(self.defined@)
        &&& self.pending@.subset_of(self.defined@)
        &&& self.defined@.subset_of(self.declared@)
    }
}

/// Relies on `cranelift_native::builder`, `settings::builder`,
/// `Configurable::set`, `isa::Builder::finish`, `JITBuilder::with_isa` and
/// `JITModule::new`: a new JIT module for the host instruction set, with
/// position-dependent code as `JITModule::new` asserts; `None` where the
/// host is not supported or a flag is refused. A new module has declared
/// nothing.
#[verifier::external_body]
pub(crate) fn host_module() -> (r: Option<CodeModule>)
    ensures
        r matches Some(m) ==> m.declared@.is_empty() && m.defined@.is_empty() && m.pending@.is_empty()
            && m.finalized@.is_empty(),
{
    let mut flags = cranelift_codegen::settings::builder();
    flags.set("use_colocated_libcalls", "false").ok()?;
    flags.set("is_pic", "false").ok()?;
    flags.set("opt_level", "speed").ok()?;
    let isa = cranelift_native::builder().ok()?;
    let isa = isa.finish(cranelift_codegen::settings::Flags::new(flags)).ok()?;
    let module = JITModule::new(JITBuilder::with_isa(isa, cranelift_module::default_libcall_names()));
    Some(CodeModule { module, declared: Ghost(Set::empty()), defined: Ghost(Set::empty()), pending: Ghost(Set::empty()), finalized: Ghost(Set::empty()) })
}

/// Relies on `Module::make_context`: a context whose signature has the
/// module's default calling convention.
#[verifier::external_body]
pub(crate) fn make_context(m: &CodeModule) -> (r: Context) {
    m.module.make_context()
}

/// Relies on `TargetFrontendConfig::pointer_type`: the host's pointer-sized integer type.
#[verifier::external_body]
pub(crate) fn pointer_type(m: &CodeModule) -> (r: Type) {
    m.module.target_config().pointer_type()
}

/// Relies on `types::I64`.
#[verifier::external_body]
pub(crate) fn int64_type() -> (r: Type) {
    types::I64
}

/// Relies on `Module::clear_context`: forgets the previous function and
/// resets the signature to the module's default (the host's C) calling
/// convention, with no parameters and no returns.
#[verifier::external_body]
pub(crate) fn clear_context(m: &CodeModule, ctx: &mut Context) {
    m.module.clear_context(ctx)
}

/// Relies on `Signature::params`: appends a parameter of type `ty`.
#[verifier::external_body]
pub(crate) fn push_signature_param(ctx: &mut Context, ty: Type) {
    ctx.func.signature.params.push(cranelift_codegen::ir::AbiParam::new(ty))
}

/// Relies on `Signature::returns`: appends a return value of type `ty`.
#[verifier::external_body]
pub(crate) fn push_signature_return(ctx: &mut Context, ty: Type) {
    ctx.func.signature.returns.push(cranelift_codegen::ir::AbiParam::new(ty))
}

/// Relies on `FunctionBuilderContext::new`: a new context holds no function.
#[verifier::external_body]
pub(crate) fn new_builder_context() -> (r: BuilderContext)
    ensures
        r.empty@,
{
    BuilderContext { ctx: FunctionBuilderContext::new(), empty: Ghost(true) }
}

/// Relies on `FunctionBuilder::new`, which debug-asserts an empty builder
/// context: a builder writing into the context's function, with no block
/// and no cursor yet.
#[verifier::external_body]
pub(crate) fn new_builder(w: &mut Workspace) -> (r: Emitter)
    requires
        old(w).fbc.empty@,
    ensures
        r.blocks@.dom().is_empty(),
        r.current@ is None,
        r.sealed@ == false,
        r.log@.dom().is_empty(),
{
    let fb = FunctionBuilder::new(&mut w.ctx.func, &mut w.fbc.ctx);
    Emitter { fb, blocks: Ghost(Map::empty()), current: Ghost(None), sealed: Ghost(false), log: Ghost(Map::empty()) }
}

/// Relies on `FunctionBuilder::create_block`: a new block, untouched.
#[verifier::external_body]
pub(crate) fn create_block(e: &mut Emitter) -> (r: Block)
    ensures
        !old(e).blocks@.contains_key(r),
        final(e).blocks@ == old(e).blocks@.insert(r, BlockState::Pristine),
        final(e).current@ == old(e).current@,
        final(e).sealed@ == old(e).sealed@,
        final(e).log@ == old(e).log@.insert(r, Seq::empty()),
{
    e.fb.create_block()
}

/// Relies on `FunctionBuilder::append_block_param`, which debug-asserts a
/// block with no instruction yet.
#[verifier::external_body]
pub(crate) fn append_block_param(e: &mut Emitter, block: Block, ty: Type) -> (r: Value)
    requires
        old(e).blocks@.contains_key(block),
        old(e).blocks@[block] == BlockState::Pristine,
    ensures
        final(e).blocks@ == old(e).blocks@,
        final(e).current@ == old(e).current@,
        final(e).sealed@ == old(e).sealed@,
        final(e).log@ == old(e).log@.insert(
            block,
            old(e).log@[block].push(Emitted::BlockParam { block, ty, value: r }),
        ),
{
    e.fb.append_block_param(block, ty)
}

/// Relies on `FunctionBuilder::switch_to_block`, which debug-asserts that
/// the block left behind is untouched or filled and that `block` is not filled.
#[verifier::external_body]
pub(crate) fn switch_to_block(e: &mut Emitter, block: Block)
    requires
        old(e).blocks@.contains_key(block),
        old(e).blocks@[block] != BlockState::Filled,
        old(e).current@ matches Some(c) ==> old(e).blocks@.contains_key(c) && old(e).blocks@[c]
            != BlockState::Partial,
    ensures
        final(e).blocks@ == old(e).blocks@,
        final(e).current@ == Some(block),
        final(e).sealed@ == old(e).sealed@,
        final(e).log@ == old(e).log@,
{
    e.fb.switch_to_block(block)
}

/// Relies on `FunctionBuilder::seal_all_blocks`.
#[verifier::external_body]
pub(crate) fn seal_all_blocks(e: &mut Emitter)
    ensures
        final(e).blocks@ == old(e).blocks@,
        final(e).current@ == old(e).current@,
        final(e).sealed@,
        final(e).log@ == old(e).log@,
{
    e.fb.seal_all_blocks()
}

/// Relies on `FunctionBuilder::finalize`, which asserts in debug builds that
/// every block that was touched is sealed and filled.
#[verifier::external_body]
pub(crate) fn finalize_builder(e: Emitter)
    requires
        e.sealed@,
        forall|b: Block| #[trigger] e.blocks@.contains_key(b) ==> e.blocks@[b] != BlockState::Partial,
{
    e.fb.finalize()
}

/// Relies on `InstBuilder::iconst`; the constant keeps its 64 bits.
/// `FunctionBuilder::ins` panics without a cursor and debug-asserts that the
/// block under it is not filled.
#[verifier::external_body]
pub(crate) fn ins_iconst(e: &mut Emitter, ty: Type, imm: u64) -> (r: Value)
    requires
        old(e).writable(),
    ensures
        old(e).emitted(*final(e), BlockState::Partial, Emitted::Iconst { ty, imm, value: r }),
{
    e.fb.ins().iconst(ty, imm as i64)
}

/// Relies on `InstBuilder::iadd`.
#[verifier::external_body]
pub(crate) fn ins_iadd(e: &mut Emitter, x: Value, y: Value) -> (r: Value)
    requires
        old(e).writable(),
    ensures
        old(e).emitted(*final(e), BlockState::Partial, Emitted::Binary { op: BinaryOp::Add, x, y, value: r }),
{
    e.fb.ins().iadd(x, y)
}

/// Relies on `InstBuilder::isub`.
#[verifier::external_body]
pub(crate) fn ins_isub(e: &mut Emitter, x: Value, y: Value) -> (r: Value)
    requires
        old(e).writable(),
    ensures
        old(e).emitted(*final(e), BlockState::Partial, Emitted::Binary { op: BinaryOp::Sub, x, y, value: r }),
{
    e.fb.ins().isub(x, y)
}

/// Relies on `InstBuilder::band`.
#[verifier::external_body]
pub(crate) fn ins_band(e: &mut Emitter, x: Value, y: Value) -> (r: Value)
    requires
        old(e).writable(),
    ensures
        old(e).emitted(*final(e), BlockState::Partial, Emitted::Binary { op: BinaryOp::And, x, y, value: r }),
{
    e.fb.ins().band(x, y)
}

/// Relies on `InstBuilder::ushr_imm`, which emits the shift amount as a
/// constant and a `ushr` on it.
#[verifier::external_body]
pub(crate) fn ins_ushr_imm(e: &mut Emitter, x: Value, amount: u8) -> (r: Value)
    requires
        old(e).writable(),
    ensures
        old(e).emitted(*final(e), BlockState::Partial, Emitted::ShiftRight { x, amount, value: r }),
{
    e.fb.ins().ushr_imm(x, amount as i64)
}

/// Relies on `InstBuilder::uload8`: loads the byte at `addr`, with default
/// flags, zero-extended to an `I64`.
#[verifier::external_body]
pub(crate) fn ins_uload8(e: &mut Emitter, addr: Value) -> (r: Value)
    requires
        old(e).writable(),
    ensures
        old(e).emitted(*final(e), BlockState::Partial, Emitted::LoadByte { addr, value: r }),
{
    e.fb.ins().uload8(types::I64, MemFlagsData::new(), addr, 0)
}

/// Relies on `InstBuilder::load` of an `I64` at `addr + offset`, with default flags.
#[verifier::external_body]
pub(crate) fn ins_load_word(e: &mut Emitter, addr: Value, offset: u8) -> (r: Value)
    requires
        old(e).writable(),
    ensures
        old(e).emitted(*final(e), BlockState::Partial, Emitted::LoadWord { addr, offset, value: r }),
{
    e.fb.ins().load(types::I64, MemFlagsData::new(), addr, offset as i32)
}

/// Relies on `InstBuilder::icmp`, with each condition mapped to its `IntCC`.
#[verifier::external_body]
pub(crate) fn ins_icmp(e: &mut Emitter, cond: Cond, x: Value, y: Value) -> (r: Value)
    requires
        old(e).writable(),
    ensures
        old(e).emitted(*final(e), BlockState::Partial, Emitted::Compare { cond, x, y, value: r }),
{
    let cc = match cond {
        Cond::Equal => IntCC::Equal,
        Cond::UnsignedLess => IntCC::UnsignedLessThan,
        Cond::UnsignedGreaterOrEqual => IntCC::UnsignedGreaterThanOrEqual,
        Cond::UnsignedGreater => IntCC::UnsignedGreaterThan,
    };
    e.fb.ins().icmp(cc, x, y)
}

/// Relies on `InstBuilder::jump`, which ends the block; declaring the edge
/// debug-asserts that `target` is not sealed yet.
#[verifier::external_body]
pub(crate) fn ins_jump(e: &mut Emitter, target: Block, args: &Vec<Value>)
    requires
        old(e).writable(),
    ensures
        old(e).emitted(*final(e), BlockState::Filled, Emitted::Jump { target, args: args@ }),
{
    let args: Vec<BlockArg> = args.iter().map(|v| BlockArg::Value(*v)).collect();
    e.fb.ins().jump(target, &args);
}

/// Relies on `InstBuilder::brif`, which ends the block; declaring the edges
/// debug-asserts that neither target is sealed yet.
#[verifier::external_body]
pub(crate) fn ins_brif(
    e: &mut Emitter,
    cond: Value,
    then_block: Block,
    then_args: &Vec<Value>,
    else_block: Block,
    else_args: &Vec<Value>,
)
    requires
        old(e).writable(),
    ensures
        old(e).emitted(
            *final(e),
            BlockState::Filled,
            Emitted::Branch { cond, then_block, then_args: then_args@, else_block, else_args: else_args@ },
        ),
{
    let then_args: Vec<BlockArg> = then_args.iter().map(|v| BlockArg::Value(*v)).collect();
    let else_args: Vec<BlockArg> = else_args.iter().map(|v| BlockArg::Value(*v)).collect();
    e.fb.ins().brif(cond, then_block, &then_args, else_block, &else_args);
}

/// Relies on `InstBuilder::return_`, which ends the block.
#[verifier::external_body]
pub(crate) fn ins_return(e: &mut Emitter, v: Value)
    requires
        old(e).writable(),
    ensures
        old(e).emitted(*final(e), BlockState::Filled, Emitted::Return { value: v }),
{
    e.fb.ins().return_(&[v]);
}

/// Relies on `Module::declare_function`: registers `name`, exported, with
/// the signature of the context's function; on success the id is declared.
#[verifier::external_body]
pub(crate) fn declare_function(m: &mut CodeModule, name: &str, ctx: &Context) -> (r: Result<
    FuncId,
    ModuleError,
>)
    ensures
        r matches Ok(id) ==> final(m).declared@ == old(m).declared@.insert(id),
        r is Err ==> final(m).declared@ == old(m).declared@,
        final(m).defined@ == old(m).defined@,
        final(m).pending@ == old(m).pending@,
        final(m).finalized@ == old(m).finalized@,
{
    m.module.declare_function(name, Linkage::Export, &ctx.func.signature)
}

/// Relies on `Module::define_function`, which panics on an id the module
/// never declared: verifies and compiles the context's function into the
/// module's code memory, to be finalized later.
#[verifier::external_body]
pub(crate) fn define_function(m: &mut CodeModule, id: FuncId, ctx: &mut Context) -> (r: Result<
    (),
    ModuleError,
>)
    requires
        old(m).declared@.contains(id),
    ensures
        final(m).declared@ == old(m).declared@,
        r is Ok ==> final(m).defined@ == old(m).defined@.insert(id) && final(m).pending@
            == old(m).pending@.insert(id),
        r is Err ==> final(m).defined@ == old(m).defined@ && final(m).pending@ == old(m).pending@,
        final(m).finalized@ == old(m).finalized@,
{
    m.module.define_function(id, ctx)
}

/// Relies on `JITModule::finalize_definitions`: takes every function
/// compiled since the last call and, unless making memory executable fails,
/// finalizes them.
#[verifier::external_body]
pub(crate) fn finalize_definitions(m: &mut CodeModule) -> (r: Result<(), ModuleError>)
    ensures
        final(m).declared@ == old(m).declared@,
        final(m).defined@ == old(m).defined@,
        final(m).pending@.is_empty(),
        r is Ok ==> final(m).finalized@ == old(m).finalized@.union(old(m).pending@),
        r is Err ==> final(m).finalized@ == old(m).finalized@,
{
    m.module.finalize_definitions()
}

/// Relies on `JITModule::get_finalized_function`, which panics on a function
/// not compiled or not yet finalized: the address of its code.
#[verifier::external_body]
pub(crate) fn finalized_function_address(m: &CodeModule, id: FuncId) -> (r: usize)
    requires
        m.finalized@.contains(id),
{
    m.module.get_finalized_function(id) as usize
}

/// Relies on `ModuleError`'s variants: whether the error is a failure to
/// obtain or protect memory (`Allocation`, or `Backend`, which the JIT's
/// memory provider raises) rather than a compilation error.
#[verifier::external_body]
pub(crate) fn is_memory_error(e: &ModuleError) -> (r: bool) {
    matches!(e, ModuleError::Allocation { .. } | ModuleError::Backend(_))
}

} // verus!

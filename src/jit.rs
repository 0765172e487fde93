//! The compilation session: it owns the JIT module, the per-function
//! context and the registry of declared functions, and hands out a kernel
//! only once its code is finalized.
use vstd::prelude::*;
use crate::backend::{
    CodeModule, Workspace, clear_context, declare_function, define_function, finalize_builder,
    finalize_definitions, finalized_function_address, host_module, is_memory_error, make_context,
    new_builder, new_builder_context, pointer_type, push_signature_param, push_signature_return,
};
use crate::kernel::{blocked_shape, simple_shape};
use crate::semantics::sums_bytes;
use crate::ir::{FunctionIr, valid_function};
use crate::kernel::{build_blocked_kernel, build_simple_kernel};
use crate::lower::{block_lowered, deep_values, kind_type, lower_function};
use crate::backend::Emitted;
use cranelift_codegen::ir::{Block, Type, Value};
use crate::registry::{FunctionState, JitError, SymbolTable};

verus! {

/// A compiled kernel: callable as `extern "C" fn(*const u8, usize) -> u64`
/// at `address()`, for as long as the compiler that made it lives. Only a
/// compilation that reached the finalized state makes one.
pub struct CompiledKernel {
    symbol: usize,
    address: usize,
    source: Ghost<FunctionIr>,
    built: Ghost<Lowering>,
}

/// What the function builder was given for a kernel: the log of each
/// Cranelift block, the blocks that stand for the IR's blocks, the values
/// that stand for the IR's parameters and results, and the pointer type.
pub struct Lowering {
    pub log: Map<Block, Seq<Emitted>>,
    pub blocks: Seq<Block>,
    pub params: Seq<Seq<Value>>,
    pub results: Seq<Seq<Value>>,
    pub ptr_ty: Type,
}

/// `l` is, block by block and instruction by instruction, the lowering of `f`.
pub open spec fn lowering_of(l: Lowering, f: FunctionIr) -> bool {
    &&& l.blocks.len() == f.blocks@.len()
    &&& forall|k: int| 0 <= k < f.blocks@.len() ==> block_lowered(f, #[trigger] l.log[l.blocks[k]], l.blocks, l.params, l.results, l.ptr_ty, k)
}

impl CompiledKernel {
    pub closed spec fn spec_symbol(&self) -> usize {
        self.symbol
    }

    pub closed spec fn spec_address(&self) -> usize {
        self.address
    }

    /// The IR function whose code lives at the kernel's address.
    pub closed spec fn spec_source(&self) -> FunctionIr {
        self.source@
    }

    /// What was emitted into the function builder for this kernel.
    pub closed spec fn spec_lowering(&self) -> Lowering {
        self.built@
    }

    /// The index of the kernel's declaration in its compiler's registry.
    pub fn symbol(&self) -> (r: usize)
        ensures
            r == self.spec_symbol(),
    {
        self.symbol
    }

    /// The address of the kernel's finalized code.
    pub fn address(&self) -> (r: usize)
        ensures
            r == self.spec_address(),
    {
        self.address
    }

    /// The kernel is finalized in `t`, at its address.
    pub open spec fn finalized_in(&self, t: SymbolTable) -> bool {
        &&& self.spec_symbol() < t.symbols@.len()
        &&& t.symbols@[self.spec_symbol() as int].state == (FunctionState::Finalized {
            address: self.spec_address(),
        })
    }
}

/// What one compilation under `name` did to the registry `t1`, leaving `t2`.
pub open spec fn compiled_as(
    t1: SymbolTable,
    t2: SymbolTable,
    name: Seq<char>,
    r: Result<CompiledKernel, JitError>,
) -> bool {
    &&& t2.inv()
    &&& t1.finalized_kept(t2)
    &&& t1.declared(name) ==> r == Err::<CompiledKernel, JitError>(JitError::DuplicateSymbol)
        && t2.symbols@ == t1.symbols@
    &&& !t1.declared(name) ==> {
        &&& r is Ok || r == Err::<CompiledKernel, JitError>(JitError::BackendFailure) || r == Err::<
            CompiledKernel,
            JitError,
        >(JitError::OutOfExecutableMemory)
        &&& t2.symbols@.len() == t1.symbols@.len() + 1
        &&& t2.symbols@.subrange(0, t1.symbols@.len() as int) == t1.symbols@
        &&& t2.symbols@[t1.symbols@.len() as int].name@ == name
    }
    &&& r matches Ok(k) ==> k.spec_symbol() == t1.symbols@.len() && k.finalized_in(t2)
}

/// A kernel finalized in one registry stays finalized, at the same address,
/// in every later state of that registry: code memory is append-only.
pub proof fn lemma_finalized_kernel_stays(k: CompiledKernel, t1: SymbolTable, t2: SymbolTable)
    requires
        k.finalized_in(t1),
        t1.finalized_kept(t2),
    ensures
        k.finalized_in(t2),
{
}

/// Keeping finalized functions is transitive over any number of compilations.
pub proof fn lemma_finalized_kept_transitive(t1: SymbolTable, t2: SymbolTable, t3: SymbolTable)
    requires
        t1.finalized_kept(t2),
        t2.finalized_kept(t3),
    ensures
        t1.finalized_kept(t3),
{
    assert forall|k: int|
        0 <= k < t1.symbols@.len() && (#[trigger] t1.symbols@[k]).state is Finalized implies t3.symbols@[k].name@
        == t1.symbols@[k].name@ && t3.symbols@[k].state == t1.symbols@[k].state by {
        assert(t2.symbols@[k].state is Finalized);
    }
}

/// Compiles byte-sum kernels into one JIT module.
pub struct AgeJITCompiler {
    module: CodeModule,
    work: Workspace,
    symbols: SymbolTable,
}

impl AgeJITCompiler {
    /// The registry of the functions declared so far.
    pub closed spec fn registry(&self) -> SymbolTable {
        self.symbols
    }

    pub closed spec fn inv(&self) -> bool {
        self.symbols.inv() && self.module.inv()
    }

    /// The registry of the functions declared so far.
    pub fn symbols(&self) -> (r: &SymbolTable)
        ensures
            *r == self.registry(),
    {
        &self.symbols
    }

    /// A compiler for the host; fails if the host cannot be targeted.
    pub fn new() -> (r: Result<AgeJITCompiler, JitError>)
        ensures
            r matches Ok(c) ==> c.inv() && c.registry().symbols@.len() == 0 && c.registry().inv(),
            r is Err ==> r == Err::<AgeJITCompiler, JitError>(JitError::UnsupportedHost),
    {
        match host_module() {
            Some(module) => {
                let ctx = make_context(&module);
                let work = Workspace { ctx, fbc: new_builder_context() };
                Ok(AgeJITCompiler { module, work, symbols: SymbolTable::new() })
            },
            None => Err(JitError::UnsupportedHost),
        }
    }

    /// Declares `name`, lowers `f` under it, and finalizes its code.
    pub fn compile(&mut self, name: &str, f: &FunctionIr) -> (r: Result<CompiledKernel, JitError>)
        requires
            old(self).inv(),
            valid_function(*f),
        ensures
            final(self).inv(),
            compiled_as(old(self).registry(), final(self).registry(), name@, r),
            r matches Ok(k) ==> k.spec_source() == *f && lowering_of(k.spec_lowering(), *f),
    {
        let k = match self.symbols.declare(name.to_owned()) {
            Ok(k) => k,
            Err(e) => return Err(e),
        };
        let ghost declared = self.symbols;
        clear_context(&self.module, &mut self.work.ctx);
        let ptr_ty = pointer_type(&self.module);
        let mut p: usize = 0;
        while p < f.params.len()
            invariant
                self.symbols == declared,
                self.module == old(self).module,
            decreases f.params@.len() - p,
        {
            push_signature_param(&mut self.work.ctx, kind_type(ptr_ty, f.params[p]));
            p = p + 1;
        }
        let mut q: usize = 0;
        while q < f.results.len()
            invariant
                self.symbols == declared,
                self.module == old(self).module,
            decreases f.results@.len() - q,
        {
            push_signature_return(&mut self.work.ctx, kind_type(ptr_ty, f.results[q]));
            q = q + 1;
        }
        self.work.fbc = new_builder_context();
        let mut emitter = new_builder(&mut self.work);
        let lowered = lower_function(&mut emitter, f, ptr_ty);
        let ghost built = Lowering {
            log: emitter.log@,
            blocks: lowered.0@,
            params: deep_values(lowered.1@),
            results: deep_values(lowered.2@),
            ptr_ty,
        };
        assert(lowering_of(built, *f));
        finalize_builder(emitter);
        let id = match declare_function(&mut self.module, name, &self.work.ctx) {
            Ok(id) => id,
            Err(_) => return Err(JitError::BackendFailure),
        };
        match define_function(&mut self.module, id, &mut self.work.ctx) {
            Ok(()) => {},
            Err(e) => {
                clear_context(&self.module, &mut self.work.ctx);
                if is_memory_error(&e) {
                    return Err(JitError::OutOfExecutableMemory);
                }
                return Err(JitError::BackendFailure);
            },
        }
        self.symbols.mark_defined(k);
        assert(self.symbols.symbols@.subrange(0, k as int) =~= old(self).symbols.symbols@);
        clear_context(&self.module, &mut self.work.ctx);
        match finalize_definitions(&mut self.module) {
            Ok(()) => {},
            Err(_) => return Err(JitError::OutOfExecutableMemory),
        }
        let address = finalized_function_address(&self.module, id);
        self.symbols.mark_finalized(k, address);
        assert(self.symbols.symbols@.subrange(0, k as int) =~= old(self).symbols.symbols@);
        Ok(CompiledKernel { symbol: k, address, source: Ghost(*f), built: Ghost(built) })
    }

    /// Compiles the scalar loop under a fresh name that starts with
    /// `sum_u8_simple_`; the same shape may be compiled any number of times.
    pub fn compile_sum_u8_simple(&mut self) -> (r: Result<CompiledKernel, JitError>)
        requires
            old(self).inv(),
        ensures
            final(self).inv(),
            final(self).registry().symbols@.len() == old(self).registry().symbols@.len() + 1,
            !old(self).registry().declared(final(self).registry().symbols@[old(self).registry().symbols@.len() as int].name@),
            compiled_as(
                old(self).registry(),
                final(self).registry(),
                final(self).registry().symbols@[old(self).registry().symbols@.len() as int].name@,
                r,
            ),
            r matches Ok(k) ==> simple_shape(k.spec_source()) && valid_function(k.spec_source())
                && sums_bytes(k.spec_source()) && lowering_of(k.spec_lowering(), k.spec_source()),
    {
        match build_simple_kernel() {
            Ok(f) => {
                let name = self.symbols.fresh_name("sum_u8_simple");
                self.compile(name.as_str(), &f)
            },
            Err(e) => Err(JitError::from_ir(e)),
        }
    }

    /// Compiles the blocked loop under a fresh name that starts with
    /// `sum_u8_optimized_`; the same shape may be compiled any number of times.
    pub fn compile_sum_u8_optimized(&mut self) -> (r: Result<CompiledKernel, JitError>)
        requires
            old(self).inv(),
        ensures
            final(self).inv(),
            final(self).registry().symbols@.len() == old(self).registry().symbols@.len() + 1,
            !old(self).registry().declared(final(self).registry().symbols@[old(self).registry().symbols@.len() as int].name@),
            compiled_as(
                old(self).registry(),
                final(self).registry(),
                final(self).registry().symbols@[old(self).registry().symbols@.len() as int].name@,
                r,
            ),
            r matches Ok(k) ==> blocked_shape(k.spec_source()) && valid_function(k.spec_source())
                && sums_bytes(k.spec_source()) && lowering_of(k.spec_lowering(), k.spec_source()),
    {
        match build_blocked_kernel() {
            Ok(f) => {
                let name = self.symbols.fresh_name("sum_u8_optimized");
                self.compile(name.as_str(), &f)
            },
            Err(e) => Err(JitError::from_ir(e)),
        }
    }

    /// Compiles the kernel suited to the host: the blocked loop where the
    /// host reads unaligned 64-bit words natively (`wide_loads`), the scalar
    /// loop otherwise. The capability is an input, probed by the caller.
    pub fn compile_sum_u8(&mut self, wide_loads: bool) -> (r: Result<CompiledKernel, JitError>)
        requires
            old(self).inv(),
        ensures
            final(self).inv(),
            final(self).registry().symbols@.len() == old(self).registry().symbols@.len() + 1,
            !old(self).registry().declared(final(self).registry().symbols@[old(self).registry().symbols@.len() as int].name@),
            compiled_as(
                old(self).registry(),
                final(self).registry(),
                final(self).registry().symbols@[old(self).registry().symbols@.len() as int].name@,
                r,
            ),
            r matches Ok(k) ==> valid_function(k.spec_source()) && sums_bytes(k.spec_source())
                && lowering_of(k.spec_lowering(), k.spec_source()),
    {
        if wide_loads {
            self.compile_sum_u8_optimized()
        } else {
            self.compile_sum_u8_simple()
        }
    }
}

} // verus!

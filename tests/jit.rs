use age_jit::jit::AgeJITCompiler;
use age_jit::kernel::build_simple_kernel;
use age_jit::ir::IrError;
use age_jit::registry::{FunctionState, JitError, SymbolTable};
use age_jit::users::UserSoA;

#[test]
fn duplicate_declaration_is_refused_and_table_kept() {
    let mut t = SymbolTable::new();
    assert_eq!(t.declare("f".to_string()), Ok(0));
    t.mark_defined(0);
    t.mark_finalized(0, 4096);
    assert_eq!(t.declare("f".to_string()), Err(JitError::DuplicateSymbol));
    assert_eq!(t.symbols.len(), 1);
    assert_eq!(t.finalized_address(0), Some(4096));
    assert_eq!(t.declare("g".to_string()), Ok(1));
    assert_eq!(t.lookup(&"g".to_string()), Some(1));
    assert_eq!(t.lookup(&"h".to_string()), None);
}

#[test]
fn address_only_after_finalization() {
    let mut t = SymbolTable::new();
    let k = t.declare("k".to_string()).unwrap();
    assert_eq!(t.finalized_address(k), None);
    t.mark_defined(k);
    assert_eq!(t.symbols[k].state, FunctionState::Defined);
    assert_eq!(t.finalized_address(k), None);
    t.mark_finalized(k, 64);
    assert_eq!(t.finalized_address(k), Some(64));
    assert_eq!(t.finalized_address(k + 1), None);
}

#[test]
fn compiler_finalizes_both_kernels() {
    let mut jit = AgeJITCompiler::new().unwrap();
    let simple = jit.compile_sum_u8_simple().unwrap();
    let optimized = jit.compile_sum_u8_optimized().unwrap();
    assert_eq!(simple.symbol(), 0);
    assert_eq!(optimized.symbol(), 1);
    assert_ne!(simple.address(), 0);
    assert_ne!(simple.address(), optimized.address());
    assert_eq!(jit.symbols().finalized_address(0), Some(simple.address()));
}

#[test]
fn same_shape_compiles_twice_under_fresh_names() {
    let mut jit = AgeJITCompiler::new().unwrap();
    let first = jit.compile_sum_u8_simple().unwrap();
    let second = jit.compile_sum_u8_simple().unwrap();
    assert_eq!(jit.symbols().symbols[first.symbol()].name, "sum_u8_simple_0");
    assert_eq!(jit.symbols().symbols[second.symbol()].name, "sum_u8_simple_1");
    assert_ne!(first.address(), second.address());
    assert_eq!(jit.symbols().finalized_address(first.symbol()), Some(first.address()));
    let third = jit.compile_sum_u8_optimized().unwrap();
    let fourth = jit.compile_sum_u8_optimized().unwrap();
    assert_eq!(jit.symbols().symbols[third.symbol()].name, "sum_u8_optimized_2");
    assert_eq!(jit.symbols().symbols[fourth.symbol()].name, "sum_u8_optimized_3");
}

#[test]
fn recompiling_under_same_name_is_duplicate_and_keeps_first() {
    let mut jit = AgeJITCompiler::new().unwrap();
    let f = build_simple_kernel().unwrap();
    let first = jit.compile("kernel", &f).unwrap();
    assert!(matches!(jit.compile("kernel", &f), Err(JitError::DuplicateSymbol)));
    assert_eq!(jit.symbols().finalized_address(first.symbol()), Some(first.address()));
    assert_eq!(jit.symbols().symbols.len(), 1);
}

#[test]
fn fresh_name_skips_names_already_taken() {
    let mut jit = AgeJITCompiler::new().unwrap();
    let f = build_simple_kernel().unwrap();
    jit.compile("sum_u8_simple_1", &f).unwrap();
    let k = jit.compile_sum_u8_simple().unwrap();
    assert_eq!(jit.symbols().symbols[k.symbol()].name, "sum_u8_simple_1_");
    let mut t = SymbolTable::new();
    assert_eq!(t.fresh_name("f"), "f_0");
    t.declare("f_1".to_string()).unwrap();
    assert_eq!(t.fresh_name("f"), "f_1_");
}

#[test]
fn later_compilations_leave_earlier_kernels_in_place() {
    let mut jit = AgeJITCompiler::new().unwrap();
    let first = jit.compile_sum_u8_optimized().unwrap();
    let f = build_simple_kernel().unwrap();
    let second = jit.compile("another_simple", &f).unwrap();
    let third = jit.compile("yet_another_simple", &f).unwrap();
    assert_eq!(jit.symbols().finalized_address(first.symbol()), Some(first.address()));
    assert_eq!(jit.symbols().finalized_address(second.symbol()), Some(second.address()));
    assert_eq!(third.symbol(), 2);
}

#[test]
fn user_columns_grow_together() {
    let mut soa = UserSoA::new();
    soa.add_user(1, "Ann".to_string(), 30);
    soa.add_user(2, "Bo".to_string(), 41);
    assert_eq!(soa.ids, vec![1, 2]);
    assert_eq!(soa.names, vec!["Ann".to_string(), "Bo".to_string()]);
    assert_eq!(soa.ages, vec![30, 41]);
    let empty = UserSoA::new_with_capacity(10);
    assert!(empty.ids.is_empty() && empty.names.is_empty() && empty.ages.is_empty());
}

#[test]
fn host_capability_selects_kernel_name() {
    let mut jit = AgeJITCompiler::new().unwrap();
    let wide = jit.compile_sum_u8(true).unwrap();
    assert_eq!(jit.symbols().symbols[wide.symbol()].name, "sum_u8_optimized_0");
    let narrow = jit.compile_sum_u8(false).unwrap();
    assert_eq!(jit.symbols().symbols[narrow.symbol()].name, "sum_u8_simple_1");
    let again = jit.compile_sum_u8(true).unwrap();
    assert_eq!(jit.symbols().symbols[again.symbol()].name, "sum_u8_optimized_2");
}

#[test]
fn builder_errors_map_to_compile_errors() {
    assert_eq!(JitError::from_ir(IrError::EmptySignature), JitError::EmptySignature);
    assert_eq!(JitError::from_ir(IrError::UnsealedPredecessor), JitError::UnsealedPredecessor);
    assert_eq!(JitError::from_ir(IrError::IncompleteFunction), JitError::IncompleteFunction);
}

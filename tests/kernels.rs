use age_jit::interp::run;
use age_jit::ir::{IrBuilder, IrError, Op, ValueKind};
use age_jit::kernel::{build_blocked_kernel, build_simple_kernel};
use age_jit::semantics::interpret_sum_kernel;
use age_jit::sum::reference_sum;

fn pseudo_random_bytes(len: usize, seed: u64) -> Vec<u8> {
    let mut state = seed;
    (0..len)
        .map(|_| {
            state = state.wrapping_mul(6364136223846793005).wrapping_add(1442695040888963407);
            (state >> 56) as u8
        })
        .collect()
}

fn run_kernel(simple: bool, data: &[u8]) -> Option<u64> {
    let f = if simple { build_simple_kernel() } else { build_blocked_kernel() }.unwrap();
    let fuel = 2 * data.len() as u64 + 16;
    run(&f, data, &vec![0, data.len() as u64], fuel)
}

#[test]
fn empty_signature_is_refused() {
    assert!(matches!(
        IrBuilder::new(vec![], vec![ValueKind::Int64]),
        Err(IrError::EmptySignature)
    ));
    assert!(matches!(
        IrBuilder::new(vec![ValueKind::Pointer], vec![]),
        Err(IrError::EmptySignature)
    ));
}

#[test]
fn edge_into_sealed_block_is_refused() {
    let mut b = IrBuilder::new(vec![ValueKind::Pointer], vec![ValueKind::Int64]).unwrap();
    let entry = b.create_block();
    let target = b.create_block();
    b.switch_to(entry);
    b.seal(entry);
    b.seal(target);
    assert_eq!(b.jump(target, vec![]), Err(IrError::UnsealedPredecessor));
    let other = b.create_block();
    let c = b.emit(Op::Const { kind: ValueKind::Int64, value: 1 });
    assert_eq!(b.branch(c, other, vec![], target, vec![]), Err(IrError::UnsealedPredecessor));
    assert_eq!(b.jump(other, vec![]), Ok(()));
}

#[test]
fn unterminated_or_unsealed_function_is_incomplete() {
    let mut b = IrBuilder::new(vec![ValueKind::Pointer], vec![ValueKind::Int64]).unwrap();
    let entry = b.create_block();
    b.switch_to(entry);
    b.seal(entry);
    let v = b.emit(Op::Const { kind: ValueKind::Int64, value: 0 });
    let _ = v;
    assert!(matches!(b.finalize(), Err(IrError::IncompleteFunction)));

    let mut b = IrBuilder::new(vec![ValueKind::Pointer], vec![ValueKind::Int64]).unwrap();
    let entry = b.create_block();
    b.switch_to(entry);
    let v = b.emit(Op::Const { kind: ValueKind::Int64, value: 0 });
    b.ret(v);
    assert!(matches!(b.finalize(), Err(IrError::IncompleteFunction)));

    let b = IrBuilder::new(vec![ValueKind::Pointer], vec![ValueKind::Int64]).unwrap();
    assert!(matches!(b.finalize(), Err(IrError::IncompleteFunction)));
}

#[test]
fn kernels_build_with_expected_blocks() {
    let simple = build_simple_kernel().unwrap();
    assert_eq!(simple.blocks.len(), 4);
    assert_eq!(simple.params, vec![ValueKind::Pointer, ValueKind::Pointer]);
    assert_eq!(simple.results, vec![ValueKind::Int64]);
    let blocked = build_blocked_kernel().unwrap();
    assert_eq!(blocked.blocks.len(), 6);
    assert!(blocked.blocks.iter().all(|b| b.sealed && b.terminator.is_some()));
}

#[test]
fn kernel_scenarios() {
    for simple in [true, false] {
        assert_eq!(run_kernel(simple, &[]), Some(0));
        assert_eq!(run_kernel(simple, &[1, 2, 3]), Some(6));
        assert_eq!(run_kernel(simple, &[0xff; 17]), Some(4335));
        assert_eq!(run_kernel(simple, &vec![7u8; 1000]), Some(7000));
        assert_eq!(run_kernel(simple, &[10, 20, 30, 40, 50]), Some(150));
    }
}

#[test]
fn kernels_match_reference_sum_at_boundary_lengths() {
    for (i, len) in [0usize, 1, 15, 16, 17, 31, 32, 33, 1023, 4099].iter().enumerate() {
        let data = pseudo_random_bytes(*len, 77 + i as u64);
        let expected = reference_sum(&data);
        assert_eq!(run_kernel(true, &data), Some(expected));
        assert_eq!(run_kernel(false, &data), Some(expected));
    }
}

#[test]
fn building_a_kernel_twice_gives_the_same_results() {
    let data = pseudo_random_bytes(333, 5);
    let first = build_blocked_kernel().unwrap();
    let second = build_blocked_kernel().unwrap();
    assert_eq!(format!("{:?}", first), format!("{:?}", second));
    let args = vec![0, data.len() as u64];
    assert_eq!(run(&first, &data, &args, 1000), run(&second, &data, &args, 1000));
}

#[test]
fn running_out_of_fuel_or_bad_arguments_gives_none() {
    let f = build_simple_kernel().unwrap();
    let data = [1u8, 2, 3, 4];
    assert_eq!(run(&f, &data, &vec![0, 4], 3), None);
    assert_eq!(run(&f, &data, &vec![0], 100), None);
    // A length past the end of memory makes the load fault.
    assert_eq!(run(&f, &data, &vec![0, 5], 100), None);
}

#[test]
fn interpreted_kernels_give_the_scenario_sums() {
    for wide in [false, true] {
        assert_eq!(interpret_sum_kernel(&[], wide), 0);
        assert_eq!(interpret_sum_kernel(&[1, 2, 3], wide), 6);
        assert_eq!(interpret_sum_kernel(&[0xff; 17], wide), 4335);
        assert_eq!(interpret_sum_kernel(&vec![7u8; 1000], wide), 7000);
        assert_eq!(interpret_sum_kernel(&[10, 20, 30, 40, 50], wide), 150);
        for len in [15usize, 16, 31, 32, 33] {
            let data = pseudo_random_bytes(len, len as u64);
            assert_eq!(interpret_sum_kernel(&data, wide), reference_sum(&data));
        }
    }
}

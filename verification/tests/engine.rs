use fusion::backend::{
    DeviceId, Fusion, FusionDevice, Optimization, OptimizationBuilder, OptimizationProperties,
    OptimizationStatus,
};
use fusion::client::FusionError;
use fusion::elementwise::{ElemBackend, ElemDevice, ElementwiseBuilder};
use fusion::stream::{Context, OperationDescription};

fn device() -> ElemDevice {
    ElemDevice { index: 0 }
}

#[test]
fn device_id_components() {
    let id = DeviceId::new(3, 7);
    assert_eq!(id.type_id, 3);
    assert_eq!(id.index_id, 7);
    let d = ElemDevice { index: 9 };
    assert_eq!(d.id(), DeviceId::new(0, 9));
}

#[test]
fn engine_name_and_seed() {
    assert_eq!(Fusion::<ElemBackend>::name(), "fusion<elementwise>");
    Fusion::<ElemBackend>::seed(42);
}

#[test]
fn default_properties_are_idle() {
    let p = OptimizationProperties::default();
    assert_eq!(p.score, 0);
    assert!(!p.ready);
}

// The example scenario: add then relu, synchronized, must equal the
// elementwise rectified sum whatever execution strategy was picked.
#[test]
fn add_relu_scenario() {
    let mut engine = Fusion::<ElemBackend>::new();
    let dev = device();
    let idx = engine.locator.client(&dev);
    let a = engine.locator.create_handle(idx, vec![1, -2, 3, -4]);
    let b = engine.locator.create_handle(idx, vec![10, -20, -30, 2]);
    let c = engine.locator.handle_count(idx);
    engine
        .locator
        .register_operation(idx, OperationDescription::Add { lhs: a, rhs: b, out: c })
        .unwrap();
    let d = engine.locator.handle_count(idx);
    engine
        .locator
        .register_operation(idx, OperationDescription::Relu { input: c, out: d })
        .unwrap();
    engine.sync(&dev);
    assert_eq!(engine.locator.read_handle(idx, d).unwrap(), &vec![11, 0, 0, 0]);
    assert_eq!(engine.locator.read_handle(idx, c).unwrap(), &vec![11, -22, -27, -2]);
}

// Fused execution and one-at-a-time execution agree on every output.
#[test]
fn fused_matches_naive() {
    // Fused: the whole chain is pending when the stream drains.
    let mut fused = Fusion::<ElemBackend>::new();
    let dev = device();
    let fi = fused.locator.client(&dev);
    let a = fused.locator.create_handle(fi, vec![5, -7, 9]);
    let b = fused.locator.create_handle(fi, vec![2, 4, -6]);
    fused
        .locator
        .register_operation(fi, OperationDescription::Add { lhs: a, rhs: b, out: 2 })
        .unwrap();
    fused
        .locator
        .register_operation(fi, OperationDescription::Mul { lhs: 2, rhs: 2, out: 3 })
        .unwrap();
    fused
        .locator
        .register_operation(fi, OperationDescription::Relu { input: 3, out: 4 })
        .unwrap();
    fused.sync(&dev);

    // Naive: drain after every operation, so nothing is ever fused.
    let mut naive = Fusion::<ElemBackend>::new();
    let ni = naive.locator.client(&dev);
    naive.locator.create_handle(ni, vec![5, -7, 9]);
    naive.locator.create_handle(ni, vec![2, 4, -6]);
    naive
        .locator
        .register_operation(ni, OperationDescription::Add { lhs: 0, rhs: 1, out: 2 })
        .unwrap();
    naive.sync(&dev);
    naive
        .locator
        .register_operation(ni, OperationDescription::Mul { lhs: 2, rhs: 2, out: 3 })
        .unwrap();
    naive.sync(&dev);
    naive
        .locator
        .register_operation(ni, OperationDescription::Relu { input: 3, out: 4 })
        .unwrap();
    naive.sync(&dev);

    for h in 0..5 {
        assert_eq!(
            fused.locator.read_handle(fi, h).unwrap(),
            naive.locator.read_handle(ni, h).unwrap()
        );
    }
    assert_eq!(fused.locator.read_handle(fi, 4).unwrap(), &vec![49, 9, 9]);
}

// Repeated lookups of one device hit the same client: a handle created
// through the first lookup is visible through the second.
#[test]
fn client_lookup_is_idempotent() {
    let mut engine = Fusion::<ElemBackend>::new();
    let dev = device();
    let other = ElemDevice { index: 1 };
    let first = engine.locator.client(&dev);
    let second = engine.locator.client(&other);
    assert_ne!(first, second);
    let h = engine.locator.create_handle(first, vec![8, 8]);
    let again = engine.locator.client(&dev);
    assert_eq!(again, first);
    assert_eq!(engine.locator.handle_count(again), h + 1);
    assert_eq!(engine.locator.handle_count(second), 0);
    assert_eq!(engine.locator.device_count(), 2);
}

// While the builder stays open over a growing compatible chain, its
// score never decreases; the first incompatible operation closes it
// without extending the match.
#[test]
fn builder_score_is_monotone() {
    let mut builder = ElementwiseBuilder::new();
    assert!(matches!(builder.status(), OptimizationStatus::Open));
    assert!(builder.is_empty());
    let mut last_score = builder.properties().score;
    let chain = [
        OperationDescription::Add { lhs: 0, rhs: 1, out: 2 },
        OperationDescription::Relu { input: 2, out: 3 },
        OperationDescription::Mul { lhs: 3, rhs: 3, out: 4 },
    ];
    for op in &chain {
        builder.register(op);
        assert!(matches!(builder.status(), OptimizationStatus::Open));
        let score = builder.properties().score;
        assert!(score >= last_score);
        last_score = score;
    }
    assert_eq!(builder.len(), 3);
    assert!(builder.properties().ready);
    // This operation does not read the chain's last output: the builder
    // closes and keeps the match it had.
    builder.register(&OperationDescription::Add { lhs: 0, rhs: 1, out: 5 });
    assert!(matches!(builder.status(), OptimizationStatus::Closed));
    assert_eq!(builder.len(), 3);
    builder.reset();
    assert!(matches!(builder.status(), OptimizationStatus::Open));
    assert_eq!(builder.len(), 0);
}

// An optimization rebuilt from its snapshot executes exactly as the
// optimization the snapshot was taken from.
#[test]
fn optimization_state_round_trip() {
    let mut builder = ElementwiseBuilder::new();
    builder.register(&OperationDescription::Add { lhs: 0, rhs: 1, out: 2 });
    builder.register(&OperationDescription::Relu { input: 2, out: 3 });
    let mut original = builder.build();
    let state = original.to_state();
    let mut rebuilt = fusion::elementwise::FusedOptimization::from_state(&device(), state);
    assert_eq!(original.len(), rebuilt.len());
    assert!(!rebuilt.is_empty());

    let mut ctx1 = Context::empty();
    ctx1.push_materialized(vec![4, -9]);
    ctx1.push_materialized(vec![-5, 6]);
    ctx1.push_pending();
    ctx1.push_pending();
    let mut ctx2 = Context::empty();
    ctx2.push_materialized(vec![4, -9]);
    ctx2.push_materialized(vec![-5, 6]);
    ctx2.push_pending();
    ctx2.push_pending();

    original.execute(&mut ctx1);
    rebuilt.execute(&mut ctx2);
    assert_eq!(ctx1.read(3).unwrap(), &vec![0, 0]);
    assert_eq!(ctx2.read(3).unwrap(), ctx1.read(3).unwrap());
    assert_eq!(ctx2.read(2).unwrap(), ctx1.read(2).unwrap());
}

// After a drain the stream is empty and every issued handle reads back
// materialized.
#[test]
fn drain_leaves_nothing_pending() {
    let mut engine = Fusion::<ElemBackend>::new();
    let dev = device();
    let idx = engine.locator.client(&dev);
    engine.locator.create_handle(idx, vec![1, 2]);
    engine.locator.create_handle(idx, vec![3, 4]);
    engine
        .locator
        .register_operation(idx, OperationDescription::Add { lhs: 0, rhs: 1, out: 2 })
        .unwrap();
    engine
        .locator
        .register_operation(idx, OperationDescription::Relu { input: 2, out: 3 })
        .unwrap();
    assert_eq!(engine.locator.pending_count(idx), 2);
    assert!(engine.locator.read_handle(idx, 3).is_none());
    engine.sync(&dev);
    assert_eq!(engine.locator.pending_count(idx), 0);
    for h in 0..engine.locator.handle_count(idx) {
        assert!(engine.locator.read_handle(idx, h).is_some());
    }
    // Draining an already empty stream is harmless.
    engine.sync(&dev);
    assert_eq!(engine.locator.pending_count(idx), 0);
}

// Zero-length tensors flow through registration, fusion and drain.
#[test]
fn empty_tensors_are_handled() {
    let mut engine = Fusion::<ElemBackend>::new();
    let dev = device();
    let idx = engine.locator.client(&dev);
    engine.locator.create_handle(idx, vec![]);
    engine.locator.create_handle(idx, vec![]);
    engine
        .locator
        .register_operation(idx, OperationDescription::Add { lhs: 0, rhs: 1, out: 2 })
        .unwrap();
    engine
        .locator
        .register_operation(idx, OperationDescription::Relu { input: 2, out: 3 })
        .unwrap();
    engine.sync(&dev);
    assert_eq!(engine.locator.read_handle(idx, 3).unwrap(), &Vec::<i64>::new());
}

#[test]
fn register_rejects_unknown_handle() {
    let mut engine = Fusion::<ElemBackend>::new();
    let idx = engine.locator.client(&device());
    engine.locator.create_handle(idx, vec![1]);
    let r = engine
        .locator
        .register_operation(idx, OperationDescription::Add { lhs: 0, rhs: 5, out: 1 });
    assert_eq!(r, Err(FusionError::UnknownHandle));
}

#[test]
fn register_rejects_shape_mismatch() {
    let mut engine = Fusion::<ElemBackend>::new();
    let idx = engine.locator.client(&device());
    engine.locator.create_handle(idx, vec![1, 2]);
    engine.locator.create_handle(idx, vec![3]);
    let r = engine
        .locator
        .register_operation(idx, OperationDescription::Mul { lhs: 0, rhs: 1, out: 2 });
    assert_eq!(r, Err(FusionError::ShapeMismatch));
}

#[test]
fn register_rejects_stale_output() {
    let mut engine = Fusion::<ElemBackend>::new();
    let idx = engine.locator.client(&device());
    engine.locator.create_handle(idx, vec![1, 2]);
    engine.locator.create_handle(idx, vec![3, 4]);
    let r = engine
        .locator
        .register_operation(idx, OperationDescription::Add { lhs: 0, rhs: 1, out: 0 });
    assert_eq!(r, Err(FusionError::OutputNotFresh));
}

// Arithmetic saturates at the i64 bounds instead of wrapping.
#[test]
fn arithmetic_saturates() {
    let mut engine = Fusion::<ElemBackend>::new();
    let dev = device();
    let idx = engine.locator.client(&dev);
    engine.locator.create_handle(idx, vec![i64::MAX, i64::MIN, 1 << 40]);
    engine.locator.create_handle(idx, vec![1, -1, 1 << 40]);
    engine
        .locator
        .register_operation(idx, OperationDescription::Add { lhs: 0, rhs: 1, out: 2 })
        .unwrap();
    engine
        .locator
        .register_operation(idx, OperationDescription::Mul { lhs: 0, rhs: 1, out: 3 })
        .unwrap();
    engine.sync(&dev);
    assert_eq!(
        engine.locator.read_handle(idx, 2).unwrap(),
        &vec![i64::MAX, i64::MIN, 2 << 40]
    );
    assert_eq!(
        engine.locator.read_handle(idx, 3).unwrap(),
        &vec![i64::MAX, i64::MAX, i64::MAX]
    );
}

// Operations on the same device execute in registration order: the
// second operation reads what the first wrote.
#[test]
fn order_is_preserved() {
    let mut engine = Fusion::<ElemBackend>::new();
    let dev = device();
    let idx = engine.locator.client(&dev);
    engine.locator.create_handle(idx, vec![1, 2, 3]);
    engine.locator.create_handle(idx, vec![1, 1, 1]);
    // Writes handle 2, then squares it into handle 3.
    engine
        .locator
        .register_operation(idx, OperationDescription::Add { lhs: 0, rhs: 1, out: 2 })
        .unwrap();
    engine
        .locator
        .register_operation(idx, OperationDescription::Mul { lhs: 2, rhs: 2, out: 3 })
        .unwrap();
    engine.sync(&dev);
    assert_eq!(engine.locator.read_handle(idx, 3).unwrap(), &vec![4, 9, 16]);
}

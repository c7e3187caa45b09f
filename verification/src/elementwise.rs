//! A concrete numeric backend for the engine: saturating elementwise
//! kernels over `i64` tensors, a builder that fuses dependency chains of
//! elementwise operations, and the fused optimization it emits.

use crate::backend::{
    FusionBackend, FusionDevice, Optimization, OptimizationBuilder, OptimizationProperties,
    OptimizationStatus, DeviceId,
};
use crate::stream::{
    add_elems, clamp_to_i64, eval_op, mul_elems, op_valid, ops_admissible, relu_elems, run_ops,
    Context, OperationDescription,
};
use vstd::prelude::*;

verus! {

broadcast use vstd::string::group_string_axioms;

/// A device of the elementwise backend, identified by its number alone.
#[derive(Debug, Clone, Copy, PartialEq, Eq, Structural)]
pub struct ElemDevice {
    /// The device number.
    pub index: u32,
}

impl FusionDevice for ElemDevice {
    open spec fn id_spec(&self) -> DeviceId {
        DeviceId { type_id: 0, index_id: self.index }
    }

    fn id(&self) -> (r: DeviceId) {
        DeviceId::new(0, self.index)
    }
}

/// Saturating addition of two elements.
fn sat_add(a: i64, b: i64) -> (r: i64)
    ensures
        r == clamp_to_i64(a as int + b as int),
{
    if a >= 0 {
        if b <= i64::MAX - a {
            a + b
        } else {
            i64::MAX
        }
    } else {
        if b >= i64::MIN - a {
            a + b
        } else {
            i64::MIN
        }
    }
}

/// Saturating multiplication of two elements.
fn sat_mul(a: i64, b: i64) -> (r: i64)
    ensures
        r == clamp_to_i64(a as int * b as int),
{
    proof {
        assert(i64::MIN as int * i64::MIN as int <= 0x8000000000000000 * 0x8000000000000000);
        assert((a as int) * (b as int) <= 0x8000000000000000 * 0x8000000000000000
            && (a as int) * (b as int) >= -(0x8000000000000000 * 0x8000000000000000))
            by (nonlinear_arith)
            requires
                -0x8000000000000000 <= a as int <= 0x7fffffffffffffff,
                -0x8000000000000000 <= b as int <= 0x7fffffffffffffff,
        ;
    }
    let p: i128 = (a as i128) * (b as i128);
    if p > i64::MAX as i128 {
        i64::MAX
    } else if p < i64::MIN as i128 {
        i64::MIN
    } else {
        p as i64
    }
}

/// The rectifier of one element.
fn relu_val(x: i64) -> (r: i64)
    ensures
        r == (if x < 0 { 0i64 } else { x }),
{
    if x < 0 {
        0
    } else {
        x
    }
}

/// The elementwise saturating sum of two equal-length tensors.
fn add_vecs(a: &Vec<i64>, b: &Vec<i64>) -> (r: Vec<i64>)
    requires
        a@.len() == b@.len(),
    ensures
        r@ == add_elems(a@, b@),
{
    let mut out: Vec<i64> = Vec::new();
    let mut i: usize = 0;
    while i < a.len()
        invariant
            i <= a@.len(),
            a@.len() == b@.len(),
            out@ == add_elems(a@, b@).take(i as int),
        decreases a@.len() - i,
    {
        let v = sat_add(a[i], b[i]);
        out.push(v);
        proof {
            assert(add_elems(a@, b@).take(i + 1) =~= add_elems(a@, b@).take(i as int).push(v));
        }
        i += 1;
    }
    proof {
        assert(add_elems(a@, b@).take(a@.len() as int) =~= add_elems(a@, b@));
    }
    out
}

/// The elementwise saturating product of two equal-length tensors.
fn mul_vecs(a: &Vec<i64>, b: &Vec<i64>) -> (r: Vec<i64>)
    requires
        a@.len() == b@.len(),
    ensures
        r@ == mul_elems(a@, b@),
{
    let mut out: Vec<i64> = Vec::new();
    let mut i: usize = 0;
    while i < a.len()
        invariant
            i <= a@.len(),
            a@.len() == b@.len(),
            out@ == mul_elems(a@, b@).take(i as int),
        decreases a@.len() - i,
    {
        let v = sat_mul(a[i], b[i]);
        out.push(v);
        proof {
            assert(mul_elems(a@, b@).take(i + 1) =~= mul_elems(a@, b@).take(i as int).push(v));
        }
        i += 1;
    }
    proof {
        assert(mul_elems(a@, b@).take(a@.len() as int) =~= mul_elems(a@, b@));
    }
    out
}

/// The elementwise rectifier of a tensor.
fn relu_vec(a: &Vec<i64>) -> (r: Vec<i64>)
    ensures
        r@ == relu_elems(a@),
{
    let mut out: Vec<i64> = Vec::new();
    let mut i: usize = 0;
    while i < a.len()
        invariant
            i <= a@.len(),
            out@ == relu_elems(a@).take(i as int),
        decreases a@.len() - i,
    {
        let v = relu_val(a[i]);
        out.push(v);
        proof {
            assert(relu_elems(a@).take(i + 1) =~= relu_elems(a@).take(i as int).push(v));
        }
        i += 1;
    }
    proof {
        assert(relu_elems(a@).take(a@.len() as int) =~= relu_elems(a@));
    }
    out
}

/// Execute one operation against the handle bindings of `context`,
/// exactly as the reference semantics describes it.
pub fn apply_operation(op: &OperationDescription, context: &mut Context)
    requires
        op_valid(*op, old(context)@),
    ensures
        final(context)@ == eval_op(*op, old(context)@),
{
    match *op {
        OperationDescription::Add { lhs, rhs, out } => {
            let a = context.read(lhs).unwrap();
            let b = context.read(rhs).unwrap();
            let data = add_vecs(a, b);
            context.write(out, data);
        },
        OperationDescription::Mul { lhs, rhs, out } => {
            let a = context.read(lhs).unwrap();
            let b = context.read(rhs).unwrap();
            let data = mul_vecs(a, b);
            context.write(out, data);
        },
        OperationDescription::Relu { input, out } => {
            let a = context.read(input).unwrap();
            let data = relu_vec(a);
            context.write(out, data);
        },
    }
}

/// Copy a sequence of operation descriptions.
fn copy_ops(v: &Vec<OperationDescription>) -> (r: Vec<OperationDescription>)
    ensures
        r@ == v@,
{
    let mut out: Vec<OperationDescription> = Vec::new();
    let mut i: usize = 0;
    while i < v.len()
        invariant
            i <= v@.len(),
            out@ == v@.take(i as int),
        decreases v@.len() - i,
    {
        out.push(v[i]);
        proof {
            assert(v@.take(i + 1) =~= v@.take(i as int).push(v@[i as int]));
        }
        i += 1;
    }
    proof {
        assert(v@.take(v@.len() as int) =~= v@);
    }
    out
}

/// The serializable snapshot of a [`FusedOptimization`]: the fused
/// operations themselves, in order.
#[derive(Debug)]
pub struct ElemOptimizationState {
    /// The operations the snapshot stands for.
    pub ops: Vec<OperationDescription>,
}

/// The fused unit the elementwise backend executes: a dependency chain of
/// elementwise operations run as one kernel sweep.
#[derive(Debug)]
pub struct FusedOptimization {
    ops: Vec<OperationDescription>,
}

impl Optimization for FusedOptimization {
    type State = ElemOptimizationState;

    type Device = ElemDevice;

    closed spec fn ops_spec(&self) -> Seq<OperationDescription> {
        self.ops@
    }

    open spec fn state_ops_spec(state: ElemOptimizationState) -> Seq<OperationDescription> {
        state.ops@
    }

    fn execute(&mut self, context: &mut Context) {
        let ghost orig = old(context)@;
        proof {
            assert(self.ops@.skip(0) =~= self.ops@);
            assert(self.ops@.take(0) =~= Seq::<OperationDescription>::empty());
        }
        let n = self.ops.len();
        let mut i: usize = 0;
        while i < n
            invariant
                n == self.ops@.len(),
                i <= n,
                self.ops@ == old(self).ops@,
                context@ == run_ops(self.ops@.take(i as int), orig),
                ops_admissible(self.ops@.skip(i as int), context@),
            decreases n - i,
        {
            let op = self.ops[i];
            proof {
                assert(self.ops@.skip(i as int).first() == op);
                assert(op_valid(op, context@));
            }
            apply_operation(&op, context);
            proof {
                assert(self.ops@.skip(i as int).drop_first() =~= self.ops@.skip(i + 1));
                assert(self.ops@.take(i + 1) =~= self.ops@.take(i as int).push(op));
                crate::stream::lemma_run_ops_push(self.ops@.take(i as int), op, orig);
            }
            i += 1;
        }
        proof {
            assert(self.ops@.take(n as int) =~= self.ops@);
            assert(self.ops@.skip(n as int) =~= Seq::<OperationDescription>::empty());
        }
    }

    fn len(&self) -> (n: usize) {
        self.ops.len()
    }

    fn is_empty(&self) -> (b: bool) {
        self.ops.len() == 0
    }

    fn to_state(&self) -> (s: ElemOptimizationState) {
        ElemOptimizationState { ops: copy_ops(&self.ops) }
    }

    fn from_state(device: &ElemDevice, state: ElemOptimizationState) -> (r: Self) {
        let _ = device;
        FusedOptimization { ops: state.ops }
    }
}

/// A builder that fuses a dependency chain of elementwise operations:
/// after the first operation, it accepts each operation that reads the
/// handle the previous one wrote, and closes on the first that does not.
/// Its score is the length of the chain; a chain of at least two
/// operations is worth executing fused.
#[derive(Debug)]
pub struct ElementwiseBuilder {
    ops: Vec<OperationDescription>,
    accepting: bool,
}

impl ElementwiseBuilder {
    /// A fresh, open builder with an empty match.
    pub fn new() -> (r: ElementwiseBuilder)
        ensures
            r.ops_spec() == Seq::<OperationDescription>::empty(),
            r.status_spec() is Open,
    {
        ElementwiseBuilder { ops: Vec::new(), accepting: true }
    }
}

impl OptimizationBuilder<FusedOptimization> for ElementwiseBuilder {
    closed spec fn ops_spec(&self) -> Seq<OperationDescription> {
        self.ops@
    }

    closed spec fn status_spec(&self) -> OptimizationStatus {
        if self.accepting {
            OptimizationStatus::Open
        } else {
            OptimizationStatus::Closed
        }
    }

    closed spec fn properties_spec(&self) -> OptimizationProperties {
        OptimizationProperties {
            score: if self.ops@.len() <= u64::MAX { self.ops@.len() as u64 } else { u64::MAX },
            ready: self.ops@.len() >= 2,
        }
    }

    fn register(&mut self, operation: &OperationDescription) {
        if self.accepting {
            let n = self.ops.len();
            if n == 0 {
                self.ops.push(*operation);
            } else {
                let last = self.ops[n - 1];
                if operation.reads_handle(last.output_handle()) {
                    self.ops.push(*operation);
                } else {
                    self.accepting = false;
                }
            }
        }
    }

    fn build(&self) -> (o: FusedOptimization) {
        FusedOptimization { ops: copy_ops(&self.ops) }
    }

    fn reset(&mut self) {
        self.ops = Vec::new();
        self.accepting = true;
    }

    fn status(&self) -> (s: OptimizationStatus) {
        if self.accepting {
            OptimizationStatus::Open
        } else {
            OptimizationStatus::Closed
        }
    }

    fn properties(&self) -> (p: OptimizationProperties) {
        OptimizationProperties { score: self.ops.len() as u64, ready: self.ops.len() >= 2 }
    }

    fn len(&self) -> (n: usize) {
        self.ops.len()
    }

    fn is_empty(&self) -> (b: bool) {
        self.ops.len() == 0
    }
}

/// The elementwise backend itself.
#[derive(Debug, Clone, Copy)]
pub struct ElemBackend;

impl FusionBackend for ElemBackend {
    type FusionDevice = ElemDevice;

    type Optimization = FusedOptimization;

    type Builder = ElementwiseBuilder;

    closed spec fn name_spec() -> Seq<char> {
        "elementwise"@
    }

    fn optimizations(device: &ElemDevice) -> (r: Vec<ElementwiseBuilder>) {
        let _ = device;
        let mut v: Vec<ElementwiseBuilder> = Vec::new();
        v.push(ElementwiseBuilder::new());
        v
    }

    fn execute_operation(op: &OperationDescription, context: &mut Context) {
        apply_operation(op, context);
    }

    fn name() -> (r: String) {
        let r = "elementwise".to_string();
        proof {
            reveal_strlit("elementwise");
        }
        r
    }

    fn seed(seed: u64) {
        let _ = seed;
    }

    fn sync_device(device: &ElemDevice) {
        let _ = device;
    }
}

} // verus!

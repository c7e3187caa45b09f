//! The operation stream: operation descriptions, the handle store that
//! backs symbolic tensor handles, and the reference semantics that every
//! execution path of the engine must agree with.
//!
//! Tensors are one-dimensional vectors of `i64` elements; arithmetic
//! saturates at the `i64` bounds. A handle is an index into the store; an
//! entry is `Pending` until the operation that produces it has executed.

use vstd::prelude::*;

verus! {

/// An immutable record of one requested tensor operation: the opcode and
/// the symbolic handles of its operands and its result.
#[derive(Debug, Clone, Copy, PartialEq, Eq, Structural)]
pub enum OperationDescription {
    /// Elementwise saturating addition: `out[i] = lhs[i] + rhs[i]`.
    Add { lhs: usize, rhs: usize, out: usize },
    /// Elementwise saturating multiplication: `out[i] = lhs[i] * rhs[i]`.
    Mul { lhs: usize, rhs: usize, out: usize },
    /// Elementwise rectifier: `out[i] = max(input[i], 0)`.
    Relu { input: usize, out: usize },
}

impl OperationDescription {
    /// The handle this operation writes.
    pub open spec fn out_handle(self) -> int {
        match self {
            OperationDescription::Add { lhs: _, rhs: _, out } => out as int,
            OperationDescription::Mul { lhs: _, rhs: _, out } => out as int,
            OperationDescription::Relu { input: _, out } => out as int,
        }
    }

    /// Whether this operation reads handle `h`.
    pub open spec fn reads(self, h: int) -> bool {
        match self {
            OperationDescription::Add { lhs, rhs, out: _ } => lhs == h || rhs == h,
            OperationDescription::Mul { lhs, rhs, out: _ } => lhs == h || rhs == h,
            OperationDescription::Relu { input, out: _ } => input == h,
        }
    }

    /// Return the handle this operation writes.
    pub fn output_handle(&self) -> (h: usize)
        ensures
            h as int == self.out_handle(),
    {
        match *self {
            OperationDescription::Add { lhs: _, rhs: _, out } => out,
            OperationDescription::Mul { lhs: _, rhs: _, out } => out,
            OperationDescription::Relu { input: _, out } => out,
        }
    }

    /// Return whether this operation reads handle `h`.
    pub fn reads_handle(&self, h: usize) -> (b: bool)
        ensures
            b == self.reads(h as int),
    {
        match *self {
            OperationDescription::Add { lhs, rhs, out: _ } => lhs == h || rhs == h,
            OperationDescription::Mul { lhs, rhs, out: _ } => lhs == h || rhs == h,
            OperationDescription::Relu { input, out: _ } => input == h,
        }
    }
}

/// The storage state behind one tensor handle.
#[derive(Debug)]
pub enum TensorState {
    /// The producing operation has not executed yet.
    Pending,
    /// The tensor's elements are available.
    Materialized(Vec<i64>),
}

impl View for TensorState {
    type V = Option<Seq<i64>>;

    open spec fn view(&self) -> Option<Seq<i64>> {
        match self {
            TensorState::Pending => None,
            TensorState::Materialized(v) => Some(v@),
        }
    }
}

/// The handle bindings an optimization executes against: one entry per
/// issued handle, indexed by the handle value.
///
/// The view of a context is the abstract store: a sequence with `None` for
/// a pending handle and `Some(elements)` for a materialized one.
#[derive(Debug)]
pub struct Context {
    /// The storage entry of each issued handle.
    pub handles: Vec<TensorState>,
}

impl View for Context {
    type V = Seq<Option<Seq<i64>>>;

    open spec fn view(&self) -> Seq<Option<Seq<i64>>> {
        self.handles@.map_values(|t: TensorState| t@)
    }
}

impl Context {
    /// A context with no handles issued yet.
    pub fn empty() -> (r: Context)
        ensures
            r@ == Seq::<Option<Seq<i64>>>::empty(),
    {
        let r = Context { handles: Vec::new() };
        proof {
            assert(r@ =~= Seq::<Option<Seq<i64>>>::empty());
        }
        r
    }

    /// How many handles have been issued.
    pub fn handle_count(&self) -> (n: usize)
        ensures
            n == self@.len(),
    {
        self.handles.len()
    }

    /// Issue a fresh pending handle.
    pub fn push_pending(&mut self)
        ensures
            final(self)@ == old(self)@.push(None::<Seq<i64>>),
    {
        self.handles.push(TensorState::Pending);
        proof {
            assert(self@ =~= old(self)@.push(None::<Seq<i64>>));
        }
    }

    /// Issue a fresh handle already bound to materialized elements.
    pub fn push_materialized(&mut self, data: Vec<i64>)
        ensures
            final(self)@ == old(self)@.push(Some(data@)),
    {
        let ghost elems = data@;
        self.handles.push(TensorState::Materialized(data));
        proof {
            assert(self@ =~= old(self)@.push(Some(elems)));
        }
    }

    /// Bind handle `h` to materialized elements.
    pub fn write(&mut self, h: usize, data: Vec<i64>)
        requires
            h < old(self)@.len(),
        ensures
            final(self)@ == old(self)@.update(h as int, Some(data@)),
    {
        let ghost elems = data@;
        self.handles[h] = TensorState::Materialized(data);
        proof {
            assert(self@ =~= old(self)@.update(h as int, Some(elems)));
        }
    }

    /// Read the elements behind handle `h`, if it is materialized.
    pub fn read(&self, h: usize) -> (r: Option<&Vec<i64>>)
        ensures
            match r {
                Some(v) => h < self@.len() && self@[h as int] == Some(v@),
                None => h >= self@.len() || self@[h as int] is None,
            },
    {
        if h < self.handles.len() {
            match &self.handles[h] {
                TensorState::Materialized(v) => Some(v),
                TensorState::Pending => None,
            }
        } else {
            None
        }
    }
}

/// Clamp a mathematical integer into the `i64` range.
pub open spec fn clamp_to_i64(x: int) -> i64 {
    if x > i64::MAX {
        i64::MAX
    } else if x < i64::MIN {
        i64::MIN
    } else {
        x as i64
    }
}

/// Elementwise saturating sum of two equal-length element sequences.
pub open spec fn add_elems(a: Seq<i64>, b: Seq<i64>) -> Seq<i64> {
    Seq::new(a.len(), |i: int| clamp_to_i64(a[i] + b[i]))
}

/// Elementwise saturating product of two equal-length element sequences.
pub open spec fn mul_elems(a: Seq<i64>, b: Seq<i64>) -> Seq<i64> {
    Seq::new(a.len(), |i: int| clamp_to_i64(a[i] * b[i]))
}

/// Elementwise rectifier of an element sequence.
pub open spec fn relu_elems(a: Seq<i64>) -> Seq<i64> {
    Seq::new(a.len(), |i: int| if a[i] < 0 { 0i64 } else { a[i] })
}

/// Whether an operation can execute against store `s`: its handles are in
/// range, its inputs are materialized, and binary inputs agree in length.
pub open spec fn op_valid(op: OperationDescription, s: Seq<Option<Seq<i64>>>) -> bool {
    match op {
        OperationDescription::Add { lhs, rhs, out } => {
            &&& lhs < s.len() && rhs < s.len() && out < s.len()
            &&& s[lhs as int] is Some && s[rhs as int] is Some
            &&& s[lhs as int]->0.len() == s[rhs as int]->0.len()
        },
        OperationDescription::Mul { lhs, rhs, out } => {
            &&& lhs < s.len() && rhs < s.len() && out < s.len()
            &&& s[lhs as int] is Some && s[rhs as int] is Some
            &&& s[lhs as int]->0.len() == s[rhs as int]->0.len()
        },
        OperationDescription::Relu { input, out } => {
            &&& input < s.len() && out < s.len()
            &&& s[input as int] is Some
        },
    }
}

/// The elements an operation produces when executed against store `s`.
pub open spec fn op_output(op: OperationDescription, s: Seq<Option<Seq<i64>>>) -> Seq<i64> {
    match op {
        OperationDescription::Add { lhs, rhs, out: _ } => add_elems(
            s[lhs as int]->0,
            s[rhs as int]->0,
        ),
        OperationDescription::Mul { lhs, rhs, out: _ } => mul_elems(
            s[lhs as int]->0,
            s[rhs as int]->0,
        ),
        OperationDescription::Relu { input, out: _ } => relu_elems(s[input as int]->0),
    }
}

/// One step of the reference semantics: execute `op` against store `s`.
/// An operation that is not valid for `s` leaves the store unchanged.
pub open spec fn eval_op(
    op: OperationDescription,
    s: Seq<Option<Seq<i64>>>,
) -> Seq<Option<Seq<i64>>> {
    if op_valid(op, s) {
        s.update(op.out_handle(), Some(op_output(op, s)))
    } else {
        s
    }
}

/// The reference semantics of a whole sequence: execute every operation
/// independently, one at a time, in order. Every execution strategy of the
/// engine, fused or not, is measured against this function.
pub open spec fn run_ops(
    ops: Seq<OperationDescription>,
    s: Seq<Option<Seq<i64>>>,
) -> Seq<Option<Seq<i64>>>
    decreases ops.len(),
{
    if ops.len() == 0 {
        s
    } else {
        run_ops(ops.drop_first(), eval_op(ops.first(), s))
    }
}

/// Whether every operation of `ops` is valid at its turn when the sequence
/// runs, in order, against store `s`.
pub open spec fn ops_admissible(ops: Seq<OperationDescription>, s: Seq<Option<Seq<i64>>>) -> bool
    decreases ops.len(),
{
    ops.len() == 0 || {
        &&& op_valid(ops.first(), s)
        &&& ops_admissible(ops.drop_first(), eval_op(ops.first(), s))
    }
}

/// Running operations never changes how many handles the store has.
pub proof fn lemma_run_ops_len(ops: Seq<OperationDescription>, s: Seq<Option<Seq<i64>>>)
    ensures
        run_ops(ops, s).len() == s.len(),
    decreases ops.len(),
{
    if ops.len() > 0 {
        lemma_run_ops_len(ops.drop_first(), eval_op(ops.first(), s));
    }
}

/// Appending an operation to a sequence runs the sequence, then the
/// operation.
pub proof fn lemma_run_ops_push(
    ops: Seq<OperationDescription>,
    op: OperationDescription,
    s: Seq<Option<Seq<i64>>>,
)
    ensures
        run_ops(ops.push(op), s) == eval_op(op, run_ops(ops, s)),
    decreases ops.len(),
{
    reveal_with_fuel(run_ops, 3);
    assert(ops.push(op).first() == if ops.len() == 0 { op } else { ops.first() });
    if ops.len() == 0 {
        assert(ops.push(op).drop_first() =~= Seq::<OperationDescription>::empty());
    } else {
        assert(ops.push(op).drop_first() =~= ops.drop_first().push(op));
        lemma_run_ops_push(ops.drop_first(), op, eval_op(ops.first(), s));
    }
}

/// Running a concatenation runs the first part, then the second.
pub proof fn lemma_run_ops_concat(
    a: Seq<OperationDescription>,
    b: Seq<OperationDescription>,
    s: Seq<Option<Seq<i64>>>,
)
    ensures
        run_ops(a + b, s) == run_ops(b, run_ops(a, s)),
    decreases a.len(),
{
    if a.len() == 0 {
        assert(a + b =~= b);
    } else {
        assert((a + b).drop_first() =~= a.drop_first() + b);
        lemma_run_ops_concat(a.drop_first(), b, eval_op(a.first(), s));
    }
}

/// An admissible concatenation splits: the first part is admissible as it
/// stands, the second after the first has run.
pub proof fn lemma_admissible_split(
    a: Seq<OperationDescription>,
    b: Seq<OperationDescription>,
    s: Seq<Option<Seq<i64>>>,
)
    requires
        ops_admissible(a + b, s),
    ensures
        ops_admissible(a, s),
        ops_admissible(b, run_ops(a, s)),
    decreases a.len(),
{
    if a.len() == 0 {
        assert(a + b =~= b);
    } else {
        assert((a + b).drop_first() =~= a.drop_first() + b);
        lemma_admissible_split(a.drop_first(), b, eval_op(a.first(), s));
    }
}

/// An admissible sequence stays admissible when an operation that is valid
/// after it is appended.
pub proof fn lemma_admissible_push(
    ops: Seq<OperationDescription>,
    op: OperationDescription,
    s: Seq<Option<Seq<i64>>>,
)
    requires
        ops_admissible(ops, s),
        op_valid(op, run_ops(ops, s)),
    ensures
        ops_admissible(ops.push(op), s),
    decreases ops.len(),
{
    reveal_with_fuel(run_ops, 3);
    reveal_with_fuel(ops_admissible, 3);
    assert(ops.push(op).first() == if ops.len() == 0 { op } else { ops.first() });
    if ops.len() == 0 {
        assert(ops.push(op).drop_first() =~= Seq::<OperationDescription>::empty());
    } else {
        assert(ops.push(op).drop_first() =~= ops.drop_first().push(op));
        lemma_admissible_push(ops.drop_first(), op, eval_op(ops.first(), s));
    }
}

/// A handle that is materialized stays materialized, with the same or a
/// newly written value, while operations run; no operation un-materializes
/// a handle.
pub proof fn lemma_materialized_stable(
    ops: Seq<OperationDescription>,
    s: Seq<Option<Seq<i64>>>,
    h: int,
)
    requires
        0 <= h < s.len(),
        s[h] is Some,
    ensures
        run_ops(ops, s)[h] is Some,
    decreases ops.len(),
{
    if ops.len() > 0 {
        lemma_materialized_stable(ops.drop_first(), eval_op(ops.first(), s), h);
    }
}

/// After an admissible sequence runs, the output handle of each of its
/// operations is materialized.
pub proof fn lemma_outputs_materialized(
    ops: Seq<OperationDescription>,
    s: Seq<Option<Seq<i64>>>,
    i: int,
)
    requires
        ops_admissible(ops, s),
        0 <= i < ops.len(),
    ensures
        0 <= ops[i].out_handle() < s.len(),
        run_ops(ops, s)[ops[i].out_handle()] is Some,
    decreases ops.len(),
{
    lemma_run_ops_len(ops, s);
    if i == 0 {
        lemma_materialized_stable(
            ops.drop_first(),
            eval_op(ops.first(), s),
            ops.first().out_handle(),
        );
    } else {
        lemma_outputs_materialized(ops.drop_first(), eval_op(ops.first(), s), i - 1);
    }
}

/// Growing the store by one fresh handle disturbs nothing: an admissible
/// sequence stays admissible and runs to the same result, with the fresh
/// entry carried through untouched.
pub proof fn lemma_run_ops_extend(
    ops: Seq<OperationDescription>,
    s: Seq<Option<Seq<i64>>>,
    x: Option<Seq<i64>>,
)
    requires
        ops_admissible(ops, s),
    ensures
        ops_admissible(ops, s.push(x)),
        run_ops(ops, s.push(x)) == run_ops(ops, s).push(x),
    decreases ops.len(),
{
    if ops.len() > 0 {
        let op = ops.first();
        assert(op_valid(op, s.push(x)));
        assert(eval_op(op, s.push(x)) =~= eval_op(op, s).push(x));
        lemma_run_ops_extend(ops.drop_first(), eval_op(op, s), x);
    }
}

/// Order preservation: when one operation writes a handle and the next
/// reads it, the later operation computes from exactly the value the
/// earlier one wrote, never from the state the handle had before.
pub proof fn lemma_order_preserved(
    op1: OperationDescription,
    op2: OperationDescription,
    s: Seq<Option<Seq<i64>>>,
)
    requires
        op_valid(op1, s),
        op_valid(op2, eval_op(op1, s)),
    ensures
        run_ops(seq![op1, op2], s) == eval_op(op2, s.update(op1.out_handle(), Some(op_output(op1, s)))),
{
    reveal_with_fuel(run_ops, 4);
    let two = seq![op1, op2];
    assert(two.first() == op1);
    assert(two.drop_first() =~= seq![op2]);
    assert(two.drop_first().first() == op2);
    assert(two.drop_first().drop_first() =~= Seq::<OperationDescription>::empty());
    assert(run_ops(two, s) == run_ops(two.drop_first(), eval_op(op1, s)));
    assert(run_ops(two.drop_first(), eval_op(op1, s)) == eval_op(op2, eval_op(op1, s)));
}

} // verus!

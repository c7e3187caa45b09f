//! The per-device fusion client: it owns the device's operation stream
//! and handle store, drives the registered builders, selects the best
//! ready optimization on a flush, and falls back to one-by-one execution
//! when no builder is ready.

use crate::backend::{DeviceId, FusionBackend, Optimization, OptimizationBuilder};
use crate::stream::{
    lemma_admissible_push, lemma_admissible_split, lemma_materialized_stable,
    lemma_outputs_materialized, lemma_run_ops_concat, lemma_run_ops_extend, lemma_run_ops_len,
    lemma_run_ops_push, op_output, op_valid, ops_admissible, run_ops, Context,
    OperationDescription,
};
use vstd::prelude::*;

verus! {

/// Why the client rejected an operation at registration.
#[derive(Debug, Clone, Copy, PartialEq, Eq, Structural)]
pub enum FusionError {
    /// An input handle was never issued.
    UnknownHandle,
    /// The inputs of a binary operation differ in length.
    ShapeMismatch,
    /// The output handle is not the next handle to be issued.
    OutputNotFresh,
}

/// Whether every input handle of `op` is an already issued handle of
/// store `vs`.
pub open spec fn inputs_known(op: OperationDescription, vs: Seq<Option<Seq<i64>>>) -> bool {
    match op {
        OperationDescription::Add { lhs, rhs, out: _ } => lhs < vs.len() && rhs < vs.len(),
        OperationDescription::Mul { lhs, rhs, out: _ } => lhs < vs.len() && rhs < vs.len(),
        OperationDescription::Relu { input, out: _ } => input < vs.len(),
    }
}

/// Whether the input shapes of `op` agree, in a store whose entries all
/// resolve.
pub open spec fn shapes_agree(op: OperationDescription, vs: Seq<Option<Seq<i64>>>) -> bool {
    match op {
        OperationDescription::Add { lhs, rhs, out: _ } => vs[lhs as int]->0.len() == vs[
            rhs as int
        ]->0.len(),
        OperationDescription::Mul { lhs, rhs, out: _ } => vs[lhs as int]->0.len() == vs[
            rhs as int
        ]->0.len(),
        OperationDescription::Relu { input: _, out: _ } => true,
    }
}

/// Whether `op` writes the next handle the client would issue.
pub open spec fn output_fresh(op: OperationDescription, vs: Seq<Option<Seq<i64>>>) -> bool {
    op.out_handle() == vs.len()
}

/// Whether the client accepts `op` against the resolved store `vs`.
pub open spec fn registrable(op: OperationDescription, vs: Seq<Option<Seq<i64>>>) -> bool {
    inputs_known(op, vs) && shapes_agree(op, vs) && output_fresh(op, vs)
}

/// Whether builder `b` has followed a window of fed operations: what it
/// matched is a prefix of the window, the whole window while it is open.
pub open spec fn builder_tracks<B: FusionBackend>(
    b: B::Builder,
    fed: Seq<OperationDescription>,
) -> bool {
    &&& b.ops_spec().len() <= fed.len()
    &&& b.ops_spec() == fed.take(b.ops_spec().len() as int)
    &&& b.status_spec() is Open ==> b.ops_spec().len() == fed.len()
}

/// One device's fusion client.
#[verifier::reject_recursive_types(B)]
pub struct FusionClient<B: FusionBackend> {
    device_id: DeviceId,
    context: Context,
    pending: Vec<OperationDescription>,
    lens: Vec<usize>,
    builders: Vec<B::Builder>,
}

impl<B: FusionBackend> FusionClient<B> {
    /// The id of the device this client serves.
    pub closed spec fn device_id_spec(self) -> DeviceId {
        self.device_id
    }

    /// The store as it stands now: `None` for handles whose producing
    /// operation is still pending.
    pub closed spec fn store(self) -> Seq<Option<Seq<i64>>> {
        self.context@
    }

    /// The operations registered and not yet executed, in order.
    pub closed spec fn pending_ops(self) -> Seq<OperationDescription> {
        self.pending@
    }

    /// The store as it will stand once every pending operation has run:
    /// the meaning of the client's state. Every execution step the client
    /// takes preserves this value.
    pub closed spec fn resolved(self) -> Seq<Option<Seq<i64>>> {
        run_ops(self.pending@, self.context@)
    }

    /// The client's invariant: bookkeeping lengths match the resolved
    /// store, every pending operation is valid at its turn, every pending
    /// handle is the output of a pending operation, and every builder has
    /// followed the pending window.
    pub closed spec fn wf(self) -> bool {
        &&& self.lens@.len() == self.resolved().len()
        &&& forall|h: int|
            0 <= h < self.lens@.len() ==> (#[trigger] self.resolved()[h]) is Some
                && self.resolved()[h]->0.len() == self.lens@[h]
        &&& ops_admissible(self.pending@, self.context@)
        &&& forall|h: int|
            0 <= h < self.context@.len() && (#[trigger] self.context@[h]) is None ==> exists|i: int|
                0 <= i < self.pending@.len() && (#[trigger] self.pending@[i]).out_handle() == h
        &&& forall|i: int|
            0 <= i < self.builders@.len() ==> builder_tracks::<B>(
                #[trigger] self.builders@[i],
                self.pending@,
            )
    }

    /// A fresh client for one device, with the backend's builder set.
    pub fn new(device_id: DeviceId, builders: Vec<B::Builder>) -> (r: Self)
        requires
            forall|i: int|
                0 <= i < builders@.len() ==> (#[trigger] builders@[i]).ops_spec()
                    == Seq::<OperationDescription>::empty() && builders@[i].status_spec() is Open,
        ensures
            r.wf(),
            r.device_id_spec() == device_id,
            r.resolved() == Seq::<Option<Seq<i64>>>::empty(),
            r.pending_ops().len() == 0,
    {
        let r = FusionClient {
            device_id,
            context: Context::empty(),
            pending: Vec::new(),
            lens: Vec::new(),
            builders,
        };
        proof {
            assert(r.resolved() =~= Seq::<Option<Seq<i64>>>::empty());
            assert forall|i: int|
                0 <= i < r.builders@.len() implies builder_tracks::<B>(
                #[trigger] r.builders@[i],
                r.pending@,
            ) by {
                assert(r.pending@.take(0) =~= Seq::<OperationDescription>::empty());
            }
        }
        r
    }

    /// How many handles this client has issued.
    pub fn handle_count(&self) -> (n: usize)
        requires
            self.wf(),
        ensures
            n == self.resolved().len(),
    {
        self.lens.len()
    }

    /// How many operations are pending.
    pub fn pending_count(&self) -> (n: usize)
        ensures
            n == self.pending_ops().len(),
    {
        self.pending.len()
    }

    /// Read the elements behind a handle, if its producing operation has
    /// already executed.
    pub fn read_handle(&self, h: usize) -> (r: Option<&Vec<i64>>)
        ensures
            match r {
                Some(v) => h < self.store().len() && self.store()[h as int] == Some(v@),
                None => h >= self.store().len() || self.store()[h as int] is None,
            },
    {
        self.context.read(h)
    }

    /// Issue a fresh handle bound to materialized input elements.
    pub fn create_handle(&mut self, data: Vec<i64>) -> (h: usize)
        requires
            old(self).wf(),
        ensures
            final(self).wf(),
            final(self).device_id_spec() == old(self).device_id_spec(),
            final(self).pending_ops() == old(self).pending_ops(),
            h == old(self).resolved().len(),
            final(self).resolved() == old(self).resolved().push(Some(data@)),
    {
        let h = self.lens.len();
        let n = data.len();
        let ghost elems = data@;
        self.context.push_materialized(data);
        self.lens.push(n);
        proof {
            lemma_run_ops_extend(self.pending@, old(self).context@, Some(elems));
            assert(self.resolved() == old(self).resolved().push(Some(elems)));
            assert forall|hh: int|
                0 <= hh < self.context@.len() && (#[trigger] self.context@[hh]) is None implies
                exists|i: int|
                    0 <= i < self.pending@.len() && (#[trigger] self.pending@[i]).out_handle()
                        == hh by {
                assert(0 <= hh < old(self).context@.len());
                assert(old(self).context@[hh] is None);
            }
        }
        h
    }

    /// Whether some builder still reports an open status.
    fn any_builder_open(&self) -> (b: bool)
        ensures
            b == exists|i: int|
                0 <= i < self.builders@.len() && (#[trigger] self.builders@[i]).status_spec()
                    is Open,
    {
        let n = self.builders.len();
        let mut i: usize = 0;
        while i < n
            invariant
                i <= n,
                n == self.builders@.len(),
                forall|j: int|
                    0 <= j < i ==> !((#[trigger] self.builders@[j]).status_spec() is Open),
            decreases n - i,
        {
            if matches!(self.builders[i].status(), crate::backend::OptimizationStatus::Open) {
                return true;
            }
            i += 1;
        }
        false
    }

    /// Feed one operation to every builder. The ghost window `fed` is the
    /// sequence of operations the builders had already seen.
    fn feed_builders(&mut self, operation: &OperationDescription, fed: Ghost<Seq<OperationDescription>>)
        requires
            forall|i: int|
                0 <= i < old(self).builders@.len() ==> builder_tracks::<B>(
                    #[trigger] old(self).builders@[i],
                    fed@,
                ),
        ensures
            forall|i: int|
                0 <= i < final(self).builders@.len() ==> builder_tracks::<B>(
                    #[trigger] final(self).builders@[i],
                    fed@.push(*operation),
                ),
            final(self).builders@.len() == old(self).builders@.len(),
            final(self).device_id == old(self).device_id,
            final(self).context == old(self).context,
            final(self).pending == old(self).pending,
            final(self).lens == old(self).lens,
    {
        let ghost grown = fed@.push(*operation);
        let mut updated: Vec<B::Builder> = Vec::new();
        proof {
            assert(grown.take(fed@.len() as int) =~= fed@);
        }
        while self.builders.len() > 0
            invariant
                updated@.len() + self.builders@.len() == old(self).builders@.len(),
                grown == fed@.push(*operation),
                grown.take(fed@.len() as int) == fed@,
                forall|i: int|
                    0 <= i < updated@.len() ==> builder_tracks::<B>(
                        #[trigger] updated@[i],
                        grown,
                    ),
                forall|i: int|
                    0 <= i < self.builders@.len() ==> builder_tracks::<B>(
                        #[trigger] self.builders@[i],
                        fed@,
                    ),
                self.device_id == old(self).device_id,
                self.context == old(self).context,
                self.pending == old(self).pending,
                self.lens == old(self).lens,
            decreases self.builders@.len(),
        {
            let mut b = self.builders.remove(0);
            proof {
                // The builder's old match is a prefix of the grown window too.
                assert(grown.take(b.ops_spec().len() as int) =~= fed@.take(
                    b.ops_spec().len() as int,
                ));
            }
            b.register(operation);
            proof {
                if b.ops_spec().len() == grown.len() {
                    assert(grown.take(grown.len() as int) =~= grown);
                }
                assert(builder_tracks::<B>(b, grown));
            }
            updated.push(b);
        }
        self.builders = updated;
    }

    /// Reset every builder and replay the pending window to them, so that
    /// they track the stream that remains after a flush.
    fn refresh_builders(&mut self)
        ensures
            forall|i: int|
                0 <= i < final(self).builders@.len() ==> builder_tracks::<B>(
                    #[trigger] final(self).builders@[i],
                    final(self).pending@,
                ),
            final(self).builders@.len() == old(self).builders@.len(),
            final(self).device_id == old(self).device_id,
            final(self).context == old(self).context,
            final(self).pending == old(self).pending,
            final(self).lens == old(self).lens,
    {
        let mut updated: Vec<B::Builder> = Vec::new();
        while self.builders.len() > 0
            invariant
                updated@.len() + self.builders@.len() == old(self).builders@.len(),
                forall|i: int|
                    0 <= i < updated@.len() ==> builder_tracks::<B>(
                        #[trigger] updated@[i],
                        Seq::<OperationDescription>::empty(),
                    ),
                self.device_id == old(self).device_id,
                self.context == old(self).context,
                self.pending == old(self).pending,
                self.lens == old(self).lens,
            decreases self.builders@.len(),
        {
            let mut b = self.builders.remove(0);
            b.reset();
            proof {
                assert(Seq::<OperationDescription>::empty().take(0) =~= Seq::<
                    OperationDescription,
                >::empty());
                assert(builder_tracks::<B>(b, Seq::<OperationDescription>::empty()));
            }
            updated.push(b);
        }
        self.builders = updated;

        let n = self.pending.len();
        let mut j: usize = 0;
        proof {
            assert(self.pending@.take(0) =~= Seq::<OperationDescription>::empty());
        }
        while j < n
            invariant
                j <= n,
                n == self.pending@.len(),
                forall|i: int|
                    0 <= i < self.builders@.len() ==> builder_tracks::<B>(
                        #[trigger] self.builders@[i],
                        self.pending@.take(j as int),
                    ),
                self.builders@.len() == old(self).builders@.len(),
                self.device_id == old(self).device_id,
                self.context == old(self).context,
                self.pending == old(self).pending,
                self.lens == old(self).lens,
            decreases n - j,
        {
            let op = self.pending[j];
            let ghost seen = self.pending@.take(j as int);
            self.feed_builders(&op, Ghost(seen));
            proof {
                assert(self.pending@.take(j + 1) =~= seen.push(op));
            }
            j += 1;
        }
        proof {
            assert(self.pending@.take(n as int) =~= self.pending@);
        }
    }

    /// Append one operation to the stream and feed it to every builder.
    ///
    /// The operation is accepted exactly when its inputs are issued
    /// handles, its input shapes agree, and it writes the next fresh
    /// handle; each error names the first check that failed. Whatever
    /// execution the registration triggers, the resolved store gains
    /// exactly the accepted operation's output.
    ///
    /// When, after registration, no builder reports an open status, the
    /// client flushes the whole pending window.
    pub fn register(&mut self, operation: OperationDescription) -> (r: Result<(), FusionError>)
        requires
            old(self).wf(),
        ensures
            final(self).wf(),
            final(self).device_id_spec() == old(self).device_id_spec(),
            match r {
                Ok(()) => registrable(operation, old(self).resolved()) && final(self).resolved()
                    == old(self).resolved().push(
                    Some(op_output(operation, old(self).resolved())),
                ),
                Err(FusionError::UnknownHandle) => !inputs_known(operation, old(self).resolved())
                    && *final(self) == *old(self),
                Err(FusionError::ShapeMismatch) => inputs_known(operation, old(self).resolved())
                    && !shapes_agree(operation, old(self).resolved()) && *final(self) == *old(self),
                Err(FusionError::OutputNotFresh) => inputs_known(operation, old(self).resolved())
                    && shapes_agree(operation, old(self).resolved()) && !output_fresh(
                    operation,
                    old(self).resolved(),
                ) && *final(self) == *old(self),
            },
    {
        let count = self.lens.len();
        // Validate the operation against the resolved store's bookkeeping.
        let out_len: usize;
        match operation {
            OperationDescription::Add { lhs, rhs, out } => {
                if lhs >= count || rhs >= count {
                    return Err(FusionError::UnknownHandle);
                }
                if self.lens[lhs] != self.lens[rhs] {
                    return Err(FusionError::ShapeMismatch);
                }
                if out != count {
                    return Err(FusionError::OutputNotFresh);
                }
                out_len = self.lens[lhs];
            },
            OperationDescription::Mul { lhs, rhs, out } => {
                if lhs >= count || rhs >= count {
                    return Err(FusionError::UnknownHandle);
                }
                if self.lens[lhs] != self.lens[rhs] {
                    return Err(FusionError::ShapeMismatch);
                }
                if out != count {
                    return Err(FusionError::OutputNotFresh);
                }
                out_len = self.lens[lhs];
            },
            OperationDescription::Relu { input, out } => {
                if input >= count {
                    return Err(FusionError::UnknownHandle);
                }
                if out != count {
                    return Err(FusionError::OutputNotFresh);
                }
                out_len = self.lens[input];
            },
        }
        let ghost vs_old = old(self).resolved();
        proof {
            assert(registrable(operation, vs_old));
        }

        // Accept: issue the output handle, record the operation, feed it
        // to the builders.
        let ghost fed = self.pending@;
        self.context.push_pending();
        self.lens.push(out_len);
        self.pending.push(operation);
        proof {
            lemma_run_ops_extend(fed, old(self).context@, None);
            assert(op_valid(operation, run_ops(fed, self.context@)));
            lemma_admissible_push(fed, operation, self.context@);
            lemma_run_ops_push(fed, operation, self.context@);
            assert(run_ops(fed, self.context@) == vs_old.push(None));
            assert(self.resolved() =~= vs_old.push(Some(op_output(operation, vs_old.push(None)))));
            assert(op_output(operation, vs_old.push(None)) =~= op_output(operation, vs_old));
        }
        self.feed_builders(&operation, Ghost(fed));
        proof {
            assert(self.resolved() == old(self).resolved().push(
                Some(op_output(operation, old(self).resolved())),
            ));
            assert forall|h: int|
                0 <= h < self.context@.len() && (#[trigger] self.context@[h]) is None implies
                exists|i: int|
                    0 <= i < self.pending@.len() && (#[trigger] self.pending@[i]).out_handle()
                        == h by {
                if h < old(self).context@.len() {
                    assert(old(self).context@[h] is None);
                    let i = choose|i: int|
                        0 <= i < old(self).pending@.len() && (#[trigger] old(
                            self,
                        ).pending@[i]).out_handle() == h;
                    assert(self.pending@[i].out_handle() == h);
                } else {
                    lemma_run_ops_len(old(self).pending@, old(self).context@);
                    assert(self.pending@[self.pending@.len() - 1].out_handle() == h);
                }
            }
            assert(self.wf());
        }

        if !self.any_builder_open() {
            self.drain();
        }
        Ok(())
    }

    /// Pick the builder to flush with: among the ready builders, the one
    /// with the strictly highest score, the earliest registered on a tie.
    fn select_builder(&self) -> (r: Option<usize>)
        ensures
            match r {
                Some(bi) => {
                    &&& bi < self.builders@.len()
                    &&& self.builders@[bi as int].properties_spec().ready
                    &&& self.builders@[bi as int].ops_spec().len() >= 1
                    &&& forall|j: int|
                        0 <= j < self.builders@.len() && (#[trigger] self.builders@[j]).properties_spec().ready
                            ==> self.builders@[j].properties_spec().score
                            <= self.builders@[bi as int].properties_spec().score && (
                        self.builders@[j].properties_spec().score
                            == self.builders@[bi as int].properties_spec().score ==> bi <= j)
                },
                None => forall|j: int|
                    0 <= j < self.builders@.len() ==> !(#[trigger] self.builders@[j]).properties_spec().ready,
            },
    {
        let n = self.builders.len();
        let mut found = false;
        let mut best: usize = 0;
        let mut best_score: u64 = 0;
        let mut i: usize = 0;
        while i < n
            invariant
                i <= n,
                n == self.builders@.len(),
                found ==> {
                    &&& best < i
                    &&& self.builders@[best as int].properties_spec().ready
                    &&& self.builders@[best as int].ops_spec().len() >= 1
                    &&& best_score == self.builders@[best as int].properties_spec().score
                },
                forall|j: int|
                    0 <= j < i && (#[trigger] self.builders@[j]).properties_spec().ready ==> {
                        &&& found
                        &&& self.builders@[j].properties_spec().score <= best_score
                        &&& (self.builders@[j].properties_spec().score == best_score ==> best
                            <= j)
                    },
            decreases n - i,
        {
            let p = self.builders[i].properties();
            if p.ready && (!found || p.score > best_score) {
                found = true;
                best = i;
                best_score = p.score;
            }
            i += 1;
        }
        if found {
            Some(best)
        } else {
            None
        }
    }

    /// Force execution of every pending operation, fused where a builder
    /// is ready, one at a time where none is.
    ///
    /// Draining never changes the resolved store: the store afterwards
    /// holds exactly what running every pending operation one at a time,
    /// in order, would have produced, and no handle is left pending.
    pub fn drain(&mut self)
        requires
            old(self).wf(),
        ensures
            final(self).wf(),
            final(self).device_id_spec() == old(self).device_id_spec(),
            final(self).pending_ops().len() == 0,
            final(self).store() == old(self).resolved(),
            final(self).resolved() == old(self).resolved(),
            forall|h: int|
                0 <= h < final(self).store().len() ==> (#[trigger] final(self).store()[h]) is Some,
    {
        while self.pending.len() > 0
            invariant
                self.wf(),
                self.resolved() == old(self).resolved(),
                self.device_id == old(self).device_id,
            decreases self.pending@.len(),
        {
            let ghost ctx0 = self.context@;
            let ghost pend0 = self.pending@;
            match self.select_builder() {
                Some(bi) => {
                    let mut chosen = self.builders[bi].build();
                    let k = chosen.len();
                    proof {
                        assert(chosen.ops_spec() == pend0.take(k as int));
                        assert(pend0 =~= pend0.take(k as int) + pend0.skip(k as int));
                        lemma_admissible_split(pend0.take(k as int), pend0.skip(k as int), ctx0);
                    }
                    chosen.execute(&mut self.context);
                    let rest = self.pending.split_off(k);
                    self.pending = rest;
                    proof {
                        assert(self.pending@ =~= pend0.skip(k as int));
                        lemma_run_ops_concat(pend0.take(k as int), pend0.skip(k as int), ctx0);
                        assert(self.resolved() == old(self).resolved());
                        self.lemma_flush_step(pend0, ctx0, k as int);
                    }
                    self.refresh_builders();
                },
                None => {
                    let op = self.pending[0];
                    proof {
                        assert(pend0.first() == op);
                        assert(op_valid(op, ctx0));
                    }
                    B::execute_operation(&op, &mut self.context);
                    let rest = self.pending.split_off(1);
                    self.pending = rest;
                    proof {
                        assert(pend0.take(1) =~= seq![op]);
                        assert(self.pending@ =~= pend0.skip(1));
                        assert(pend0.drop_first() =~= pend0.skip(1));
                        assert(seq![op].first() == op);
                        assert(seq![op].drop_first() =~= Seq::<OperationDescription>::empty());
                        reveal_with_fuel(run_ops, 3);
                        assert(run_ops(pend0.take(1), ctx0) == self.context@);
                        assert(self.resolved() == old(self).resolved());
                        self.lemma_flush_step(pend0, ctx0, 1);
                    }
                    self.refresh_builders();
                },
            }
        }
        proof {
            assert(self.store() =~= self.resolved());
        }
    }

    /// After executing the first `k` pending operations, every handle
    /// still pending in the store is the output of an operation that is
    /// still in the stream, the bookkeeping still matches, and the
    /// remaining stream is still admissible.
    proof fn lemma_flush_step(
        self,
        pend0: Seq<OperationDescription>,
        ctx0: Seq<Option<Seq<i64>>>,
        k: int,
    )
        requires
            0 <= k <= pend0.len(),
            ops_admissible(pend0, ctx0),
            forall|h: int|
                0 <= h < ctx0.len() && (#[trigger] ctx0[h]) is None ==> exists|i: int|
                    0 <= i < pend0.len() && (#[trigger] pend0[i]).out_handle() == h,
            self.pending@ == pend0.skip(k),
            self.context@ == run_ops(pend0.take(k), ctx0),
        ensures
            ops_admissible(self.pending@, self.context@),
            forall|h: int|
                0 <= h < self.context@.len() && (#[trigger] self.context@[h]) is None ==> exists|
                    i: int,
                |
                    0 <= i < self.pending@.len() && (#[trigger] self.pending@[i]).out_handle()
                        == h,
    {
        assert(pend0 =~= pend0.take(k) + pend0.skip(k));
        lemma_admissible_split(pend0.take(k), pend0.skip(k), ctx0);
        lemma_run_ops_len(pend0.take(k), ctx0);
        assert forall|h: int|
            0 <= h < self.context@.len() && (#[trigger] self.context@[h]) is None implies exists|
            i: int,
        |
            0 <= i < self.pending@.len() && (#[trigger] self.pending@[i]).out_handle() == h by {
            if ctx0[h] is Some {
                lemma_materialized_stable(pend0.take(k), ctx0, h);
                assert(false);
            }
            let i = choose|i: int|
                0 <= i < pend0.len() && (#[trigger] pend0[i]).out_handle() == h;
            if i < k {
                lemma_outputs_materialized(pend0.take(k), ctx0, i);
                assert(false);
            }
            assert(self.pending@[i - k].out_handle() == h);
        }
    }
}

} // verus!

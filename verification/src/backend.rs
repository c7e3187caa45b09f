//! The backend-facing protocol: device identity, the builder and
//! optimization interfaces, and the backend adapter.

use crate::stream::{eval_op, op_valid, ops_admissible, run_ops, Context, OperationDescription};
use vstd::prelude::*;
use vstd::string::StringExecFns;

verus! {

broadcast use vstd::string::group_string_axioms;

/// A stable identity for a physical or logical compute device.
///
/// Two device values that denote the same physical device must yield equal
/// `DeviceId` values, whatever backend instance produced them.
#[derive(Debug, Hash, PartialEq, Eq, Structural, Clone, Copy)]
pub struct DeviceId {
    /// Identifies the kind of device.
    pub type_id: u16,
    /// Identifies the device number within its kind.
    pub index_id: u32,
}

impl DeviceId {
    /// Build a device id from its two components.
    pub fn new(type_id: u16, index_id: u32) -> (r: DeviceId)
        ensures
            r.type_id == type_id,
            r.index_id == index_id,
    {
        DeviceId { type_id, index_id }
    }
}

/// A backend-specific device handle that can produce a stable [`DeviceId`].
pub trait FusionDevice: Sized {
    /// The device id this device resolves to.
    spec fn id_spec(&self) -> DeviceId;

    /// Return the stable id of this device.
    fn id(&self) -> (r: DeviceId)
        ensures
            r == self.id_spec(),
    ;
}

/// The status of a [builder](OptimizationBuilder).
#[derive(Clone, Debug, Copy, PartialEq, Eq, Structural)]
pub enum OptimizationStatus {
    /// No more operations can be fused.
    Closed,
    /// More operations can be fused.
    Open,
}

/// The properties of a [builder](OptimizationBuilder).
#[derive(Debug, Clone, Copy, PartialEq, Eq, Structural)]
pub struct OptimizationProperties {
    /// The score of the optimization, higher is better.
    pub score: u64,
    /// If the optimization is ready to be executed.
    pub ready: bool,
}

impl Default for OptimizationProperties {
    /// The properties of an empty match: no score, not ready.
    fn default() -> (r: Self)
        ensures
            r.score == 0,
            !r.ready,
    {
        OptimizationProperties { score: 0, ready: false }
    }
}

/// An executable unit standing for one fused (or pass-through) computation.
///
/// Whatever an implementation fuses, executing it must leave the handle
/// store exactly as running its operations one at a time, in order, would:
/// fusion is a performance transform, never a semantics transform.
pub trait Optimization: Sized {
    /// The serializable snapshot type of this optimization.
    type State;

    /// The device type the optimization is reconstructed for.
    type Device;

    /// The operations folded into this optimization, in registration order.
    spec fn ops_spec(&self) -> Seq<OperationDescription>;

    /// The operations a snapshot stands for.
    spec fn state_ops_spec(state: Self::State) -> Seq<OperationDescription>;

    /// Execute the fused computation against the handle bindings of
    /// `context`, writing each operation's output where the operation
    /// designated it.
    fn execute(&mut self, context: &mut Context)
        requires
            ops_admissible(old(self).ops_spec(), old(context)@),
        ensures
            final(context)@ == run_ops(old(self).ops_spec(), old(context)@),
            final(self).ops_spec() == old(self).ops_spec(),
    ;

    /// The number of operations folded into this optimization.
    fn len(&self) -> (n: usize)
        ensures
            n == self.ops_spec().len(),
    ;

    /// Whether this optimization folds no operation.
    fn is_empty(&self) -> (b: bool)
        ensures
            b == (self.ops_spec().len() == 0),
    ;

    /// Snapshot the optimization so it can be cached and rebuilt without
    /// replaying the original operation sequence.
    fn to_state(&self) -> (s: Self::State)
        ensures
            Self::state_ops_spec(s) == self.ops_spec(),
    ;

    /// Rebuild an optimization from a snapshot; the result executes
    /// exactly as the optimization the snapshot was taken from.
    fn from_state(device: &Self::Device, state: Self::State) -> (r: Self)
        ensures
            r.ops_spec() == Self::state_ops_spec(state),
    ;
}

/// A stateful matcher that incrementally consumes operations from the
/// stream and, on demand, emits a finished [`Optimization`] and a score.
///
/// A builder starts `Open`, folds compatible operations in registration
/// order, and turns `Closed` when an operation cannot extend the match.
/// While it stays `Open` its score never decreases, so more fusion is
/// never ranked below less fusion of the same pattern.
pub trait OptimizationBuilder<O: Optimization>: Sized {
    /// The operations folded into the current match, in the order they
    /// were accepted.
    spec fn ops_spec(&self) -> Seq<OperationDescription>;

    /// The current status of the builder.
    spec fn status_spec(&self) -> OptimizationStatus;

    /// The current properties of the builder.
    spec fn properties_spec(&self) -> OptimizationProperties;

    /// Observe one operation. An open builder either folds it into the
    /// match, keeping its score from decreasing, or closes and leaves the
    /// match as it stood; a closed builder changes nothing.
    fn register(&mut self, operation: &OperationDescription)
        ensures
            old(self).status_spec() is Closed ==> {
                &&& final(self).ops_spec() == old(self).ops_spec()
                &&& final(self).status_spec() is Closed
                &&& final(self).properties_spec() == old(self).properties_spec()
            },
            old(self).status_spec() is Open ==> {
                ||| {
                    &&& final(self).status_spec() is Open
                    &&& final(self).ops_spec() == old(self).ops_spec().push(*operation)
                    &&& final(self).properties_spec().score >= old(self).properties_spec().score
                }
                ||| {
                    &&& final(self).status_spec() is Closed
                    &&& final(self).ops_spec() == old(self).ops_spec()
                }
            },
    ;

    /// Finish the current match and emit the fused operation covering
    /// exactly the operations folded so far.
    fn build(&self) -> (o: O)
        requires
            self.properties_spec().ready,
        ensures
            o.ops_spec() == self.ops_spec(),
    ;

    /// Return the builder to a fresh, open state with an empty match,
    /// ready for the next accumulation window.
    fn reset(&mut self)
        ensures
            final(self).ops_spec() == Seq::<OperationDescription>::empty(),
            final(self).status_spec() is Open,
    ;

    /// Return the builder's current status.
    fn status(&self) -> (s: OptimizationStatus)
        ensures
            s == self.status_spec(),
    ;

    /// Return the builder's current properties. A builder never claims
    /// readiness for an empty match.
    fn properties(&self) -> (p: OptimizationProperties)
        ensures
            p == self.properties_spec(),
            p.ready ==> self.ops_spec().len() >= 1,
    ;

    /// The number of operations folded into the current match.
    fn len(&self) -> (n: usize)
        ensures
            n == self.ops_spec().len(),
    ;

    /// Whether no operation has been folded yet.
    fn is_empty(&self) -> (b: bool)
        ensures
            b == (self.ops_spec().len() == 0),
    ;
}

/// The adapter a concrete numeric backend implements to plug into the
/// engine: its device type, its optimization type, its builder set, and a
/// one-operation fallback kernel for operations no builder covered.
pub trait FusionBackend: Sized {
    /// The device type of this backend.
    type FusionDevice: FusionDevice;

    /// The optimization type of this backend.
    type Optimization: Optimization;

    /// The builder type of this backend; a builder set may hold several
    /// instances, tried side by side on the stream.
    type Builder: OptimizationBuilder<Self::Optimization>;

    /// The name of this backend.
    spec fn name_spec() -> Seq<char>;

    /// The builder set used for a device's stream; every builder starts
    /// fresh and open.
    fn optimizations(device: &Self::FusionDevice) -> (r: Vec<Self::Builder>)
        ensures
            forall|i: int|
                0 <= i < r@.len() ==> {
                    &&& (#[trigger] r@[i]).ops_spec() == Seq::<OperationDescription>::empty()
                    &&& r@[i].status_spec() is Open
                },
    ;

    /// Execute one operation, unfused, against the handle bindings of
    /// `context`: the trivial one-to-one fallback.
    fn execute_operation(op: &OperationDescription, context: &mut Context)
        requires
            op_valid(*op, old(context)@),
        ensures
            final(context)@ == eval_op(*op, old(context)@),
    ;

    /// Return the backend's name.
    fn name() -> (r: String)
        ensures
            r@ == Self::name_spec(),
    ;

    /// Seed the backend's random source.
    fn seed(seed: u64);

    /// Let the backend finish its own device-level work for `device`.
    fn sync_device(device: &Self::FusionDevice);
}

/// Round-trip of optimization state: snapshotting an optimization and
/// rebuilding one from the snapshot yields a unit that executes exactly
/// as the original would, on any store.
///
/// The premises are exactly what `to_state` guarantees of the snapshot
/// `state` taken from `original`, and what `from_state` guarantees of the
/// optimization `rebuilt` it returns for `state`; the conclusion, with
/// `execute`'s own contract, says both leave any context in the same
/// state.
pub proof fn lemma_state_round_trip<O: Optimization>(
    original: O,
    state: O::State,
    rebuilt: O,
    store: Seq<Option<Seq<i64>>>,
)
    requires
        O::state_ops_spec(state) == original.ops_spec(),
        rebuilt.ops_spec() == O::state_ops_spec(state),
    ensures
        rebuilt.ops_spec() == original.ops_spec(),
        run_ops(rebuilt.ops_spec(), store) == run_ops(original.ops_spec(), store),
{
}

/// Dynamic operation fusion over a backend that implements the
/// [`FusionBackend`] adapter: the engine's entry point, owning the
/// registry of per-device clients.
#[verifier::reject_recursive_types(B)]
pub struct Fusion<B: FusionBackend> {
    /// The per-device client registry; entries live for the engine's
    /// whole lifetime.
    pub locator: crate::locator::FusionClientLocator<B>,
}

impl<B: FusionBackend> Fusion<B> {
    /// A fusion engine with no clients yet.
    pub fn new() -> (r: Self)
        ensures
            r.locator.wf(),
            r.locator.ids_spec().len() == 0,
            r.locator.clients_spec().len() == 0,
    {
        Fusion { locator: crate::locator::FusionClientLocator::new() }
    }

    /// The engine's name: the backend's name wrapped in the fusion label.
    pub fn name() -> (r: String)
        ensures
            r@ == "fusion<"@ + B::name_spec() + ">"@,
    {
        let backend_name = B::name();
        let mut label = "fusion<".to_string();
        label.append(backend_name.as_str());
        label.append(">");
        label
    }

    /// Seed the underlying backend's random source.
    pub fn seed(seed: u64) {
        B::seed(seed);
    }

    /// Synchronize one device: execute everything its client has pending,
    /// then let the backend finish its own device-level work. After the
    /// call the device's client has an empty stream and every handle it
    /// ever issued resolves to materialized elements.
    pub fn sync(&mut self, device: &B::FusionDevice)
        requires
            old(self).locator.wf(),
        ensures
            final(self).locator.wf(),
            final(self).locator.ids_spec().contains(device.id_spec()),
            old(self).locator.ids_spec().contains(device.id_spec())
                ==> final(self).locator.ids_spec() == old(self).locator.ids_spec(),
            forall|j: int|
                0 <= j < final(self).locator.ids_spec().len() && final(self).locator.ids_spec()[j]
                    == device.id_spec() ==> {
                    &&& (#[trigger] final(self).locator.clients_spec()[j]).pending_ops().len()
                        == 0
                    &&& forall|h: int|
                        0 <= h < final(self).locator.clients_spec()[j].store().len() ==> (
                        #[trigger] final(self).locator.clients_spec()[j].store()[h]) is Some
                },
            forall|j: int|
                0 <= j < old(self).locator.ids_spec().len() && old(self).locator.ids_spec()[j]
                    == device.id_spec()
                    ==> (#[trigger] final(self).locator.clients_spec()[j]).store()
                    == old(self).locator.clients_spec()[j].resolved(),
            forall|j: int|
                0 <= j < old(self).locator.ids_spec().len() && old(self).locator.ids_spec()[j]
                    != device.id_spec()
                    ==> final(self).locator.clients_spec()[j]
                    == old(self).locator.clients_spec()[j],
    {
        proof {
            old(self).locator.lemma_wf_lengths();
        }
        let idx = self.locator.client(device);
        let ghost mid = self.locator;
        self.locator.drain_client(idx);
        proof {
            assert forall|j: int|
                0 <= j < self.locator.ids_spec().len() && self.locator.ids_spec()[j]
                    == device.id_spec() implies j == idx as int by {
                self.locator.lemma_client_unique(j, idx as int);
            }
            if !old(self).locator.ids_spec().contains(device.id_spec()) {
                assert(mid.clients_spec()[idx as int].resolved()
                    == Seq::<Option<Seq<i64>>>::empty());
            }
            assert forall|j: int|
                0 <= j < old(self).locator.ids_spec().len() && old(self).locator.ids_spec()[j]
                    != device.id_spec() implies self.locator.clients_spec()[j] == old(
                self,
            ).locator.clients_spec()[j] by {
                assert(mid.ids_spec()[idx as int] == device.id_spec());
                assert(j != idx as int);
            }
        }
        B::sync_device(device);
    }
}

} // verus!

//! The client locator: a registry mapping each device id to the one
//! fusion client serving that device. Entries are created on first
//! lookup and never evicted.

use crate::backend::{DeviceId, FusionBackend, FusionDevice};
use crate::client::{FusionClient, FusionError};
use crate::stream::OperationDescription;
use vstd::prelude::*;

verus! {

/// The registry of fusion clients, one per distinct device id.
///
/// A lookup returns the slot of the device's client; repeated lookups of
/// the same device always return the same slot, so all work for one
/// device goes through one client instance.
#[verifier::reject_recursive_types(B)]
pub struct FusionClientLocator<B: FusionBackend> {
    ids: Vec<DeviceId>,
    clients: Vec<FusionClient<B>>,
}

impl<B: FusionBackend> FusionClientLocator<B> {
    /// The device ids with a client, in creation order.
    pub closed spec fn ids_spec(self) -> Seq<DeviceId> {
        self.ids@
    }

    /// The clients, slot by slot.
    pub closed spec fn clients_spec(self) -> Seq<FusionClient<B>> {
        self.clients@
    }

    /// The registry's invariant: one slot per id, ids distinct, and each
    /// client well formed and serving the id of its slot.
    pub closed spec fn wf(self) -> bool {
        &&& self.ids@.len() == self.clients@.len()
        &&& forall|i: int, j: int|
            0 <= i < self.ids@.len() && 0 <= j < self.ids@.len() && i != j ==> #[trigger] self.ids@[i]
                != #[trigger] self.ids@[j]
        &&& forall|i: int|
            0 <= i < self.clients@.len() ==> (#[trigger] self.clients@[i]).wf()
                && self.clients@[i].device_id_spec() == self.ids@[i]
    }

    /// An empty registry.
    pub fn new() -> (r: Self)
        ensures
            r.wf(),
            r.ids_spec().len() == 0,
            r.clients_spec().len() == 0,
    {
        FusionClientLocator { ids: Vec::new(), clients: Vec::new() }
    }

    /// The registry has exactly one client slot per registered id.
    pub proof fn lemma_wf_lengths(self)
        requires
            self.wf(),
        ensures
            self.ids_spec().len() == self.clients_spec().len(),
    {
    }

    /// Client uniqueness: under the invariant, a device id occupies at
    /// most one slot, so every lookup of that device yields the same
    /// client instance.
    pub proof fn lemma_client_unique(self, i: int, j: int)
        requires
            self.wf(),
            0 <= i < self.ids_spec().len(),
            0 <= j < self.ids_spec().len(),
            self.ids_spec()[i] == self.ids_spec()[j],
        ensures
            i == j,
    {
    }

    /// Look up the client slot for a device, creating the client on the
    /// first lookup. Idempotent: an existing registry entry is returned
    /// as it stands, and the rest of the registry is never touched.
    pub fn client(&mut self, device: &B::FusionDevice) -> (idx: usize)
        requires
            old(self).wf(),
        ensures
            final(self).wf(),
            idx < final(self).ids_spec().len(),
            idx < final(self).clients_spec().len(),
            final(self).ids_spec()[idx as int] == device.id_spec(),
            old(self).ids_spec().contains(device.id_spec()) ==> *final(self) == *old(self),
            !old(self).ids_spec().contains(device.id_spec()) ==> {
                &&& final(self).ids_spec() == old(self).ids_spec().push(device.id_spec())
                &&& idx == old(self).ids_spec().len()
                &&& final(self).clients_spec().len() == old(self).clients_spec().len() + 1
                &&& forall|j: int|
                    0 <= j < old(self).clients_spec().len() ==> final(self).clients_spec()[j]
                        == old(self).clients_spec()[j]
                &&& final(self).clients_spec()[idx as int].pending_ops().len() == 0
                &&& final(self).clients_spec()[idx as int].resolved()
                    == Seq::<Option<Seq<i64>>>::empty()
            },
    {
        let did = device.id();
        let n = self.ids.len();
        let mut i: usize = 0;
        while i < n
            invariant
                i <= n,
                n == self.ids@.len(),
                did == device.id_spec(),
                *self == *old(self),
                self.wf(),
                forall|j: int| 0 <= j < i ==> self.ids@[j] != did,
            decreases n - i,
        {
            if self.ids[i] == did {
                return i;
            }
            i += 1;
        }
        proof {
            if self.ids@.contains(did) {
                let j = choose|j: int| 0 <= j < self.ids@.len() && self.ids@[j] == did;
                assert(false);
            }
        }
        let builders = B::optimizations(device);
        let fresh = FusionClient::<B>::new(did, builders);
        self.ids.push(did);
        self.clients.push(fresh);
        n
    }

    /// How many devices have a client.
    pub fn device_count(&self) -> (n: usize)
        requires
            self.wf(),
        ensures
            n == self.ids_spec().len(),
            n == self.clients_spec().len(),
    {
        self.ids.len()
    }

    /// Issue a fresh handle with materialized input elements on the
    /// client in slot `idx`.
    pub fn create_handle(&mut self, idx: usize, data: Vec<i64>) -> (h: usize)
        requires
            old(self).wf(),
            idx < old(self).clients_spec().len(),
        ensures
            final(self).wf(),
            final(self).ids_spec() == old(self).ids_spec(),
            final(self).clients_spec().len() == old(self).clients_spec().len(),
            forall|j: int|
                0 <= j < old(self).clients_spec().len() && j != idx ==> final(self).clients_spec()[j] == old(self).clients_spec()[j],
            h == old(self).clients_spec()[idx as int].resolved().len(),
            final(self).clients_spec()[idx as int].resolved() == old(self).clients_spec()[
                idx as int
            ].resolved().push(Some(data@)),
            final(self).clients_spec()[idx as int].pending_ops() == old(self).clients_spec()[
                idx as int
            ].pending_ops(),
    {
        let mut c = self.clients.remove(idx);
        let h = c.create_handle(data);
        self.clients.insert(idx, c);
        proof {
            assert(self.clients@ =~= old(self).clients@.update(idx as int, c));
        }
        h
    }

    /// Register one operation on the client in slot `idx`.
    pub fn register_operation(&mut self, idx: usize, operation: OperationDescription) -> (r:
        Result<(), FusionError>)
        requires
            old(self).wf(),
            idx < old(self).clients_spec().len(),
        ensures
            final(self).wf(),
            final(self).ids_spec() == old(self).ids_spec(),
            final(self).clients_spec().len() == old(self).clients_spec().len(),
            forall|j: int|
                0 <= j < old(self).clients_spec().len() && j != idx ==> final(self).clients_spec()[j] == old(self).clients_spec()[j],
            match r {
                Ok(()) => crate::client::registrable(
                    operation,
                    old(self).clients_spec()[idx as int].resolved(),
                ) && final(self).clients_spec()[idx as int].resolved() == old(self).clients_spec()[idx as int].resolved().push(
                    Some(
                        crate::stream::op_output(
                            operation,
                            old(self).clients_spec()[idx as int].resolved(),
                        ),
                    ),
                ),
                Err(_) => !crate::client::registrable(
                    operation,
                    old(self).clients_spec()[idx as int].resolved(),
                ) && final(self).clients_spec()[idx as int] == old(self).clients_spec()[
                    idx as int
                ],
            },
    {
        let mut c = self.clients.remove(idx);
        let r = c.register(operation);
        self.clients.insert(idx, c);
        proof {
            assert(self.clients@ =~= old(self).clients@.update(idx as int, c));
        }
        r
    }

    /// Drain the client in slot `idx`: execute everything it has pending.
    pub fn drain_client(&mut self, idx: usize)
        requires
            old(self).wf(),
            idx < old(self).clients_spec().len(),
        ensures
            final(self).wf(),
            final(self).ids_spec() == old(self).ids_spec(),
            final(self).clients_spec().len() == old(self).clients_spec().len(),
            forall|j: int|
                0 <= j < old(self).clients_spec().len() && j != idx ==> final(self).clients_spec()[j] == old(self).clients_spec()[j],
            final(self).clients_spec()[idx as int].pending_ops().len() == 0,
            final(self).clients_spec()[idx as int].store() == old(self).clients_spec()[
                idx as int
            ].resolved(),
            forall|h: int|
                0 <= h < final(self).clients_spec()[idx as int].store().len() ==> (
                #[trigger] final(self).clients_spec()[idx as int].store()[h]) is Some,
    {
        let mut c = self.clients.remove(idx);
        c.drain();
        self.clients.insert(idx, c);
        proof {
            assert(self.clients@ =~= old(self).clients@.update(idx as int, c));
        }
    }

    /// Read the elements behind a handle of the client in slot `idx`.
    pub fn read_handle(&self, idx: usize, h: usize) -> (r: Option<&Vec<i64>>)
        requires
            idx < self.clients_spec().len(),
        ensures
            match r {
                Some(v) => h < self.clients_spec()[idx as int].store().len()
                    && self.clients_spec()[idx as int].store()[h as int] == Some(v@),
                None => h >= self.clients_spec()[idx as int].store().len()
                    || self.clients_spec()[idx as int].store()[h as int] is None,
            },
    {
        self.clients[idx].read_handle(h)
    }

    /// How many handles the client in slot `idx` has issued.
    pub fn handle_count(&self, idx: usize) -> (n: usize)
        requires
            self.wf(),
            idx < self.clients_spec().len(),
        ensures
            n == self.clients_spec()[idx as int].resolved().len(),
    {
        self.clients[idx].handle_count()
    }

    /// How many operations the client in slot `idx` has pending.
    pub fn pending_count(&self, idx: usize) -> (n: usize)
        requires
            idx < self.clients_spec().len(),
        ensures
            n == self.clients_spec()[idx as int].pending_ops().len(),
    {
        self.clients[idx].pending_count()
    }
}

} // verus!

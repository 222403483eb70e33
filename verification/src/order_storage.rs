//! Market-wide order registry, growable form.
//!
//! A pre-allocated vector of optional markers with a stack of freed slot
//! indices: insertion pops a freed slot or takes the next unused one in
//! constant time; removal blanks the slot and pushes its index for reuse.

use vstd::prelude::*;

use crate::keys::Pubkey;
use crate::order::OrderMarker;

verus! {

/// Failures of order-registry operations.
#[derive(Debug, Clone, Copy, PartialEq, Eq, Structural)]
pub enum OrderStorageError {
    StorageFull,
    OrderNotFound,
    DuplicateOrder,
    InvalidCapacity,
    InvalidIndex,
}

/// The default registry capacity.
pub const DEFAULT_ORDER_STORAGE_CAPACITY: usize = 50_000;

/// Free-list order registry.
#[derive(Debug, Clone)]
pub struct OrderStorage {
    /// Maximum number of markers the registry holds.
    pub capacity: usize,
    /// Current number of active markers.
    pub count: usize,
    /// Freed slot indices awaiting reuse.
    pub free_slots: Vec<usize>,
    /// Next never-used slot.
    pub next_free_slot: usize,
    /// The slots; `None` marks a free slot.
    pub orders: Vec<Option<OrderMarker>>,
}

impl OrderStorage {
    /// Whether the slots vector matches the capacity, the allocation
    /// cursor is within it, every freed index points at a blank allocated
    /// slot, and the never-used region is blank.
    pub open spec fn wf(self) -> bool {
        &&& self.orders@.len() == self.capacity
        &&& self.next_free_slot <= self.capacity
        &&& forall|k: int|
            0 <= k < self.free_slots@.len() ==> (#[trigger] self.free_slots@[k])
                < self.next_free_slot && self.orders@[self.free_slots@[k] as int] is None
        &&& forall|k1: int, k2: int|
            0 <= k1 < k2 < self.free_slots@.len() ==> (#[trigger] self.free_slots@[k1]) != (
            #[trigger] self.free_slots@[k2])
        &&& forall|i: int|
            self.next_free_slot <= i < self.capacity ==> (#[trigger] self.orders@[i]) is None
    }

    /// A new registry of `capacity` blank slots.
    pub fn new(capacity: usize) -> (r: Self)
        ensures
            r.wf(),
            r.capacity == capacity,
            r.count == 0,
            r.free_slots@.len() == 0,
            r.next_free_slot == 0,
            forall|i: int| 0 <= i < capacity ==> (#[trigger] r.orders@[i]) is None,
    {
        let mut orders: Vec<Option<OrderMarker>> = Vec::new();
        let mut i: usize = 0;
        while i < capacity
            invariant
                orders@.len() == i,
                0 <= i <= capacity,
                forall|j: int| 0 <= j < orders@.len() ==> (#[trigger] orders@[j]) is None,
            decreases capacity - i,
        {
            orders.push(None);
            i = i + 1;
        }
        OrderStorage { capacity, count: 0, free_slots: Vec::new(), next_free_slot: 0, orders }
    }

    /// Insert a marker, returning its slot: a freed slot when one is
    /// available, else the next unused one, else `StorageFull`.  Duplicate
    /// ids are not checked here; the per-user storage rejects them within
    /// the same atomic action.
    pub fn insert(&mut self, order: OrderMarker) -> (r: Result<usize, OrderStorageError>)
        requires
            old(self).wf(),
            old(self).count < usize::MAX,
        ensures
            final(self).wf(),
            final(self).capacity == old(self).capacity,
            match r {
                Ok(idx) => {
                    &&& idx < old(self).capacity
                    &&& old(self).orders@[idx as int] is None
                    &&& final(self).orders@ == old(self).orders@.update(
                        idx as int,
                        Some(order),
                    )
                    &&& final(self).count == old(self).count + 1
                    &&& if old(self).free_slots@.len() > 0 {
                        &&& idx == old(self).free_slots@.last()
                        &&& final(self).free_slots@ == old(self).free_slots@.drop_last()
                        &&& final(self).next_free_slot == old(self).next_free_slot
                    } else {
                        &&& idx == old(self).next_free_slot
                        &&& final(self).free_slots@ == old(self).free_slots@
                        &&& final(self).next_free_slot == old(self).next_free_slot + 1
                    }
                },
                Err(e) => {
                    &&& e == OrderStorageError::StorageFull
                    &&& old(self).free_slots@.len() == 0
                    &&& old(self).next_free_slot >= old(self).capacity
                    &&& final(self).count == old(self).count
                    &&& final(self).free_slots@ == old(self).free_slots@
                    &&& final(self).next_free_slot == old(self).next_free_slot
                    &&& final(self).orders@ == old(self).orders@
                },
            },
    {
        let slot_index: usize = match self.free_slots.pop() {
            Some(free_index) => free_index,
            None => {
                if self.next_free_slot < self.capacity {
                    let index = self.next_free_slot;
                    self.next_free_slot = self.next_free_slot + 1;
                    index
                } else {
                    return Err(OrderStorageError::StorageFull);
                }
            },
        };
        *vstd::std_specs::vec::vec_index_mut(&mut self.orders, slot_index) = Some(order);
        self.count = self.count + 1;
        Ok(slot_index)
    }

    /// Find the slot of the marker for `owner` and `order_id`, trying
    /// `hint` first and falling back to a scan.
    pub fn find_by_owner_and_id(&self, owner: &Pubkey, order_id: u64, hint: Option<usize>) -> (r:
        Option<usize>)
        requires
            self.wf(),
        ensures
            match r {
                Some(i) => i < self.orders@.len() && (self.orders@[i as int] matches Some(m)
                    && m.user == *owner && m.order_id == order_id),
                None => forall|i: int|
                    0 <= i < self.orders@.len() ==> !((#[trigger] self.orders@[i]) matches Some(m)
                        && m.user == *owner && m.order_id == order_id),
            },
    {
        match hint {
            Some(hint_index) => {
                if hint_index < self.orders.len() {
                    match &self.orders[hint_index] {
                        Some(order) => {
                            if order.user == *owner && order.order_id == order_id {
                                return Some(hint_index);
                            }
                        },
                        None => {},
                    }
                }
            },
            None => {},
        }
        let n = self.orders.len();
        let mut i: usize = 0;
        while i < n
            invariant
                self.wf(),
                n == self.orders@.len(),
                0 <= i <= n,
                forall|j: int|
                    0 <= j < i ==> !((#[trigger] self.orders@[j]) matches Some(m) && m.user
                        == *owner && m.order_id == order_id),
            decreases n - i,
        {
            match &self.orders[i] {
                Some(order) => {
                    if order.user == *owner && order.order_id == order_id {
                        return Some(i);
                    }
                },
                None => {},
            }
            i = i + 1;
        }
        None
    }

    /// Remove the marker for `owner` and `order_id`, blanking its slot
    /// and pushing the slot for reuse.
    pub fn remove(&mut self, owner: &Pubkey, order_id: u64, hint: Option<usize>) -> (r: Result<
        OrderMarker,
        OrderStorageError,
    >)
        requires
            old(self).wf(),
            old(self).count >= 1,
            old(self).free_slots@.len() < usize::MAX,
        ensures
            final(self).wf(),
            final(self).capacity == old(self).capacity,
            match r {
                Ok(m) => {
                    &&& m.user == *owner
                    &&& m.order_id == order_id
                    &&& final(self).count == old(self).count - 1
                    &&& exists|i: int|
                        {
                            &&& 0 <= i < old(self).orders@.len()
                            &&& (#[trigger] old(self).orders@[i]) == Some(m)
                            &&& final(self).orders@ == old(self).orders@.update(i, None)
                            &&& final(self).free_slots@ == old(self).free_slots@.push(i as usize)
                        }
                },
                Err(e) => {
                    &&& e == OrderStorageError::OrderNotFound
                    &&& *final(self) == *old(self)
                    &&& forall|i: int|
                        0 <= i < old(self).orders@.len() ==> !((#[trigger] old(
                            self,
                        ).orders@[i]) matches Some(m) && m.user == *owner && m.order_id
                            == order_id)
                },
            },
    {
        let slot_index = match self.find_by_owner_and_id(owner, order_id, hint) {
            Some(i) => i,
            None => { return Err(OrderStorageError::OrderNotFound) },
        };
        let order = match &self.orders[slot_index] {
            Some(o) => *o,
            None => { return Err(OrderStorageError::OrderNotFound) },
        };
        let ghost old_self = *old(self);
        *vstd::std_specs::vec::vec_index_mut(&mut self.orders, slot_index) = None;
        proof {
            if slot_index >= self.next_free_slot {
                assert(old_self.orders@[slot_index as int] is None);
            }
        }
        self.free_slots.push(slot_index);
        self.count = self.count - 1;
        proof {
            assert(old_self.orders@[slot_index as int] == Some(order));
            assert(self.orders@ == old_self.orders@.update(slot_index as int, None));
            assert(self.free_slots@ == old_self.free_slots@.push(slot_index));
        }
        Ok(order)
    }

    /// The marker at `index`, when that slot is active.
    pub fn get(&self, index: usize) -> (r: Result<&OrderMarker, OrderStorageError>)
        ensures
            match r {
                Ok(m) => index < self.orders@.len() && self.orders@[index as int] == Some(*m),
                Err(e) => e == OrderStorageError::InvalidIndex && (index >= self.orders@.len()
                    || self.orders@[index as int] is None),
            },
    {
        if index < self.orders.len() {
            match &self.orders[index] {
                Some(o) => Ok(o),
                None => Err(OrderStorageError::InvalidIndex),
            }
        } else {
            Err(OrderStorageError::InvalidIndex)
        }
    }

    /// Grow the registry to `new_capacity` blank slots; shrinking is
    /// rejected.
    pub fn resize(&mut self, new_capacity: usize) -> (r: Result<(), OrderStorageError>)
        requires
            old(self).wf(),
        ensures
            final(self).wf(),
            match r {
                Ok(_) => {
                    &&& new_capacity >= old(self).capacity
                    &&& final(self).capacity == new_capacity
                    &&& final(self).orders@.subrange(0, old(self).capacity as int) == old(
                        self,
                    ).orders@
                    &&& final(self).count == old(self).count
                    &&& final(self).free_slots@ == old(self).free_slots@
                    &&& final(self).next_free_slot == old(self).next_free_slot
                },
                Err(e) => e == OrderStorageError::InvalidCapacity && new_capacity < old(
                    self,
                ).capacity && *final(self) == *old(self),
            },
    {
        if new_capacity < self.capacity {
            return Err(OrderStorageError::InvalidCapacity);
        }
        let ghost old_orders = self.orders@;
        let mut added = self.capacity;
        while added < new_capacity
            invariant
                old(self).capacity <= added <= new_capacity,
                self.orders@.len() == added,
                self.orders@.subrange(0, old(self).capacity as int) =~= old_orders,
                old_orders == old(self).orders@,
                self.capacity == old(self).capacity,
                self.count == old(self).count,
                self.free_slots@ == old(self).free_slots@,
                self.next_free_slot == old(self).next_free_slot,
                forall|i: int|
                    old(self).capacity <= i < added ==> (#[trigger] self.orders@[i]) is None,
            decreases new_capacity - added,
        {
            self.orders.push(None);
            proof {
                assert(self.orders@.subrange(0, old(self).capacity as int) =~= old_orders);
            }
            added = added + 1;
        }
        self.capacity = new_capacity;
        proof {
            assert forall|i: int|
                self.next_free_slot <= i < self.capacity implies (#[trigger] self.orders@[i])
                is None by {
                if i < old(self).capacity {
                    assert(self.orders@[i] == old(self).orders@[i]);
                }
            }
        }
        Ok(())
    }

    /// Capacity, count and free-list statistics.
    pub fn stats(&self) -> (r: OrderStorageStats)
        requires
            self.count * 100 <= usize::MAX,
        ensures
            r.capacity == self.capacity,
            r.count == self.count,
            r.free_slots == self.free_slots@.len(),
            r.utilization_pct == if self.capacity > 0 {
                (self.count * 100) / (self.capacity as int)
            } else {
                0
            },
    {
        proof {
            assert(self.count * 100 >= 0) by (nonlinear_arith)
                requires
                    self.count >= 0,
            ;
        }
        OrderStorageStats {
            capacity: self.capacity,
            count: self.count,
            free_slots: self.free_slots.len(),
            utilization_pct: if self.capacity > 0 {
                (self.count * 100) / self.capacity
            } else {
                0
            },
        }
    }

    /// The `(slot, marker)` pairs of the active slots, in slot order.
    pub fn iter_active(&self) -> (r: Vec<(usize, OrderMarker)>)
        ensures
            r@ == spec_marker_list(self.orders@),
    {
        let n = self.orders.len();
        let mut out: Vec<(usize, OrderMarker)> = Vec::new();
        let mut i: usize = 0;
        proof {
            assert(self.orders@.take(0) =~= Seq::<Option<OrderMarker>>::empty());
        }
        while i < n
            invariant
                n == self.orders@.len(),
                0 <= i <= n,
                out@ == spec_marker_list(self.orders@.take(i as int)),
            decreases n - i,
        {
            proof {
                assert(self.orders@.take(i as int + 1).drop_last() =~= self.orders@.take(i as int));
                assert(self.orders@.take(i as int + 1).last() == self.orders@[i as int]);
                assert(self.orders@.take(i as int + 1).len() == i + 1);
            }
            match &self.orders[i] {
                Some(m) => {
                    let pair = (i, *m);
                    out.push(pair);
                    proof {
                        assert(out@ =~= spec_marker_list(self.orders@.take(i as int)) + seq![
                            ((i as usize), self.orders@[i as int]->Some_0),
                        ]);
                    }
                },
                None => {
                    proof {
                        assert(out@ =~= spec_marker_list(self.orders@.take(i as int))
                            + Seq::<(usize, OrderMarker)>::empty());
                    }
                },
            }
            i = i + 1;
        }
        proof {
            assert(self.orders@.take(n as int) =~= self.orders@);
        }
        out
    }

    /// The `(slot, marker)` pairs of `user`'s active slots, in slot
    /// order.
    pub fn iter_user_orders(&self, user: &Pubkey) -> (r: Vec<(usize, OrderMarker)>)
        ensures
            r@ == spec_user_marker_list(self.orders@, *user),
    {
        let n = self.orders.len();
        let mut out: Vec<(usize, OrderMarker)> = Vec::new();
        let mut i: usize = 0;
        proof {
            assert(self.orders@.take(0) =~= Seq::<Option<OrderMarker>>::empty());
        }
        while i < n
            invariant
                n == self.orders@.len(),
                0 <= i <= n,
                out@ == spec_user_marker_list(self.orders@.take(i as int), *user),
            decreases n - i,
        {
            proof {
                assert(self.orders@.take(i as int + 1).drop_last() =~= self.orders@.take(i as int));
                assert(self.orders@.take(i as int + 1).last() == self.orders@[i as int]);
                assert(self.orders@.take(i as int + 1).len() == i + 1);
            }
            let keep = match &self.orders[i] {
                Some(m) => m.user == *user,
                None => false,
            };
            if keep {
                let m = match &self.orders[i] {
                    Some(m) => *m,
                    None => OrderMarker::default(),
                };
                out.push((i, m));
                proof {
                    assert(out@ =~= spec_user_marker_list(self.orders@.take(i as int), *user)
                        + seq![((i as usize), self.orders@[i as int]->Some_0)]);
                }
            } else {
                proof {
                    assert(out@ =~= spec_user_marker_list(self.orders@.take(i as int), *user)
                        + Seq::<(usize, OrderMarker)>::empty());
                }
            }
            i = i + 1;
        }
        proof {
            assert(self.orders@.take(n as int) =~= self.orders@);
        }
        out
    }
}

/// The `(slot, marker)` pairs of the occupied slots of `s`, in order.
pub open spec fn spec_marker_list(s: Seq<Option<OrderMarker>>) -> Seq<(usize, OrderMarker)>
    decreases s.len(),
{
    if s.len() == 0 {
        Seq::empty()
    } else {
        spec_marker_list(s.drop_last()) + (match s.last() {
            Some(m) => seq![(((s.len() - 1) as usize), m)],
            None => Seq::<(usize, OrderMarker)>::empty(),
        })
    }
}

/// The `(slot, marker)` pairs of the occupied slots of `s` owned by
/// `user`, in order.
pub open spec fn spec_user_marker_list(s: Seq<Option<OrderMarker>>, user: Pubkey) -> Seq<
    (usize, OrderMarker),
>
    decreases s.len(),
{
    if s.len() == 0 {
        Seq::empty()
    } else {
        spec_user_marker_list(s.drop_last(), user) + (match s.last() {
            Some(m) => if m.user == user {
                seq![(((s.len() - 1) as usize), m)]
            } else {
                Seq::<(usize, OrderMarker)>::empty()
            },
            None => Seq::<(usize, OrderMarker)>::empty(),
        })
    }
}

/// Capacity, count and free-list statistics of a registry.
#[derive(Debug, Clone, Copy, PartialEq, Eq, Structural)]
pub struct OrderStorageStats {
    pub capacity: usize,
    pub count: usize,
    pub free_slots: usize,
    pub utilization_pct: usize,
}

impl Default for OrderStorage {
    /// A registry at the default capacity.
    fn default() -> (r: Self)
        ensures
            r.wf(),
            r.capacity == DEFAULT_ORDER_STORAGE_CAPACITY,
            r.count == 0,
    {
        OrderStorage::new(DEFAULT_ORDER_STORAGE_CAPACITY)
    }
}

} // verus!

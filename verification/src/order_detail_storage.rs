//! Per-user order-details storage.
//!
//! A dense vector of order records, pre-sized to its capacity and grown in
//! fixed increments when full.  Insertion appends at `total_inserted`;
//! lookups scan the inserted prefix, optionally trying a caller hint
//! first.

use vstd::prelude::*;

use crate::order::OrderDetails;
use crate::order::OrderPrice;
use crate::order::OrderSide;
use crate::order::OrderTombstone;
use crate::order::TriggerCondition;
use crate::order::TriggerEntrySize;

verus! {

/// Largest account size the host supports, about ten megabytes.
pub const SOLANA_MAX_ACCOUNT_SIZE: usize = 10_485_760;

/// Initial capacity of a fresh storage.
pub const INITIAL_ORDER_CAPACITY: usize = 10;

/// How many more records a growth step adds.
pub const ORDER_CAPACITY_INCREMENT: usize = 10;

/// The per-record size used when estimating the serialized storage size.
pub const ORDER_DETAILS_RECORD_ESTIMATE: usize = 512;

/// The fixed overhead used when estimating the serialized storage size.
pub const ORDER_STORAGE_BASE_ESTIMATE: usize = 20;

/// Failures of order-detail storage operations.
#[derive(Debug, Clone, Copy, PartialEq, Eq, Structural)]
pub enum OrderDetailStorageError {
    OrderNotFound,
    InvalidOrderId,
    AccountTooSmall,
    InvalidIndex,
}

/// Per-user order storage: a capacity-sized vector with an append cursor.
#[derive(Debug, Clone)]
pub struct OrderDetailStorage {
    /// Current capacity of the orders vector.
    pub capacity: usize,
    /// Number of orders ever inserted.
    pub total_inserted: usize,
    /// The records; only the first `total_inserted` are live.
    pub orders: Vec<OrderDetails>,
}

/// The first index among the first `n` records holding `order_id`, or `n`
/// when none does.
pub open spec fn spec_order_idx(s: Seq<OrderDetails>, n: int, order_id: u64) -> int
    decreases n,
{
    if n <= 0 {
        0
    } else if spec_order_idx(s, n - 1, order_id) < n - 1 {
        spec_order_idx(s, n - 1, order_id)
    } else if s[n - 1].order_id == order_id {
        n - 1
    } else {
        n
    }
}

/// `spec_order_idx` lies within `0..=n`, hits a matching record when
/// within range, and nothing before it matches.
pub proof fn lemma_order_idx(s: Seq<OrderDetails>, n: int, order_id: u64)
    requires
        0 <= n <= s.len(),
    ensures
        0 <= spec_order_idx(s, n, order_id) <= n,
        spec_order_idx(s, n, order_id) < n ==> s[spec_order_idx(s, n, order_id)].order_id
            == order_id,
        forall|j: int| 0 <= j < spec_order_idx(s, n, order_id) ==> (#[trigger] s[j]).order_id
            != order_id,
    decreases n,
{
    if n > 0 {
        lemma_order_idx(s, n - 1, order_id);
    }
}

/// Any index satisfying the first-match characterization over the first
/// `n` records is `spec_order_idx`.
pub proof fn lemma_order_idx_unique(s: Seq<OrderDetails>, n: int, order_id: u64, i: int)
    requires
        0 <= n <= s.len(),
        0 <= i <= n,
        i < n ==> s[i].order_id == order_id,
        forall|j: int| 0 <= j < i ==> (#[trigger] s[j]).order_id != order_id,
    ensures
        i == spec_order_idx(s, n, order_id),
    decreases n,
{
    lemma_order_idx(s, n, order_id);
    let f = spec_order_idx(s, n, order_id);
    if f < i {
        assert(s[f].order_id != order_id);
    } else if i < f {
        assert(s[i].order_id != order_id);
    }
}

impl OrderDetailStorage {
    /// Whether the vector length matches the capacity and the insert
    /// cursor is within it.
    pub open spec fn wf(self) -> bool {
        self.orders@.len() == self.capacity && self.total_inserted <= self.capacity
    }

    /// Whether `order_id` is present among the inserted records.
    pub open spec fn spec_contains_order(self, order_id: u64) -> bool {
        spec_order_idx(self.orders@, self.total_inserted as int, order_id)
            < self.total_inserted as int
    }

    /// A fresh storage at the initial capacity, with default records.
    pub fn new() -> (r: Self)
        ensures
            r.wf(),
            r.capacity == INITIAL_ORDER_CAPACITY,
            r.total_inserted == 0,
            r.orders@.len() == INITIAL_ORDER_CAPACITY,
            forall|i: int|
                0 <= i < r.orders@.len() ==> (#[trigger] r.orders@[i]).spec_fresh_default(),
    {
        let mut orders: Vec<OrderDetails> = Vec::new();
        let mut i: usize = 0;
        while i < INITIAL_ORDER_CAPACITY
            invariant
                orders@.len() == i,
                0 <= i <= INITIAL_ORDER_CAPACITY,
                forall|j: int|
                    0 <= j < orders@.len() ==> (#[trigger] orders@[j]).spec_fresh_default(),
            decreases INITIAL_ORDER_CAPACITY - i,
        {
            orders.push(Default::default());
            i = i + 1;
        }
        OrderDetailStorage { capacity: INITIAL_ORDER_CAPACITY, total_inserted: 0, orders }
    }

    /// The first index holding `order_id`, scanning the inserted prefix.
    fn find_order_index(&self, order_id: u64) -> (r: Result<usize, OrderDetailStorageError>)
        requires
            self.wf(),
        ensures
            ({
                let idx = spec_order_idx(self.orders@, self.total_inserted as int, order_id);
                match r {
                    Ok(i) => i == idx && idx < self.total_inserted,
                    Err(e) => e == OrderDetailStorageError::OrderNotFound && idx
                        == self.total_inserted,
                }
            }),
    {
        let n = self.total_inserted;
        let mut i: usize = 0;
        while i < n
            invariant
                self.wf(),
                n == self.total_inserted,
                0 <= i <= n,
                forall|j: int| 0 <= j < i ==> (#[trigger] self.orders@[j]).order_id != order_id,
            decreases n - i,
        {
            if self.orders[i].order_id == order_id {
                proof {
                    lemma_order_idx_unique(self.orders@, n as int, order_id, i as int);
                }
                return Ok(i);
            }
            i = i + 1;
        }
        proof {
            lemma_order_idx_unique(self.orders@, n as int, order_id, n as int);
        }
        Err(OrderDetailStorageError::OrderNotFound)
    }

    /// Find the index of `order_id`, trying `hint` before scanning.
    pub fn find_order_index_with_hint(&self, order_id: u64, hint: u32) -> (r: Result<
        usize,
        OrderDetailStorageError,
    >)
        requires
            self.wf(),
        ensures
            match r {
                Ok(i) => i < self.total_inserted && self.orders@[i as int].order_id == order_id,
                Err(e) => e == OrderDetailStorageError::OrderNotFound && spec_order_idx(
                    self.orders@,
                    self.total_inserted as int,
                    order_id,
                ) == self.total_inserted,
            },
    {
        let hint_idx = hint as usize;
        if hint_idx < self.total_inserted && self.orders[hint_idx].order_id == order_id {
            return Ok(hint_idx);
        }
        proof {
            lemma_order_idx(self.orders@, self.total_inserted as int, order_id);
        }
        self.find_order_index(order_id)
    }

    /// Whether growing by one increment would outgrow the allocated
    /// account.
    pub open spec fn spec_cannot_grow(self, current_account_size: int) -> bool {
        ORDER_STORAGE_BASE_ESTIMATE + (self.orders@.len() + ORDER_CAPACITY_INCREMENT)
            * ORDER_DETAILS_RECORD_ESTIMATE > current_account_size
    }

    /// The estimated serialized size of this storage.
    pub fn estimated_serialized_size(&self) -> (r: usize)
        requires
            ORDER_STORAGE_BASE_ESTIMATE + self.orders@.len() * ORDER_DETAILS_RECORD_ESTIMATE
                <= usize::MAX,
        ensures
            r == ORDER_STORAGE_BASE_ESTIMATE + self.orders@.len() * ORDER_DETAILS_RECORD_ESTIMATE,
    {
        proof {
            assert(self.orders@.len() * ORDER_DETAILS_RECORD_ESTIMATE >= 0) by (nonlinear_arith)
                requires
                    self.orders@.len() >= 0 && ORDER_DETAILS_RECORD_ESTIMATE == 512,
            ;
        }
        ORDER_STORAGE_BASE_ESTIMATE + self.orders.len() * ORDER_DETAILS_RECORD_ESTIMATE
    }

    /// Whether growing by one increment would fit in the allocated
    /// account.
    fn can_grow_alloc(&self, current_account_size: usize) -> (r: bool)
        requires
            self.orders@.len() <= 20_000,
        ensures
            r == !self.spec_cannot_grow(current_account_size as int),
    {
        proof {
            assert((self.orders@.len() + ORDER_CAPACITY_INCREMENT) * ORDER_DETAILS_RECORD_ESTIMATE
                <= 20_010 * 512 && (self.orders@.len() + ORDER_CAPACITY_INCREMENT)
                * ORDER_DETAILS_RECORD_ESTIMATE >= 0) by (nonlinear_arith)
                requires
                    0 <= self.orders@.len() <= 20_000 && ORDER_CAPACITY_INCREMENT == 10
                        && ORDER_DETAILS_RECORD_ESTIMATE == 512,
            ;
        }
        let estimated_new_size = ORDER_STORAGE_BASE_ESTIMATE + (self.orders.len()
            + ORDER_CAPACITY_INCREMENT) * ORDER_DETAILS_RECORD_ESTIMATE;
        estimated_new_size <= current_account_size
    }

    /// Whether inserting another order would exceed the allocated account
    /// size: the storage is full and a growth step would not fit.
    pub fn needs_resize(&self, current_account_size: usize) -> (r: bool)
        requires
            self.wf(),
            self.orders@.len() <= 20_000,
        ensures
            r == (self.total_inserted >= self.capacity && self.spec_cannot_grow(
                current_account_size as int,
            )),
    {
        self.total_inserted >= self.capacity && !self.can_grow_alloc(current_account_size)
    }

    /// Grow the vector by one increment of default records.
    fn grow_storage(&mut self)
        requires
            old(self).wf(),
            old(self).capacity + ORDER_CAPACITY_INCREMENT <= usize::MAX,
        ensures
            final(self).wf(),
            final(self).capacity == old(self).capacity + ORDER_CAPACITY_INCREMENT,
            final(self).total_inserted == old(self).total_inserted,
            final(self).orders@.len() == old(self).orders@.len() + ORDER_CAPACITY_INCREMENT,
            final(self).orders@.subrange(0, old(self).orders@.len() as int) == old(self).orders@,
    {
        let new_capacity = self.capacity + ORDER_CAPACITY_INCREMENT;
        let mut added: usize = 0;
        while added < ORDER_CAPACITY_INCREMENT
            invariant
                0 <= added <= ORDER_CAPACITY_INCREMENT,
                self.orders@.len() == old(self).orders@.len() + added,
                self.orders@.subrange(0, old(self).orders@.len() as int) =~= old(self).orders@,
                self.capacity == old(self).capacity,
                self.total_inserted == old(self).total_inserted,
            decreases ORDER_CAPACITY_INCREMENT - added,
        {
            self.orders.push(Default::default());
            proof {
                assert(self.orders@.subrange(0, old(self).orders@.len() as int) =~= old(
                    self,
                ).orders@);
            }
            added = added + 1;
        }
        self.capacity = new_capacity;
    }

    /// Insert a new order record with the given fields.  A re-used order
    /// id is rejected; a full storage grows by one increment when the
    /// account can hold it and fails with `AccountTooSmall` otherwise.
    pub fn insert_order(
        &mut self,
        order_id: u64,
        side: OrderSide,
        qty: u64,
        price: OrderPrice,
        current_account_size: usize,
    ) -> (r: Result<(), OrderDetailStorageError>)
        requires
            old(self).wf(),
            old(self).orders@.len() <= 20_000,
        ensures
            final(self).wf(),
            match r {
                Ok(_) => {
                    &&& !old(self).spec_contains_order(order_id)
                    &&& final(self).total_inserted == old(self).total_inserted + 1
                    &&& final(self).orders@.len() >= old(self).orders@.len()
                    &&& final(self).orders@.subrange(
                        0,
                        old(self).total_inserted as int,
                    ) == old(self).orders@.subrange(0, old(self).total_inserted as int)
                    &&& final(self).orders@[old(self).total_inserted as int].spec_fresh(
                        order_id,
                        side,
                        qty,
                        price,
                        crate::order::TimeInForce::GTC,
                    )
                },
                Err(e) => {
                    &&& *final(self) == *old(self)
                    &&& if old(self).spec_contains_order(order_id) {
                        e == OrderDetailStorageError::InvalidOrderId
                    } else {
                        &&& e == OrderDetailStorageError::AccountTooSmall
                        &&& old(self).total_inserted >= old(self).capacity
                        &&& old(self).spec_cannot_grow(current_account_size as int)
                    }
                },
            },
    {
        match self.find_order_index(order_id) {
            Ok(_) => { return Err(OrderDetailStorageError::InvalidOrderId) },
            Err(_) => {},
        }
        let order_details = OrderDetails {
            order_id,
            side,
            qty,
            filled_qty: 0,
            price,
            origin: crate::order::OrderOriginator::User(),
            entry_cond: TriggerCondition::Off(),
            entry_cond_size: TriggerEntrySize::PositionSizePercent(0),
            cancel_cond: TriggerCondition::Off(),
            cancel_cond_2: TriggerCondition::Off(),
            cancel_cond_3: TriggerCondition::Off(),
            tombstone: OrderTombstone::Open(),
            event_history: Default::default(),
            builder_tag: Default::default(),
            _pad1: [0u8; 64],
            _pad2: [0u8; 32],
            _pad3: [0u8; 24],
        };
        if self.total_inserted >= self.capacity {
            if !self.can_grow_alloc(current_account_size) {
                return Err(OrderDetailStorageError::AccountTooSmall);
            }
            self.grow_storage();
        }
        let slot = self.total_inserted;
        *vstd::std_specs::vec::vec_index_mut(&mut self.orders, slot) = order_details;
        self.total_inserted = self.total_inserted + 1;
        proof {
            assert(final(self).orders@.subrange(0, old(self).total_inserted as int) =~= old(
                self,
            ).orders@.subrange(0, old(self).total_inserted as int));
        }
        Ok(())
    }

    /// The record for `order_id`, if inserted.
    pub fn get_order(&self, order_id: u64) -> (r: Result<&OrderDetails, OrderDetailStorageError>)
        requires
            self.wf(),
        ensures
            ({
                let idx = spec_order_idx(self.orders@, self.total_inserted as int, order_id);
                match r {
                    Ok(o) => idx < self.total_inserted && *o == self.orders@[idx],
                    Err(e) => e == OrderDetailStorageError::OrderNotFound && idx
                        == self.total_inserted,
                }
            }),
    {
        let index = match self.find_order_index(order_id) {
            Ok(i) => i,
            Err(e) => { return Err(e) },
        };
        Ok(&self.orders[index])
    }

    /// The record for `order_id`, trying `hint` first.
    pub fn get_order_with_hint(&self, order_id: u64, hint: u32) -> (r: Result<
        &OrderDetails,
        OrderDetailStorageError,
    >)
        requires
            self.wf(),
        ensures
            match r {
                Ok(o) => exists|i: int|
                    0 <= i < self.total_inserted && *o == self.orders@[i] && (
                    #[trigger] self.orders@[i]).order_id == order_id,
                Err(e) => e == OrderDetailStorageError::OrderNotFound && spec_order_idx(
                    self.orders@,
                    self.total_inserted as int,
                    order_id,
                ) == self.total_inserted,
            },
    {
        let index = match self.find_order_index_with_hint(order_id, hint) {
            Ok(i) => i,
            Err(e) => { return Err(e) },
        };
        Ok(&self.orders[index])
    }

    /// Overwrite the tombstone of `order_id`.
    pub fn update_tombstone(&mut self, order_id: u64, tombstone: OrderTombstone) -> (r: Result<
        (),
        OrderDetailStorageError,
    >)
        requires
            old(self).wf(),
        ensures
            final(self).wf(),
            ({
                let idx = spec_order_idx(
                    old(self).orders@,
                    old(self).total_inserted as int,
                    order_id,
                );
                match r {
                    Ok(_) => {
                        &&& idx < old(self).total_inserted
                        &&& final(self).orders@ == old(self).orders@.update(
                            idx,
                            (OrderDetails { tombstone, ..old(self).orders@[idx] }),
                        )
                        &&& final(self).capacity == old(self).capacity
                        &&& final(self).total_inserted == old(self).total_inserted
                    },
                    Err(e) => e == OrderDetailStorageError::OrderNotFound && idx == old(
                        self,
                    ).total_inserted && *final(self) == *old(self),
                }
            }),
    {
        let index = match self.find_order_index(order_id) {
            Ok(i) => i,
            Err(e) => { return Err(e) },
        };
        let mut order = self.orders[index];
        order.tombstone = tombstone;
        *vstd::std_specs::vec::vec_index_mut(&mut self.orders, index) = order;
        Ok(())
    }

    /// Overwrite the tombstone of `order_id`, trying `hint` first.
    pub fn update_tombstone_with_hint(
        &mut self,
        order_id: u64,
        tombstone: OrderTombstone,
        hint: u32,
    ) -> (r: Result<(), OrderDetailStorageError>)
        requires
            old(self).wf(),
        ensures
            final(self).wf(),
            match r {
                Ok(_) => exists|i: int|
                    {
                        &&& 0 <= i < old(self).total_inserted
                        &&& (#[trigger] old(self).orders@[i]).order_id == order_id
                        &&& final(self).orders@ == old(self).orders@.update(
                            i,
                            (OrderDetails { tombstone, ..old(self).orders@[i] }),
                        )
                        &&& final(self).capacity == old(self).capacity
                        &&& final(self).total_inserted == old(self).total_inserted
                    },
                Err(e) => e == OrderDetailStorageError::OrderNotFound && spec_order_idx(
                    old(self).orders@,
                    old(self).total_inserted as int,
                    order_id,
                ) == old(self).total_inserted && *final(self) == *old(self),
            },
    {
        let index = match self.find_order_index_with_hint(order_id, hint) {
            Ok(i) => i,
            Err(e) => { return Err(e) },
        };
        let mut order = self.orders[index];
        order.tombstone = tombstone;
        *vstd::std_specs::vec::vec_index_mut(&mut self.orders, index) = order;
        Ok(())
    }

    /// Cancel `order_id` by writing the user-cancel tombstone.
    pub fn cancel_order(&mut self, order_id: u64) -> (r: Result<(), OrderDetailStorageError>)
        requires
            old(self).wf(),
        ensures
            final(self).wf(),
            ({
                let idx = spec_order_idx(
                    old(self).orders@,
                    old(self).total_inserted as int,
                    order_id,
                );
                match r {
                    Ok(_) => idx < old(self).total_inserted && final(self).orders@ == old(
                        self,
                    ).orders@.update(
                        idx,
                        (OrderDetails {
                            tombstone: OrderTombstone::UserCancel(),
                            ..old(self).orders@[idx]
                        }),
                    ) && final(self).capacity == old(self).capacity && final(self).total_inserted
                        == old(self).total_inserted,
                    Err(e) => e == OrderDetailStorageError::OrderNotFound && idx == old(
                        self,
                    ).total_inserted && *final(self) == *old(self),
                }
            }),
    {
        self.update_tombstone(order_id, OrderTombstone::UserCancel())
    }

    /// Add `fill_qty` to the filled quantity of `order_id`, marking the
    /// record `Filled` when it reaches the order quantity.
    pub fn fill_order(&mut self, order_id: u64, fill_qty: u64) -> (r: Result<
        (),
        OrderDetailStorageError,
    >)
        requires
            old(self).wf(),
            ({
                let idx = spec_order_idx(
                    old(self).orders@,
                    old(self).total_inserted as int,
                    order_id,
                );
                idx < old(self).total_inserted ==> old(self).orders@[idx].filled_qty + fill_qty
                    <= u64::MAX
            }),
        ensures
            final(self).wf(),
            ({
                let idx = spec_order_idx(
                    old(self).orders@,
                    old(self).total_inserted as int,
                    order_id,
                );
                match r {
                    Ok(_) => {
                        let o = old(self).orders@[idx];
                        let nf = (o.filled_qty + fill_qty) as u64;
                        idx < old(self).total_inserted && final(self).orders@ == old(
                            self,
                        ).orders@.update(
                            idx,
                            (OrderDetails {
                                filled_qty: nf,
                                tombstone: (if nf >= o.qty {
                                    OrderTombstone::Filled()
                                } else {
                                    o.tombstone
                                }),
                                ..o
                            }),
                        ) && final(self).capacity == old(self).capacity && final(self).total_inserted == old(self).total_inserted
                    },
                    Err(e) => e == OrderDetailStorageError::OrderNotFound && idx == old(
                        self,
                    ).total_inserted && *final(self) == *old(self),
                }
            }),
    {
        let index = match self.find_order_index(order_id) {
            Ok(i) => i,
            Err(e) => { return Err(e) },
        };
        let mut order = self.orders[index];
        order.filled_qty = order.filled_qty + fill_qty;
        if order.filled_qty >= order.qty {
            order.tombstone = OrderTombstone::Filled();
        }
        *vstd::std_specs::vec::vec_index_mut(&mut self.orders, index) = order;
        Ok(())
    }

    /// The ids and records of the inserted orders that are still resting:
    /// `Open` or `PreTrigger`, in insertion order.
    pub fn get_active_orders(&self) -> (r: Vec<(u64, OrderDetails)>)
        requires
            self.wf(),
        ensures
            r@ == spec_active_list(self.orders@.take(self.total_inserted as int)),
    {
        let n = self.total_inserted;
        let mut out: Vec<(u64, OrderDetails)> = Vec::new();
        let mut i: usize = 0;
        proof {
            assert(self.orders@.take(0) =~= Seq::<OrderDetails>::empty());
        }
        while i < n
            invariant
                self.wf(),
                n == self.total_inserted,
                0 <= i <= n,
                out@ == spec_active_list(self.orders@.take(i as int)),
            decreases n - i,
        {
            proof {
                assert(self.orders@.take(i as int + 1).drop_last() =~= self.orders@.take(i as int));
                assert(self.orders@.take(i as int + 1).last() == self.orders@[i as int]);
            }
            let alive = match self.orders[i].tombstone {
                OrderTombstone::Open() => true,
                OrderTombstone::PreTrigger() => true,
                _ => false,
            };
            if alive {
                out.push((self.orders[i].order_id, self.orders[i]));
                proof {
                    assert(out@ =~= spec_active_list(self.orders@.take(i as int)) + seq![
                        (self.orders@[i as int].order_id, self.orders@[i as int]),
                    ]);
                }
            } else {
                proof {
                    assert(out@ =~= spec_active_list(self.orders@.take(i as int))
                        + Seq::<(u64, OrderDetails)>::empty());
                }
            }
            i = i + 1;
        }
        proof {
            assert(self.orders@.take(n as int) =~= self.orders@.take(self.total_inserted as int));
        }
        out
    }

    /// Gather capacity, insert and resting counts.
    pub fn stats(&self) -> (r: OrderDetailStorageStats)
        requires
            self.wf(),
            self.capacity > 0,
            self.total_inserted * 100 <= usize::MAX,
        ensures
            r.capacity == self.capacity,
            r.total_inserted == self.total_inserted,
            r.active_orders == spec_active_list(
                self.orders@.take(self.total_inserted as int),
            ).len(),
            r.is_ring_buffer == false,
            r.start_index == 0,
    {
        let active = self.get_active_orders();
        let active_count = active.len();
        proof {
            lemma_active_list_bounds(self.orders@.take(self.total_inserted as int));
            assert(active_count * 100 <= self.total_inserted * 100) by (nonlinear_arith)
                requires
                    0 <= active_count <= self.total_inserted,
            ;
            assert(active_count * 100 >= 0) by (nonlinear_arith)
                requires
                    active_count >= 0,
            ;
        }
        OrderDetailStorageStats {
            capacity: self.capacity,
            total_inserted: self.total_inserted,
            active_orders: active_count,
            is_ring_buffer: false,
            start_index: 0,
            utilization_pct: (active_count * 100) / self.capacity,
        }
    }
}

/// Whether a record is resting on the book: `Open` or `PreTrigger`.
pub open spec fn spec_resting(o: OrderDetails) -> bool {
    o.tombstone == OrderTombstone::Open() || o.tombstone == OrderTombstone::PreTrigger()
}

/// The `(order_id, record)` pairs of the resting records of `s`, in
/// order.
pub open spec fn spec_active_list(s: Seq<OrderDetails>) -> Seq<(u64, OrderDetails)>
    decreases s.len(),
{
    if s.len() == 0 {
        Seq::empty()
    } else {
        spec_active_list(s.drop_last()) + (if spec_resting(s.last()) {
            seq![(s.last().order_id, s.last())]
        } else {
            Seq::<(u64, OrderDetails)>::empty()
        })
    }
}

/// The active list is never longer than the sequence.
pub proof fn lemma_active_list_bounds(s: Seq<OrderDetails>)
    ensures
        0 <= spec_active_list(s).len() <= s.len(),
    decreases s.len(),
{
    if s.len() != 0 {
        lemma_active_list_bounds(s.drop_last());
    }
}

impl Default for OrderDetailStorage {
    /// A fresh storage at the initial capacity.
    fn default() -> (r: Self)
        ensures
            r.wf(),
            r.capacity == INITIAL_ORDER_CAPACITY,
            r.total_inserted == 0,
    {
        OrderDetailStorage::new()
    }
}

/// Capacity, insert and resting counts of a storage.
#[derive(Debug, Clone, Copy, PartialEq, Eq, Structural)]
pub struct OrderDetailStorageStats {
    pub capacity: usize,
    pub total_inserted: usize,
    pub active_orders: usize,
    pub is_ring_buffer: bool,
    pub start_index: usize,
    pub utilization_pct: usize,
}

} // verus!

use vstd::prelude::*;

use crate::error::EngineError;
use crate::retransmission::{
    BufferView, DEFAULT_RETRANSMISSION_CAPACITY, RetransmissionBuffer, buffered, find_message,
};
use crate::monitored_item::{ItemView, MonitoredItem, MonitoringMode, keep_range, sampled};
use crate::notification::{
    BAD_TIMEOUT, CycleOutcome, StatusChangeNotification, ItemChange, MessageView, NotificationMessage, next_sequence,
    next_sequence_number,
};

verus! {

/// Where a subscription stands in its life.
#[derive(Clone, Copy, Debug, PartialEq, Eq, Structural)]
pub enum LifecycleState {
    /// Built but not yet registered.
    Creating,
    /// Registered; the last cycle sent nothing.
    Normal,
    /// The last cycle sent queued changes.
    Reporting,
    /// The last cycle sent a keep-alive.
    KeepAlive,
    /// The last cycle sent nothing and serviced no publish request: the
    /// lifetime is running down.
    Late,
    /// The lifetime ran out.
    Closed,
}

/// A request for a new monitored item. `initial_value` is the value read
/// from the node when the item is created, if one was read.
#[derive(Clone, Copy, Debug, PartialEq, Eq, Structural)]
pub struct CreateMonitoredItem {
    pub node_id: u32,
    pub attribute_id: u32,
    pub monitoring_mode: MonitoringMode,
    pub sampling_interval: u64,
    pub queue_size: usize,
    pub discard_oldest: bool,
    pub client_handle: u32,
    pub deadband: Option<u64>,
    pub initial_value: Option<i64>,
}

/// A request to change the settings of an existing monitored item.
#[derive(Clone, Copy, Debug, PartialEq, Eq, Structural)]
pub struct ModifyMonitoredItem {
    pub item_id: u32,
    pub monitoring_mode: MonitoringMode,
    pub sampling_interval: u64,
    pub queue_size: usize,
    pub deadband: Option<u64>,
}

pub ghost struct SubscriptionView {
    pub id: u32,
    pub publishing_interval: u64,
    pub lifetime_count: u32,
    pub max_keep_alive_count: u32,
    pub max_notifications_per_publish: u32,
    pub priority: u8,
    pub publishing_enabled: bool,
    pub state: LifecycleState,
    pub sequence_number: u32,
    pub keep_alive_counter: u32,
    pub lifetime_counter: u32,
    pub items: Seq<ItemView>,
    pub next_item_id: u32,
    pub sent: BufferView,
}

/// A subscription just built: creating, numbered from 1, with no items.
pub open spec fn fresh_view(
    id: u32,
    publishing_interval: u64,
    lifetime_count: u32,
    max_keep_alive_count: u32,
    max_notifications_per_publish: u32,
    priority: u8,
    publishing_enabled: bool,
    retransmission_capacity: nat,
) -> SubscriptionView {
    SubscriptionView {
        id,
        publishing_interval,
        lifetime_count,
        max_keep_alive_count,
        max_notifications_per_publish,
        priority,
        publishing_enabled,
        state: LifecycleState::Creating,
        sequence_number: 1,
        keep_alive_counter: 0,
        lifetime_counter: 0,
        items: Seq::empty(),
        next_item_id: 1,
        sent: BufferView { messages: Seq::empty(), capacity: retransmission_capacity },
    }
}

/// Items are well formed, their ids strictly ascending and all below `next`.
pub open spec fn items_wf(items: Seq<ItemView>, next: u32) -> bool {
    &&& forall|k: int| 0 <= k < items.len() ==> (#[trigger] items[k]).wf() && items[k].id < next
    &&& forall|j: int, k: int| 0 <= j < k < items.len() ==> items[j].id < items[k].id
}

impl SubscriptionView {
    pub open spec fn wf(self) -> bool {
        &&& self.publishing_interval > 0
        &&& self.lifetime_count > 0
        &&& self.max_keep_alive_count > 0
        &&& self.sequence_number >= 1
        &&& self.keep_alive_counter < u32::MAX
        &&& self.state != LifecycleState::Closed ==> self.lifetime_counter < u32::MAX
        &&& self.next_item_id >= 1
        &&& items_wf(self.items, self.next_item_id)
        &&& self.sent.wf()
    }
}

/// The queue a new item starts with: the value read at creation, unless the
/// item is disabled.
pub open spec fn initial_queue(req: CreateMonitoredItem) -> Seq<i64> {
    match req.initial_value {
        Some(v) => if req.monitoring_mode == MonitoringMode::Disabled {
            Seq::empty()
        } else {
            seq![v]
        },
        None => Seq::empty(),
    }
}

pub open spec fn created_view(id: u32, req: CreateMonitoredItem) -> ItemView {
    ItemView {
        id,
        node_id: req.node_id,
        attribute_id: req.attribute_id,
        monitoring_mode: req.monitoring_mode,
        sampling_interval: req.sampling_interval,
        queue_size: req.queue_size as nat,
        discard_oldest: req.discard_oldest,
        client_handle: req.client_handle,
        deadband: req.deadband,
        last_value: None,
        pending: initial_queue(req),
    }
}

/// Creating one item: items, next free id, and the result.
pub open spec fn create_one(items: Seq<ItemView>, next: u32, req: CreateMonitoredItem) -> (
    Seq<ItemView>,
    u32,
    Result<u32, EngineError>,
) {
    if req.queue_size == 0 {
        (items, next, Err(EngineError::InvalidParameter))
    } else if next == u32::MAX {
        (items, next, Err(EngineError::IdsExhausted))
    } else {
        (items.push(created_view(next, req)), (next + 1) as u32, Ok(next))
    }
}

/// Creating the items of `reqs` in order.
pub open spec fn create_all(items: Seq<ItemView>, next: u32, reqs: Seq<CreateMonitoredItem>) -> (
    Seq<ItemView>,
    u32,
    Seq<Result<u32, EngineError>>,
)
    decreases reqs.len(),
{
    if reqs.len() == 0 {
        (items, next, Seq::empty())
    } else {
        let (i0, n0, rs) = create_all(items, next, reqs.drop_last());
        let (i1, n1, r) = create_one(i0, n0, reqs.last());
        (i1, n1, rs.push(r))
    }
}

/// The last position of the item with id `id`, if there is one.
pub open spec fn find_item(items: Seq<ItemView>, id: u32) -> Option<int>
    decreases items.len(),
{
    if items.len() == 0 {
        None
    } else if items.last().id == id {
        Some(items.len() - 1)
    } else {
        find_item(items.drop_last(), id)
    }
}

/// The item after a modification: mode, interval, queue size and filter
/// change; a shrunk queue keeps the end that the item's own discard policy
/// says to keep.
pub open spec fn modified_view(v: ItemView, req: ModifyMonitoredItem) -> ItemView {
    ItemView {
        monitoring_mode: req.monitoring_mode,
        sampling_interval: req.sampling_interval,
        queue_size: req.queue_size as nat,
        deadband: req.deadband,
        pending: crate::monitored_item::resized(v.pending, req.queue_size as nat, v.discard_oldest),
        ..v
    }
}

/// Modifying one item: the items and the result.
pub open spec fn modify_one(items: Seq<ItemView>, req: ModifyMonitoredItem) -> (
    Seq<ItemView>,
    Result<(), EngineError>,
) {
    match find_item(items, req.item_id) {
        None => (items, Err(EngineError::IdentifierNotFound)),
        Some(j) => if req.queue_size == 0 {
            (items, Err(EngineError::InvalidParameter))
        } else {
            (items.update(j, modified_view(items[j], req)), Ok(()))
        },
    }
}

pub open spec fn modify_all(items: Seq<ItemView>, reqs: Seq<ModifyMonitoredItem>) -> (
    Seq<ItemView>,
    Seq<Result<(), EngineError>>,
)
    decreases reqs.len(),
{
    if reqs.len() == 0 {
        (items, Seq::empty())
    } else {
        let (i0, rs) = modify_all(items, reqs.drop_last());
        let (i1, r) = modify_one(i0, reqs.last());
        (i1, rs.push(r))
    }
}

/// Deleting one item: the items and the result.
pub open spec fn delete_one(items: Seq<ItemView>, id: u32) -> (
    Seq<ItemView>,
    Result<(), EngineError>,
) {
    match find_item(items, id) {
        None => (items, Err(EngineError::IdentifierNotFound)),
        Some(j) => (items.remove(j), Ok(())),
    }
}

pub open spec fn delete_all(items: Seq<ItemView>, ids: Seq<u32>) -> (
    Seq<ItemView>,
    Seq<Result<(), EngineError>>,
)
    decreases ids.len(),
{
    if ids.len() == 0 {
        (items, Seq::empty())
    } else {
        let (i0, rs) = delete_all(items, ids.drop_last());
        let (i1, r) = delete_one(i0, ids.last());
        (i1, rs.push(r))
    }
}

/// The changes an item reports: its queue, if it is in reporting mode.
pub open spec fn reported(v: ItemView) -> Seq<ItemChange> {
    if v.monitoring_mode == MonitoringMode::Reporting {
        v.pending.map_values(
            |x: i64| ItemChange { item_id: v.id, client_handle: v.client_handle, value: x },
        )
    } else {
        Seq::empty()
    }
}

/// The changes of all items, by item order and then queue order.
pub open spec fn all_reported(items: Seq<ItemView>) -> Seq<ItemChange>
    decreases items.len(),
{
    if items.len() == 0 {
        Seq::empty()
    } else {
        all_reported(items.drop_last()) + reported(items.last())
    }
}

/// How many of `n` waiting changes one message carries.
pub open spec fn publish_limit(max: u32, n: nat) -> nat {
    if max == 0 || n <= max {
        n
    } else {
        max as nat
    }
}

/// `new` is `old` with the front of some queues handed out; only items in
/// reporting mode hand anything out.
pub open spec fn drained(old: Seq<ItemView>, new: Seq<ItemView>) -> bool {
    &&& old.len() == new.len()
    &&& forall|k: int|
        0 <= k < old.len() && old[k].monitoring_mode != MonitoringMode::Reporting ==> #[trigger] new[k]
            == old[k]
    &&& forall|k: int|
        0 <= k < old.len() ==> (#[trigger] new[k]).pending.len() <= old[k].pending.len() && new[k]
            == delivered(old[k], old[k].pending.len() - new[k].pending.len())
}

/// The item after the first `taken` values of its queue are handed out; the
/// last of them becomes its last delivered value.
pub open spec fn delivered(v: ItemView, taken: int) -> ItemView {
    ItemView {
        pending: v.pending.skip(taken),
        last_value: if taken > 0 {
            Some(v.pending[taken - 1])
        } else {
            v.last_value
        },
        ..v
    }
}

/// One evaluation cycle of a subscription that is not closed, taking `old`
/// to `new` with outcome `out`. A cycle that services no publish request
/// counts against the lifetime; when that runs out the subscription closes.
/// Otherwise queued changes, when publishing is enabled, go out in a
/// numbered message, kept for retransmission, and clear the keep-alive
/// counter; failing that, the counter rises, and on reaching its maximum a
/// keep-alive goes out, which carries the next number without using it, and
/// the counter clears. A cycle that sends nothing leaves the subscription
/// normal, or late when no publish request was serviced.
pub open spec fn cycle_step(
    old: SubscriptionView,
    new: SubscriptionView,
    publish_serviced: bool,
    publish_time: u64,
    out: CycleOutcome,
) -> bool {
    let lc: int = if publish_serviced {
        0
    } else {
        old.lifetime_counter + 1
    };
    let total = all_reported(old.items);
    if lc >= old.lifetime_count {
        &&& out matches CycleOutcome::Expired(n) && n.status == BAD_TIMEOUT
        &&& new == (SubscriptionView {
            state: LifecycleState::Closed,
            lifetime_counter: lc as u32,
            ..old
        })
    } else if old.publishing_enabled && total.len() > 0 {
        let lim = publish_limit(old.max_notifications_per_publish, total.len());
        let msg = MessageView {
            subscription_id: old.id,
            sequence_number: old.sequence_number,
            publish_time,
            changes: total.take(lim as int),
        };
        &&& out matches CycleOutcome::Notification(m) && m@ == msg
        &&& new == (SubscriptionView {
            state: LifecycleState::Reporting,
            sequence_number: next_sequence_number(old.sequence_number),
            keep_alive_counter: 0,
            lifetime_counter: lc as u32,
            items: new.items,
            sent: BufferView {
                messages: buffered(old.sent.messages, msg, old.sent.capacity),
                ..old.sent
            },
            ..old
        })
        &&& drained(old.items, new.items)
        &&& all_reported(new.items) == total.skip(lim as int)
    } else if old.keep_alive_counter + 1 >= old.max_keep_alive_count {
        &&& out matches CycleOutcome::KeepAlive(m) && m@ == (MessageView {
            subscription_id: old.id,
            sequence_number: old.sequence_number,
            publish_time,
            changes: Seq::empty(),
        })
        &&& new == (SubscriptionView {
            state: LifecycleState::KeepAlive,
            keep_alive_counter: 0,
            lifetime_counter: lc as u32,
            ..old
        })
    } else {
        &&& out is Idle
        &&& new == (SubscriptionView {
            state: if publish_serviced {
                LifecycleState::Normal
            } else {
                LifecycleState::Late
            },
            keep_alive_counter: (old.keep_alive_counter + 1) as u32,
            lifetime_counter: lc as u32,
            ..old
        })
    }
}

/// One publish context: its timing parameters, counters and monitored items.
pub struct Subscription {
    pub id: u32,
    /// Milliseconds between evaluation cycles.
    pub publishing_interval: u64,
    pub lifetime_count: u32,
    pub max_keep_alive_count: u32,
    /// Most changes in one message; 0 means no limit.
    pub max_notifications_per_publish: u32,
    pub priority: u8,
    pub publishing_enabled: bool,
    pub state: LifecycleState,
    /// The number the next notification carries.
    pub sequence_number: u32,
    pub keep_alive_counter: u32,
    pub lifetime_counter: u32,
    /// Monitored items by ascending id.
    pub items: Vec<MonitoredItem>,
    pub next_item_id: u32,
    /// Sent notifications kept for retransmission.
    pub sent: RetransmissionBuffer,
}

pub open spec fn views_of(items: Seq<MonitoredItem>) -> Seq<ItemView> {
    items.map_values(|it: MonitoredItem| it@)
}

impl View for Subscription {
    type V = SubscriptionView;

    open spec fn view(&self) -> SubscriptionView {
        SubscriptionView {
            id: self.id,
            publishing_interval: self.publishing_interval,
            lifetime_count: self.lifetime_count,
            max_keep_alive_count: self.max_keep_alive_count,
            max_notifications_per_publish: self.max_notifications_per_publish,
            priority: self.priority,
            publishing_enabled: self.publishing_enabled,
            state: self.state,
            sequence_number: self.sequence_number,
            keep_alive_counter: self.keep_alive_counter,
            lifetime_counter: self.lifetime_counter,
            items: views_of(self.items@),
            next_item_id: self.next_item_id,
            sent: self.sent@,
        }
    }
}

impl Subscription {
    pub open spec fn wf(&self) -> bool {
        self@.wf()
    }

    /// A new subscription in the creating state, with no items, keeping up
    /// to `DEFAULT_RETRANSMISSION_CAPACITY` sent messages. A zero interval,
    /// lifetime count or keep-alive count is rejected.
    pub fn new(
        id: u32,
        publishing_interval: u64,
        lifetime_count: u32,
        max_keep_alive_count: u32,
        max_notifications_per_publish: u32,
        priority: u8,
        publishing_enabled: bool,
    ) -> (r: Result<Subscription, EngineError>)
        ensures
            (publishing_interval == 0 || lifetime_count == 0 || max_keep_alive_count == 0)
                <==> r == Err::<Subscription, EngineError>(EngineError::InvalidParameter),
            r is Ok || r == Err::<Subscription, EngineError>(EngineError::InvalidParameter),
            r is Ok ==> r->Ok_0.wf() && r->Ok_0@ == fresh_view(
                id,
                publishing_interval,
                lifetime_count,
                max_keep_alive_count,
                max_notifications_per_publish,
                priority,
                publishing_enabled,
                DEFAULT_RETRANSMISSION_CAPACITY as nat,
            ),
    {
        Subscription::with_retransmission_capacity(
            id,
            publishing_interval,
            lifetime_count,
            max_keep_alive_count,
            max_notifications_per_publish,
            priority,
            publishing_enabled,
            DEFAULT_RETRANSMISSION_CAPACITY,
        )
    }

    /// A new subscription in the creating state, with no items, keeping up
    /// to `retransmission_capacity` sent messages. A zero interval, lifetime
    /// count, keep-alive count or capacity is rejected.
    pub fn with_retransmission_capacity(
        id: u32,
        publishing_interval: u64,
        lifetime_count: u32,
        max_keep_alive_count: u32,
        max_notifications_per_publish: u32,
        priority: u8,
        publishing_enabled: bool,
        retransmission_capacity: usize,
    ) -> (r: Result<Subscription, EngineError>)
        ensures
            (publishing_interval == 0 || lifetime_count == 0 || max_keep_alive_count == 0
                || retransmission_capacity == 0) <==> r == Err::<Subscription, EngineError>(
                EngineError::InvalidParameter,
            ),
            r is Ok || r == Err::<Subscription, EngineError>(EngineError::InvalidParameter),
            r is Ok ==> r->Ok_0.wf() && r->Ok_0@ == fresh_view(
                id,
                publishing_interval,
                lifetime_count,
                max_keep_alive_count,
                max_notifications_per_publish,
                priority,
                publishing_enabled,
                retransmission_capacity as nat,
            ),
    {
        if publishing_interval == 0 || lifetime_count == 0 || max_keep_alive_count == 0
            || retransmission_capacity == 0 {
            return Err(EngineError::InvalidParameter);
        }
        let s = Subscription {
            id,
            publishing_interval,
            lifetime_count,
            max_keep_alive_count,
            max_notifications_per_publish,
            priority,
            publishing_enabled,
            state: LifecycleState::Creating,
            sequence_number: 1,
            keep_alive_counter: 0,
            lifetime_counter: 0,
            items: Vec::new(),
            next_item_id: 1,
            sent: RetransmissionBuffer::new(retransmission_capacity),
        };
        assert(s@.items =~= Seq::<ItemView>::empty());
        Ok(s)
    }

    /// The position of the item with id `id`.
    fn find_index(&self, id: u32) -> (r: Option<usize>)
        ensures
            r matches Some(j) ==> find_item(self@.items, id) == Some(j as int),
            r is None ==> find_item(self@.items, id) is None,
    {
        let ghost items = self@.items;
        let mut i: usize = self.items.len();
        assert(items.take(i as int) =~= items);
        while i > 0
            invariant
                i <= items.len(),
                items == views_of(self.items@),
                find_item(items, id) == find_item(items.take(i as int), id),
            decreases i,
        {
            assert(items.take(i as int).drop_last() =~= items.take(i - 1));
            if self.items[i - 1].id == id {
                return Some(i - 1);
            }
            i -= 1;
        }
        None
    }

    /// Creates one item for each request, in order. A request with a zero
    /// queue size fails with `InvalidParameter`; once no id is left, the
    /// rest fail with `IdsExhausted`. Ids are handed out in ascending order.
    pub fn insert_monitored_items(&mut self, items_to_create: Vec<CreateMonitoredItem>) -> (r: Vec<
        Result<u32, EngineError>,
    >)
        requires
            old(self).wf(),
        ensures
            final(self).wf(),
            ({
                let (items, next, rs) = create_all(
                    old(self)@.items,
                    old(self)@.next_item_id,
                    items_to_create@,
                );
                &&& final(self)@ == (SubscriptionView { items, next_item_id: next, ..old(self)@ })
                &&& r@ == rs
            }),
    {
        let ghost start = self@;
        let mut r: Vec<Result<u32, EngineError>> = Vec::new();
        let mut k: usize = 0;
        while k < items_to_create.len()
            invariant
                k <= items_to_create@.len(),
                self.wf(),
                ({
                    let (items, next, rs) = create_all(
                        start.items,
                        start.next_item_id,
                        items_to_create@.take(k as int),
                    );
                    &&& self@ == (SubscriptionView { items, next_item_id: next, ..start })
                    &&& r@ == rs
                }),
            decreases items_to_create@.len() - k,
        {
            let req = items_to_create[k];
            assert(items_to_create@.take(k + 1).drop_last() =~= items_to_create@.take(k as int));
            assert(items_to_create@.take(k + 1).last() == req);
            if req.queue_size == 0 {
                r.push(Err(EngineError::InvalidParameter));
            } else if self.next_item_id == u32::MAX {
                r.push(Err(EngineError::IdsExhausted));
            } else {
                let id = self.next_item_id;
                let mut it = MonitoredItem::new(
                    id,
                    req.node_id,
                    req.attribute_id,
                    req.monitoring_mode,
                    req.sampling_interval,
                    req.queue_size,
                    req.discard_oldest,
                    req.client_handle,
                    req.deadband,
                );
                match req.initial_value {
                    Some(v) => {
                        it.sample(v);
                        assert(Seq::<i64>::empty().push(v) =~= seq![v]);
                    },
                    None => {},
                }
                assert(it@ == created_view(id, req));
                let ghost before = self.items@;
                self.items.push(it);
                assert(views_of(self.items@) =~= views_of(before).push(it@));
                self.next_item_id = id + 1;
                r.push(Ok(id));
            }
            k += 1;
        }
        assert(items_to_create@.take(k as int) =~= items_to_create@);
        r
    }

    /// Applies each request, in order, to the item it names. A request for
    /// an id that is not there fails with `IdentifierNotFound`; one with a
    /// zero queue size fails with `InvalidParameter`.
    pub fn modify_monitored_items(&mut self, items_to_modify: Vec<ModifyMonitoredItem>) -> (r: Vec<
        Result<(), EngineError>,
    >)
        requires
            old(self).wf(),
        ensures
            final(self).wf(),
            ({
                let (items, rs) = modify_all(old(self)@.items, items_to_modify@);
                &&& final(self)@ == (SubscriptionView { items, ..old(self)@ })
                &&& r@ == rs
            }),
    {
        let ghost start = self@;
        let mut r: Vec<Result<(), EngineError>> = Vec::new();
        let mut k: usize = 0;
        while k < items_to_modify.len()
            invariant
                k <= items_to_modify@.len(),
                self.wf(),
                ({
                    let (items, rs) = modify_all(start.items, items_to_modify@.take(k as int));
                    &&& self@ == (SubscriptionView { items, ..start })
                    &&& r@ == rs
                }),
            decreases items_to_modify@.len() - k,
        {
            let req = items_to_modify[k];
            assert(items_to_modify@.take(k + 1).drop_last() =~= items_to_modify@.take(k as int));
            assert(items_to_modify@.take(k + 1).last() == req);
            match self.find_index(req.item_id) {
                None => {
                    r.push(Err(EngineError::IdentifierNotFound));
                },
                Some(j) => {
                    proof {
                        lemma_find_item(self@.items, req.item_id);
                    }
                    if req.queue_size == 0 {
                        r.push(Err(EngineError::InvalidParameter));
                    } else {
                        let ghost before = self@.items;
                        let mut it = self.items.remove(j);
                        assert(it@ == before[j as int]);
                        it.monitoring_mode = req.monitoring_mode;
                        it.sampling_interval = req.sampling_interval;
                        it.deadband = req.deadband;
                        it.resize(req.queue_size);
                        self.items.insert(j, it);
                        assert(views_of(self.items@) =~= before.update(
                            j as int,
                            modified_view(before[j as int], req),
                        ));
                        r.push(Ok(()));
                    }
                },
            }
            k += 1;
        }
        assert(items_to_modify@.take(k as int) =~= items_to_modify@);
        r
    }

    /// Removes the items with the given ids, in order. An id that is not
    /// there fails with `IdentifierNotFound`.
    pub fn delete_monitored_items(&mut self, items_to_delete: Vec<u32>) -> (r: Vec<
        Result<(), EngineError>,
    >)
        requires
            old(self).wf(),
        ensures
            final(self).wf(),
            ({
                let (items, rs) = delete_all(old(self)@.items, items_to_delete@);
                &&& final(self)@ == (SubscriptionView { items, ..old(self)@ })
                &&& r@ == rs
            }),
    {
        let ghost start = self@;
        let mut r: Vec<Result<(), EngineError>> = Vec::new();
        let mut k: usize = 0;
        while k < items_to_delete.len()
            invariant
                k <= items_to_delete@.len(),
                self.wf(),
                ({
                    let (items, rs) = delete_all(start.items, items_to_delete@.take(k as int));
                    &&& self@ == (SubscriptionView { items, ..start })
                    &&& r@ == rs
                }),
            decreases items_to_delete@.len() - k,
        {
            let id = items_to_delete[k];
            assert(items_to_delete@.take(k + 1).drop_last() =~= items_to_delete@.take(k as int));
            assert(items_to_delete@.take(k + 1).last() == id);
            match self.find_index(id) {
                None => {
                    r.push(Err(EngineError::IdentifierNotFound));
                },
                Some(j) => {
                    proof {
                        lemma_find_item(self@.items, id);
                    }
                    let ghost before = self@.items;
                    self.items.remove(j);
                    assert(views_of(self.items@) =~= before.remove(j as int));
                    assert forall|a: int, b: int|
                        0 <= a < b < self@.items.len() implies self@.items[a].id
                        < self@.items[b].id by {
                        let a0 = if a < j { a } else { a + 1 };
                        let b0 = if b < j { b } else { b + 1 };
                        assert(self@.items[a] == before[a0]);
                        assert(self@.items[b] == before[b0]);
                    }
                    assert forall|a: int| 0 <= a < self@.items.len() implies (
                    #[trigger] self@.items[a]).wf() && self@.items[a].id < self@.next_item_id by {
                        let a0 = if a < j { a } else { a + 1 };
                        assert(self@.items[a] == before[a0]);
                    }
                    r.push(Ok(()));
                },
            }
            k += 1;
        }
        assert(items_to_delete@.take(k as int) =~= items_to_delete@);
        r
    }
    /// Hands a sampled value to the item with id `item_id`.
    pub fn sample_item(&mut self, item_id: u32, value: i64) -> (r: Result<(), EngineError>)
        requires
            old(self).wf(),
        ensures
            final(self).wf(),
            match find_item(old(self)@.items, item_id) {
                None => r == Err::<(), EngineError>(EngineError::IdentifierNotFound) && final(self)@
                    == old(self)@,
                Some(j) => r is Ok && final(self)@ == (SubscriptionView {
                    items: old(self)@.items.update(j, sampled(old(self)@.items[j], value)),
                    ..old(self)@
                }),
            },
    {
        match self.find_index(item_id) {
            None => Err(EngineError::IdentifierNotFound),
            Some(j) => {
                proof {
                    lemma_find_item(self@.items, item_id);
                }
                let ghost before = self@.items;
                let mut it = self.items.remove(j);
                assert(it@ == before[j as int]);
                it.sample(value);
                self.items.insert(j, it);
                assert(views_of(self.items@) =~= before.update(
                    j as int,
                    sampled(before[j as int], value),
                ));
                Ok(())
            },
        }
    }

    /// Changes the timing parameters; the keep-alive and lifetime counters
    /// keep their values, and one at or past a lowered maximum fires on the
    /// next cycle. A zero
    /// interval, lifetime count or keep-alive count is rejected and nothing
    /// changes.
    pub fn modify(
        &mut self,
        publishing_interval: u64,
        lifetime_count: u32,
        max_keep_alive_count: u32,
        max_notifications_per_publish: u32,
        priority: u8,
    ) -> (r: Result<(), EngineError>)
        requires
            old(self).wf(),
        ensures
            final(self).wf(),
            (publishing_interval == 0 || lifetime_count == 0 || max_keep_alive_count == 0)
                ==> r == Err::<(), EngineError>(EngineError::InvalidParameter) && final(self)@
                == old(self)@,
            !(publishing_interval == 0 || lifetime_count == 0 || max_keep_alive_count == 0)
                ==> r is Ok && final(self)@ == (SubscriptionView {
                publishing_interval,
                lifetime_count,
                max_keep_alive_count,
                max_notifications_per_publish,
                priority,
                ..old(self)@
            }),
    {
        if publishing_interval == 0 || lifetime_count == 0 || max_keep_alive_count == 0 {
            return Err(EngineError::InvalidParameter);
        }
        self.publishing_interval = publishing_interval;
        self.lifetime_count = lifetime_count;
        self.max_keep_alive_count = max_keep_alive_count;
        self.max_notifications_per_publish = max_notifications_per_publish;
        self.priority = priority;
        Ok(())
    }

    /// A copy of the sent message numbered `seq`, if it is still kept.
    pub fn republish(&self, seq: u32) -> (r: Result<NotificationMessage, EngineError>)
        ensures
            match find_message(self@.sent.messages, seq) {
                None => r matches Err(e) && e == EngineError::SequenceUnavailable,
                Some(j) => r matches Ok(m) && m@ == self@.sent.messages[j],
            },
    {
        self.sent.republish(seq)
    }

    /// Drops the kept message numbered `seq`, which the consumer has received.
    pub fn acknowledge(&mut self, seq: u32) -> (r: Result<(), EngineError>)
        requires
            old(self).wf(),
        ensures
            final(self).wf(),
            match find_message(old(self)@.sent.messages, seq) {
                None => r == Err::<(), EngineError>(EngineError::SequenceUnavailable) && final(self)@
                    == old(self)@,
                Some(j) => r is Ok && final(self)@ == (SubscriptionView {
                    sent: BufferView { messages: old(self)@.sent.messages.remove(j), ..old(self)@.sent },
                    ..old(self)@
                }),
            },
    {
        self.sent.acknowledge(seq)
    }

    /// Whether any item has a change to report.
    fn has_reported(&self) -> (r: bool)
        ensures
            r == (all_reported(self@.items).len() > 0),
    {
        let ghost items = self@.items;
        let mut i: usize = 0;
        while i < self.items.len()
            invariant
                i <= items.len(),
                items == views_of(self.items@),
                all_reported(items.take(i as int)).len() == 0,
            decreases items.len() - i,
        {
            assert(items.take(i + 1).drop_last() =~= items.take(i as int));
            if self.items[i].monitoring_mode == MonitoringMode::Reporting
                && self.items[i].pending.len() > 0 {
                proof {
                    lemma_reported_prefix(items, i + 1);
                }
                return true;
            }
            i += 1;
        }
        proof {
            assert(items.take(i as int) =~= items);
        }
        false
    }

    /// Takes the changes for one message off the front of the queues: all
    /// of them, or the first `max_notifications_per_publish` when that is
    /// not 0.
    fn collect_changes(&mut self) -> (changes: Vec<ItemChange>)
        requires
            old(self).wf(),
        ensures
            final(self).wf(),
            ({
                let total = all_reported(old(self)@.items);
                let lim = publish_limit(old(self).max_notifications_per_publish, total.len());
                &&& changes@ == total.take(lim as int)
                &&& drained(old(self)@.items, final(self)@.items)
                &&& all_reported(final(self)@.items) == total.skip(lim as int)
                &&& final(self)@ == (SubscriptionView { items: final(self)@.items, ..old(self)@ })
            }),
    {
        let ghost start = self@;
        let max = self.max_notifications_per_publish;
        let mut changes: Vec<ItemChange> = Vec::new();
        let mut i: usize = 0;
        assert(drained(start.items, start.items)) by {
            assert forall|k: int| 0 <= k < start.items.len() implies start.items[k].pending.skip(0)
                == start.items[k].pending by {
                assert(start.items[k].pending.skip(0) =~= start.items[k].pending);
            }
        }
        while i < self.items.len()
            invariant
                i <= self@.items.len(),
                self.wf(),
                max == start.max_notifications_per_publish,
                self@ == (SubscriptionView { items: self@.items, ..start }),
                drained(start.items, self@.items),
                forall|k: int| i <= k < start.items.len() ==> self@.items[k] == start.items[k],
                ({
                    let t = all_reported(start.items.take(i as int));
                    let lim = publish_limit(max, t.len());
                    &&& changes@ == t.take(lim as int)
                    &&& all_reported(self@.items.take(i as int)) == t.skip(lim as int)
                }),
            decreases self@.items.len() - i,
        {
            let ghost cur = self@.items;
            let ghost t = all_reported(start.items.take(i as int));
            let ghost c = reported(start.items[i as int]);
            let ghost c0 = changes@;
            assert(start.items.take(i + 1).drop_last() =~= start.items.take(i as int));
            assert(cur.take(i + 1).drop_last() =~= cur.take(i as int));
            let mut it = self.items.remove(i);
            assert(it@ == start.items[i as int]);
            let mut tk: usize = 0;
            if it.monitoring_mode == MonitoringMode::Reporting {
                let len = it.pending.len();
                tk = if max == 0 {
                    len
                } else {
                    let room = max as usize - changes.len();
                    if len < room {
                        len
                    } else {
                        room
                    }
                };
                let mut t2: usize = 0;
                while t2 < tk
                    invariant
                        t2 <= tk <= len == it.pending@.len(),
                        it.monitoring_mode == MonitoringMode::Reporting,
                        it@ == start.items[i as int],
                        c == reported(it@),
                        changes@ == c0 + c.take(t2 as int),
                    decreases tk - t2,
                {
                    changes.push(
                        ItemChange {
                            item_id: it.id,
                            client_handle: it.client_handle,
                            value: it.pending[t2],
                        },
                    );
                    assert(changes@ =~= c0 + c.take(t2 + 1));
                    t2 += 1;
                }
                if tk > 0 {
                    it.last_value = Some(it.pending[tk - 1]);
                }
                it.pending = keep_range(&it.pending, tk, len);
                assert(reported(it@) =~= c.skip(tk as int));
            } else {
                assert(c =~= Seq::<ItemChange>::empty());
            }
            let ghost tk2 = tk as int;
            self.items.insert(i, it);
            let ghost nxt = views_of(self.items@);
            assert(nxt =~= cur.update(i as int, it@));
            assert(nxt.take(i as int) =~= cur.take(i as int));
            assert(nxt.take(i + 1).drop_last() =~= nxt.take(i as int));
            proof {
                let lim = publish_limit(max, t.len());
                let lim2 = publish_limit(max, t.len() + c.len());
                assert(c.len() == start.items[i as int].pending.len() || c.len() == 0);
                if lim < t.len() {
                    assert(tk2 == 0);
                    assert(lim2 == lim);
                    assert((t + c).take(lim2 as int) =~= t.take(lim as int) + c.take(tk2));
                    assert((t + c).skip(lim2 as int) =~= t.skip(lim as int) + c.skip(tk2));
                } else {
                    assert(lim2 == t.len() + tk2);
                    assert((t + c).take(lim2 as int) =~= t.take(lim as int) + c.take(tk2));
                    assert((t + c).skip(lim2 as int) =~= t.skip(lim as int) + c.skip(tk2));
                }
                assert(drained(start.items, nxt)) by {
                    assert forall|k: int| 0 <= k < start.items.len() implies (
                    #[trigger] nxt[k]).pending.len() <= start.items[k].pending.len() && nxt[k]
                        == delivered(
                        start.items[k],
                        start.items[k].pending.len() - nxt[k].pending.len(),
                    ) by {
                        if k == i {
                            if it.monitoring_mode != MonitoringMode::Reporting {
                                assert(start.items[k].pending.skip(0) =~= start.items[k].pending);
                            }
                        }
                    }
                }
            }
            i += 1;
        }
        assert(start.items.take(i as int) =~= start.items);
        assert(self@.items.take(i as int) =~= self@.items);
        changes
    }

    /// Runs one evaluation cycle: `publish_serviced` tells whether a publish
    /// request was serviced since the last cycle, `publish_time` is the time
    /// the message is stamped with.
    pub fn tick(&mut self, publish_serviced: bool, publish_time: u64) -> (out: CycleOutcome)
        requires
            old(self).wf(),
            old(self).state != LifecycleState::Closed,
        ensures
            final(self).wf(),
            cycle_step(old(self)@, final(self)@, publish_serviced, publish_time, out),
    {
        let lc: u32 = if publish_serviced {
            0
        } else {
            self.lifetime_counter + 1
        };
        if lc >= self.lifetime_count {
            self.lifetime_counter = lc;
            self.state = LifecycleState::Closed;
            return CycleOutcome::Expired(StatusChangeNotification { status: BAD_TIMEOUT });
        }
        self.lifetime_counter = lc;
        if self.publishing_enabled && self.has_reported() {
            let seq = self.sequence_number;
            let changes = self.collect_changes();
            self.sequence_number = next_sequence(seq);
            self.keep_alive_counter = 0;
            self.state = LifecycleState::Reporting;
            let m = NotificationMessage {
                subscription_id: self.id,
                sequence_number: seq,
                publish_time,
                changes,
            };
            self.sent.keep(&m);
            CycleOutcome::Notification(m)
        } else if self.keep_alive_counter + 1 >= self.max_keep_alive_count {
            self.keep_alive_counter = 0;
            self.state = LifecycleState::KeepAlive;
            let m = NotificationMessage {
                subscription_id: self.id,
                sequence_number: self.sequence_number,
                publish_time,
                changes: Vec::new(),
            };
            assert(m@.changes =~= Seq::<ItemChange>::empty());
            CycleOutcome::KeepAlive(m)
        } else {
            self.keep_alive_counter = self.keep_alive_counter + 1;
            self.state = if publish_serviced {
                LifecycleState::Normal
            } else {
                LifecycleState::Late
            };
            CycleOutcome::Idle
        }
    }
}

/// Once a prefix reports something, so does every longer prefix.
proof fn lemma_reported_prefix(items: Seq<ItemView>, i: int)
    requires
        0 < i <= items.len(),
        reported(items[i - 1]).len() > 0,
    ensures
        all_reported(items).len() > 0,
    decreases items.len(),
{
    if i < items.len() {
        lemma_reported_prefix(items.drop_last(), i);
    }
}


/// `find_item` names a position holding the id, the last such; `None`
/// means no position holds it.
pub proof fn lemma_find_item(items: Seq<ItemView>, id: u32)
    ensures
        find_item(items, id) matches Some(j) ==> 0 <= j < items.len() && items[j].id == id
            && forall|k: int| j < k < items.len() ==> items[k].id != id,
        find_item(items, id) is None ==> forall|k: int| 0 <= k < items.len() ==> items[k].id != id,
    decreases items.len(),
{
    if items.len() > 0 {
        let init = items.drop_last();
        lemma_find_item(init, id);
        assert forall|k: int| 0 <= k < init.len() implies init[k] == items[k] by {}
        if items.last().id != id {
            assert forall|k: int| 0 <= k < items.len() && k != items.len() - 1 implies items[k]
                == #[trigger] init[k] by {}
        }
    }
}


} // verus!

use vstd::prelude::*;

use std::collections::HashMap;

use crate::error::EngineError;
use crate::notification::{CycleOutcome, NotificationMessage};
use crate::retransmission::{BufferView, DEFAULT_RETRANSMISSION_CAPACITY, find_message};
use crate::subscription::{
    CreateMonitoredItem, LifecycleState, ModifyMonitoredItem, Subscription, SubscriptionView,
    create_all, cycle_step, delete_all, find_item, fresh_view, modify_all,
};
use crate::monitored_item::sampled;

verus! {

broadcast use vstd::std_specs::hash::group_hash_axioms;

/// A subscription once registered: one still being created becomes normal.
pub open spec fn registered(v: SubscriptionView) -> SubscriptionView {
    if v.state == LifecycleState::Creating {
        SubscriptionView { state: LifecycleState::Normal, ..v }
    } else {
        v
    }
}

/// The settings a modification asks for; counters and items stay.
pub open spec fn modified_subscription(
    v: SubscriptionView,
    publishing_interval: u64,
    lifetime_count: u32,
    max_keep_alive_count: u32,
    max_notifications_per_publish: u32,
    priority: u8,
) -> SubscriptionView {
    SubscriptionView {
        publishing_interval,
        lifetime_count,
        max_keep_alive_count,
        max_notifications_per_publish,
        priority,
        ..v
    }
}

/// A call that can change which subscriptions exist, with the id it names.
#[derive(Clone, Copy, Debug, PartialEq, Eq, Structural)]
pub enum RegistryCall {
    Add(u32),
    Modify(u32),
    Delete(u32),
}

/// What a call does to the set of ids present.
pub open spec fn ids_follow(before: Set<u32>, after: Set<u32>, call: RegistryCall) -> bool {
    match call {
        RegistryCall::Add(id) => after == before.insert(id),
        RegistryCall::Modify(_) => after == before,
        RegistryCall::Delete(id) => after == before.remove(id),
    }
}

/// The ids present after `calls`, starting from none.
pub open spec fn present_after(calls: Seq<RegistryCall>) -> Set<u32>
    decreases calls.len(),
{
    if calls.len() == 0 {
        Set::empty()
    } else {
        let ids = present_after(calls.drop_last());
        match calls.last() {
            RegistryCall::Add(id) => ids.insert(id),
            RegistryCall::Modify(_) => ids,
            RegistryCall::Delete(id) => ids.remove(id),
        }
    }
}

/// Over any sequence of add, modify and delete calls on a registry that
/// started empty, the ids present (those for which `subscription_exists`
/// holds) are exactly those the calls leave present: each call's contract
/// gives `ids_follow` for its step.
pub proof fn lemma_exists_tracks_calls(doms: Seq<Set<u32>>, calls: Seq<RegistryCall>)
    requires
        doms.len() == calls.len() + 1,
        doms[0] == Set::<u32>::empty(),
        forall|k: int|
            0 <= k < calls.len() ==> ids_follow(doms[k], #[trigger] doms[k + 1], calls[k]),
    ensures
        forall|k: int| 0 <= k <= calls.len() ==> #[trigger] doms[k] == present_after(calls.take(k)),
    decreases calls.len(),
{
    if calls.len() > 0 {
        let n = calls.len() - 1;
        lemma_exists_tracks_calls(doms.take(n + 1), calls.take(n));
        assert forall|k: int| 0 <= k <= calls.len() implies #[trigger] doms[k] == present_after(
            calls.take(k),
        ) by {
            if k <= n {
                assert(doms.take(n + 1)[k] == doms[k]);
                assert(calls.take(n).take(k) =~= calls.take(k));
            } else {
                assert(doms.take(n + 1)[n] == doms[n]);
                assert(calls.take(n).take(n) =~= calls.take(n));
                assert(calls.take(k).drop_last() =~= calls.take(n));
                assert(ids_follow(doms[n], doms[n + 1], calls[n]));
            }
        }
    } else {
        assert(calls.take(0) =~= Seq::<RegistryCall>::empty());
    }
}

/// The session's subscriptions, by id.
pub struct SubscriptionState {
    pub subscriptions: HashMap<u32, Subscription>,
    /// The id the next created subscription takes.
    pub next_subscription_id: u32,
}

impl View for SubscriptionState {
    type V = Map<u32, SubscriptionView>;

    open spec fn view(&self) -> Map<u32, SubscriptionView> {
        self.subscriptions@.map_values(|s: Subscription| s@)
    }
}

impl SubscriptionState {
    /// Each subscription is well formed, open, stored under its own id, and
    /// below the next id to hand out unless the ids are used up.
    pub open spec fn wf(&self) -> bool {
        &&& self.next_subscription_id >= 1
        &&& forall|id: u32| #[trigger]
            self.subscriptions@.contains_key(id) ==> {
                let s = self.subscriptions@[id];
                &&& s.wf()
                &&& s.id == id
                &&& s.state != LifecycleState::Closed
                &&& (id < self.next_subscription_id || self.next_subscription_id == u32::MAX)
            }
    }

    pub fn new() -> (r: SubscriptionState)
        ensures
            r.wf(),
            r@ == Map::<u32, SubscriptionView>::empty(),
            r.next_subscription_id == 1,
    {
        let r = SubscriptionState { subscriptions: HashMap::new(), next_subscription_id: 1 };
        assert(r@ =~= Map::<u32, SubscriptionView>::empty());
        r
    }

    pub fn is_empty(&self) -> (r: bool)
        ensures
            r == (self@.dom().len() == 0),
            r == (self@.dom() == Set::<u32>::empty()),
    {
        proof {
            assert(self@.dom() == self.subscriptions@.dom());
            vstd::set_lib::lemma_set_empty_equivalency_len(self@.dom());
        }
        self.subscriptions.is_empty()
    }

    pub fn subscription_exists(&self, subscription_id: u32) -> (r: bool)
        ensures
            r == self@.contains_key(subscription_id),
    {
        self.subscriptions.contains_key(&subscription_id)
    }

    /// The subscription with id `subscription_id`, if there is one.
    pub fn subscription(&self, subscription_id: u32) -> (r: Option<&Subscription>)
        ensures
            r matches Some(s) ==> self@.contains_key(subscription_id) && s@ == self@[subscription_id],
            r is None ==> !self@.contains_key(subscription_id),
    {
        self.subscriptions.get(&subscription_id)
    }

    /// Registers `subscription` under its id, replacing any subscription
    /// with that id.
    pub fn add_subscription(&mut self, subscription: Subscription)
        requires
            old(self).wf(),
            subscription.wf(),
            subscription.state != LifecycleState::Closed,
        ensures
            final(self).wf(),
            final(self)@ == old(self)@.insert(subscription.id, registered(subscription@)),
            ids_follow(old(self)@.dom(), final(self)@.dom(), RegistryCall::Add(subscription.id)),
            final(self).next_subscription_id == if subscription.id < old(self).next_subscription_id {
                old(self).next_subscription_id
            } else if subscription.id == u32::MAX {
                u32::MAX
            } else {
                (subscription.id + 1) as u32
            },
    {
        let mut subscription = subscription;
        if subscription.state == LifecycleState::Creating {
            subscription.state = LifecycleState::Normal;
        }
        let id = subscription.id;
        if id >= self.next_subscription_id {
            self.next_subscription_id = if id == u32::MAX {
                u32::MAX
            } else {
                id + 1
            };
        }
        let ghost v = subscription@;
        self.subscriptions.insert(id, subscription);
        assert(self@ =~= old(self)@.insert(id, v));
    }

    /// Creates and registers a subscription under the next free id.
    pub fn create_subscription(
        &mut self,
        publishing_interval: u64,
        lifetime_count: u32,
        max_keep_alive_count: u32,
        max_notifications_per_publish: u32,
        priority: u8,
        publishing_enabled: bool,
    ) -> (r: Result<u32, EngineError>)
        requires
            old(self).wf(),
        ensures
            final(self).wf(),
            (publishing_interval == 0 || lifetime_count == 0 || max_keep_alive_count == 0)
                ==> r == Err::<u32, EngineError>(EngineError::InvalidParameter),
            !(publishing_interval == 0 || lifetime_count == 0 || max_keep_alive_count == 0)
                && old(self).next_subscription_id == u32::MAX ==> r == Err::<u32, EngineError>(
                EngineError::IdsExhausted,
            ),
            r is Err ==> final(self)@ == old(self)@ && final(self).next_subscription_id == old(self).next_subscription_id,
            !(publishing_interval == 0 || lifetime_count == 0 || max_keep_alive_count == 0)
                && old(self).next_subscription_id < u32::MAX ==> {
                let id = old(self).next_subscription_id;
                &&& r == Ok::<u32, EngineError>(id)
                &&& final(self)@ == old(self)@.insert(
                    id,
                    registered(
                        fresh_view(
                            id,
                            publishing_interval,
                            lifetime_count,
                            max_keep_alive_count,
                            max_notifications_per_publish,
                            priority,
                            publishing_enabled,
                            DEFAULT_RETRANSMISSION_CAPACITY as nat,
                        ),
                    ),
                )
                &&& final(self).next_subscription_id == id + 1
            },
    {
        let id = self.next_subscription_id;
        let created = Subscription::new(
            id,
            publishing_interval,
            lifetime_count,
            max_keep_alive_count,
            max_notifications_per_publish,
            priority,
            publishing_enabled,
        );
        match created {
            Err(e) => Err(e),
            Ok(s) => {
                if id == u32::MAX {
                    return Err(EngineError::IdsExhausted);
                }
                self.add_subscription(s);
                Ok(id)
            },
        }
    }

    /// Changes the parameters of the subscription with id `subscription_id`
    /// and clears its counters.
    pub fn modify_subscription(
        &mut self,
        subscription_id: u32,
        publishing_interval: u64,
        lifetime_count: u32,
        max_keep_alive_count: u32,
        max_notifications_per_publish: u32,
        priority: u8,
    ) -> (r: Result<(), EngineError>)
        requires
            old(self).wf(),
        ensures
            final(self).wf(),
            final(self).next_subscription_id == old(self).next_subscription_id,
            !old(self)@.contains_key(subscription_id) ==> r == Err::<(), EngineError>(
                EngineError::IdentifierNotFound,
            ),
            old(self)@.contains_key(subscription_id) && (publishing_interval == 0 || lifetime_count
                == 0 || max_keep_alive_count == 0) ==> r == Err::<(), EngineError>(
                EngineError::InvalidParameter,
            ),
            r is Err ==> final(self)@ == old(self)@,
            r is Ok ==> final(self)@ == old(self)@.insert(
                subscription_id,
                modified_subscription(
                    old(self)@[subscription_id],
                    publishing_interval,
                    lifetime_count,
                    max_keep_alive_count,
                    max_notifications_per_publish,
                    priority,
                ),
            ),
            ids_follow(old(self)@.dom(), final(self)@.dom(), RegistryCall::Modify(subscription_id)),
            r is Ok <==> old(self)@.contains_key(subscription_id) && !(publishing_interval == 0
                || lifetime_count == 0 || max_keep_alive_count == 0),
    {
        match self.subscriptions.remove(&subscription_id) {
            None => {
                assert(self@ =~= old(self)@);
                Err(EngineError::IdentifierNotFound)
            },
            Some(mut s) => {
                let r = s.modify(
                    publishing_interval,
                    lifetime_count,
                    max_keep_alive_count,
                    max_notifications_per_publish,
                    priority,
                );
                let ghost v = s@;
                self.subscriptions.insert(subscription_id, s);
                assert(self@ =~= old(self)@.insert(subscription_id, v));
                if r.is_err() {
                    assert(self@ =~= old(self)@);
                }
                r
            },
        }
    }

    /// Removes the subscription with id `subscription_id` and every item it owns.
    pub fn delete_subscription(&mut self, subscription_id: u32) -> (r: Result<(), EngineError>)
        requires
            old(self).wf(),
        ensures
            final(self).wf(),
            final(self).next_subscription_id == old(self).next_subscription_id,
            final(self)@ == old(self)@.remove(subscription_id),
            ids_follow(old(self)@.dom(), final(self)@.dom(), RegistryCall::Delete(subscription_id)),
            old(self)@.contains_key(subscription_id) <==> r is Ok,
            r is Err ==> r == Err::<(), EngineError>(EngineError::IdentifierNotFound),
    {
        let removed = self.subscriptions.remove(&subscription_id);
        assert(self@ =~= old(self)@.remove(subscription_id));
        match removed {
            None => Err(EngineError::IdentifierNotFound),
            Some(_) => Ok(()),
        }
    }
    /// Creates monitored items in the subscription with id `subscription_id`.
    pub fn insert_monitored_items(
        &mut self,
        subscription_id: u32,
        items_to_create: Vec<CreateMonitoredItem>,
    ) -> (r: Result<Vec<Result<u32, EngineError>>, EngineError>)
        requires
            old(self).wf(),
        ensures
            final(self).wf(),
            final(self).next_subscription_id == old(self).next_subscription_id,
            !old(self)@.contains_key(subscription_id) ==> r is Err && final(self)@ == old(self)@,
            r is Err ==> r == Err::<Vec<Result<u32, EngineError>>, EngineError>(
                EngineError::IdentifierNotFound,
            ),
            old(self)@.contains_key(subscription_id) ==> {
                let s = old(self)@[subscription_id];
                let (items, next, rs) = create_all(s.items, s.next_item_id, items_to_create@);
                &&& r is Ok
                &&& r->Ok_0@ == rs
                &&& final(self)@ == old(self)@.insert(
                    subscription_id,
                    SubscriptionView { items, next_item_id: next, ..s },
                )
            },
    {
        match self.subscriptions.remove(&subscription_id) {
            None => {
                assert(self@ =~= old(self)@);
                Err(EngineError::IdentifierNotFound)
            },
            Some(mut s) => {
                let r = s.insert_monitored_items(items_to_create);
                let ghost v = s@;
                self.subscriptions.insert(subscription_id, s);
                assert(self@ =~= old(self)@.insert(subscription_id, v));
                Ok(r)
            },
        }
    }

    /// Modifies monitored items of the subscription with id `subscription_id`.
    pub fn modify_monitored_items(
        &mut self,
        subscription_id: u32,
        items_to_modify: Vec<ModifyMonitoredItem>,
    ) -> (r: Result<Vec<Result<(), EngineError>>, EngineError>)
        requires
            old(self).wf(),
        ensures
            final(self).wf(),
            final(self).next_subscription_id == old(self).next_subscription_id,
            !old(self)@.contains_key(subscription_id) ==> r is Err && final(self)@ == old(self)@,
            r is Err ==> r == Err::<Vec<Result<(), EngineError>>, EngineError>(
                EngineError::IdentifierNotFound,
            ),
            old(self)@.contains_key(subscription_id) ==> {
                let s = old(self)@[subscription_id];
                let (items, rs) = modify_all(s.items, items_to_modify@);
                &&& r is Ok
                &&& r->Ok_0@ == rs
                &&& final(self)@ == old(self)@.insert(subscription_id, SubscriptionView { items, ..s })
            },
    {
        match self.subscriptions.remove(&subscription_id) {
            None => {
                assert(self@ =~= old(self)@);
                Err(EngineError::IdentifierNotFound)
            },
            Some(mut s) => {
                let r = s.modify_monitored_items(items_to_modify);
                let ghost v = s@;
                self.subscriptions.insert(subscription_id, s);
                assert(self@ =~= old(self)@.insert(subscription_id, v));
                Ok(r)
            },
        }
    }

    /// Deletes monitored items of the subscription with id `subscription_id`.
    pub fn delete_monitored_items(&mut self, subscription_id: u32, items_to_delete: Vec<u32>) -> (r:
        Result<Vec<Result<(), EngineError>>, EngineError>)
        requires
            old(self).wf(),
        ensures
            final(self).wf(),
            final(self).next_subscription_id == old(self).next_subscription_id,
            !old(self)@.contains_key(subscription_id) ==> r is Err && final(self)@ == old(self)@,
            r is Err ==> r == Err::<Vec<Result<(), EngineError>>, EngineError>(
                EngineError::IdentifierNotFound,
            ),
            old(self)@.contains_key(subscription_id) ==> {
                let s = old(self)@[subscription_id];
                let (items, rs) = delete_all(s.items, items_to_delete@);
                &&& r is Ok
                &&& r->Ok_0@ == rs
                &&& final(self)@ == old(self)@.insert(subscription_id, SubscriptionView { items, ..s })
            },
    {
        match self.subscriptions.remove(&subscription_id) {
            None => {
                assert(self@ =~= old(self)@);
                Err(EngineError::IdentifierNotFound)
            },
            Some(mut s) => {
                let r = s.delete_monitored_items(items_to_delete);
                let ghost v = s@;
                self.subscriptions.insert(subscription_id, s);
                assert(self@ =~= old(self)@.insert(subscription_id, v));
                Ok(r)
            },
        }
    }

    /// Hands a sampled value to one monitored item of one subscription.
    pub fn sample_item(&mut self, subscription_id: u32, item_id: u32, value: i64) -> (r: Result<
        (),
        EngineError,
    >)
        requires
            old(self).wf(),
        ensures
            final(self).wf(),
            final(self).next_subscription_id == old(self).next_subscription_id,
            r is Err ==> r == Err::<(), EngineError>(EngineError::IdentifierNotFound) && final(self)@ == old(self)@,
            !old(self)@.contains_key(subscription_id) ==> r is Err,
            old(self)@.contains_key(subscription_id) ==> {
                let s = old(self)@[subscription_id];
                match find_item(s.items, item_id) {
                    None => r is Err,
                    Some(j) => r is Ok && final(self)@ == old(self)@.insert(
                        subscription_id,
                        SubscriptionView { items: s.items.update(j, sampled(s.items[j], value)), ..s },
                    ),
                }
            },
    {
        match self.subscriptions.remove(&subscription_id) {
            None => {
                assert(self@ =~= old(self)@);
                Err(EngineError::IdentifierNotFound)
            },
            Some(mut s) => {
                let r = s.sample_item(item_id, value);
                let ghost v = s@;
                self.subscriptions.insert(subscription_id, s);
                assert(self@ =~= old(self)@.insert(subscription_id, v));
                if r.is_err() {
                    assert(self@ =~= old(self)@);
                }
                r
            },
        }
    }

    /// Runs one evaluation cycle of the subscription with id
    /// `subscription_id`. When its lifetime runs out it is removed with all
    /// its items, and anything it had queued is dropped.
    pub fn tick_subscription(
        &mut self,
        subscription_id: u32,
        publish_serviced: bool,
        publish_time: u64,
    ) -> (r: Result<CycleOutcome, EngineError>)
        requires
            old(self).wf(),
        ensures
            final(self).wf(),
            final(self).next_subscription_id == old(self).next_subscription_id,
            !old(self)@.contains_key(subscription_id) <==> r is Err,
            r is Err ==> final(self)@ == old(self)@,
            r matches Ok(out) ==> {
                let s = old(self)@[subscription_id];
                &&& (out is Expired <==> !publish_serviced && s.lifetime_counter + 1
                    >= s.lifetime_count)
                &&& out is Expired ==> final(self)@ == old(self)@.remove(subscription_id)
                &&& !(out is Expired) ==> final(self)@.contains_key(subscription_id) && cycle_step(
                    s,
                    final(self)@[subscription_id],
                    publish_serviced,
                    publish_time,
                    out,
                ) && final(self)@ == old(self)@.insert(subscription_id, final(self)@[subscription_id])
            },
    {
        match self.subscriptions.remove(&subscription_id) {
            None => {
                assert(self@ =~= old(self)@);
                Err(EngineError::IdentifierNotFound)
            },
            Some(mut s) => {
                let out = s.tick(publish_serviced, publish_time);
                match out {
                    CycleOutcome::Expired(_) => {
                        assert(self@ =~= old(self)@.remove(subscription_id));
                    },
                    _ => {
                        let ghost v = s@;
                        self.subscriptions.insert(subscription_id, s);
                        assert(self@ =~= old(self)@.insert(subscription_id, v));
                    },
                }
                Ok(out)
            },
        }
    }
    /// A copy of a sent message of one subscription, if it is still kept.
    pub fn republish(&self, subscription_id: u32, seq: u32) -> (r: Result<
        NotificationMessage,
        EngineError,
    >)
        requires
            self.wf(),
        ensures
            !self@.contains_key(subscription_id) ==> (r matches Err(e) && e
                == EngineError::IdentifierNotFound),
            self@.contains_key(subscription_id) ==> match find_message(
                self@[subscription_id].sent.messages,
                seq,
            ) {
                None => r matches Err(e) && e == EngineError::SequenceUnavailable,
                Some(j) => r matches Ok(m) && m@ == self@[subscription_id].sent.messages[j],
            },
    {
        match self.subscriptions.get(&subscription_id) {
            None => Err(EngineError::IdentifierNotFound),
            Some(s) => s.republish(seq),
        }
    }

    /// Drops a kept message of one subscription, which the consumer has received.
    pub fn acknowledge(&mut self, subscription_id: u32, seq: u32) -> (r: Result<(), EngineError>)
        requires
            old(self).wf(),
        ensures
            final(self).wf(),
            final(self).next_subscription_id == old(self).next_subscription_id,
            r is Err ==> final(self)@ == old(self)@,
            !old(self)@.contains_key(subscription_id) ==> r == Err::<(), EngineError>(
                EngineError::IdentifierNotFound,
            ),
            old(self)@.contains_key(subscription_id) ==> {
                let s = old(self)@[subscription_id];
                match find_message(s.sent.messages, seq) {
                    None => r == Err::<(), EngineError>(EngineError::SequenceUnavailable),
                    Some(j) => r is Ok && final(self)@ == old(self)@.insert(
                        subscription_id,
                        SubscriptionView {
                            sent: BufferView { messages: s.sent.messages.remove(j), ..s.sent },
                            ..s
                        },
                    ),
                }
            },
    {
        match self.subscriptions.remove(&subscription_id) {
            None => {
                assert(self@ =~= old(self)@);
                Err(EngineError::IdentifierNotFound)
            },
            Some(mut s) => {
                let r = s.acknowledge(seq);
                let ghost v = s@;
                self.subscriptions.insert(subscription_id, s);
                assert(self@ =~= old(self)@.insert(subscription_id, v));
                if r.is_err() {
                    assert(self@ =~= old(self)@);
                }
                r
            },
        }
    }
}

} // verus!

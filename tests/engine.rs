use subscription_engine::error::EngineError;
use subscription_engine::monitored_item::{MonitoredItem, MonitoringMode};
use subscription_engine::retransmission::{RetransmissionBuffer, DEFAULT_RETRANSMISSION_CAPACITY};
use subscription_engine::notification::{
    next_sequence, CycleOutcome, ItemChange, NotificationMessage, StatusChangeNotification,
};
use subscription_engine::subscription::{
    CreateMonitoredItem, LifecycleState, ModifyMonitoredItem, Subscription,
};
use subscription_engine::subscription_state::SubscriptionState;

fn item_request(node_id: u32, queue_size: usize, discard_oldest: bool) -> CreateMonitoredItem {
    CreateMonitoredItem {
        node_id,
        attribute_id: 13,
        monitoring_mode: MonitoringMode::Reporting,
        sampling_interval: 0,
        queue_size,
        discard_oldest,
        client_handle: node_id * 10,
        deadband: None,
        initial_value: None,
    }
}

fn notification(out: CycleOutcome) -> NotificationMessage {
    match out {
        CycleOutcome::Notification(m) => m,
        _ => panic!("expected a notification"),
    }
}

fn values(m: &NotificationMessage) -> Vec<i64> {
    m.changes.iter().map(|c| c.value).collect()
}

#[test]
fn single_slot_queue_reports_only_latest_value() {
    let mut state = SubscriptionState::new();
    assert_eq!(state.create_subscription(100, 30, 10, 0, 0, true), Ok(1));
    let created = state.insert_monitored_items(1, vec![item_request(7, 1, true)]).unwrap();
    assert_eq!(created, vec![Ok(1)]);
    for v in [1, 2, 3] {
        assert_eq!(state.sample_item(1, 1, v), Ok(()));
    }
    let m = notification(state.tick_subscription(1, true, 500).unwrap());
    assert_eq!(m.subscription_id, 1);
    assert_eq!(m.sequence_number, 1);
    assert_eq!(m.publish_time, 500);
    assert_eq!(m.changes, vec![ItemChange { item_id: 1, client_handle: 70, value: 3 }]);
}

#[test]
fn modify_unknown_subscription_changes_nothing() {
    let mut state = SubscriptionState::new();
    assert_eq!(state.create_subscription(100, 30, 10, 0, 0, true), Ok(1));
    assert_eq!(state.modify_subscription(99, 200, 40, 5, 0, 1), Err(EngineError::IdentifierNotFound));
    assert!(!state.subscription_exists(99));
    assert!(state.subscription_exists(1));
    let s = state.subscription(1).unwrap();
    assert_eq!(s.publishing_interval, 100);
    assert_eq!(s.lifetime_count, 30);
    assert_eq!(s.max_keep_alive_count, 10);
    assert_eq!(state.next_subscription_id, 2);
}

#[test]
fn exists_tracks_add_modify_delete() {
    let mut state = SubscriptionState::new();
    assert!(state.is_empty());
    assert_eq!(state.create_subscription(100, 30, 10, 0, 0, true), Ok(1));
    assert_eq!(state.create_subscription(50, 30, 10, 0, 0, true), Ok(2));
    state.add_subscription(Subscription::new(40, 10, 3, 1, 0, 0, true).unwrap());
    assert!(state.subscription_exists(1) && state.subscription_exists(2) && state.subscription_exists(40));
    assert!(!state.subscription_exists(3));
    assert_eq!(state.subscription(40).unwrap().state, LifecycleState::Normal);
    assert_eq!(state.modify_subscription(2, 75, 30, 10, 0, 3), Ok(()));
    assert_eq!(state.subscription(2).unwrap().publishing_interval, 75);
    assert_eq!(state.subscription(2).unwrap().priority, 3);
    assert_eq!(state.delete_subscription(1), Ok(()));
    assert!(!state.subscription_exists(1));
    assert_eq!(state.delete_subscription(1), Err(EngineError::IdentifierNotFound));
    assert_eq!(state.create_subscription(10, 30, 10, 0, 0, true), Ok(41));
    assert_eq!(state.delete_subscription(2), Ok(()));
    assert_eq!(state.delete_subscription(40), Ok(()));
    assert_eq!(state.delete_subscription(41), Ok(()));
    assert!(state.is_empty());
}

#[test]
fn deleted_subscription_items_are_gone() {
    let mut state = SubscriptionState::new();
    assert_eq!(state.create_subscription(100, 30, 10, 0, 0, true), Ok(1));
    let created = state
        .insert_monitored_items(1, vec![item_request(1, 2, true), item_request(2, 2, true)])
        .unwrap();
    assert_eq!(created, vec![Ok(1), Ok(2)]);
    assert_eq!(state.sample_item(1, 2, 9), Ok(()));
    assert_eq!(state.delete_subscription(1), Ok(()));
    assert_eq!(state.sample_item(1, 2, 10), Err(EngineError::IdentifierNotFound));
    assert!(matches!(state.delete_monitored_items(1, vec![1, 2]), Err(EngineError::IdentifierNotFound)));
    let modify = ModifyMonitoredItem {
        item_id: 1,
        monitoring_mode: MonitoringMode::Reporting,
        sampling_interval: 0,
        queue_size: 1,
        deadband: None,
    };
    assert!(matches!(state.modify_monitored_items(1, vec![modify]), Err(EngineError::IdentifierNotFound)));
    assert!(matches!(state.tick_subscription(1, true, 0), Err(EngineError::IdentifierNotFound)));
    assert!(matches!(
        state.insert_monitored_items(1, vec![item_request(3, 1, true)]),
        Err(EngineError::IdentifierNotFound)
    ));
}

#[test]
fn queue_discarding_oldest_keeps_newest() {
    let mut it = MonitoredItem::new(1, 5, 13, MonitoringMode::Reporting, 0, 3, true, 0, None);
    for v in 1..=5 {
        it.sample(v);
        assert!(it.pending.len() <= 3);
    }
    assert_eq!(it.pending, vec![3, 4, 5]);
}

#[test]
fn queue_keeping_oldest_rejects_new_values() {
    let mut it = MonitoredItem::new(1, 5, 13, MonitoringMode::Reporting, 0, 3, false, 0, None);
    for v in 1..=5 {
        it.sample(v);
        assert!(it.pending.len() <= 3);
    }
    assert_eq!(it.pending, vec![1, 2, 3]);
}

#[test]
fn disabled_item_ignores_samples() {
    let mut it = MonitoredItem::new(1, 5, 13, MonitoringMode::Disabled, 0, 3, true, 0, None);
    it.sample(4);
    assert!(it.pending.is_empty());
}

#[test]
fn shrinking_queue_keeps_the_right_end() {
    let mut newest = MonitoredItem::new(1, 5, 13, MonitoringMode::Reporting, 0, 4, true, 0, None);
    let mut oldest = MonitoredItem::new(2, 5, 13, MonitoringMode::Reporting, 0, 4, false, 0, None);
    for v in 1..=4 {
        newest.sample(v);
        oldest.sample(v);
    }
    newest.resize(2);
    oldest.resize(2);
    assert_eq!(newest.pending, vec![3, 4]);
    assert_eq!(oldest.pending, vec![1, 2]);
    assert_eq!(newest.queue_size, 2);
}

#[test]
fn modify_item_resizes_and_reports_errors() {
    let mut state = SubscriptionState::new();
    assert_eq!(state.create_subscription(100, 30, 10, 0, 0, true), Ok(1));
    state.insert_monitored_items(1, vec![item_request(1, 4, true)]).unwrap();
    for v in 1..=4 {
        state.sample_item(1, 1, v).unwrap();
    }
    let shrink = ModifyMonitoredItem {
        item_id: 1,
        monitoring_mode: MonitoringMode::Reporting,
        sampling_interval: 250,
        queue_size: 2,
        deadband: None,
    };
    let missing = ModifyMonitoredItem { item_id: 8, ..shrink };
    let zero = ModifyMonitoredItem { queue_size: 0, ..shrink };
    let results = state.modify_monitored_items(1, vec![shrink, missing, zero]).unwrap();
    assert_eq!(
        results,
        vec![Ok(()), Err(EngineError::IdentifierNotFound), Err(EngineError::InvalidParameter)]
    );
    let m = notification(state.tick_subscription(1, true, 0).unwrap());
    assert_eq!(values(&m), vec![3, 4]);
    assert_eq!(m.changes[0].client_handle, 10);
}

#[test]
fn zero_queue_size_is_rejected_and_ids_continue() {
    let mut state = SubscriptionState::new();
    assert_eq!(state.create_subscription(100, 30, 10, 0, 0, true), Ok(1));
    let created = state
        .insert_monitored_items(1, vec![item_request(1, 0, true), item_request(2, 1, true), item_request(3, 2, true)])
        .unwrap();
    assert_eq!(created, vec![Err(EngineError::InvalidParameter), Ok(1), Ok(2)]);
}

#[test]
fn invalid_subscription_parameters_are_rejected() {
    let mut state = SubscriptionState::new();
    assert_eq!(state.create_subscription(0, 30, 10, 0, 0, true), Err(EngineError::InvalidParameter));
    assert_eq!(state.create_subscription(100, 0, 10, 0, 0, true), Err(EngineError::InvalidParameter));
    assert_eq!(state.create_subscription(100, 30, 0, 0, 0, true), Err(EngineError::InvalidParameter));
    assert!(state.is_empty());
    assert_eq!(state.create_subscription(100, 30, 10, 0, 0, true), Ok(1));
    assert_eq!(state.modify_subscription(1, 0, 30, 10, 0, 0), Err(EngineError::InvalidParameter));
    assert_eq!(state.subscription(1).unwrap().publishing_interval, 100);
}

#[test]
fn delete_items_removes_known_ids_only() {
    let mut state = SubscriptionState::new();
    assert_eq!(state.create_subscription(100, 30, 10, 0, 0, true), Ok(1));
    state
        .insert_monitored_items(1, vec![item_request(1, 1, true), item_request(2, 1, true)])
        .unwrap();
    let results = state.delete_monitored_items(1, vec![1, 5, 1]).unwrap();
    assert_eq!(
        results,
        vec![Ok(()), Err(EngineError::IdentifierNotFound), Err(EngineError::IdentifierNotFound)]
    );
    assert_eq!(state.sample_item(1, 1, 3), Err(EngineError::IdentifierNotFound));
    assert_eq!(state.sample_item(1, 2, 3), Ok(()));
}

#[test]
fn sequence_numbers_have_no_gaps() {
    let mut state = SubscriptionState::new();
    assert_eq!(state.create_subscription(100, 30, 2, 0, 0, true), Ok(1));
    state.insert_monitored_items(1, vec![item_request(1, 5, true)]).unwrap();
    let mut seen = Vec::new();
    for round in 0..6 {
        if round % 2 == 0 {
            state.sample_item(1, 1, round).unwrap();
        }
        match state.tick_subscription(1, true, round as u64).unwrap() {
            CycleOutcome::Notification(m) => seen.push(m.sequence_number),
            CycleOutcome::KeepAlive(m) => assert_eq!(m.sequence_number, seen.last().unwrap() + 1),
            _ => {}
        }
    }
    assert_eq!(seen, vec![1, 2, 3]);
    assert_eq!(next_sequence(u32::MAX), 1);
    assert_eq!(next_sequence(41), 42);
}

#[test]
fn keep_alive_after_max_empty_cycles() {
    let mut state = SubscriptionState::new();
    assert_eq!(state.create_subscription(100, 30, 3, 0, 0, true), Ok(1));
    let mut kinds = Vec::new();
    for _ in 0..6 {
        let kind = match state.tick_subscription(1, true, 0).unwrap() {
            CycleOutcome::Idle => 'i',
            CycleOutcome::KeepAlive(m) => {
                assert!(m.is_keep_alive());
                'k'
            }
            CycleOutcome::Notification(_) => 'n',
            CycleOutcome::Expired(_) => 'e',
        };
        kinds.push(kind);
    }
    assert_eq!(kinds, vec!['i', 'i', 'k', 'i', 'i', 'k']);
    assert_eq!(state.subscription(1).unwrap().keep_alive_counter, 0);
}

#[test]
fn notification_resets_keep_alive_counter() {
    let mut state = SubscriptionState::new();
    assert_eq!(state.create_subscription(100, 30, 3, 0, 0, true), Ok(1));
    state.insert_monitored_items(1, vec![item_request(1, 1, true)]).unwrap();
    assert!(matches!(state.tick_subscription(1, true, 0).unwrap(), CycleOutcome::Idle));
    assert!(matches!(state.tick_subscription(1, true, 0).unwrap(), CycleOutcome::Idle));
    state.sample_item(1, 1, 5).unwrap();
    assert!(matches!(state.tick_subscription(1, true, 0).unwrap(), CycleOutcome::Notification(_)));
    assert_eq!(state.subscription(1).unwrap().keep_alive_counter, 0);
    assert_eq!(state.subscription(1).unwrap().state, LifecycleState::Reporting);
    assert!(matches!(state.tick_subscription(1, true, 0).unwrap(), CycleOutcome::Idle));
}

#[test]
fn lifetime_expiry_removes_subscription() {
    let mut state = SubscriptionState::new();
    assert_eq!(state.create_subscription(100, 3, 10, 0, 0, true), Ok(1));
    state.insert_monitored_items(1, vec![item_request(1, 1, true)]).unwrap();
    state.sample_item(1, 1, 5).unwrap();
    assert!(matches!(state.tick_subscription(1, false, 0).unwrap(), CycleOutcome::Notification(_)));
    assert!(matches!(state.tick_subscription(1, false, 0).unwrap(), CycleOutcome::Idle));
    state.sample_item(1, 1, 6).unwrap();
    match state.tick_subscription(1, false, 0).unwrap() {
        CycleOutcome::Expired(n) => assert_eq!(n, StatusChangeNotification { status: 0x800A_0000 }),
        _ => panic!("expected expiry"),
    }
    assert!(!state.subscription_exists(1));
    assert_eq!(state.sample_item(1, 1, 7), Err(EngineError::IdentifierNotFound));
}

#[test]
fn serviced_publish_keeps_subscription_alive() {
    let mut state = SubscriptionState::new();
    assert_eq!(state.create_subscription(100, 2, 20, 0, 0, true), Ok(1));
    for _ in 0..10 {
        assert!(matches!(state.tick_subscription(1, true, 0).unwrap(), CycleOutcome::Idle));
    }
    assert!(matches!(state.tick_subscription(1, false, 0).unwrap(), CycleOutcome::Idle));
    assert!(matches!(state.tick_subscription(1, false, 0).unwrap(), CycleOutcome::Expired(_)));
}

#[test]
fn per_message_limit_splits_changes_in_order() {
    let mut state = SubscriptionState::new();
    assert_eq!(state.create_subscription(100, 30, 10, 2, 0, true), Ok(1));
    state
        .insert_monitored_items(1, vec![item_request(1, 5, true), item_request(2, 5, true)])
        .unwrap();
    state.sample_item(1, 2, 20).unwrap();
    state.sample_item(1, 1, 10).unwrap();
    state.sample_item(1, 1, 11).unwrap();
    let first = notification(state.tick_subscription(1, true, 0).unwrap());
    assert_eq!(
        first.changes,
        vec![
            ItemChange { item_id: 1, client_handle: 10, value: 10 },
            ItemChange { item_id: 1, client_handle: 10, value: 11 },
        ]
    );
    let second = notification(state.tick_subscription(1, true, 0).unwrap());
    assert_eq!(second.changes, vec![ItemChange { item_id: 2, client_handle: 20, value: 20 }]);
    assert_eq!(second.sequence_number, first.sequence_number + 1);
}

#[test]
fn sampling_mode_and_disabled_publishing_send_nothing() {
    let mut state = SubscriptionState::new();
    assert_eq!(state.create_subscription(100, 30, 2, 0, 0, false), Ok(1));
    let mut req = item_request(1, 2, true);
    req.monitoring_mode = MonitoringMode::Sampling;
    state.insert_monitored_items(1, vec![req, item_request(2, 2, true)]).unwrap();
    state.sample_item(1, 1, 1).unwrap();
    state.sample_item(1, 2, 2).unwrap();
    assert!(matches!(state.tick_subscription(1, true, 0).unwrap(), CycleOutcome::Idle));
    assert!(matches!(state.tick_subscription(1, true, 0).unwrap(), CycleOutcome::KeepAlive(_)));
    let s = state.subscription(1).unwrap();
    assert_eq!(s.items[0].pending, vec![1]);
    assert_eq!(s.items[1].pending, vec![2]);
}

#[test]
fn initial_value_is_queued_unless_disabled() {
    let mut state = SubscriptionState::new();
    assert_eq!(state.create_subscription(100, 30, 10, 0, 0, true), Ok(1));
    let mut a = item_request(1, 2, true);
    a.initial_value = Some(42);
    let mut b = item_request(2, 2, true);
    b.initial_value = Some(43);
    b.monitoring_mode = MonitoringMode::Disabled;
    state.insert_monitored_items(1, vec![a, b]).unwrap();
    let m = notification(state.tick_subscription(1, true, 0).unwrap());
    assert_eq!(values(&m), vec![42]);
}

#[test]
fn duplicate_copies_message() {
    let m = NotificationMessage {
        subscription_id: 3,
        sequence_number: 9,
        publish_time: 12,
        changes: vec![ItemChange { item_id: 1, client_handle: 2, value: -5 }],
    };
    let d = m.duplicate();
    assert_eq!(d.subscription_id, 3);
    assert_eq!(d.sequence_number, 9);
    assert_eq!(d.publish_time, 12);
    assert_eq!(d.changes, m.changes);
    assert!(!d.is_keep_alive());
}

fn message(seq: u32) -> NotificationMessage {
    NotificationMessage {
        subscription_id: 1,
        sequence_number: seq,
        publish_time: seq as u64,
        changes: vec![ItemChange { item_id: 1, client_handle: 0, value: seq as i64 }],
    }
}

#[test]
fn evicted_sequence_number_is_unavailable() {
    let mut buffer = RetransmissionBuffer::new(2);
    for seq in 1..=3 {
        buffer.keep(&message(seq));
        assert!(buffer.messages.len() <= 2);
    }
    assert!(matches!(buffer.republish(1), Err(EngineError::SequenceUnavailable)));
    let again = buffer.republish(3).unwrap();
    assert_eq!(again.sequence_number, 3);
    assert_eq!(again.changes, message(3).changes);
    assert_eq!(buffer.acknowledge(2), Ok(()));
    assert!(matches!(buffer.republish(2), Err(EngineError::SequenceUnavailable)));
    assert_eq!(buffer.acknowledge(2), Err(EngineError::SequenceUnavailable));
    assert_eq!(buffer.messages.len(), 1);
}

#[test]
fn sent_notifications_can_be_republished_until_acknowledged() {
    let mut state = SubscriptionState::new();
    assert_eq!(state.create_subscription(100, 30, 10, 0, 0, true), Ok(1));
    state.insert_monitored_items(1, vec![item_request(1, 1, true)]).unwrap();
    state.sample_item(1, 1, 8).unwrap();
    let sent = notification(state.tick_subscription(1, true, 3).unwrap());
    let again = state.republish(1, sent.sequence_number).unwrap();
    assert_eq!(again.changes, sent.changes);
    assert_eq!(again.publish_time, 3);
    assert!(matches!(state.republish(1, 2), Err(EngineError::SequenceUnavailable)));
    assert!(matches!(state.republish(5, 1), Err(EngineError::IdentifierNotFound)));
    assert_eq!(state.acknowledge(1, sent.sequence_number), Ok(()));
    assert!(matches!(state.republish(1, sent.sequence_number), Err(EngineError::SequenceUnavailable)));
    assert_eq!(state.acknowledge(5, 1), Err(EngineError::IdentifierNotFound));
    assert_eq!(state.delete_subscription(1), Ok(()));
    assert!(matches!(state.republish(1, sent.sequence_number), Err(EngineError::IdentifierNotFound)));
}

#[test]
fn keep_alive_is_not_kept_for_retransmission() {
    let mut state = SubscriptionState::new();
    assert_eq!(state.create_subscription(100, 30, 1, 0, 0, true), Ok(1));
    let m = match state.tick_subscription(1, true, 0).unwrap() {
        CycleOutcome::KeepAlive(m) => m,
        _ => panic!("expected a keep-alive"),
    };
    assert_eq!(m.sequence_number, 1);
    assert!(matches!(state.republish(1, 1), Err(EngineError::SequenceUnavailable)));
}

#[test]
fn deadband_drops_small_changes() {
    let mut it = MonitoredItem::new(1, 5, 13, MonitoringMode::Reporting, 0, 10, true, 0, Some(2));
    it.last_value = Some(10);
    for v in [11, 12, 13, 9, 8, 7, i64::MIN, i64::MAX] {
        it.sample(v);
    }
    assert_eq!(it.pending, vec![13, 7, i64::MIN, i64::MAX]);
    assert_eq!(it.last_value, Some(10));
}

#[test]
fn deadband_can_be_set_by_modify() {
    let mut state = SubscriptionState::new();
    assert_eq!(state.create_subscription(100, 30, 10, 0, 0, true), Ok(1));
    let mut req = item_request(1, 5, true);
    req.initial_value = Some(100);
    state.insert_monitored_items(1, vec![req]).unwrap();
    let modify = ModifyMonitoredItem {
        item_id: 1,
        monitoring_mode: MonitoringMode::Reporting,
        sampling_interval: 0,
        queue_size: 5,
        deadband: Some(5),
    };
    assert_eq!(state.modify_monitored_items(1, vec![modify]).unwrap(), vec![Ok(())]);
    let m = notification(state.tick_subscription(1, true, 0).unwrap());
    assert_eq!(values(&m), vec![100]);
    assert_eq!(state.subscription(1).unwrap().items[0].last_value, Some(100));
    for v in [103, 106, 96, 110] {
        state.sample_item(1, 1, v).unwrap();
    }
    let m = notification(state.tick_subscription(1, true, 0).unwrap());
    assert_eq!(values(&m), vec![106, 110]);
    assert_eq!(state.subscription(1).unwrap().items[0].last_value, Some(110));
}

fn shrink_request(item_id: u32) -> ModifyMonitoredItem {
    ModifyMonitoredItem {
        item_id,
        monitoring_mode: MonitoringMode::Reporting,
        sampling_interval: 0,
        queue_size: 2,
        deadband: None,
    }
}

#[test]
fn shrinking_by_modify_follows_each_item_policy() {
    let mut state = SubscriptionState::new();
    assert_eq!(state.create_subscription(100, 30, 10, 0, 0, true), Ok(1));
    state
        .insert_monitored_items(1, vec![item_request(1, 4, true), item_request(2, 4, false)])
        .unwrap();
    for v in 1..=4 {
        state.sample_item(1, 1, v).unwrap();
        state.sample_item(1, 2, v).unwrap();
    }
    let results = state.modify_monitored_items(1, vec![shrink_request(1), shrink_request(2)]).unwrap();
    assert_eq!(results, vec![Ok(()), Ok(())]);
    let s = state.subscription(1).unwrap();
    assert_eq!(s.items[0].pending, vec![3, 4]);
    assert_eq!(s.items[1].pending, vec![1, 2]);
    assert!(s.items[0].discard_oldest);
    assert!(!s.items[1].discard_oldest);
}

#[test]
fn modify_subscription_keeps_counters() {
    let mut state = SubscriptionState::new();
    assert_eq!(state.create_subscription(100, 30, 10, 0, 0, true), Ok(1));
    for _ in 0..4 {
        assert!(matches!(state.tick_subscription(1, false, 0).unwrap(), CycleOutcome::Idle));
    }
    assert_eq!(state.subscription(1).unwrap().state, LifecycleState::Late);
    assert_eq!(state.modify_subscription(1, 100, 5, 3, 0, 0), Ok(()));
    let s = state.subscription(1).unwrap();
    assert_eq!(s.keep_alive_counter, 4);
    assert_eq!(s.lifetime_counter, 4);
    assert!(matches!(state.tick_subscription(1, true, 0).unwrap(), CycleOutcome::KeepAlive(_)));
    assert_eq!(state.subscription(1).unwrap().keep_alive_counter, 0);
    assert_eq!(state.subscription(1).unwrap().lifetime_counter, 0);
    assert_eq!(state.modify_subscription(1, 100, 1, 3, 0, 0), Ok(()));
    assert!(matches!(state.tick_subscription(1, false, 0).unwrap(), CycleOutcome::Expired(_)));
}

#[test]
fn retransmission_capacity_is_configurable() {
    assert!(matches!(
        Subscription::with_retransmission_capacity(7, 100, 30, 10, 0, 0, true, 0),
        Err(EngineError::InvalidParameter)
    ));
    let s = Subscription::with_retransmission_capacity(7, 100, 30, 10, 0, 0, true, 1).unwrap();
    let mut state = SubscriptionState::new();
    state.add_subscription(s);
    state.insert_monitored_items(7, vec![item_request(1, 1, true)]).unwrap();
    state.sample_item(7, 1, 1).unwrap();
    let first = notification(state.tick_subscription(7, true, 0).unwrap());
    state.sample_item(7, 1, 2).unwrap();
    let second = notification(state.tick_subscription(7, true, 0).unwrap());
    assert!(matches!(state.republish(7, first.sequence_number), Err(EngineError::SequenceUnavailable)));
    assert_eq!(state.republish(7, second.sequence_number).unwrap().changes, second.changes);
    assert_eq!(Subscription::new(8, 100, 30, 10, 0, 0, true).unwrap().sent.capacity, DEFAULT_RETRANSMISSION_CAPACITY);
}

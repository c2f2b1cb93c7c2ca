use vstd::prelude::*;

verus! {

/// One reported value of one monitored item.
#[derive(Clone, Copy, Debug, PartialEq, Eq, Structural)]
pub struct ItemChange {
    pub item_id: u32,
    pub client_handle: u32,
    pub value: i64,
}

/// A numbered message from a subscription; no changes means a keep-alive.
pub struct NotificationMessage {
    pub subscription_id: u32,
    pub sequence_number: u32,
    pub publish_time: u64,
    pub changes: Vec<ItemChange>,
}

pub ghost struct MessageView {
    pub subscription_id: u32,
    pub sequence_number: u32,
    pub publish_time: u64,
    pub changes: Seq<ItemChange>,
}

impl View for NotificationMessage {
    type V = MessageView;

    open spec fn view(&self) -> MessageView {
        MessageView {
            subscription_id: self.subscription_id,
            sequence_number: self.sequence_number,
            publish_time: self.publish_time,
            changes: self.changes@,
        }
    }
}

impl NotificationMessage {
    /// Whether the message carries no data, only liveness.
    pub fn is_keep_alive(&self) -> (r: bool)
        ensures
            r == (self.changes@.len() == 0),
    {
        self.changes.len() == 0
    }

    /// A copy of the message.
    pub fn duplicate(&self) -> (r: NotificationMessage)
        ensures
            r@ == self@,
    {
        let mut changes: Vec<ItemChange> = Vec::new();
        let mut i: usize = 0;
        while i < self.changes.len()
            invariant
                i <= self.changes@.len(),
                changes@ == self.changes@.take(i as int),
            decreases self.changes@.len() - i,
        {
            changes.push(self.changes[i]);
            assert(changes@ =~= self.changes@.take(i + 1));
            i += 1;
        }
        assert(changes@ =~= self.changes@);
        NotificationMessage {
            subscription_id: self.subscription_id,
            sequence_number: self.sequence_number,
            publish_time: self.publish_time,
            changes,
        }
    }
}

/// The sequence number after `s`: numbers run from 1 to the largest `u32`
/// and then start again at 1, so 0 is never used.
pub open spec fn next_sequence_number(s: u32) -> u32 {
    if s == u32::MAX {
        1
    } else {
        (s + 1) as u32
    }
}

/// The sequence number `n` steps after `s`.
pub open spec fn advance(s: u32, n: nat) -> u32
    decreases n,
{
    if n == 0 {
        s
    } else {
        next_sequence_number(advance(s, (n - 1) as nat))
    }
}

pub fn next_sequence(s: u32) -> (r: u32)
    ensures
        r == next_sequence_number(s),
{
    if s == u32::MAX {
        1
    } else {
        s + 1
    }
}

/// Until the numbers wrap, advancing by `n` adds `n`.
pub proof fn lemma_advance_adds(s: u32, n: nat)
    requires
        s + n <= u32::MAX,
    ensures
        advance(s, n) == s + n,
    decreases n,
{
    if n > 0 {
        lemma_advance_adds(s, (n - 1) as nat);
    }
}

/// Status code telling that a subscription's lifetime ran out.
pub const BAD_TIMEOUT: u32 = 0x800A_0000;

/// A change in the status of a subscription, reported apart from data.
#[derive(Clone, Copy, Debug, PartialEq, Eq, Structural)]
pub struct StatusChangeNotification {
    pub status: u32,
}

/// What one evaluation cycle of a subscription produced.
pub enum CycleOutcome {
    /// Nothing to send and no keep-alive due.
    Idle,
    /// A message with the queued changes.
    Notification(NotificationMessage),
    /// A message with no changes, proving the subscription alive.
    KeepAlive(NotificationMessage),
    /// The lifetime ran out: the subscription is closed.
    Expired(StatusChangeNotification),
}

} // verus!

use vstd::prelude::*;

use crate::error::EngineError;
use crate::notification::{MessageView, NotificationMessage};

verus! {

/// How many sent notifications a subscription keeps unless told otherwise.
pub const DEFAULT_RETRANSMISSION_CAPACITY: usize = 16;

/// The buffer after `m` is sent: the message is added at the back, and the
/// oldest goes when there are more than `cap`.
pub open spec fn buffered(sent: Seq<MessageView>, m: MessageView, cap: nat) -> Seq<MessageView> {
    let s = sent.push(m);
    if s.len() > cap {
        s.skip(s.len() - cap)
    } else {
        s
    }
}

/// The last position of the message numbered `seq`, if there is one.
pub open spec fn find_message(sent: Seq<MessageView>, seq: u32) -> Option<int>
    decreases sent.len(),
{
    if sent.len() == 0 {
        None
    } else if sent.last().sequence_number == seq {
        Some(sent.len() - 1)
    } else {
        find_message(sent.drop_last(), seq)
    }
}

/// Sent notifications not yet acknowledged, oldest first, at most `capacity`.
pub struct RetransmissionBuffer {
    pub messages: Vec<NotificationMessage>,
    pub capacity: usize,
}

pub ghost struct BufferView {
    pub messages: Seq<MessageView>,
    pub capacity: nat,
}

impl View for RetransmissionBuffer {
    type V = BufferView;

    open spec fn view(&self) -> BufferView {
        BufferView {
            messages: self.messages@.map_values(|m: NotificationMessage| m@),
            capacity: self.capacity as nat,
        }
    }
}

impl BufferView {
    pub open spec fn wf(self) -> bool {
        &&& self.capacity >= 1
        &&& self.messages.len() <= self.capacity
    }
}

impl RetransmissionBuffer {
    pub open spec fn wf(&self) -> bool {
        self@.wf()
    }

    pub fn new(capacity: usize) -> (r: RetransmissionBuffer)
        requires
            capacity >= 1,
        ensures
            r.wf(),
            r@ == (BufferView { messages: Seq::empty(), capacity: capacity as nat }),
    {
        let r = RetransmissionBuffer { messages: Vec::new(), capacity };
        assert(r@.messages =~= Seq::<MessageView>::empty());
        r
    }

    /// Keeps a copy of a sent message, evicting the oldest when full.
    pub fn keep(&mut self, m: &NotificationMessage)
        requires
            old(self).wf(),
        ensures
            final(self).wf(),
            final(self)@ == (BufferView {
                messages: buffered(old(self)@.messages, m@, old(self)@.capacity),
                ..old(self)@
            }),
    {
        let ghost before = self@.messages;
        let d = m.duplicate();
        self.messages.push(d);
        assert(self@.messages =~= before.push(m@));
        if self.messages.len() > self.capacity {
            self.messages.remove(0);
            assert(self@.messages =~= before.push(m@).skip(1));
        }
    }

    /// The position of the message numbered `seq`.
    fn find_index(&self, seq: u32) -> (r: Option<usize>)
        ensures
            r matches Some(j) ==> find_message(self@.messages, seq) == Some(j as int),
            r is None ==> find_message(self@.messages, seq) is None,
    {
        let ghost ms = self@.messages;
        let mut i: usize = self.messages.len();
        assert(ms.take(i as int) =~= ms);
        while i > 0
            invariant
                i <= ms.len(),
                ms == self@.messages,
                find_message(ms, seq) == find_message(ms.take(i as int), seq),
            decreases i,
        {
            assert(ms.take(i as int).drop_last() =~= ms.take(i - 1));
            if self.messages[i - 1].sequence_number == seq {
                return Some(i - 1);
            }
            i -= 1;
        }
        None
    }

    /// A copy of the kept message numbered `seq`; a number that was never
    /// kept, or has been evicted or acknowledged, is unavailable.
    pub fn republish(&self, seq: u32) -> (r: Result<NotificationMessage, EngineError>)
        ensures
            match find_message(self@.messages, seq) {
                None => r matches Err(e) && e == EngineError::SequenceUnavailable,
                Some(j) => r matches Ok(m) && m@ == self@.messages[j],
            },
    {
        match self.find_index(seq) {
            None => Err(EngineError::SequenceUnavailable),
            Some(j) => {
                proof {
                    lemma_find_message(self@.messages, seq);
                }
                Ok(self.messages[j].duplicate())
            },
        }
    }

    /// Drops the kept message numbered `seq`, which the consumer has received.
    pub fn acknowledge(&mut self, seq: u32) -> (r: Result<(), EngineError>)
        requires
            old(self).wf(),
        ensures
            final(self).wf(),
            match find_message(old(self)@.messages, seq) {
                None => r == Err::<(), EngineError>(EngineError::SequenceUnavailable) && final(self)@
                    == old(self)@,
                Some(j) => r is Ok && final(self)@ == (BufferView {
                    messages: old(self)@.messages.remove(j),
                    ..old(self)@
                }),
            },
    {
        match self.find_index(seq) {
            None => Err(EngineError::SequenceUnavailable),
            Some(j) => {
                proof {
                    lemma_find_message(self@.messages, seq);
                }
                let ghost before = self@.messages;
                self.messages.remove(j);
                assert(self@.messages =~= before.remove(j as int));
                Ok(())
            },
        }
    }
}

/// `find_message` names a position holding the number; `None` means none does.
pub proof fn lemma_find_message(sent: Seq<MessageView>, seq: u32)
    ensures
        find_message(sent, seq) matches Some(j) ==> 0 <= j < sent.len() && sent[j].sequence_number
            == seq,
        find_message(sent, seq) is None ==> forall|k: int|
            0 <= k < sent.len() ==> sent[k].sequence_number != seq,
    decreases sent.len(),
{
    if sent.len() > 0 {
        let init = sent.drop_last();
        lemma_find_message(init, seq);
        assert forall|k: int| 0 <= k < init.len() implies init[k] == sent[k] by {}
        if sent.last().sequence_number != seq {
            assert forall|k: int| 0 <= k < sent.len() && k != sent.len() - 1 implies sent[k]
                == #[trigger] init[k] by {}
        }
    }
}

} // verus!

use vstd::prelude::*;

verus! {

/// How a monitored item treats the values handed to it.
#[derive(Clone, Copy, Debug, PartialEq, Eq, Structural)]
pub enum MonitoringMode {
    /// Values are neither sampled nor reported.
    Disabled,
    /// Values are sampled into the queue but not reported.
    Sampling,
    /// Values are sampled and reported by the publish cycle.
    Reporting,
}

/// The queue after offering `v` to a queue `q` of capacity `cap`.
pub open spec fn enqueued(q: Seq<i64>, cap: nat, discard_oldest: bool, v: i64) -> Seq<i64> {
    if q.len() < cap {
        q.push(v)
    } else if discard_oldest {
        q.push(v).subrange(q.len() + 1 - cap, q.len() + 1 as int)
    } else {
        q
    }
}

/// The queue after offering each of `vs`, in order, to `q`.
pub open spec fn fed(q: Seq<i64>, cap: nat, discard_oldest: bool, vs: Seq<i64>) -> Seq<i64>
    decreases vs.len(),
{
    if vs.len() == 0 {
        q
    } else {
        enqueued(fed(q, cap, discard_oldest, vs.drop_last()), cap, discard_oldest, vs.last())
    }
}

/// The queue kept when its capacity becomes `cap`: the newest values when
/// discarding the oldest, else the oldest.
pub open spec fn resized(q: Seq<i64>, cap: nat, discard_oldest: bool) -> Seq<i64> {
    if q.len() <= cap {
        q
    } else if discard_oldest {
        q.subrange(q.len() - cap, q.len() as int)
    } else {
        q.subrange(0, cap as int)
    }
}

/// What a monitored item holds, its queue as a sequence.
pub ghost struct ItemView {
    pub id: u32,
    pub node_id: u32,
    pub attribute_id: u32,
    pub monitoring_mode: MonitoringMode,
    pub sampling_interval: u64,
    pub queue_size: nat,
    pub discard_oldest: bool,
    pub client_handle: u32,
    pub deadband: Option<u64>,
    pub last_value: Option<i64>,
    pub pending: Seq<i64>,
}

impl ItemView {
    /// The queue holds at least one slot and never more values than slots.
    pub open spec fn wf(self) -> bool {
        &&& self.queue_size >= 1
        &&& self.pending.len() <= self.queue_size
    }
}

/// Whether a sampled value passes the filter: with a deadband it must
/// differ from the last delivered value by more than the deadband.
pub open spec fn passes(deadband: Option<u64>, last_value: Option<i64>, value: i64) -> bool {
    match deadband {
        None => true,
        Some(d) => match last_value {
            None => true,
            Some(l) => {
                let diff = value - l;
                (if diff < 0 {
                    -diff
                } else {
                    diff
                }) > d
            },
        },
    }
}

/// The item after a value is sampled: a disabled item ignores it, and so
/// does one whose filter the value does not pass. An accepted value is
/// offered to the queue.
pub open spec fn sampled(v: ItemView, value: i64) -> ItemView {
    if v.monitoring_mode == MonitoringMode::Disabled || !passes(v.deadband, v.last_value, value) {
        v
    } else {
        ItemView { pending: enqueued(v.pending, v.queue_size, v.discard_oldest, value), ..v }
    }
}

/// One surveilled attribute of a node, with its bounded queue of pending values.
pub struct MonitoredItem {
    pub id: u32,
    pub node_id: u32,
    pub attribute_id: u32,
    pub monitoring_mode: MonitoringMode,
    pub sampling_interval: u64,
    pub queue_size: usize,
    pub discard_oldest: bool,
    pub client_handle: u32,
    /// Smallest change that counts; `None` lets every value through.
    pub deadband: Option<u64>,
    /// The last value handed out in a notification.
    pub last_value: Option<i64>,
    /// Values sampled and not yet delivered, oldest first.
    pub pending: Vec<i64>,
}

impl View for MonitoredItem {
    type V = ItemView;

    open spec fn view(&self) -> ItemView {
        ItemView {
            id: self.id,
            node_id: self.node_id,
            attribute_id: self.attribute_id,
            monitoring_mode: self.monitoring_mode,
            sampling_interval: self.sampling_interval,
            queue_size: self.queue_size as nat,
            discard_oldest: self.discard_oldest,
            client_handle: self.client_handle,
            deadband: self.deadband,
            last_value: self.last_value,
            pending: self.pending@,
        }
    }
}

impl MonitoredItem {
    pub open spec fn wf(&self) -> bool {
        self@.wf()
    }

    /// An item with an empty queue.
    pub fn new(
        id: u32,
        node_id: u32,
        attribute_id: u32,
        monitoring_mode: MonitoringMode,
        sampling_interval: u64,
        queue_size: usize,
        discard_oldest: bool,
        client_handle: u32,
        deadband: Option<u64>,
    ) -> (r: MonitoredItem)
        requires
            queue_size >= 1,
        ensures
            r.wf(),
            r@ == (ItemView {
                id,
                node_id,
                attribute_id,
                monitoring_mode,
                sampling_interval,
                queue_size: queue_size as nat,
                discard_oldest,
                client_handle,
                deadband,
                last_value: None,
                pending: Seq::empty(),
            }),
    {
        MonitoredItem {
            id,
            node_id,
            attribute_id,
            monitoring_mode,
            sampling_interval,
            queue_size,
            discard_oldest,
            client_handle,
            deadband,
            last_value: None,
            pending: Vec::new(),
        }
    }

    /// Offers a sampled value to the queue. A disabled item ignores it; on a
    /// full queue the oldest value is evicted or the new one rejected.
    pub fn sample(&mut self, value: i64)
        requires
            old(self).wf(),
        ensures
            final(self).wf(),
            final(self)@ == sampled(old(self)@, value),
    {
        if self.monitoring_mode == MonitoringMode::Disabled || !passes_filter(
            self.deadband,
            self.last_value,
            value,
        ) {
            return ;
        }
        if self.pending.len() < self.queue_size {
            self.pending.push(value);
        } else if self.discard_oldest {
            let ghost q = self.pending@;
            self.pending.push(value);
            let drop: usize = self.pending.len() - self.queue_size;
            self.pending = keep_range(&self.pending, drop, self.pending.len());
            assert(self.pending@ =~= q.push(value).subrange(q.len() + 1 - self.queue_size, q.len() + 1 as int));
        }
    }

    /// Changes the queue's capacity, keeping the newest values when
    /// discarding the oldest and the oldest values otherwise.
    pub fn resize(&mut self, queue_size: usize)
        requires
            old(self).wf(),
            queue_size >= 1,
        ensures
            final(self).wf(),
            final(self)@ == (ItemView {
                queue_size: queue_size as nat,
                pending: resized(old(self).pending@, queue_size as nat, old(self).discard_oldest),
                ..old(self)@
            }),
    {
        let len = self.pending.len();
        if len > queue_size {
            if self.discard_oldest {
                self.pending = keep_range(&self.pending, len - queue_size, len);
            } else {
                self.pending = keep_range(&self.pending, 0, queue_size);
            }
        }
        self.queue_size = queue_size;
    }
}

fn passes_filter(deadband: Option<u64>, last_value: Option<i64>, value: i64) -> (r: bool)
    ensures
        r == passes(deadband, last_value, value),
{
    match deadband {
        None => true,
        Some(d) => match last_value {
            None => true,
            Some(l) => {
                let diff: i128 = value as i128 - l as i128;
                let abs: i128 = if diff < 0 {
                    -diff
                } else {
                    diff
                };
                abs > d as i128
            },
        },
    }
}

/// The values of `v` from index `lo` up to `hi`.
pub fn keep_range(v: &Vec<i64>, lo: usize, hi: usize) -> (r: Vec<i64>)
    requires
        lo <= hi <= v@.len(),
    ensures
        r@ == v@.subrange(lo as int, hi as int),
{
    let mut r: Vec<i64> = Vec::new();
    let mut i: usize = lo;
    while i < hi
        invariant
            lo <= i <= hi <= v@.len(),
            r@ == v@.subrange(lo as int, i as int),
        decreases hi - i,
    {
        r.push(v[i]);
        assert(r@ =~= v@.subrange(lo as int, i + 1));
        i += 1;
    }
    r
}

/// The item after each of `vs` is sampled, in order.
pub open spec fn sampled_all(v: ItemView, vs: Seq<i64>) -> ItemView
    decreases vs.len(),
{
    if vs.len() == 0 {
        v
    } else {
        sampled(sampled_all(v, vs.drop_last()), vs.last())
    }
}

/// Sampling a run of values into an enabled item whose filter lets them
/// through offers each to the queue in turn, keeps the queue within its
/// size, and touches nothing else. With `lemma_queue_policy` this fixes
/// which values an item that started empty holds.
pub proof fn lemma_samples_fill_queue(v: ItemView, vs: Seq<i64>)
    requires
        v.wf(),
        v.monitoring_mode != MonitoringMode::Disabled,
        forall|k: int| 0 <= k < vs.len() ==> passes(v.deadband, v.last_value, #[trigger] vs[k]),
    ensures
        sampled_all(v, vs).wf(),
        sampled_all(v, vs) == (ItemView {
            pending: fed(v.pending, v.queue_size, v.discard_oldest, vs),
            ..v
        }),
    decreases vs.len(),
{
    if vs.len() > 0 {
        let init = vs.drop_last();
        assert forall|k: int| 0 <= k < init.len() implies passes(
            v.deadband,
            v.last_value,
            #[trigger] init[k],
        ) by {
            assert(init[k] == vs[k]);
        }
        lemma_samples_fill_queue(v, init);
        assert(passes(v.deadband, v.last_value, vs[vs.len() - 1]));
    }
}

/// A queue offered a run of values keeps no more than its capacity. When it
/// discards the oldest it holds the `cap` most recent values; otherwise it
/// holds the first `cap` values and rejected the rest.
pub proof fn lemma_queue_policy(cap: nat, discard_oldest: bool, vs: Seq<i64>)
    requires
        cap >= 1,
    ensures
        fed(Seq::empty(), cap, discard_oldest, vs).len() <= cap,
        discard_oldest ==> fed(Seq::empty(), cap, discard_oldest, vs) == (if vs.len() <= cap {
            vs
        } else {
            vs.subrange(vs.len() - cap, vs.len() as int)
        }),
        !discard_oldest ==> fed(Seq::empty(), cap, discard_oldest, vs) == (if vs.len() <= cap {
            vs
        } else {
            vs.subrange(0, cap as int)
        }),
    decreases vs.len(),
{
    if vs.len() > 0 {
        let init = vs.drop_last();
        lemma_queue_policy(cap, discard_oldest, init);
        let q = fed(Seq::empty(), cap, discard_oldest, init);
        if discard_oldest {
            if vs.len() <= cap {
                assert(q.push(vs.last()) =~= vs);
            } else {
                assert(enqueued(q, cap, true, vs.last()) =~= vs.subrange(vs.len() - cap, vs.len() as int));
            }
        } else {
            if vs.len() <= cap {
                assert(q.push(vs.last()) =~= vs);
            } else if init.len() == cap {
                assert(q =~= vs.subrange(0, cap as int));
            } else {
                assert(q =~= vs.subrange(0, cap as int));
            }
        }
    } else {
        assert(fed(Seq::empty(), cap, discard_oldest, vs) =~= vs);
    }
}

} // verus!

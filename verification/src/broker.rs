//! In-process publish/subscribe fanout of measurements.  A publish hands
//! the same measurement to the queue of every subscriber present at that
//! moment; subscription is not retroactive, so a new subscriber starts
//! with an empty queue and never sees earlier measurements.
use vstd::prelude::*;

use crate::extract::{GroupView, MeasureGroup};

verus! {

/// One extracted measurement, as handed to consumers.  The value carries
/// the IEEE-754 bit pattern of the number from the document; the timestamp
/// is epoch seconds, captured once per fire.
#[derive(Clone, Debug, PartialEq, Eq)]
pub struct DataResponse {
    pub source_name: String,
    pub measure_name: String,
    pub measure_desc: String,
    /// The IEEE-754 bit pattern of the measured value.
    pub measure_value_bits: u64,
    pub timestamp: u64,
}

/// The mathematical content of a measurement.
#[verifier::ext_equal]
pub ghost struct DataResponseView {
    pub source_name: Seq<char>,
    pub measure_name: Seq<char>,
    pub measure_desc: Seq<char>,
    pub measure_value_bits: u64,
    pub timestamp: u64,
}

impl DataResponse {
    /// A field-for-field copy with the same content.
    pub fn duplicate(&self) -> (r: DataResponse)
        ensures
            r@ == self@,
    {
        DataResponse {
            source_name: self.source_name.clone(),
            measure_name: self.measure_name.clone(),
            measure_desc: self.measure_desc.clone(),
            measure_value_bits: self.measure_value_bits,
            timestamp: self.timestamp,
        }
    }
}

impl View for DataResponse {
    type V = DataResponseView;

    open spec fn view(&self) -> DataResponseView {
        DataResponseView {
            source_name: self.source_name@,
            measure_name: self.measure_name@,
            measure_desc: self.measure_desc@,
            measure_value_bits: self.measure_value_bits,
            timestamp: self.timestamp,
        }
    }
}

/// The views of a measurement vector.
pub open spec fn measurements_view(ms: Seq<DataResponse>) -> Seq<DataResponseView> {
    ms.map_values(|m: DataResponse| m@)
}

/// The measurements of one group: one per description/value point, in
/// point order, all under the same source name and timestamp.
pub open spec fn group_measurements(
    source_name: Seq<char>,
    group: GroupView,
    timestamp: u64,
) -> Seq<DataResponseView> {
    Seq::new(
        group.measure_data.len(),
        |i: int|
            DataResponseView {
                source_name: source_name,
                measure_name: group.measure_name,
                measure_desc: group.measure_data[i].0,
                measure_value_bits: group.measure_data[i].1,
                timestamp: timestamp,
            },
    )
}

/// The measurements of a sequence of groups, group by group.
pub open spec fn measurements_of(
    source_name: Seq<char>,
    groups: Seq<GroupView>,
    timestamp: u64,
) -> Seq<DataResponseView>
    decreases groups.len(),
{
    if groups.len() == 0 {
        Seq::empty()
    } else {
        group_measurements(source_name, groups.first(), timestamp) + measurements_of(
            source_name,
            groups.drop_first(),
            timestamp,
        )
    }
}

/// The publish/subscribe fanout.  One queue per subscriber, in
/// subscription order.
pub struct Broker {
    queues: Vec<Vec<DataResponse>>,
}

impl View for Broker {
    type V = Seq<Seq<DataResponseView>>;

    closed spec fn view(&self) -> Seq<Seq<DataResponseView>> {
        self.queues@.map_values(|q: Vec<DataResponse>| measurements_view(q@))
    }
}

impl Broker {
    /// A broker with no subscribers.
    pub fn new() -> (broker: Broker)
        ensures
            broker@ == Seq::<Seq<DataResponseView>>::empty(),
    {
        let broker = Broker { queues: Vec::new() };
        proof {
            assert(broker@ =~= Seq::<Seq<DataResponseView>>::empty());
        }
        broker
    }

    /// The number of subscribers.
    pub fn subscriber_count(&self) -> (n: usize)
        ensures
            n == self@.len(),
    {
        self.queues.len()
    }

    /// Adds a subscriber and returns its handle.  The new queue is empty:
    /// measurements published before a subscription are never replayed.
    pub fn subscribe(&mut self) -> (id: usize)
        ensures
            id == old(self)@.len(),
            final(self)@ == old(self)@.push(Seq::<DataResponseView>::empty()),
    {
        let id = self.queues.len();
        self.queues.push(Vec::new());
        proof {
            assert(final(self)@ =~~= old(self)@.push(Seq::<DataResponseView>::empty()));
        }
        id
    }

    /// Appends one measurement to the queue of every current subscriber.
    pub fn publish(&mut self, measurement: &DataResponse)
        ensures
            final(self)@.len() == old(self)@.len(),
            forall|i: int|
                0 <= i < old(self)@.len() ==> final(self)@[i] == old(self)@[i].push(
                    measurement@,
                ),
    {
        let n = self.queues.len();
        for i in 0..n
            invariant
                n == self.queues@.len(),
                self@.len() == old(self)@.len(),
                forall|p: int| 0 <= p < i ==> self@[p] == old(self)@[p].push(measurement@),
                forall|p: int| i <= p < n ==> self@[p] == old(self)@[p],
        {
            let ghost entry_view = self@;
            let ghost pre = self.queues@;
            let copy = measurement.duplicate();
            let queue = &mut self.queues[i];
            queue.push(copy);
            proof {
                assert(self.queues@ =~~= pre.update(i as int, self.queues@[i as int]));
                assert(measurements_view(self.queues@[i as int]@) =~~= measurements_view(
                    pre[i as int]@,
                ).push(measurement@));
                assert forall|p: int| 0 <= p < i + 1 implies self@[p] == old(self)@[p].push(
                    measurement@,
                ) by {
                    assert(self@[p] == measurements_view(self.queues@[p]@));
                    assert(entry_view[p] == measurements_view(pre[p]@));
                    if p < i {
                        assert(self.queues@[p] == pre[p]);
                        assert(entry_view[p] == old(self)@[p].push(measurement@));
                    } else {
                        assert(entry_view[p] == old(self)@[p]);
                    }
                }
                assert forall|p: int| i + 1 <= p < n implies self@[p] == old(self)@[p] by {
                    assert(self.queues@[p] == pre[p]);
                    assert(self@[p] == measurements_view(self.queues@[p]@));
                    assert(entry_view[p] == measurements_view(pre[p]@));
                    assert(entry_view[p] == old(self)@[p]);
                }
            }
        }
    }

    /// Removes and returns the pending measurements of one subscriber,
    /// in publish order.  The subscriber's queue is empty afterwards;
    /// every other queue is untouched.
    pub fn take_pending(&mut self, id: usize) -> (taken: Vec<DataResponse>)
        requires
            id < old(self)@.len(),
        ensures
            measurements_view(taken@) == old(self)@[id as int],
            final(self)@ == old(self)@.update(id as int, Seq::<DataResponseView>::empty()),
    {
        let ghost entry_view = self@;
        let ghost pre = self.queues@;
        let mut taken: Vec<DataResponse> = Vec::new();
        let queue = &mut self.queues[id];
        core::mem::swap(&mut taken, queue);
        proof {
            assert(self.queues@ =~~= pre.update(id as int, self.queues@[id as int]));
            assert(measurements_view(self.queues@[id as int]@)
                =~~= Seq::<DataResponseView>::empty());
            assert forall|p: int| 0 <= p < pre.len() && p != id implies self@[p]
                == entry_view[p] by {
                assert(self.queues@[p] == pre[p]);
                assert(self@[p] == measurements_view(self.queues@[p]@));
                assert(entry_view[p] == measurements_view(pre[p]@));
            }
            assert(self@[id as int] == measurements_view(self.queues@[id as int]@));
            assert(self@ =~~= entry_view.update(id as int, Seq::<DataResponseView>::empty()));
            assert(entry_view[id as int] == measurements_view(pre[id as int]@));
        }
        taken
    }

    /// The pending measurements of one subscriber, in publish order.
    pub fn pending(&self, id: usize) -> (queue: &Vec<DataResponse>)
        requires
            id < self@.len(),
        ensures
            measurements_view(queue@) == self@[id as int],
    {
        &self.queues[id]
    }
}

/// Builds one measurement per description/value point of every group, all
/// under the same source name and timestamp, and publishes each to every
/// current subscriber, group by group and point by point.
pub fn publish_data(
    broker: &mut Broker,
    source_name: &str,
    data_response: &Vec<MeasureGroup>,
    timestamp: u64,
)
    ensures
        final(broker)@.len() == old(broker)@.len(),
        forall|i: int|
            0 <= i < old(broker)@.len() ==> final(broker)@[i] == old(broker)@[i] + measurements_of(
                source_name@,
                crate::extract::groups_view(data_response@),
                timestamp,
            ),
{
    let ghost all = measurements_of(
        source_name@,
        crate::extract::groups_view(data_response@),
        timestamp,
    );
    let ghost n_subs = broker@.len();
    let mut flat: Vec<DataResponse> = Vec::new();
    proof {
        assert(crate::extract::groups_view(data_response@).skip(0) =~~= crate::extract::groups_view(
            data_response@,
        ));
        assert(measurements_view(flat@) + all =~~= all);
    }
    let n = data_response.len();
    for g in 0..n
        invariant
            n == data_response@.len(),
            measurements_view(flat@) + measurements_of(
                source_name@,
                crate::extract::groups_view(data_response@).skip(g as int),
                timestamp,
            ) =~~= all,
            all == measurements_of(
                source_name@,
                crate::extract::groups_view(data_response@),
                timestamp,
            ),
    {
        let group = &data_response[g];
        let ghost gv = crate::extract::groups_view(data_response@);
        proof {
            assert(gv.skip(g as int).first() == group@);
            assert(gv.skip(g as int).drop_first() =~~= gv.skip(g + 1));
            assert(group_measurements(source_name@, group@, timestamp).skip(0)
                =~~= group_measurements(source_name@, group@, timestamp));
            assert(measurements_view(flat@) + group_measurements(
                source_name@,
                group@,
                timestamp,
            ).skip(0) + measurements_of(source_name@, gv.skip(g + 1), timestamp) =~~= all);
        }
        let m = group.measure_data.len();
        for p in 0..m
            invariant
                m == group.measure_data@.len(),
                gv == crate::extract::groups_view(data_response@),
                g < data_response@.len(),
                group == &data_response@[g as int],
                measurements_view(flat@) + group_measurements(
                    source_name@,
                    group@,
                    timestamp,
                ).skip(p as int) + measurements_of(source_name@, gv.skip(g + 1), timestamp)
                    =~~= all,
        {
            let ghost pre = flat@;
            let point = &group.measure_data[p];
            flat.push(
                DataResponse {
                    source_name: source_name.to_owned(),
                    measure_name: group.measure_name.clone(),
                    measure_desc: point.0.clone(),
                    measure_value_bits: point.1,
                    timestamp,
                },
            );
            proof {
                assert(measurements_view(flat@) =~~= measurements_view(pre).push(
                    group_measurements(source_name@, group@, timestamp)[p as int],
                ));
                assert(measurements_view(flat@) + group_measurements(
                    source_name@,
                    group@,
                    timestamp,
                ).skip(p + 1) + measurements_of(source_name@, gv.skip(g + 1), timestamp)
                    =~~= all);
            }
        }
        proof {
            assert(group_measurements(source_name@, group@, timestamp).skip(m as int)
                =~~= Seq::<DataResponseView>::empty());
            assert(measurements_view(flat@) + measurements_of(source_name@, gv.skip(g + 1), timestamp)
                =~~= all);
        }
    }
    proof {
        assert(crate::extract::groups_view(data_response@).skip(n as int)
            =~~= Seq::<GroupView>::empty());
        assert(measurements_view(flat@) =~~= all);
    }
    let k = flat.len();
    for j in 0..k
        invariant
            k == flat@.len(),
            measurements_view(flat@) == all,
            broker@.len() == n_subs,
            n_subs == old(broker)@.len(),
            forall|i: int|
                0 <= i < n_subs ==> broker@[i] == old(broker)@[i] + all.subrange(0, j as int),
    {
        broker.publish(&flat[j]);
        proof {
            assert forall|i: int| 0 <= i < n_subs implies broker@[i] == old(broker)@[i]
                + all.subrange(0, j + 1) by {
                assert(measurements_view(flat@)[j as int] == all[j as int]);
                assert(old(broker)@[i] + all.subrange(0, j as int).push(all[j as int])
                    =~~= old(broker)@[i] + all.subrange(0, j + 1));
            }
        }
    }
    proof {
        assert(all.subrange(0, all.len() as int) =~~= all);
    }
}

} // verus!

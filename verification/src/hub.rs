use vstd::prelude::*;
use crate::codec::envelope_json;
use crate::codec::envelope_to_json;

verus! {

/// The model of one live subscriber: its registration key and the messages
/// queued for it, oldest first.
pub struct SubscriberModel {
    pub key: u64,
    pub queue: Seq<Seq<char>>,
}

/// One live subscriber: an outbound queue the connection's forwarding task
/// drains in order.
struct Subscriber {
    key: u64,
    queue: Vec<String>,
}

impl View for Subscriber {
    type V = SubscriberModel;

    closed spec fn view(&self) -> SubscriberModel {
        SubscriberModel { key: self.key, queue: self.queue@.map_values(|s: String| s@) }
    }
}

/// The model of the hub: the registered subscribers, in registration order,
/// and the key it will assign next.
pub struct HubModel {
    pub next_key: u64,
    pub subs: Seq<SubscriberModel>,
}

/// Hub well-formedness: keys unique and below the next key.
pub open spec fn hub_wf(m: HubModel) -> bool {
    &&& forall|i: int| 0 <= i < m.subs.len() ==> (#[trigger] m.subs[i]).key < m.next_key
    &&& forall|i: int, j: int|
        #![trigger m.subs[i].key, m.subs[j].key]
        0 <= i < j < m.subs.len() ==> m.subs[i].key != m.subs[j].key
}

pub open spec fn has_key(s: Seq<SubscriberModel>, key: u64) -> bool {
    exists|i: int| 0 <= i < s.len() && (#[trigger] s[i]).key == key
}

pub open spec fn index_of_key(s: Seq<SubscriberModel>, key: u64) -> int {
    choose|i: int| 0 <= i < s.len() && (#[trigger] s[i]).key == key
}

/// The broadcast hub: the registry of live subscribers. Register,
/// unregister and broadcast all go through one owner of the collection; the
/// collection itself is never handed out.
pub struct SharedState {
    next_key: u64,
    clients: Vec<Subscriber>,
}

impl View for SharedState {
    type V = HubModel;

    closed spec fn view(&self) -> HubModel {
        HubModel { next_key: self.next_key, subs: self.clients@.map_values(|c: Subscriber| c@) }
    }
}

impl SharedState {
    pub open spec fn wf(&self) -> bool {
        hub_wf(self@)
    }

    /// An empty hub.
    pub fn new() -> (s: SharedState)
        ensures
            s@.subs == Seq::<SubscriberModel>::empty(),
            s@.next_key == 0,
            s.wf(),
    {
        let s = SharedState { next_key: 0, clients: Vec::new() };
        proof {
            assert(s@.subs =~= Seq::<SubscriberModel>::empty());
        }
        s
    }

    /// How many subscribers are registered.
    pub fn subscriber_count(&self) -> (n: usize)
        ensures
            n == self@.subs.len(),
    {
        self.clients.len()
    }

    /// Whether the hub can still assign a fresh key.
    pub fn can_register(&self) -> (r: bool)
        ensures
            r == (self@.next_key < u64::MAX),
    {
        self.next_key < u64::MAX
    }

    /// Registers a subscriber with an empty queue; always succeeds and
    /// returns its fresh key.
    pub fn register(&mut self) -> (key: u64)
        requires
            old(self).wf(),
            old(self)@.next_key < u64::MAX,
        ensures
            final(self).wf(),
            key == old(self)@.next_key,
            final(self)@.next_key == old(self)@.next_key + 1,
            final(self)@.subs == old(self)@.subs.push(
                SubscriberModel { key, queue: Seq::empty() },
            ),
    {
        let key = self.next_key;
        let sub = Subscriber { key, queue: Vec::new() };
        proof {
            assert(sub@.queue =~= Seq::<Seq<char>>::empty());
        }
        self.clients.push(sub);
        self.next_key = self.next_key + 1;
        proof {
            assert(self@.subs =~= old(self)@.subs.push(
                SubscriberModel { key, queue: Seq::empty() },
            ));
            let m = self@;
            assert forall|i: int| 0 <= i < m.subs.len() implies (#[trigger] m.subs[i]).key
                < m.next_key by {
                if i < m.subs.len() - 1 {
                    assert(m.subs[i] == old(self)@.subs[i]);
                }
            }
        }
        key
    }

    /// Removes the subscriber with the given key; idempotent.
    pub fn unregister(&mut self, key: u64)
        requires
            old(self).wf(),
        ensures
            final(self).wf(),
            final(self)@.next_key == old(self)@.next_key,
            !has_key(old(self)@.subs, key) ==> final(self)@.subs == old(self)@.subs,
            has_key(old(self)@.subs, key) ==> {
                &&& 0 <= index_of_key(old(self)@.subs, key) < old(self)@.subs.len()
                &&& final(self)@.subs == old(self)@.subs.remove(
                    index_of_key(old(self)@.subs, key),
                )
            },
    {
        let n = self.clients.len();
        let mut i: usize = 0;
        while i < n
            invariant
                self.wf(),
                self@ == old(self)@,
                n == self@.subs.len(),
                i <= n,
                forall|j: int| 0 <= j < i ==> (#[trigger] self@.subs[j]).key != key,
            decreases n - i,
        {
            if self.clients[i].key == key {
                self.clients.remove(i);
                proof {
                    assert(old(self)@.subs[i as int].key == key);
                    assert(has_key(old(self)@.subs, key));
                    let k = index_of_key(old(self)@.subs, key);
                    assert(0 <= k < old(self)@.subs.len() && old(self)@.subs[k].key == key);
                    if k != i as int {
                        assert(old(self)@.subs[k].key == old(self)@.subs[i as int].key);
                        assert(false);
                    }
                    assert(self@.subs =~= old(self)@.subs.remove(i as int));
                    let m = self@;
                    assert forall|a: int| 0 <= a < m.subs.len() implies (#[trigger] m.subs[a]).key
                        < m.next_key by {
                        if a < i as int {
                            assert(m.subs[a] == old(self)@.subs[a]);
                        } else {
                            assert(m.subs[a] == old(self)@.subs[a + 1]);
                        }
                    }
                    assert forall|a: int, b: int|
                        0 <= a < b < m.subs.len() implies m.subs[a].key != m.subs[b].key by {
                        if a < i as int {
                            assert(m.subs[a] == old(self)@.subs[a]);
                        } else {
                            assert(m.subs[a] == old(self)@.subs[a + 1]);
                        }
                        if b < i as int {
                            assert(m.subs[b] == old(self)@.subs[b]);
                        } else {
                            assert(m.subs[b] == old(self)@.subs[b + 1]);
                        }
                    }
                }
                return ;
            }
            i = i + 1;
        }
    }

    /// Builds the event envelope once and appends it to every subscriber's
    /// queue: one delivery per subscriber, each queue in broadcast order.
    pub fn broadcast(&mut self, action_type: &str, status: &str, data_json: &str) -> (env: String)
        requires
            old(self).wf(),
        ensures
            final(self).wf(),
            env@ == envelope_json(action_type@, status@, data_json@),
            final(self)@.next_key == old(self)@.next_key,
            final(self)@.subs.len() == old(self)@.subs.len(),
            forall|i: int|
                0 <= i < old(self)@.subs.len() ==> {
                    &&& (#[trigger] final(self)@.subs[i]).key == old(self)@.subs[i].key
                    &&& final(self)@.subs[i].queue == old(self)@.subs[i].queue.push(
                        envelope_json(action_type@, status@, data_json@),
                    )
                },
    {
        let message = envelope_to_json(action_type, status, data_json);
        let n = self.clients.len();
        let mut i: usize = 0;
        while i < n
            invariant
                n == self@.subs.len(),
                self@.subs.len() == old(self)@.subs.len(),
                self@.next_key == old(self)@.next_key,
                hub_wf(old(self)@),
                message@ == envelope_json(action_type@, status@, data_json@),
                i <= n,
                forall|j: int|
                    i <= j < n ==> #[trigger] self@.subs[j] == old(self)@.subs[j],
                forall|j: int|
                    0 <= j < i ==> {
                        &&& (#[trigger] self@.subs[j]).key == old(self)@.subs[j].key
                        &&& self@.subs[j].queue == old(self)@.subs[j].queue.push(message@)
                    },
            decreases n - i,
        {
            let ghost pre_subs = self@.subs;
            let mut sub = self.clients.remove(i);
            let ghost pre_sub = sub@;
            sub.queue.push(message.clone());
            proof {
                assert(sub@.queue =~= pre_sub.queue.push(message@));
            }
            let ghost subm = sub@;
            self.clients.insert(i, sub);
            proof {
                assert(self@.subs =~= pre_subs.update(i as int, subm));
                assert(pre_sub == pre_subs[i as int]);
                assert(pre_subs[i as int] == old(self)@.subs[i as int]);
                assert(self@.subs[i as int].queue == old(self)@.subs[i as int].queue.push(
                    message@,
                ));
                assert forall|j: int| i + 1 <= j < n implies #[trigger] self@.subs[j] == old(
                    self,
                )@.subs[j] by {
                    assert(self@.subs[j] == pre_subs[j]);
                }
            }
            i = i + 1;
        }
        proof {
            let m = self@;
            assert forall|a: int| 0 <= a < m.subs.len() implies (#[trigger] m.subs[a]).key
                < m.next_key by {
                assert(m.subs[a].key == old(self)@.subs[a].key);
            }
            assert forall|a: int, b: int|
                0 <= a < b < m.subs.len() implies m.subs[a].key != m.subs[b].key by {
                assert(m.subs[a].key == old(self)@.subs[a].key);
                assert(m.subs[b].key == old(self)@.subs[b].key);
            }
        }
        message
    }

    /// Hands out the oldest queued message for the subscriber with the given
    /// key: a message comes back exactly when the key is registered and its
    /// queue is non-empty, so repeated calls drain the queue in broadcast
    /// order.
    pub fn pop_message(&mut self, key: u64) -> (r: Option<String>)
        requires
            old(self).wf(),
        ensures
            final(self).wf(),
            final(self)@.next_key == old(self)@.next_key,
            r is Some <==> (has_key(old(self)@.subs, key) && old(self)@.subs[index_of_key(
                old(self)@.subs,
                key,
            )].queue.len() > 0),
            r is None ==> final(self)@.subs == old(self)@.subs,
            r matches Some(msg) ==> {
                let idx = index_of_key(old(self)@.subs, key);
                &&& has_key(old(self)@.subs, key)
                &&& 0 <= idx < old(self)@.subs.len()
                &&& old(self)@.subs[idx].queue.len() > 0
                &&& msg@ == old(self)@.subs[idx].queue[0]
                &&& final(self)@.subs == old(self)@.subs.update(
                    idx,
                    SubscriberModel {
                        key,
                        queue: old(self)@.subs[idx].queue.drop_first(),
                    },
                )
            },
    {
        let n = self.clients.len();
        let mut i: usize = 0;
        while i < n
            invariant
                self.wf(),
                self@ == old(self)@,
                n == self@.subs.len(),
                i <= n,
                forall|j: int| 0 <= j < i ==> (#[trigger] self@.subs[j]).key != key,
            decreases n - i,
        {
            if self.clients[i].key == key {
                proof {
                    assert(self@.subs[i as int].key == key);
                    assert(has_key(old(self)@.subs, key));
                    let k = index_of_key(old(self)@.subs, key);
                    assert(0 <= k < old(self)@.subs.len() && old(self)@.subs[k].key == key);
                    if k != i as int {
                        assert(old(self)@.subs[k].key == old(self)@.subs[i as int].key);
                        assert(false);
                    }
                }
                if self.clients[i].queue.len() == 0 {
                    proof {
                        assert(old(self)@.subs[i as int].queue.len() == 0);
                    }
                    return None;
                }
                proof {
                    assert(old(self)@.subs[i as int].queue.len() > 0);
                }
                let mut sub = self.clients.remove(i);
                let ghost pre_sub = sub@;
                let msg = sub.queue.remove(0);
                proof {
                    assert(sub@.queue =~= pre_sub.queue.drop_first());
                }
                self.clients.insert(i, sub);
                proof {
                    assert(self@.subs =~= old(self)@.subs.update(
                        i as int,
                        SubscriberModel { key, queue: old(self)@.subs[i as int].queue.drop_first() },
                    ));
                    let m = self@;
                    assert forall|a: int| 0 <= a < m.subs.len() implies (#[trigger] m.subs[a]).key
                        < m.next_key by {
                        assert(m.subs[a].key == old(self)@.subs[a].key);
                    }
                    assert forall|a: int, b: int|
                        0 <= a < b < m.subs.len() implies m.subs[a].key != m.subs[b].key by {
                        assert(m.subs[a].key == old(self)@.subs[a].key);
                        assert(m.subs[b].key == old(self)@.subs[b].key);
                    }
                }
                return Some(msg);
            }
            i = i + 1;
        }
        None
    }
}

} // verus!

//! The connection registry: a process-wide directory from username to
//! fan-out channel. A channel carries one bounded queue per subscribed
//! session, so one user's messages reach all of that user's live
//! connections. Registration is idempotent, and publishing is best
//! effort: a missing channel or a full queue is treated as "user
//! offline" and never surfaces as an error. An idle registration is
//! deliberately never pruned.

use vstd::prelude::*;
use crate::models::{Message, MessageView};

verus! {

/// How many pending messages one subscriber's queue may hold; a publish
/// to a full queue drops the new message rather than block the pipeline.
pub const CHANNEL_CAPACITY: usize = 100;

/// One user's fan-out channel: every subscribed session has its own
/// bounded queue of pending messages.
pub struct FanoutChannel {
    pub username: String,
    pub queues: Vec<Vec<Message>>,
}

#[verifier::ext_equal]
pub ghost struct ChannelView {
    pub username: Seq<char>,
    pub queues: Seq<Seq<MessageView>>,
}

impl View for FanoutChannel {
    type V = ChannelView;

    open spec fn view(&self) -> ChannelView {
        ChannelView {
            username: self.username@,
            queues: self.queues@.map_values(|q: Vec<Message>| q@.map_values(|m: Message| m@)),
        }
    }
}

/// The process-wide registry of live fan-out channels, keyed by
/// username.
pub struct Registry {
    pub channels: Vec<FanoutChannel>,
}

#[verifier::ext_equal]
pub ghost struct RegistryView {
    pub channels: Seq<ChannelView>,
}

impl View for Registry {
    type V = RegistryView;

    open spec fn view(&self) -> RegistryView {
        RegistryView { channels: self.channels@.map_values(|c: FanoutChannel| c@) }
    }
}

impl RegistryView {
    pub open spec fn has_channel(self, name: Seq<char>) -> bool {
        exists|i: int| 0 <= i < self.channels.len() && self.channels[i].username == name
    }

    /// The index of the channel registered for `name`; meaningful only
    /// when `has_channel(name)` holds (well-formedness makes it unique).
    pub open spec fn channel_index(self, name: Seq<char>) -> int {
        choose|i: int| 0 <= i < self.channels.len() && self.channels[i].username == name
    }

    /// Well-formedness: at most one channel per username, and no queue
    /// ever grows beyond the channel capacity.
    pub open spec fn wf(self) -> bool {
        &&& forall|i: int, j: int|
            0 <= i < j < self.channels.len() ==> self.channels[i].username
                != self.channels[j].username
        &&& forall|i: int, q: int|
            0 <= i < self.channels.len() && 0 <= q < self.channels[i].queues.len()
                ==> #[trigger] self.channels[i].queues[q].len() <= CHANNEL_CAPACITY
    }
}

/// How one channel changes when a message is published to it: every
/// subscriber queue with room takes the message at its back; a full
/// queue stays as it was.
pub open spec fn channel_after_publish(
    old_c: ChannelView,
    new_c: ChannelView,
    m: MessageView,
) -> bool {
    &&& new_c.username == old_c.username
    &&& new_c.queues.len() == old_c.queues.len()
    &&& forall|q: int|
        0 <= q < old_c.queues.len() ==> #[trigger] new_c.queues[q] == (if old_c.queues[q].len()
            < CHANNEL_CAPACITY {
            old_c.queues[q].push(m)
        } else {
            old_c.queues[q]
        })
}

impl Registry {
    /// A registry with no live channels.
    pub fn new() -> (r: Registry)
        ensures
            r@.wf(),
            r@.channels.len() == 0,
    {
        Registry { channels: Vec::new() }
    }

    /// Returns the existing channel for `username` if one is present,
    /// otherwise creates one; at most one channel ever exists per
    /// username. The handle is stable: registering the same username
    /// again returns the same handle and changes nothing.
    #[verifier::loop_isolation(false)]
    pub fn register(&mut self, username: &String) -> (h: usize)
        requires
            old(self)@.wf(),
        ensures
            final(self)@.wf(),
            h < final(self)@.channels.len(),
            final(self)@.channels[h as int].username == username@,
            old(self)@.has_channel(username@) ==> final(self)@ == old(self)@ && h == old(self)@.channel_index(username@),
            !old(self)@.has_channel(username@) ==> final(self)@.channels == old(self)@.channels.push(
                ChannelView { username: username@, queues: Seq::empty() },
            ) && h == old(self)@.channels.len(),
    {
        let ghost pre = self@;
        let n = self.channels.len();
        let mut k: usize = 0;
        while k < n
            invariant
                n == self@.channels.len(),
                k <= n,
                forall|i: int| 0 <= i < k ==> self@.channels[i].username != username@,
            decreases n - k,
        {
            if self.channels[k].username == *username {
                proof {
                    assert(0 <= k < pre.channels.len() && pre.channels[k as int].username
                        == username@);
                    assert(pre.has_channel(username@));
                    let ci = pre.channel_index(username@);
                    assert(0 <= ci < pre.channels.len() && pre.channels[ci].username == username@);
                    if ci != k {
                        assert(pre.channels[ci].username != pre.channels[k as int].username);
                        assert(false);
                    }
                }
                return k;
            }
            k = k + 1;
        }
        self.channels.push(FanoutChannel { username: username.clone(), queues: Vec::new() });
        proof {
            assert(self@.channels =~~= pre.channels.push(
                ChannelView { username: username@, queues: Seq::empty() },
            ));
            assert forall|i: int, j: int|
                0 <= i < j < self@.channels.len() implies self@.channels[i].username
                != self@.channels[j].username by {
                if j == pre.channels.len() {
                    assert(self@.channels[i].username != username@);
                } else {
                    assert(pre.channels[i].username != pre.channels[j].username);
                }
            }
        }
        n
    }

    /// Attaches a fresh, empty subscriber queue to the channel behind
    /// `h` and hands back its subscription index.
    pub fn subscribe(&mut self, h: usize) -> (sub: usize)
        requires
            old(self)@.wf(),
            h < old(self)@.channels.len(),
        ensures
            final(self)@.wf(),
            final(self)@.channels.len() == old(self)@.channels.len(),
            sub == old(self)@.channels[h as int].queues.len(),
            final(self)@.channels[h as int].username == old(self)@.channels[h as int].username,
            final(self)@.channels[h as int].queues == old(self)@.channels[h as int].queues.push(
                Seq::<MessageView>::empty(),
            ),
            forall|i: int|
                0 <= i < old(self)@.channels.len() && i != h ==> final(self)@.channels[i] == old(self)@.channels[i],
    {
        let ghost pre = self@;
        let sub = self.channels[h].queues.len();
        self.channels[h].queues.push(Vec::new());
        proof {
            assert(self@.channels[h as int].queues =~~= pre.channels[h as int].queues.push(
                Seq::<MessageView>::empty(),
            ));
            assert forall|i: int|
                0 <= i < pre.channels.len() && i != h implies self@.channels[i] == pre.channels[i] by {
                assert(self@.channels[i] =~~= pre.channels[i]);
            }
            assert forall|i: int, q: int|
                0 <= i < self@.channels.len() && 0 <= q
                    < self@.channels[i].queues.len() implies #[trigger] self@.channels[i].queues[q].len()
                <= CHANNEL_CAPACITY by {
                if i == h {
                    if q < pre.channels[i].queues.len() {
                        assert(pre.channels[i].queues[q].len() <= CHANNEL_CAPACITY);
                    }
                } else {
                    assert(pre.channels[i].queues[q].len() <= CHANNEL_CAPACITY);
                }
            }
            assert forall|i: int, j: int|
                0 <= i < j < self@.channels.len() implies self@.channels[i].username
                != self@.channels[j].username by {
                assert(pre.channels[i].username != pre.channels[j].username);
                assert(self@.channels[h as int].username == pre.channels[h as int].username);
            }
        }
        sub
    }

    /// Best-effort delivery: if `username` has a channel, the message is
    /// queued for every subscriber with room; otherwise nothing happens.
    /// This never reports a failure to the caller.
    #[verifier::loop_isolation(false)]
    pub fn publish(&mut self, username: &String, msg: &Message)
        requires
            old(self)@.wf(),
        ensures
            final(self)@.wf(),
            final(self)@.channels.len() == old(self)@.channels.len(),
            forall|i: int|
                0 <= i < old(self)@.channels.len() && old(self)@.channels[i].username == username@
                    ==> channel_after_publish(
                    old(self)@.channels[i],
                    final(self)@.channels[i],
                    msg@,
                ),
            forall|i: int|
                0 <= i < old(self)@.channels.len() && old(self)@.channels[i].username != username@
                    ==> final(self)@.channels[i] == old(self)@.channels[i],
    {
        let ghost pre = self@;
        let n = self.channels.len();
        let mut k: usize = 0;
        while k < n
            invariant
                pre.wf(),
                n == self@.channels.len(),
                n == pre.channels.len(),
                k <= n,
                forall|i: int| k <= i < n ==> self@.channels[i] == pre.channels[i],
                forall|i: int|
                    0 <= i < k && pre.channels[i].username == username@ ==> channel_after_publish(
                        pre.channels[i],
                        self@.channels[i],
                        msg@,
                    ),
                forall|i: int|
                    0 <= i < k && pre.channels[i].username != username@ ==> self@.channels[i]
                        == pre.channels[i],
            decreases n - k,
        {
            if self.channels[k].username == *username {
                let ghost chan_pre = self@.channels[k as int];
                let ghost mid = self@;
                proof {
                    assert(chan_pre == pre.channels[k as int]);
                }
                let qn = self.channels[k].queues.len();
                let mut q: usize = 0;
                while q < qn
                    invariant
                        k < n,
                        n == self@.channels.len(),
                        n == mid.channels.len(),
                        q <= qn,
                        qn == chan_pre.queues.len(),
                        qn == self@.channels[k as int].queues.len(),
                        chan_pre == mid.channels[k as int],
                        forall|j: int|
                            0 <= j < qn ==> chan_pre.queues[j].len() <= CHANNEL_CAPACITY,
                        self@.channels[k as int].username == chan_pre.username,
                        forall|i: int| 0 <= i < n && i != k ==> self@.channels[i] == mid.channels[i],
                        forall|j: int|
                            0 <= j < q ==> #[trigger] self@.channels[k as int].queues[j] == (
                            if chan_pre.queues[j].len() < CHANNEL_CAPACITY {
                                chan_pre.queues[j].push(msg@)
                            } else {
                                chan_pre.queues[j]
                            }),
                        forall|j: int|
                            q <= j < qn ==> self@.channels[k as int].queues[j]
                                == chan_pre.queues[j],
                    decreases qn - q,
                {
                    let ghost step_pre = self@;
                    proof {
                        assert(step_pre.channels[k as int].queues[q as int] == chan_pre.queues[q
                            as int]);
                    }
                    if self.channels[k].queues[q].len() < CHANNEL_CAPACITY {
                        self.channels[k].queues[q].push(msg.clone());
                        proof {
                            assert(self@.channels[k as int].queues[q as int]
                                =~= step_pre.channels[k as int].queues[q as int].push(msg@));
                            assert(self@.channels[k as int].queues[q as int] == chan_pre.queues[q
                                as int].push(msg@));
                            assert forall|i: int|
                                0 <= i < n && i != k implies self@.channels[i]
                                == step_pre.channels[i] by {
                                assert(self@.channels[i] =~~= step_pre.channels[i]);
                            }
                            assert forall|j: int|
                                0 <= j < qn && j != q implies self@.channels[k as int].queues[j]
                                == step_pre.channels[k as int].queues[j] by {
                                assert(self@.channels[k as int].queues[j]
                                    =~~= step_pre.channels[k as int].queues[j]);
                            }
                        }
                    } else {
                        proof {
                            assert(chan_pre.queues[q as int].len() >= CHANNEL_CAPACITY);
                        }
                    }
                    proof {
                        assert forall|j: int|
                            0 <= j < q + 1 implies #[trigger] self@.channels[k as int].queues[j]
                            == (if chan_pre.queues[j].len() < CHANNEL_CAPACITY {
                            chan_pre.queues[j].push(msg@)
                        } else {
                            chan_pre.queues[j]
                        }) by {
                            if j < q {
                                assert(self@.channels[k as int].queues[j] == step_pre.channels[k
                                    as int].queues[j]);
                                assert(step_pre.channels[k as int].queues[j] == (
                                if chan_pre.queues[j].len() < CHANNEL_CAPACITY {
                                    chan_pre.queues[j].push(msg@)
                                } else {
                                    chan_pre.queues[j]
                                }));
                            }
                        }
                    }
                    q = q + 1;
                }
                proof {
                    assert(channel_after_publish(chan_pre, self@.channels[k as int], msg@));
                }
                k = k + 1;
            } else {
                k = k + 1;
            }
        }
        proof {
            assert forall|i: int, q: int|
                0 <= i < self@.channels.len() && 0 <= q
                    < self@.channels[i].queues.len() implies #[trigger] self@.channels[i].queues[q].len()
                <= CHANNEL_CAPACITY by {
                assert(pre.channels[i].queues[q].len() <= CHANNEL_CAPACITY);
                if pre.channels[i].username == username@ {
                    assert(channel_after_publish(pre.channels[i], self@.channels[i], msg@));
                }
            }
            assert forall|i: int, j: int|
                0 <= i < j < self@.channels.len() implies self@.channels[i].username
                != self@.channels[j].username by {
                assert(pre.channels[i].username != pre.channels[j].username);
                if pre.channels[i].username == username@ {
                    assert(channel_after_publish(pre.channels[i], self@.channels[i], msg@));
                }
                if pre.channels[j].username == username@ {
                    assert(channel_after_publish(pre.channels[j], self@.channels[j], msg@));
                }
            }
        }
    }

    /// The outbound loop's dequeue: takes the oldest pending message off
    /// one subscriber queue, or reports it empty.
    pub fn try_next(&mut self, h: usize, sub: usize) -> (r: Option<Message>)
        requires
            old(self)@.wf(),
            h < old(self)@.channels.len(),
            sub < old(self)@.channels[h as int].queues.len(),
        ensures
            final(self)@.wf(),
            old(self)@.channels[h as int].queues[sub as int].len() == 0 ==> r is None && final(self)@ == old(self)@,
            old(self)@.channels[h as int].queues[sub as int].len() > 0 ==> {
                &&& r is Some
                &&& r.unwrap()@ == old(self)@.channels[h as int].queues[sub as int][0]
                &&& final(self)@.channels[h as int].queues[sub as int] == old(self)@.channels[h as int].queues[sub as int].drop_first()
                &&& final(self)@.channels[h as int].username == old(self)@.channels[h as int].username
                &&& final(self)@.channels[h as int].queues.len() == old(self)@.channels[h as int].queues.len()
                &&& forall|j: int|
                    0 <= j < old(self)@.channels[h as int].queues.len() && j != sub ==> final(self)@.channels[h as int].queues[j] == old(self)@.channels[h as int].queues[j]
                &&& forall|i: int|
                    0 <= i < old(self)@.channels.len() && i != h ==> final(self)@.channels[i]
                        == old(self)@.channels[i]
            },
    {
        let ghost pre = self@;
        if self.channels[h].queues[sub].len() == 0 {
            return None;
        }
        let m = self.channels[h].queues[sub].remove(0);
        proof {
            assert(self@.channels[h as int].queues[sub as int] =~= pre.channels[h as
                int].queues[sub as int].drop_first());
            assert forall|j: int|
                0 <= j < pre.channels[h as int].queues.len() && j
                    != sub implies self@.channels[h as int].queues[j] == pre.channels[h as
                int].queues[j] by {
                assert(self@.channels[h as int].queues[j] =~~= pre.channels[h as int].queues[j]);
            }
            assert forall|i: int|
                0 <= i < pre.channels.len() && i != h implies self@.channels[i]
                == pre.channels[i] by {
                assert(self@.channels[i] =~~= pre.channels[i]);
            }
            assert(self@.channels[h as int].username == pre.channels[h as int].username);
            assert forall|i: int, j: int|
                0 <= i < j < self@.channels.len() implies self@.channels[i].username
                != self@.channels[j].username by {
                assert(pre.channels[i].username != pre.channels[j].username);
            }
            assert forall|i: int, q: int|
                0 <= i < self@.channels.len() && 0 <= q
                    < self@.channels[i].queues.len() implies #[trigger] self@.channels[i].queues[q].len()
                <= CHANNEL_CAPACITY by {
                assert(pre.channels[i].queues[q].len() <= CHANNEL_CAPACITY);
                if i == h && q == sub {
                    assert(self@.channels[i].queues[q].len() < pre.channels[i].queues[q].len());
                }
            }
        }
        Some(m)
    }
}

/// Law: a username determines its channel. Whenever a channel of a
/// well-formed registry holds a name, it is the one the resolution
/// picks, so every registration for that name — from however many
/// sessions — hands back the same handle.
pub proof fn lemma_register_stable(rv: RegistryView, name: Seq<char>, h: int)
    requires
        rv.wf(),
        0 <= h < rv.channels.len(),
        rv.channels[h].username == name,
    ensures
        rv.has_channel(name),
        rv.channel_index(name) == h,
{
    assert(rv.has_channel(name));
    let ci = rv.channel_index(name);
    assert(0 <= ci < rv.channels.len() && rv.channels[ci].username == name);
    if ci != h {
        assert(rv.channels[ci].username != rv.channels[h].username);
        assert(false);
    }
}

} // verus!

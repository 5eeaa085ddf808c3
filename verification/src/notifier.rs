//! Generic single-value publish/subscribe primitive.
//!
//! A `Notifier<T>` fans one value out to every currently registered
//! delivery sink.  Each sink is a queue of values not yet consumed by its
//! subscriber; `notify` appends the value to every live queue, so a
//! subscriber present at the moment of a notify receives the value
//! exactly once, and one that joins later never sees it.

use vstd::prelude::*;
use vstd::pervasive::VecAdditionalExecFns;

verus! {

/// Handle returned by `subscribe`; identifies one delivery sink.
#[derive(Clone, Copy, Debug, PartialEq, Eq, Structural)]
pub struct Subscription {
    /// Unique, monotonically assigned subscription id.
    pub id: u64,
}

struct Sink<T: Copy> {
    id: u64,
    queue: Vec<T>,
}

/// One-to-many value broadcast with dynamic subscriber membership.
pub struct Notifier<T: Copy> {
    next_id: u64,
    sinks: Vec<Sink<T>>,
}

/// Mathematical value of a [`Notifier`]: the id counter and, per sink in
/// registration order, its id and its queue of undelivered values.
#[verifier::ext_equal]
pub struct NotifierView<T> {
    pub next_id: u64,
    pub sinks: Seq<(u64, Seq<T>)>,
}

impl<T> NotifierView<T> {
    /// Ids are unique and below the counter that assigns the next one.
    pub open spec fn inv(self) -> bool {
        &&& forall|j: int, k: int|
            0 <= j < k < self.sinks.len() ==> (#[trigger] self.sinks[j]).0 != (
            #[trigger] self.sinks[k]).0
        &&& forall|j: int| 0 <= j < self.sinks.len() ==> (#[trigger] self.sinks[j]).0 < self.next_id
    }

    /// Whether some sink carries this subscription id.
    pub open spec fn has_sink(self, id: u64) -> bool {
        exists|j: int| 0 <= j < self.sinks.len() && (#[trigger] self.sinks[j]).0 == id
    }

    /// Room for one more subscription id.
    pub open spec fn can_subscribe(self) -> bool {
        self.next_id < u64::MAX
    }

    /// A notifier with no subscribers at all.
    pub open spec fn empty() -> NotifierView<T> {
        NotifierView { next_id: 0, sinks: Seq::empty() }
    }
}

/// Effect of `subscribe`: one fresh sink with an empty queue is added;
/// nothing else moves.
pub open spec fn subscribe_step<T>(pre: NotifierView<T>, post: NotifierView<T>, id: u64) -> bool {
    &&& id == pre.next_id
    &&& post.next_id == pre.next_id + 1
    &&& post.sinks == pre.sinks.push((id, Seq::<T>::empty()))
}

/// Effect of `notify`: the value lands at the back of every live queue,
/// exactly once per sink; membership and ids do not change.
pub open spec fn notify_step<T>(pre: NotifierView<T>, post: NotifierView<T>, v: T) -> bool {
    &&& post.next_id == pre.next_id
    &&& post.sinks.len() == pre.sinks.len()
    &&& forall|j: int|
        0 <= j < pre.sinks.len() ==> (#[trigger] post.sinks[j]).0 == pre.sinks[j].0
            && post.sinks[j].1 == pre.sinks[j].1.push(v)
}

/// Effect of `unsubscribe`: the sink with this id (if any) disappears,
/// everything else keeps its place and its queue.
pub open spec fn unsubscribe_step<T>(pre: NotifierView<T>, post: NotifierView<T>, id: u64) -> bool {
    &&& post.next_id == pre.next_id
    &&& if pre.has_sink(id) {
        exists|j: int|
            0 <= j < pre.sinks.len() && (#[trigger] pre.sinks[j]).0 == id && post.sinks
                == pre.sinks.remove(j)
    } else {
        post.sinks == pre.sinks
    }
}

/// Effect of `receive`: the oldest undelivered value of this sink comes
/// out, or `None` when there is no such sink or nothing is pending.
pub open spec fn receive_step<T>(
    pre: NotifierView<T>,
    post: NotifierView<T>,
    id: u64,
    r: Option<T>,
) -> bool {
    &&& post.next_id == pre.next_id
    &&& if exists|j: int|
        0 <= j < pre.sinks.len() && (#[trigger] pre.sinks[j]).0 == id && pre.sinks[j].1.len() > 0 {
        exists|j: int|
            0 <= j < pre.sinks.len() && (#[trigger] pre.sinks[j]).0 == id && pre.sinks[j].1.len()
                > 0 && r == Some(pre.sinks[j].1[0]) && post.sinks == pre.sinks.update(
                j,
                (id, pre.sinks[j].1.subrange(1, pre.sinks[j].1.len() as int)),
            )
    } else {
        r is None && post.sinks == pre.sinks
    }
}

impl<T: Copy> View for Notifier<T> {
    type V = NotifierView<T>;

    closed spec fn view(&self) -> NotifierView<T> {
        NotifierView {
            next_id: self.next_id,
            sinks: self.sinks@.map_values(|s: Sink<T>| (s.id, s.queue@)),
        }
    }
}

impl<T: Copy> Notifier<T> {
    /// A notifier with no subscribers.
    pub fn new() -> (n: Notifier<T>)
        ensures
            n@ == NotifierView::<T>::empty(),
            n@.inv(),
    {
        let n = Notifier { next_id: 0, sinks: Vec::new() };
        proof {
            assert(n@.sinks =~= Seq::<(u64, Seq<T>)>::empty());
            assert(n@ =~~= NotifierView::<T>::empty());
        }
        n
    }

    /// Registers a new delivery sink and returns the handle through which
    /// the caller later receives values and can unsubscribe.
    pub fn subscribe(&mut self) -> (sub: Subscription)
        requires
            old(self)@.inv(),
            old(self)@.can_subscribe(),
        ensures
            final(self)@.inv(),
            subscribe_step(old(self)@, final(self)@, sub.id),
            !old(self)@.has_sink(sub.id),
    {
        let id = self.next_id;
        self.next_id = self.next_id + 1;
        self.sinks.push(Sink { id, queue: Vec::new() });
        proof {
            assert(self@.sinks =~= old(self)@.sinks.push((id, Seq::<T>::empty())));
        }
        Subscription { id }
    }

    /// Delivers `v` to every currently registered sink.  Fire-and-forget:
    /// there is no return value and no ordering promise between sinks.
    pub fn notify(&mut self, v: T)
        requires
            old(self)@.inv(),
        ensures
            final(self)@.inv(),
            notify_step(old(self)@, final(self)@, v),
    {
        let ghost pre = self@;
        let n = self.sinks.len();
        let mut j: usize = 0;
        while j < n
            invariant
                n == self.sinks.len(),
                j <= n,
                self@.next_id == pre.next_id,
                self@.sinks.len() == pre.sinks.len(),
                forall|k: int|
                    0 <= k < j ==> (#[trigger] self@.sinks[k]).0 == pre.sinks[k].0
                        && self@.sinks[k].1 == pre.sinks[k].1.push(v),
                forall|k: int| j <= k < n ==> (#[trigger] self@.sinks[k]) == pre.sinks[k],
            decreases n - j,
        {
            let ghost vpre = self@;
            let mut tmp = Sink { id: 0, queue: Vec::new() };
            self.sinks.set_and_swap(j, &mut tmp);
            tmp.queue.push(v);
            self.sinks.set_and_swap(j, &mut tmp);
            proof {
                assert(self@.sinks[j as int].0 == vpre.sinks[j as int].0);
                assert(self@.sinks[j as int].1 =~= vpre.sinks[j as int].1.push(v));
                assert(forall|k: int|
                    0 <= k < n && k != j ==> (#[trigger] self@.sinks[k]) == vpre.sinks[k]);
            }
            j = j + 1;
        }
    }

    /// Removes the sink behind this handle; a handle that was already
    /// unsubscribed (or never existed) changes nothing.
    pub fn unsubscribe(&mut self, sub: Subscription)
        requires
            old(self)@.inv(),
        ensures
            final(self)@.inv(),
            unsubscribe_step(old(self)@, final(self)@, sub.id),
    {
        let ghost pre = self@;
        let n = self.sinks.len();
        let mut j: usize = 0;
        while j < n
            invariant
                n == self.sinks.len(),
                j <= n,
                self@ == pre,
                pre == old(self)@,
                pre.inv(),
                forall|k: int| 0 <= k < j ==> (#[trigger] pre.sinks[k]).0 != sub.id,
            decreases n - j,
        {
            if self.sinks[j].id == sub.id {
                self.sinks.remove(j);
                proof {
                    let after = self@;
                    assert(after.sinks =~= pre.sinks.remove(j as int));
                    assert forall|a: int|
                        0 <= a < after.sinks.len() implies (#[trigger] after.sinks[a]) == (
                    if a < j {
                        pre.sinks[a]
                    } else {
                        pre.sinks[a + 1]
                    }) by {}
                    assert(after.inv());
                    assert((pre.sinks[j as int]).0 == sub.id);
                    assert(pre.has_sink(sub.id));
                }
                return ;
            }
            j = j + 1;
        }
        proof {
            assert(!pre.has_sink(sub.id));
        }
    }

    /// Hands out the oldest value pending for this handle, if any.
    pub fn receive(&mut self, sub: &Subscription) -> (r: Option<T>)
        requires
            old(self)@.inv(),
        ensures
            final(self)@.inv(),
            receive_step(old(self)@, final(self)@, sub.id, r),
    {
        let ghost pre = self@;
        let n = self.sinks.len();
        let mut j: usize = 0;
        while j < n
            invariant
                n == self.sinks.len(),
                j <= n,
                self@ == pre,
                pre == old(self)@,
                pre.inv(),
                forall|k: int| 0 <= k < j ==> (#[trigger] pre.sinks[k]).0 != sub.id,
            decreases n - j,
        {
            if self.sinks[j].id == sub.id {
                let mut tmp = Sink { id: 0, queue: Vec::new() };
                self.sinks.set_and_swap(j, &mut tmp);
                if tmp.queue.len() > 0 {
                    let v = tmp.queue.remove(0);
                    self.sinks.set_and_swap(j, &mut tmp);
                    proof {
                        let ji = j as int;
                        let rest = pre.sinks[ji].1.subrange(1, pre.sinks[ji].1.len() as int);
                        assert(self@.sinks[ji].0 == sub.id);
                        assert(self@.sinks[ji].1 =~= rest);
                        assert forall|k: int|
                            0 <= k < pre.sinks.len() && k != ji implies (#[trigger] self@.sinks[k])
                            == pre.sinks[k] by {}
                        assert(self@.sinks =~= pre.sinks.update(ji, (sub.id, rest)));
                        assert(v == pre.sinks[ji].1[0]);
                        assert(pre.sinks[ji].0 == sub.id && pre.sinks[ji].1.len() > 0);
                        assert(self@.inv());
                    }
                    return Some(v);
                } else {
                    self.sinks.set_and_swap(j, &mut tmp);
                    proof {
                        let ji = j as int;
                        assert(self@.sinks =~= pre.sinks);
                        assert forall|k: int|
                            0 <= k < pre.sinks.len() && (#[trigger] pre.sinks[k]).0
                                == sub.id implies !(pre.sinks[k].1.len() > 0) by {
                            if k < ji {
                                assert(pre.sinks[k].0 != sub.id);
                            } else if k > ji {
                                assert(pre.sinks[ji].0 == pre.sinks[k].0);
                                assert(false);
                            } else {
                                assert(pre.sinks[ji].1.len() == 0);
                            }
                        }
                    }
                    return None;
                }
            }
            j = j + 1;
        }
        proof {
            assert(!pre.has_sink(sub.id));
        }
        None
    }

    /// How many sinks are currently registered.
    pub fn subscriber_count(&self) -> (c: usize)
        ensures
            c == self@.sinks.len(),
    {
        self.sinks.len()
    }
}

/// How often `v` occurs in a delivery queue.
pub open spec fn occurrences<T>(q: Seq<T>, v: T) -> nat
    decreases q.len(),
{
    if q.len() == 0 {
        0
    } else {
        occurrences(q.drop_last(), v) + if q.last() == v {
            1nat
        } else {
            0nat
        }
    }
}

/// Law: every subscriber present at the moment of a `notify` receives the
/// value exactly once — each live queue gains exactly one occurrence.
pub proof fn lemma_notify_delivers_exactly_once<T>(
    pre: NotifierView<T>,
    post: NotifierView<T>,
    v: T,
    j: int,
)
    requires
        notify_step(pre, post, v),
        0 <= j < pre.sinks.len(),
    ensures
        occurrences(post.sinks[j].1, v) == occurrences(pre.sinks[j].1, v) + 1,
{
    let q = pre.sinks[j].1;
    assert(post.sinks[j].1 == q.push(v));
    assert(q.push(v).drop_last() =~= q);
    assert(q.push(v).last() == v);
}

/// Law: a subscriber that joins after a `notify` has returned does not
/// receive that call's value — its queue starts out empty.
pub proof fn lemma_late_subscriber_gets_nothing<T>(
    pre: NotifierView<T>,
    mid: NotifierView<T>,
    post: NotifierView<T>,
    v: T,
    id: u64,
)
    requires
        notify_step(pre, mid, v),
        subscribe_step(mid, post, id),
    ensures
        post.sinks.last() == (id, Seq::<T>::empty()),
        occurrences(post.sinks.last().1, v) == 0,
{
    assert(post.sinks.last() == (id, Seq::<T>::empty()));
}

} // verus!

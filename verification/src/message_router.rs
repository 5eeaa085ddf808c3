//! Typed publish/subscribe keyed by message kind.
//!
//! A `MessageRouter` keeps a single subscriber registry keyed by packet
//! type.  Routing a decoded message delivers it only to the subscribers
//! registered for that message's kind (narrow-cast); routing a terminal
//! error delivers it to the subscribers of every kind at once
//! (broadcast), since a dead channel invalidates all pending
//! expectations simultaneously.

use vstd::prelude::*;
use vstd::pervasive::VecAdditionalExecFns;

use crate::error::NetError;
use crate::messages::MessageResult;
use crate::messages::MessageResultView;
use crate::messages::MessageView;
use crate::messages::PacketType;
use crate::messages::dup_result;
use crate::messages::result_view;
use crate::notifier::occurrences;

verus! {

/// Handle returned by `subscribe`; scoped to one message kind.
#[derive(Clone, Copy, Debug, PartialEq, Eq, Structural)]
pub struct MessageSubscription {
    /// Unique, monotonically assigned subscription id.
    pub id: u64,
    /// The message kind this subscription receives.
    pub kind: PacketType,
}

struct RouterSink {
    id: u64,
    kind: PacketType,
    queue: Vec<MessageResult>,
}

/// Routes each incoming message, or a terminal failure, to the
/// subscribers interested in it.
pub struct MessageRouter {
    next_id: u64,
    sinks: Vec<RouterSink>,
}

/// Mathematical value of one registered sink.
#[verifier::ext_equal]
pub struct RouterSinkView {
    pub id: u64,
    pub kind: PacketType,
    pub queue: Seq<MessageResultView>,
}

/// Mathematical value of a [`MessageRouter`].
#[verifier::ext_equal]
pub struct RouterView {
    pub next_id: u64,
    pub sinks: Seq<RouterSinkView>,
}

impl RouterView {
    /// Ids are unique and below the counter that assigns the next one.
    pub open spec fn inv(self) -> bool {
        &&& forall|j: int, k: int|
            0 <= j < k < self.sinks.len() ==> (#[trigger] self.sinks[j]).id != (
            #[trigger] self.sinks[k]).id
        &&& forall|j: int|
            0 <= j < self.sinks.len() ==> (#[trigger] self.sinks[j]).id < self.next_id
    }

    /// Whether some sink carries this subscription id.
    pub open spec fn has_sink(self, id: u64) -> bool {
        exists|j: int| 0 <= j < self.sinks.len() && (#[trigger] self.sinks[j]).id == id
    }

    /// Room for one more subscription id.
    pub open spec fn can_subscribe(self) -> bool {
        self.next_id < u64::MAX
    }

    /// A router with no subscribers at all.
    pub open spec fn empty() -> RouterView {
        RouterView { next_id: 0, sinks: Seq::empty() }
    }
}

/// Whether routing `r` delivers to a sink registered for `kind`: a
/// decoded message goes only to its own kind, a terminal error to every
/// kind.  This duality is the router's defining contract.
pub open spec fn delivers_to(r: MessageResultView, kind: PacketType) -> bool {
    match r {
        Ok(m) => m.packet_type == kind,
        Err(_) => true,
    }
}

/// Effect of `subscribe`: one fresh sink for `kind` with an empty queue.
pub open spec fn router_subscribe_step(
    pre: RouterView,
    post: RouterView,
    id: u64,
    kind: PacketType,
) -> bool {
    &&& id == pre.next_id
    &&& post.next_id == pre.next_id + 1
    &&& post.sinks == pre.sinks.push(
        RouterSinkView { id, kind, queue: Seq::empty() },
    )
}

/// Effect of `notify`: `r` lands exactly once at the back of every queue
/// it delivers to; every other queue, and all ids and kinds, stay as they
/// were.
pub open spec fn route_step(pre: RouterView, post: RouterView, r: MessageResultView) -> bool {
    &&& post.next_id == pre.next_id
    &&& post.sinks.len() == pre.sinks.len()
    &&& forall|j: int|
        0 <= j < pre.sinks.len() ==> (#[trigger] post.sinks[j]).id == pre.sinks[j].id
            && post.sinks[j].kind == pre.sinks[j].kind && post.sinks[j].queue == (
        if delivers_to(r, pre.sinks[j].kind) {
            pre.sinks[j].queue.push(r)
        } else {
            pre.sinks[j].queue
        })
}

/// Effect of `unsubscribe`: the sink with this id (if any) disappears.
pub open spec fn router_unsubscribe_step(pre: RouterView, post: RouterView, id: u64) -> bool {
    &&& post.next_id == pre.next_id
    &&& if pre.has_sink(id) {
        exists|j: int|
            0 <= j < pre.sinks.len() && (#[trigger] pre.sinks[j]).id == id && post.sinks
                == pre.sinks.remove(j)
    } else {
        post.sinks == pre.sinks
    }
}

/// Effect of `receive`: the oldest undelivered result of this sink comes
/// out, or `None` when there is no such sink or nothing is pending.
pub open spec fn router_receive_step(
    pre: RouterView,
    post: RouterView,
    id: u64,
    r: Option<MessageResultView>,
) -> bool {
    &&& post.next_id == pre.next_id
    &&& if exists|j: int|
        0 <= j < pre.sinks.len() && (#[trigger] pre.sinks[j]).id == id && pre.sinks[j].queue.len()
            > 0 {
        exists|j: int|
            0 <= j < pre.sinks.len() && (#[trigger] pre.sinks[j]).id == id
                && pre.sinks[j].queue.len() > 0 && r == Some(pre.sinks[j].queue[0]) && post.sinks
                == pre.sinks.update(
                j,
                RouterSinkView {
                    id,
                    kind: pre.sinks[j].kind,
                    queue: pre.sinks[j].queue.subrange(1, pre.sinks[j].queue.len() as int),
                },
            )
    } else {
        r is None && post.sinks == pre.sinks
    }
}

impl View for MessageRouter {
    type V = RouterView;

    closed spec fn view(&self) -> RouterView {
        RouterView {
            next_id: self.next_id,
            sinks: self.sinks@.map_values(
                |s: RouterSink| RouterSinkView { id: s.id, kind: s.kind, queue: s.queue@.map_values(|m: MessageResult| result_view(m)) },
            ),
        }
    }
}

impl MessageRouter {
    /// A router with no subscribers.
    pub fn new() -> (n: MessageRouter)
        ensures
            n@ == RouterView::empty(),
            n@.inv(),
    {
        let n = MessageRouter { next_id: 0, sinks: Vec::new() };
        proof {
            assert(n@.sinks =~~= Seq::<RouterSinkView>::empty());
            assert(n@ == RouterView::empty());
        }
        n
    }

    /// Registers a new sink for one message kind and returns its handle.
    pub fn subscribe(&mut self, kind: PacketType) -> (sub: MessageSubscription)
        requires
            old(self)@.inv(),
            old(self)@.can_subscribe(),
        ensures
            final(self)@.inv(),
            router_subscribe_step(old(self)@, final(self)@, sub.id, kind),
            sub.kind == kind,
            !old(self)@.has_sink(sub.id),
    {
        let id = self.next_id;
        self.next_id = self.next_id + 1;
        self.sinks.push(RouterSink { id, kind, queue: Vec::new() });
        proof {
            assert(self@.sinks =~~= old(self)@.sinks.push(
                RouterSinkView { id, kind, queue: Seq::empty() },
            ));
        }
        MessageSubscription { id, kind }
    }

    /// Routes one result: a decoded message to the subscribers of its
    /// kind only, a terminal error to the subscribers of every kind.
    pub fn notify(&mut self, r: &MessageResult)
        requires
            old(self)@.inv(),
        ensures
            final(self)@.inv(),
            route_step(old(self)@, final(self)@, result_view(*r)),
    {
        let ghost pre = self@;
        let n = self.sinks.len();
        let mut j: usize = 0;
        while j < n
            invariant
                n == self.sinks.len(),
                j <= n,
                self@.next_id == pre.next_id,
                self@.sinks.len() == pre.sinks.len(),
                forall|k: int|
                    0 <= k < j ==> (#[trigger] self@.sinks[k]).id == pre.sinks[k].id
                        && self@.sinks[k].kind == pre.sinks[k].kind && self@.sinks[k].queue == (
                    if delivers_to(result_view(*r), pre.sinks[k].kind) {
                        pre.sinks[k].queue.push(result_view(*r))
                    } else {
                        pre.sinks[k].queue
                    }),
                forall|k: int| j <= k < n ==> (#[trigger] self@.sinks[k]) == pre.sinks[k],
            decreases n - j,
        {
            let ghost vpre = self@;
            let deliver = match r {
                Ok(m) => self.sinks[j].kind == m.packet_type(),
                Err(_) => true,
            };
            if deliver {
                let mut tmp = RouterSink { id: 0, kind: 0, queue: Vec::new() };
                self.sinks.set_and_swap(j, &mut tmp);
                tmp.queue.push(dup_result(r));
                self.sinks.set_and_swap(j, &mut tmp);
                proof {
                    assert(self@.sinks[j as int].id == vpre.sinks[j as int].id);
                    assert(self@.sinks[j as int].kind == vpre.sinks[j as int].kind);
                    assert(self@.sinks[j as int].queue =~= vpre.sinks[j as int].queue.push(
                        result_view(*r),
                    ));
                    assert(forall|k: int|
                        0 <= k < n && k != j ==> (#[trigger] self@.sinks[k]) == vpre.sinks[k]);
                }
            }
            j = j + 1;
        }
    }

    /// Removes the sink behind this handle; an unknown handle changes
    /// nothing.
    pub fn unsubscribe(&mut self, sub: MessageSubscription)
        requires
            old(self)@.inv(),
        ensures
            final(self)@.inv(),
            router_unsubscribe_step(old(self)@, final(self)@, sub.id),
    {
        let ghost pre = self@;
        let n = self.sinks.len();
        let mut j: usize = 0;
        while j < n
            invariant
                n == self.sinks.len(),
                j <= n,
                self@ == pre,
                pre == old(self)@,
                pre.inv(),
                forall|k: int| 0 <= k < j ==> (#[trigger] pre.sinks[k]).id != sub.id,
            decreases n - j,
        {
            if self.sinks[j].id == sub.id {
                self.sinks.remove(j);
                proof {
                    let after = self@;
                    assert(after.sinks =~= pre.sinks.remove(j as int));
                    assert forall|a: int|
                        0 <= a < after.sinks.len() implies (#[trigger] after.sinks[a]) == (
                    if a < j {
                        pre.sinks[a]
                    } else {
                        pre.sinks[a + 1]
                    }) by {}
                    assert(after.inv());
                    assert((pre.sinks[j as int]).id == sub.id);
                    assert(pre.has_sink(sub.id));
                }
                return ;
            }
            j = j + 1;
        }
        proof {
            assert(!pre.has_sink(sub.id));
        }
    }

    /// Hands out the oldest result pending for this handle, if any.
    pub fn receive(&mut self, sub: &MessageSubscription) -> (r: Option<MessageResult>)
        requires
            old(self)@.inv(),
        ensures
            final(self)@.inv(),
            router_receive_step(
                old(self)@,
                final(self)@,
                sub.id,
                match r {
                    Some(m) => Some(result_view(m)),
                    None => None,
                },
            ),
    {
        let ghost pre = self@;
        let n = self.sinks.len();
        let mut j: usize = 0;
        while j < n
            invariant
                n == self.sinks.len(),
                j <= n,
                self@ == pre,
                pre == old(self)@,
                pre.inv(),
                forall|k: int| 0 <= k < j ==> (#[trigger] pre.sinks[k]).id != sub.id,
            decreases n - j,
        {
            if self.sinks[j].id == sub.id {
                let mut tmp = RouterSink { id: 0, kind: 0, queue: Vec::new() };
                self.sinks.set_and_swap(j, &mut tmp);
                if tmp.queue.len() > 0 {
                    let v = tmp.queue.remove(0);
                    self.sinks.set_and_swap(j, &mut tmp);
                    proof {
                        let ji = j as int;
                        let rest = pre.sinks[ji].queue.subrange(
                            1,
                            pre.sinks[ji].queue.len() as int,
                        );
                        assert(self@.sinks[ji].id == sub.id);
                        assert(self@.sinks[ji].kind == pre.sinks[ji].kind);
                        assert(self@.sinks[ji].queue =~= rest);
                        assert forall|k: int|
                            0 <= k < pre.sinks.len() && k != ji implies (#[trigger] self@.sinks[k])
                            == pre.sinks[k] by {}
                        assert(self@.sinks =~= pre.sinks.update(
                            ji,
                            RouterSinkView { id: sub.id, kind: pre.sinks[ji].kind, queue: rest },
                        ));
                        assert(result_view(v) == pre.sinks[ji].queue[0]);
                        assert(pre.sinks[ji].id == sub.id && pre.sinks[ji].queue.len() > 0);
                        assert(self@.inv());
                    }
                    return Some(v);
                } else {
                    self.sinks.set_and_swap(j, &mut tmp);
                    proof {
                        let ji = j as int;
                        assert(self@.sinks =~= pre.sinks);
                        assert forall|k: int|
                            0 <= k < pre.sinks.len() && (#[trigger] pre.sinks[k]).id
                                == sub.id implies !(pre.sinks[k].queue.len() > 0) by {
                            if k < ji {
                                assert(pre.sinks[k].id != sub.id);
                            } else if k > ji {
                                assert(pre.sinks[ji].id == pre.sinks[k].id);
                                assert(false);
                            } else {
                                assert(pre.sinks[ji].queue.len() == 0);
                            }
                        }
                    }
                    return None;
                }
            }
            j = j + 1;
        }
        proof {
            assert(!pre.has_sink(sub.id));
        }
        None
    }

    /// How many sinks are currently registered, over all kinds.
    pub fn subscriber_count(&self) -> (c: usize)
        ensures
            c == self@.sinks.len(),
    {
        self.sinks.len()
    }
}

/// Law: a decoded message of one kind is delivered to no subscriber that
/// is registered only for a different kind — that sink's queue does not
/// change at all.
pub proof fn lemma_narrowcast_skips_other_kinds(
    pre: RouterView,
    post: RouterView,
    m: MessageView,
    j: int,
)
    requires
        route_step(pre, post, Ok(m)),
        0 <= j < pre.sinks.len(),
        pre.sinks[j].kind != m.packet_type,
    ensures
        post.sinks[j].queue == pre.sinks[j].queue,
{
}

/// Law: a decoded message is delivered to every subscriber of its own
/// kind exactly once.
pub proof fn lemma_message_delivered_to_own_kind(
    pre: RouterView,
    post: RouterView,
    m: MessageView,
    j: int,
)
    requires
        route_step(pre, post, Ok(m)),
        0 <= j < pre.sinks.len(),
        pre.sinks[j].kind == m.packet_type,
    ensures
        occurrences(post.sinks[j].queue, Ok(m)) == occurrences(pre.sinks[j].queue, Ok(m)) + 1,
{
    let q = pre.sinks[j].queue;
    let r = Ok::<MessageView, NetError>(m);
    assert(post.sinks[j].queue == q.push(r));
    assert(q.push(r).drop_last() =~= q);
    assert(q.push(r).last() == r);
}

/// Law: a terminal error is broadcast: every registered sink — whatever
/// its kind, and even one that never received a message — gains exactly
/// one occurrence of the error.
pub proof fn lemma_error_broadcast(pre: RouterView, post: RouterView, e: NetError, j: int)
    requires
        route_step(pre, post, Err(e)),
        0 <= j < pre.sinks.len(),
    ensures
        occurrences(post.sinks[j].queue, Err(e)) == occurrences(pre.sinks[j].queue, Err(e)) + 1,
{
    let q = pre.sinks[j].queue;
    let r = Err::<MessageView, NetError>(e);
    assert(post.sinks[j].queue == q.push(r));
    assert(q.push(r).drop_last() =~= q);
    assert(q.push(r).last() == r);
}

} // verus!

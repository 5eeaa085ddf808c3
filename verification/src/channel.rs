//! One established peer connection.
//!
//! A `Channel` owns the state of one duplexed connection: the log of
//! messages accepted by the write half, the router that fans inbound
//! messages out by kind, the notifier that announces its stop, the
//! cancellable task that stands for its receive loop, and the stopped
//! flag.  The blocking reads and writes themselves happen outside; their
//! outcomes are handed in as plain values, and every decision taken on
//! them — when to stop, what to deliver, what a caller gets back — is
//! verified here.
//!
//! Stop is effectively atomic for external callers: only the first
//! trigger (send failure, receive failure, explicit caller) wins and
//! notifies; later triggers return immediately without double-notifying.

use vstd::prelude::*;

use crate::error::CodecError;
use crate::error::NetError;
use crate::message_router::MessageRouter;
use crate::message_router::MessageSubscription;
use crate::message_router::RouterView;
use crate::message_router::route_step;
use crate::message_router::router_receive_step;
use crate::message_router::router_subscribe_step;
use crate::messages::Message;
use crate::messages::MessageResult;
use crate::messages::MessageResultView;
use crate::messages::MessageView;
use crate::messages::PacketType;
use crate::messages::result_view;
use crate::notifier::Notifier;
use crate::notifier::NotifierView;
use crate::notifier::Subscription;
use crate::notifier::notify_step;
use crate::notifier::occurrences;
use crate::notifier::receive_step;
use crate::notifier::subscribe_step;
use crate::notifier::lemma_notify_delivers_exactly_once;
use crate::settings::PeerAddress;
use crate::settings::Settings;
use crate::settings::SettingsView;
use crate::task::CancellableTask;
use crate::task::TaskState;
use crate::task::TaskView;

verus! {

/// The live, bidirectional connection abstraction to one peer.
pub struct Channel {
    address: PeerAddress,
    settings: Settings,
    router: MessageRouter,
    stop_notifier: Notifier<NetError>,
    receive_task: CancellableTask,
    stopped: bool,
    sent: Vec<Message>,
}

/// Mathematical value of a [`Channel`].
#[verifier::ext_equal]
pub struct ChannelView {
    pub address: PeerAddress,
    pub settings: SettingsView,
    pub router: RouterView,
    pub stop: NotifierView<NetError>,
    pub task: TaskView,
    pub stopped: bool,
    /// Messages accepted by the write half so far, in order.
    pub sent: Seq<MessageView>,
}

impl ChannelView {
    /// Both subscriber registries are well formed.
    pub open spec fn inv(self) -> bool {
        &&& self.router.inv()
        &&& self.stop.inv()
    }
}

/// The state of a channel that was just created around a fresh
/// connection: nothing sent, nobody subscribed, receive task not yet
/// started.
pub open spec fn initial_channel(address: PeerAddress, settings: SettingsView) -> ChannelView {
    ChannelView {
        address,
        settings,
        router: RouterView::empty(),
        stop: NotifierView::<NetError>::empty(),
        task: TaskView {
            state: TaskState::Created,
            completed: false,
            stop_value: NetError::ServiceStopped,
        },
        stopped: false,
        sent: Seq::empty(),
    }
}

/// Effect of `stop`: the first caller flips the stopped flag, delivers
/// `ChannelStopped` to every stop subscriber and halts the receive task;
/// every later caller changes nothing.
pub open spec fn stop_step(pre: ChannelView, post: ChannelView) -> bool {
    if pre.stopped {
        post == pre
    } else {
        &&& post.stopped
        &&& post.address == pre.address
        &&& post.settings == pre.settings
        &&& post.router == pre.router
        &&& post.sent == pre.sent
        &&& notify_step(pre.stop, post.stop, NetError::ChannelStopped)
        &&& post.task == (TaskView {
            state: TaskState::Stopped,
            completed: pre.task.completed,
            stop_value: pre.task.stop_value,
        })
    }
}

/// Effect of `send`: a stopped channel rejects the message untouched,
/// whatever the write half would have said; otherwise a successful write
/// appends the message to the log, and a failed write stops the channel
/// and reports `ChannelStopped` — the underlying cause is not propagated.
pub open spec fn send_step(
    pre: ChannelView,
    post: ChannelView,
    m: MessageView,
    write_result: Result<(), CodecError>,
    r: Result<(), NetError>,
) -> bool {
    if pre.stopped {
        post == pre && r == Err::<(), NetError>(NetError::ChannelStopped)
    } else {
        match write_result {
            Ok(_) => post == (ChannelView { sent: pre.sent.push(m), ..pre }) && r == Ok::<
                (),
                NetError,
            >(()),
            Err(_) => stop_step(pre, post) && r == Err::<(), NetError>(NetError::ChannelStopped),
        }
    }
}

/// What the read half produced for one receive attempt, as a value.
pub open spec fn read_view(r: Result<Message, CodecError>) -> Result<MessageView, CodecError> {
    match r {
        Ok(m) => Ok(m@),
        Err(e) => Err(e),
    }
}

/// Index of the first failed read in a script of read outcomes, or the
/// script's length when every read decoded.
pub open spec fn first_failure(reads: Seq<Result<MessageView, CodecError>>) -> int
    decreases reads.len(),
{
    if reads.len() == 0 {
        0
    } else if reads[0] is Err {
        0
    } else {
        1 + first_failure(reads.drop_first())
    }
}

/// The deliveries a subscriber of `kind` owes to a prefix of decoded
/// reads: every decoded message of that kind, in arrival order.
pub open spec fn routed(
    reads: Seq<Result<MessageView, CodecError>>,
    kind: PacketType,
) -> Seq<MessageResultView>
    decreases reads.len(),
{
    if reads.len() == 0 {
        Seq::empty()
    } else {
        let rest = routed(reads.drop_last(), kind);
        match reads.last() {
            Ok(m) => if m.packet_type == kind {
                rest.push(Ok(m))
            } else {
                rest
            },
            Err(_) => rest,
        }
    }
}

/// Effect of running the receive loop over a script of read outcomes:
/// every decoded message before the first failure is narrow-cast to its
/// kind; the first failure stops the channel and ends the loop with
/// `ChannelStopped`; a script with no failure leaves the loop pending.
pub open spec fn receive_loop_step(
    pre: ChannelView,
    post: ChannelView,
    reads: Seq<Result<MessageView, CodecError>>,
    outcome: Option<NetError>,
) -> bool {
    let cut = first_failure(reads);
    &&& post.address == pre.address
    &&& post.settings == pre.settings
    &&& post.sent == pre.sent
    &&& post.router.next_id == pre.router.next_id
    &&& post.router.sinks.len() == pre.router.sinks.len()
    &&& forall|k: int|
        0 <= k < pre.router.sinks.len() ==> (#[trigger] post.router.sinks[k]).id
            == pre.router.sinks[k].id && post.router.sinks[k].kind == pre.router.sinks[k].kind
            && post.router.sinks[k].queue == pre.router.sinks[k].queue + routed(
            reads.take(cut),
            pre.router.sinks[k].kind,
        )
    &&& if cut < reads.len() {
        &&& outcome == Some(NetError::ChannelStopped)
        &&& post.stopped
        &&& notify_step(pre.stop, post.stop, NetError::ChannelStopped)
        &&& post.task == (TaskView {
            state: TaskState::Stopped,
            completed: pre.task.completed,
            stop_value: pre.task.stop_value,
        })
    } else {
        &&& outcome is None
        &&& post.stopped == pre.stopped
        &&& post.stop == pre.stop
        &&& post.task == pre.task
    }
}

impl View for Channel {
    type V = ChannelView;

    closed spec fn view(&self) -> ChannelView {
        ChannelView {
            address: self.address,
            settings: self.settings@,
            router: self.router@,
            stop: self.stop_notifier@,
            task: self.receive_task@,
            stopped: self.stopped,
            sent: self.sent@.map_values(|m: Message| m@),
        }
    }
}

impl Channel {
    /// Wraps a freshly established connection to `address` under the
    /// given configuration.
    pub fn new(address: PeerAddress, settings: Settings) -> (c: Channel)
        ensures
            c@ == initial_channel(address, settings@),
            c@.inv(),
    {
        let c = Channel {
            address,
            settings,
            router: MessageRouter::new(),
            stop_notifier: Notifier::new(),
            receive_task: CancellableTask::new(),
            stopped: false,
            sent: Vec::new(),
        };
        proof {
            assert(c@.sent =~= Seq::<MessageView>::empty());
            assert(c@ =~~= initial_channel(address, settings@));
        }
        c
    }

    /// Starts the receive loop as a cancellable task.  Starting twice is
    /// an explicit error, never a duplicate loop.
    pub fn start(&mut self) -> (r: Result<(), NetError>)
        ensures
            old(self)@.task.state is Created ==> r is Ok && final(self)@ == (ChannelView {
                task: TaskView {
                    state: TaskState::Started,
                    completed: old(self)@.task.completed,
                    stop_value: NetError::ServiceStopped,
                },
                ..old(self)@
            }),
            !(old(self)@.task.state is Created) ==> r == Err::<(), NetError>(
                NetError::OperationFailed,
            ) && final(self)@ == old(self)@,
    {
        self.receive_task.start(NetError::ServiceStopped)
    }

    /// Stops the channel: flips the flag, tells every stop subscriber
    /// `ChannelStopped`, and halts the receive task.  Safe to call from
    /// several triggers; only the first one has any effect.
    pub fn stop(&mut self)
        requires
            old(self)@.inv(),
        ensures
            final(self)@.inv(),
            stop_step(old(self)@, final(self)@),
    {
        if self.stopped {
            return ;
        }
        self.stopped = true;
        self.stop_notifier.notify(NetError::ChannelStopped);
        let _won = self.receive_task.stop();
    }

    /// Sends one message over the write half.  `write_result` is what the
    /// encoding collaborator answered for the attempted write; on a
    /// stopped channel no attempt may be made and the argument is
    /// ignored — the call returns `ChannelStopped` and changes nothing.
    /// A failed write stops the channel and also yields `ChannelStopped`.
    pub fn send(&mut self, message: &Message, write_result: Result<(), CodecError>) -> (r: Result<
        (),
        NetError,
    >)
        requires
            old(self)@.inv(),
        ensures
            final(self)@.inv(),
            send_step(old(self)@, final(self)@, message@, write_result, r),
    {
        if self.stopped {
            return Err(NetError::ChannelStopped);
        }
        match write_result {
            Ok(_) => {
                self.sent.push(message.dup());
                proof {
                    assert(self@.sent =~= old(self)@.sent.push(message@));
                    assert(self@ =~~= (ChannelView { sent: old(self)@.sent.push(message@), ..old(self)@ }));
                }
                Ok(())
            },
            Err(_) => {
                self.stop();
                Err(NetError::ChannelStopped)
            },
        }
    }

    /// Registers interest in inbound messages of one kind; usable at any
    /// point in the channel's lifetime, also before `start`.
    pub fn subscribe_msg(&mut self, packet_type: PacketType) -> (sub: MessageSubscription)
        requires
            old(self)@.inv(),
            old(self)@.router.can_subscribe(),
        ensures
            final(self)@.inv(),
            router_subscribe_step(old(self)@.router, final(self)@.router, sub.id, packet_type),
            sub.kind == packet_type,
            final(self)@ == (ChannelView { router: final(self)@.router, ..old(self)@ }),
    {
        self.router.subscribe(packet_type)
    }

    /// Registers interest in the channel's stop event; the subscriber is
    /// notified exactly once, when the winning `stop` runs, with
    /// `ChannelStopped`.
    pub fn subscribe_stop(&mut self) -> (sub: Subscription)
        requires
            old(self)@.inv(),
            old(self)@.stop.can_subscribe(),
        ensures
            final(self)@.inv(),
            subscribe_step(old(self)@.stop, final(self)@.stop, sub.id),
            final(self)@ == (ChannelView { stop: final(self)@.stop, ..old(self)@ }),
    {
        self.stop_notifier.subscribe()
    }

    /// Hands out the oldest inbound result pending for a message
    /// subscription, if any.
    pub fn receive_msg(&mut self, sub: &MessageSubscription) -> (r: Option<MessageResult>)
        requires
            old(self)@.inv(),
        ensures
            final(self)@.inv(),
            router_receive_step(
                old(self)@.router,
                final(self)@.router,
                sub.id,
                match r {
                    Some(m) => Some(result_view(m)),
                    None => None,
                },
            ),
            final(self)@ == (ChannelView { router: final(self)@.router, ..old(self)@ }),
    {
        self.router.receive(sub)
    }

    /// Hands out the oldest stop notification pending for a stop
    /// subscription, if any.
    pub fn receive_stop(&mut self, sub: &Subscription) -> (r: Option<NetError>)
        requires
            old(self)@.inv(),
        ensures
            final(self)@.inv(),
            receive_step(old(self)@.stop, final(self)@.stop, sub.id, r),
            final(self)@ == (ChannelView { stop: final(self)@.stop, ..old(self)@ }),
    {
        self.stop_notifier.receive(sub)
    }

    /// The peer's network address.
    pub fn address(&self) -> (a: PeerAddress)
        ensures
            a == self@.address,
    {
        self.address
    }

    /// Whether the channel has been stopped.
    pub fn is_stopped(&self) -> (b: bool)
        ensures
            b == self@.stopped,
    {
        self.stopped
    }

    /// The messages accepted by the write half so far, in order.
    pub fn sent_messages(&self) -> (s: &Vec<Message>)
        ensures
            s@.map_values(|m: Message| m@) == self@.sent,
    {
        &self.sent
    }

    /// The lifecycle state of the receive task.
    pub fn receive_task_state(&self) -> (s: TaskState)
        ensures
            s == self@.task.state,
    {
        self.receive_task.state()
    }

    /// Whether a read failure is a clean end of stream (the peer simply
    /// disconnected) rather than a genuine error; the distinction only
    /// affects how the event is reported, never what happens next.
    pub fn is_eof_error(err: &CodecError) -> (b: bool)
        ensures
            b == (*err is UnexpectedEof),
    {
        matches!(err, CodecError::UnexpectedEof)
    }

    /// Runs the receive loop over a script of read outcomes: each decoded
    /// message is routed to its subscribers; the first failure — clean
    /// end-of-stream or not — stops the channel and ends the loop with
    /// `ChannelStopped`.  A failure ends the channel permanently; no read
    /// is retried.  When the script runs out without a failure the loop
    /// is merely pending and reports no outcome.
    pub fn receive_loop(&mut self, reads: &Vec<Result<Message, CodecError>>) -> (outcome: Option<
        NetError,
    >)
        requires
            old(self)@.inv(),
            !old(self)@.stopped,
        ensures
            final(self)@.inv(),
            receive_loop_step(
                old(self)@,
                final(self)@,
                reads@.map_values(|r: Result<Message, CodecError>| read_view(r)),
                outcome,
            ),
    {
        let ghost pre = self@;
        let ghost rv = reads@.map_values(|r: Result<Message, CodecError>| read_view(r));
        let n = reads.len();
        let mut i: usize = 0;
        while i < n
            invariant
                n == reads.len(),
                i <= n,
                rv == reads@.map_values(|r: Result<Message, CodecError>| read_view(r)),
                pre == old(self)@,
                pre.inv(),
                !pre.stopped,
                self@.inv(),
                forall|k: int| 0 <= k < i ==> !((#[trigger] rv[k]) is Err),
                self@.address == pre.address,
                self@.settings == pre.settings,
                self@.stopped == pre.stopped,
                self@.stop == pre.stop,
                self@.task == pre.task,
                self@.sent == pre.sent,
                self@.router.next_id == pre.router.next_id,
                self@.router.sinks.len() == pre.router.sinks.len(),
                forall|k: int|
                    0 <= k < pre.router.sinks.len() ==> (#[trigger] self@.router.sinks[k]).id
                        == pre.router.sinks[k].id && self@.router.sinks[k].kind
                        == pre.router.sinks[k].kind && self@.router.sinks[k].queue
                        == pre.router.sinks[k].queue + routed(
                        rv.take(i as int),
                        pre.router.sinks[k].kind,
                    ),
            decreases n - i,
        {
            match &reads[i] {
                Ok(m) => {
                    let delivery: MessageResult = Ok(m.dup());
                    self.router.notify(&delivery);
                    proof {
                        let ii = i as int;
                        assert(rv[ii] == read_view(reads@[ii]));
                        assert(rv.take(ii + 1).drop_last() =~= rv.take(ii));
                        assert(rv.take(ii + 1).last() == rv[ii]);
                        assert forall|k: int|
                            0 <= k < pre.router.sinks.len() implies (
                        #[trigger] self@.router.sinks[k]).queue == pre.router.sinks[k].queue
                            + routed(rv.take(ii + 1), pre.router.sinks[k].kind) by {
                            let kind = pre.router.sinks[k].kind;
                            let base = pre.router.sinks[k].queue;
                            let prefix = routed(rv.take(ii), kind);
                            if m@.packet_type == kind {
                                assert(routed(rv.take(ii + 1), kind) == prefix.push(Ok(m@)));
                                assert(self@.router.sinks[k].queue == (base + prefix).push(
                                    Ok(m@),
                                ));
                                assert((base + prefix).push(Ok(m@)) =~= base + prefix.push(
                                    Ok(m@),
                                ));
                            } else {
                                assert(routed(rv.take(ii + 1), kind) == prefix);
                            }
                        }
                    }
                },
                Err(_) => {
                    self.stop();
                    proof {
                        lemma_first_failure_prefix(rv, i as int);
                        let cut = first_failure(rv);
                        assert(cut == i as int);
                        assert(rv.take(cut) =~= rv.take(i as int));
                    }
                    return Some(NetError::ChannelStopped);
                },
            }
            i = i + 1;
        }
        proof {
            lemma_first_failure_prefix(rv, n as int);
            assert(first_failure(rv) == rv.len());
            assert(rv.take(rv.len() as int) =~= rv.take(n as int));
        }
        None
    }

    /// Completion handler for the receive task: settles the task with the
    /// loop's own outcome (or the synthetic stop value when it was
    /// cancelled), and broadcasts the resulting terminal error to the
    /// subscribers of every message kind, so they always learn of the
    /// teardown whatever caused it.  The loop is defined to run until
    /// failure, so a successful outcome is a contract violation and is
    /// ruled out here.
    pub fn handle_stop(&mut self, loop_outcome: Option<Result<(), NetError>>)
        requires
            old(self)@.inv(),
            !old(self)@.task.completed,
            !(loop_outcome matches Some(r) && r is Ok),
        ensures
            final(self)@.inv(),
            final(self)@ == (ChannelView {
                router: final(self)@.router,
                task: TaskView { completed: true, ..old(self)@.task },
                ..old(self)@
            }),
            route_step(
                old(self)@.router,
                final(self)@.router,
                Err(
                    match loop_outcome {
                        Some(r) => r->Err_0,
                        None => old(self)@.task.stop_value,
                    },
                ),
            ),
    {
        let settled = self.receive_task.complete(loop_outcome);
        match settled {
            Err(e) => {
                let delivery: MessageResult = Err(e);
                self.router.notify(&delivery);
            },
            Ok(_) => {},
        }
    }
}

/// A script whose reads decode up to `i` and fail at `i` has its first
/// failure exactly there; one that never fails has it at the end.
proof fn lemma_first_failure_prefix(reads: Seq<Result<MessageView, CodecError>>, i: int)
    requires
        0 <= i <= reads.len(),
        forall|k: int| 0 <= k < i ==> !((#[trigger] reads[k]) is Err),
        i < reads.len() ==> reads[i] is Err,
    ensures
        first_failure(reads) == if i < reads.len() {
            i
        } else {
            reads.len() as int
        },
    decreases i,
{
    if i == 0 {
    } else {
        assert(!(reads[0] is Err));
        lemma_first_failure_prefix(reads.drop_first(), i - 1);
    }
}

/// The deliveries owed to decoded messages contain no error values.
pub proof fn lemma_routed_has_no_errors(
    reads: Seq<Result<MessageView, CodecError>>,
    kind: PacketType,
    e: NetError,
)
    ensures
        occurrences(routed(reads, kind), Err::<MessageView, NetError>(e)) == 0,
    decreases reads.len(),
{
    if reads.len() == 0 {
    } else {
        lemma_routed_has_no_errors(reads.drop_last(), kind, e);
        let rest = routed(reads.drop_last(), kind);
        match reads.last() {
            Ok(m) => {
                if m.packet_type == kind {
                    assert(rest.push(Ok(m)).drop_last() =~= rest);
                }
            },
            Err(_) => {},
        }
    }
}

/// Law: after a `stop` completed, a later `send` returns `ChannelStopped`
/// without any effect — whatever the write half would have answered — and
/// the stop notifier has already delivered `ChannelStopped` exactly once
/// to every subscriber registered before the stop.
pub proof fn lemma_send_after_stop(
    pre: ChannelView,
    mid: ChannelView,
    post: ChannelView,
    m: MessageView,
    write_result: Result<(), CodecError>,
    r: Result<(), NetError>,
    j: int,
)
    requires
        !pre.stopped,
        stop_step(pre, mid),
        send_step(mid, post, m, write_result, r),
        0 <= j < pre.stop.sinks.len(),
    ensures
        r == Err::<(), NetError>(NetError::ChannelStopped),
        post == mid,
        post.sent == pre.sent,
        occurrences(mid.stop.sinks[j].1, NetError::ChannelStopped) == occurrences(
            pre.stop.sinks[j].1,
            NetError::ChannelStopped,
        ) + 1,
{
    lemma_notify_delivers_exactly_once(pre.stop, mid.stop, NetError::ChannelStopped, j);
}

/// Law: when the read stream fails — a clean end-of-stream included —
/// the receive loop stops the channel, and the completion broadcast then
/// delivers the terminal error to every message subscriber exactly once.
pub proof fn lemma_read_failure_broadcasts_once(
    pre: ChannelView,
    mid: ChannelView,
    post: ChannelView,
    reads: Seq<Result<MessageView, CodecError>>,
    outcome: Option<NetError>,
    j: int,
)
    requires
        !pre.stopped,
        receive_loop_step(pre, mid, reads, outcome),
        first_failure(reads) < reads.len(),
        route_step(mid.router, post.router, Err(NetError::ChannelStopped)),
        0 <= j < pre.router.sinks.len(),
    ensures
        mid.stopped,
        outcome == Some(NetError::ChannelStopped),
        occurrences(post.router.sinks[j].queue, Err::<MessageView, NetError>(
            NetError::ChannelStopped,
        )) == occurrences(pre.router.sinks[j].queue, Err::<MessageView, NetError>(
            NetError::ChannelStopped,
        )) + 1,
{
    let e = Err::<MessageView, NetError>(NetError::ChannelStopped);
    let kind = pre.router.sinks[j].kind;
    let extra = routed(reads.take(first_failure(reads)), kind);
    let mq = pre.router.sinks[j].queue + extra;
    assert(mid.router.sinks[j].queue == mq);
    assert(post.router.sinks[j].queue == mq.push(e));
    assert(mq.push(e).drop_last() =~= mq);
    lemma_occurrences_add(pre.router.sinks[j].queue, extra, e);
    lemma_routed_has_no_errors(reads.take(first_failure(reads)), kind, NetError::ChannelStopped);
}

/// Concatenating delivery queues adds their occurrence counts.
pub proof fn lemma_occurrences_add<T>(a: Seq<T>, b: Seq<T>, v: T)
    ensures
        occurrences(a + b, v) == occurrences(a, v) + occurrences(b, v),
    decreases b.len(),
{
    if b.len() == 0 {
        assert(a + b =~= a);
    } else {
        lemma_occurrences_add(a, b.drop_last(), v);
        assert((a + b).drop_last() =~= a + b.drop_last());
        assert((a + b).last() == b.last());
    }
}

} // verus!

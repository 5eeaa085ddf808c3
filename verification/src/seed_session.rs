//! Seed-bootstrap session.
//!
//! On startup the session dials every configured seed peer, runs a
//! ping and a seed-exchange protocol over each connection, and returns
//! once all attempts have settled — tolerating individual seed failures.
//! The dialling and the protocol exchanges happen outside; their
//! per-seed outcomes come in as `SeedEvent` values, and everything the
//! session decides from them — when to skip, when to fail fatally, which
//! channels come to exist and in which state they end — is verified here.

use vstd::prelude::*;
use vstd::pervasive::unreached;

use crate::channel::Channel;
use crate::channel::ChannelView;
use crate::channel::initial_channel;
use crate::channel::stop_step;
use crate::error::NetError;
use crate::message_router::RouterView;
use crate::notifier::NotifierView;
use crate::settings::PeerAddress;
use crate::settings::Settings;
use crate::settings::SettingsView;
use crate::task::TaskState;
use crate::task::TaskView;

verus! {

/// The slice of the owning peer-to-peer context that a session reads and
/// writes: the process configuration and the registry of channels it has
/// created.
pub struct P2p {
    /// Process configuration, read-only for sessions.
    pub settings: Settings,
    /// Channels registered by sessions, in registration order.
    pub channels: Vec<Channel>,
}

/// Mathematical value of a [`P2p`].
#[verifier::ext_equal]
pub struct P2pView {
    pub settings: SettingsView,
    pub channels: Seq<ChannelView>,
}

impl View for P2p {
    type V = P2pView;

    open spec fn view(&self) -> P2pView {
        P2pView {
            settings: self.settings@,
            channels: self.channels@.map_values(|c: Channel| c@),
        }
    }
}

impl P2p {
    /// A context with no channels yet.
    pub fn new(settings: Settings) -> (p: P2p)
        ensures
            p@.settings == settings@,
            p@.channels == Seq::<ChannelView>::empty(),
    {
        let p = P2p { settings, channels: Vec::new() };
        proof {
            assert(p@.channels =~= Seq::<ChannelView>::empty());
        }
        p
    }

    /// Read access to the channel registry.
    pub fn channels(&self) -> (c: &Vec<Channel>)
        ensures
            c@.map_values(|c: Channel| c@) == self@.channels,
    {
        &self.channels
    }
}

/// A non-owning back-reference to the owning context.  The owner may have
/// been torn down, in which case the reference no longer resolves; a
/// session must not run in that state.
pub struct WeakP2p {
    /// The context, when it is still alive.
    pub target: Option<P2p>,
}

/// The outcome, observed outside, of one seed attempt: either the dial
/// failed, or a connection was made and the seed-exchange protocol ran
/// over it with the given result.  (The ping protocol attached alongside
/// is fire-and-forget and has no outcome of its own.)
#[derive(Clone, Copy, Debug)]
pub enum SeedEvent {
    /// The dial failed with this error.
    Unreachable(NetError),
    /// The dial succeeded; the seed-exchange protocol ended so.
    Connected { seed_exchange: Result<(), NetError> },
}

/// The state a seed channel is left in: created around the seed's
/// address, started, and — since seed connections are not kept warm —
/// stopped again once the exchange succeeded.  A failed exchange leaves
/// the channel to unwind through its own receive-failure path instead.
pub open spec fn seed_channel_view(
    addr: PeerAddress,
    settings: SettingsView,
    exchange_ok: bool,
) -> ChannelView {
    ChannelView {
        address: addr,
        settings,
        router: RouterView::empty(),
        stop: NotifierView::<NetError>::empty(),
        task: TaskView {
            state: if exchange_ok {
                TaskState::Stopped
            } else {
                TaskState::Started
            },
            completed: false,
            stop_value: NetError::ServiceStopped,
        },
        stopped: exchange_ok,
        sent: Seq::empty(),
    }
}

/// The channels a run over these seeds and events registers: one per
/// reachable seed, in seed order, each in the state `seed_channel_view`
/// describes.
pub open spec fn seed_channels(
    seeds: Seq<PeerAddress>,
    events: Seq<SeedEvent>,
    settings: SettingsView,
) -> Seq<ChannelView>
    decreases events.len(),
{
    if events.len() == 0 {
        Seq::empty()
    } else {
        let rest = seed_channels(seeds.drop_last(), events.drop_last(), settings);
        match events.last() {
            SeedEvent::Unreachable(_) => rest,
            SeedEvent::Connected { seed_exchange } => rest.push(
                seed_channel_view(seeds.last(), settings, seed_exchange is Ok),
            ),
        }
    }
}

/// The connection-lifecycle strategy used at startup: dial every
/// configured seed, exchange addresses, tear the connections down again.
pub struct SeedSession {
    /// Non-owning back-reference to the owning context.
    pub p2p: WeakP2p,
}

impl SeedSession {
    /// Whether the owning context is still alive.  A session may only run
    /// while it is; a dead back-reference is a programming-contract
    /// violation, not a recoverable error.
    pub open spec fn resolvable(self) -> bool {
        self.p2p.target is Some
    }

    /// The owning context's value.
    pub open spec fn ctx(self) -> P2pView {
        (self.p2p.target->Some_0)@
    }

    /// A session bound to its owning context.
    pub fn new(p2p: WeakP2p) -> (s: SeedSession)
        ensures
            s.p2p == p2p,
    {
        SeedSession { p2p }
    }

    /// The owning context; resolving a dead back-reference is ruled out.
    pub fn p2p(&self) -> (p: &P2p)
        requires
            self.resolvable(),
        ensures
            p@ == self.ctx(),
    {
        match &self.p2p.target {
            Some(p) => p,
            None => unreached(),
        }
    }

    /// Runs the whole seed bootstrap, one event per configured seed.
    /// When seeding is skipped by configuration nothing is dialled and
    /// the run succeeds at once; seeding required with no seeds
    /// configured is a fatal misconfiguration; otherwise every seed is
    /// attempted, each failure is tolerated, and the run succeeds however
    /// many attempts failed.
    pub fn start(&mut self, events: &Vec<SeedEvent>) -> (r: Result<(), NetError>)
        requires
            old(self).resolvable(),
            events@.len() == old(self).ctx().settings.seeds.len(),
        ensures
            final(self).resolvable(),
            final(self).ctx().settings == old(self).ctx().settings,
            old(self).ctx().settings.skip_seed_sync ==> r is Ok && *final(self) == *old(self),
            !old(self).ctx().settings.skip_seed_sync && old(self).ctx().settings.seeds.len() == 0
                ==> r == Err::<(), NetError>(NetError::OperationFailed) && *final(self) == *old(
                self,
            ),
            !old(self).ctx().settings.skip_seed_sync && old(self).ctx().settings.seeds.len() > 0
                ==> r is Ok && final(self).ctx().channels == old(self).ctx().channels
                + seed_channels(
                old(self).ctx().settings.seeds,
                events@,
                old(self).ctx().settings,
            ),
    {
        let skip = match &self.p2p.target {
            Some(p) => p.settings.skip_seed_sync,
            None => false,
        };
        if skip {
            return Ok(());
        }
        let n_seeds = match &self.p2p.target {
            Some(p) => p.settings.seeds.len(),
            None => 0,
        };
        if n_seeds == 0 {
            // Seeding is required but no seeds are configured.
            return Err(NetError::OperationFailed);
        }
        let ghost pre = *old(self);
        let ghost seeds = pre.ctx().settings.seeds;
        let ghost settings = pre.ctx().settings;
        let mut i: usize = 0;
        while i < n_seeds
            invariant
                i <= n_seeds,
                n_seeds == events@.len(),
                self.resolvable(),
                seeds == pre.ctx().settings.seeds,
                settings == pre.ctx().settings,
                n_seeds == seeds.len(),
                self.ctx().settings == settings,
                self.ctx().channels == pre.ctx().channels + seed_channels(
                    seeds.take(i as int),
                    events@.take(i as int),
                    settings,
                ),
            decreases n_seeds - i,
        {
            let seed = match &self.p2p.target {
                Some(p) => p.settings.seeds[i],
                None => PeerAddress { host: 0, port: 0 },
            };
            // Each attempt's failure is tolerated: it neither aborts the
            // sibling attempts nor the session.
            let _outcome = self.start_seed(i, seed, &events[i]);
            proof {
                let ii = i as int;
                assert(seeds.take(ii + 1).drop_last() =~= seeds.take(ii));
                assert(events@.take(ii + 1).drop_last() =~= events@.take(ii));
                assert(seeds.take(ii + 1).last() == seeds[ii]);
                assert(events@.take(ii + 1).last() == events@[ii]);
                match events@[ii] {
                    SeedEvent::Unreachable(_) => {
                        assert(seed_channels(seeds.take(ii + 1), events@.take(ii + 1), settings)
                            == seed_channels(seeds.take(ii), events@.take(ii), settings));
                    },
                    SeedEvent::Connected { seed_exchange } => {
                        assert(seed_channels(seeds.take(ii + 1), events@.take(ii + 1), settings)
                            == seed_channels(seeds.take(ii), events@.take(ii), settings).push(
                            seed_channel_view(seeds[ii], settings, seed_exchange is Ok),
                        ));
                        assert(self.ctx().channels =~= pre.ctx().channels + seed_channels(
                            seeds.take(ii + 1),
                            events@.take(ii + 1),
                            settings,
                        ));
                    },
                }
            }
            i = i + 1;
        }
        proof {
            assert(seeds.take(n_seeds as int) =~= seeds);
            assert(events@.take(n_seeds as int) =~= events@);
        }
        Ok(())
    }

    /// One seed attempt, given what the dial and the exchange produced:
    /// an unreachable seed only reports its error; a reachable one gets a
    /// channel, the channel is started and registered, the protocols run,
    /// and the attempt ends with the exchange's own result.
    pub fn start_seed(&mut self, seed_index: usize, seed: PeerAddress, event: &SeedEvent) -> (r:
        Result<(), NetError>)
        requires
            old(self).resolvable(),
        ensures
            final(self).resolvable(),
            final(self).ctx().settings == old(self).ctx().settings,
            match *event {
                SeedEvent::Unreachable(e) => final(self).ctx().channels == old(
                    self,
                ).ctx().channels && r == Err::<(), NetError>(e),
                SeedEvent::Connected { seed_exchange } => final(self).ctx().channels == old(
                    self,
                ).ctx().channels.push(
                    seed_channel_view(seed, old(self).ctx().settings, seed_exchange is Ok),
                ) && (r is Ok <==> seed_exchange is Ok) && (seed_exchange matches Err(e) ==> r
                    == Err::<(), NetError>(e)),
            },
    {
        let _ = seed_index;
        match event {
            SeedEvent::Unreachable(e) => Err(*e),
            SeedEvent::Connected { seed_exchange } => {
                let settings_copy = match &self.p2p.target {
                    Some(p) => p.settings.duplicate(),
                    None => unreached(),
                };
                let mut channel = Channel::new(seed, settings_copy);
                proof {
                    assert(channel@ == initial_channel(seed, old(self).ctx().settings));
                }
                // Registering starts the channel's receive loop; the loop
                // itself is then driven by the owning runtime.
                let _started = channel.start();
                let r = Self::attach_protocols(&mut channel, *seed_exchange);
                proof {
                    assert(channel@ =~~= seed_channel_view(
                        seed,
                        old(self).ctx().settings,
                        seed_exchange is Ok,
                    ));
                }
                match &mut self.p2p.target {
                    Some(p) => p.channels.push(channel),
                    None => unreached(),
                }
                proof {
                    assert(self.ctx().channels =~= old(self).ctx().channels.push(
                        seed_channel_view(seed, old(self).ctx().settings, seed_exchange is Ok),
                    ));
                }
                r
            },
        }
    }

    /// Attaches the protocols to a registered seed channel: the ping
    /// protocol is fire-and-forget liveness, the seed exchange blocks
    /// until the peer's address list has been retrieved — its result is
    /// handed in.  Seed connections are not kept warm, so a successful
    /// exchange stops the channel; a failed one propagates its error and
    /// leaves the channel to unwind through its own failure path.
    pub fn attach_protocols(channel: &mut Channel, seed_exchange: Result<(), NetError>) -> (r:
        Result<(), NetError>)
        requires
            old(channel)@.inv(),
        ensures
            final(channel)@.inv(),
            match seed_exchange {
                Ok(_) => stop_step(old(channel)@, final(channel)@) && r == Ok::<(), NetError>(()),
                Err(e) => *final(channel) == *old(channel) && r == Err::<(), NetError>(e),
            },
    {
        match seed_exchange {
            Ok(_) => {
                channel.stop();
                Ok(())
            },
            Err(e) => Err(e),
        }
    }
}

} // verus!

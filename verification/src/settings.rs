//! Process configuration, read-only for this core, and peer addresses.

use vstd::prelude::*;

verus! {

/// The network address of one peer (an IPv4 endpoint).
#[derive(Clone, Copy, Debug, PartialEq, Eq, Structural)]
pub struct PeerAddress {
    /// Host address, big-endian packed IPv4 octets.
    pub host: u32,
    /// TCP port.
    pub port: u16,
}

/// Mathematical value of a [`Settings`].
#[verifier::ext_equal]
pub struct SettingsView {
    pub seeds: Seq<PeerAddress>,
    pub skip_seed_sync: bool,
}

/// The slice of process configuration this core reads: the configured
/// seed peers and whether seed synchronization may be skipped.
pub struct Settings {
    /// Well-known bootstrap peers dialled on startup.
    pub seeds: Vec<PeerAddress>,
    /// When set, the node already has a warm address cache and the seed
    /// bootstrap is skipped entirely.
    pub skip_seed_sync: bool,
}

impl View for Settings {
    type V = SettingsView;

    open spec fn view(&self) -> SettingsView {
        SettingsView { seeds: self.seeds@, skip_seed_sync: self.skip_seed_sync }
    }
}

impl Settings {
    /// A new configuration from its parts.
    pub fn new(seeds: Vec<PeerAddress>, skip_seed_sync: bool) -> (s: Settings)
        ensures
            s.seeds@ == seeds@,
            s.skip_seed_sync == skip_seed_sync,
    {
        Settings { seeds, skip_seed_sync }
    }

    /// An equal copy; each channel keeps its own reference to the
    /// configuration it was created under.
    pub fn duplicate(&self) -> (s: Settings)
        ensures
            s@ == self@,
    {
        let mut seeds: Vec<PeerAddress> = Vec::new();
        let mut i: usize = 0;
        while i < self.seeds.len()
            invariant
                i <= self.seeds.len(),
                seeds@ == self.seeds@.take(i as int),
            decreases self.seeds.len() - i,
        {
            seeds.push(self.seeds[i]);
            i = i + 1;
        }
        proof {
            assert(seeds@ =~= self.seeds@);
        }
        let s = Settings { seeds, skip_seed_sync: self.skip_seed_sync };
        proof {
            assert(s@ =~= self@);
        }
        s
    }
}

} // verus!

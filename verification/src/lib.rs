//! Connection and session core of a peer-to-peer network engine.
//!
//! The library models the lifecycle of one duplexed peer connection
//! (`Channel`), the typed publish/subscribe substrate that fans inbound
//! messages out to interested consumers (`MessageRouter`, `Notifier`),
//! the cancellable background-task primitive that runs the receive loop
//! (`CancellableTask`), and the seed-bootstrap orchestration
//! (`SeedSession`).  All decision logic is synchronous and verified;
//! the surrounding asynchronous I/O hands events in as plain values.

pub mod channel;
pub mod error;
pub mod message_router;
pub mod messages;
pub mod notifier;
pub mod seed_session;
pub mod settings;
pub mod task;

pub use channel::Channel;
pub use error::CodecError;
pub use error::NetError;
pub use message_router::MessageRouter;
pub use message_router::MessageSubscription;
pub use messages::Message;
pub use messages::PacketType;
pub use notifier::Notifier;
pub use notifier::Subscription;
pub use seed_session::P2p;
pub use seed_session::SeedEvent;
pub use seed_session::SeedSession;
pub use seed_session::WeakP2p;
pub use settings::PeerAddress;
pub use settings::Settings;
pub use task::CancellableTask;

//! Starting a session: its options, what has to be set up for it, and the
//! tasks that run beside it.

use crate::id20::Id20;
use crate::torrent::PeerConnectionOptions;
use std::time::Duration;
use vstd::prelude::*;

verus! {

/// How the DHT keeps its routing table between runs.
#[derive(Clone, Debug)]
pub struct PersistentDhtConfig {
    pub dump_interval: Option<Duration>,
    pub config_filename: Option<String>,
}

impl Default for PersistentDhtConfig {
    fn default() -> (config: Self)
        ensures
            config.dump_interval.is_none(),
            config.config_filename.is_none(),
    {
        PersistentDhtConfig { dump_interval: None, config_filename: None }
    }
}

/// Options for a session.
#[derive(Debug)]
pub struct SessionOptions {
    /// Turn on to disable DHT.
    pub disable_dht: bool,
    /// Turn on to disable DHT persistence. By default the DHT re-uses its
    /// stored configuration, including the port it listens on.
    pub disable_dht_persistence: bool,
    /// Where and how often the DHT stores its configuration.
    pub dht_config: Option<PersistentDhtConfig>,
    /// Turn on to dump session contents into a file periodically, so that on
    /// next start all remembered torrents will continue where they left off.
    pub persistence: bool,
    /// The filename for persistence. By default an OS-specific folder is used.
    pub persistence_filename: Option<String>,
    /// The peer id to use. If not specified, a random one will be generated.
    pub peer_id: Option<Id20>,
    /// Default peer connection options. Can be overridden per torrent.
    pub peer_opts: Option<PeerConnectionOptions>,
    /// The ports to try to listen on for incoming connections.
    pub listen_port_range: Option<core::ops::Range<u16>>,
    pub enable_upnp_port_forwarding: bool,
}

impl Default for SessionOptions {
    fn default() -> (opts: Self)
        ensures
            !opts.disable_dht,
            !opts.disable_dht_persistence,
            opts.dht_config.is_none(),
            !opts.persistence,
            opts.persistence_filename.is_none(),
            opts.peer_id.is_none(),
            opts.peer_opts.is_none(),
            opts.listen_port_range.is_none(),
            !opts.enable_upnp_port_forwarding,
    {
        SessionOptions {
            disable_dht: false,
            disable_dht_persistence: false,
            dht_config: None,
            persistence: false,
            persistence_filename: None,
            peer_id: None,
            peer_opts: None,
            listen_port_range: None,
            enable_upnp_port_forwarding: false,
        }
    }
}

/// How the DHT is to be started.
#[derive(Debug)]
pub enum DhtPlan {
    Disabled,
    /// A DHT that keeps nothing between runs.
    Ephemeral,
    /// A DHT that stores its configuration.
    Persistent(PersistentDhtConfig),
}

/// What has to be set up before a session exists.
#[derive(Debug)]
pub struct StartupPlan {
    /// A peer id has to be generated.
    pub needs_peer_id: bool,
    /// A port of this range has to be bound; none is free is fatal.
    pub listen_port_range: Option<core::ops::Range<u16>>,
    pub dht: DhtPlan,
    /// The default file for persistence has to be found.
    pub needs_default_persistence_filename: bool,
}

/// What was set up for a session.
#[derive(Debug)]
pub struct Started {
    /// A generated peer id, used where the options name none.
    pub peer_id: Id20,
    /// The port that was bound, if the options asked for one.
    pub tcp_listen_port: Option<u16>,
    /// The default file for persistence, used where the options name none.
    pub default_persistence_filename: String,
}

/// A task that runs for as long as the session.
#[derive(Clone, Copy, Debug, PartialEq, Eq, Structural)]
pub enum BackgroundTask {
    /// Accept peer connections on this port.
    TcpListener(u16),
    /// Keep this port forwarded by the router.
    UpnpPortForwarder(u16),
    /// Load the stored session, then store the session periodically.
    Persistence,
}

/// The tasks of a session, in the order in which they are started.
pub open spec fn background_tasks(
    tcp_listen_port: Option<u16>,
    enable_upnp_port_forwarding: bool,
    persistence: bool,
) -> Seq<BackgroundTask> {
    let listen = match tcp_listen_port {
        Some(port) => if enable_upnp_port_forwarding {
            seq![BackgroundTask::TcpListener(port), BackgroundTask::UpnpPortForwarder(port)]
        } else {
            seq![BackgroundTask::TcpListener(port)]
        },
        None => Seq::empty(),
    };
    if persistence {
        listen.push(BackgroundTask::Persistence)
    } else {
        listen
    }
}

/// The name of the file a session is stored in, inside the directory that the
/// platform gives the client for its data.
pub const PERSISTENCE_FILE_NAME: &'static str = "session.json";

/// The seconds between two dumps of the session to disk.
pub const PERSISTENCE_INTERVAL_SECS: u64 = 10;

/// The seconds the session waits, after it was told to stop, for its tasks to
/// wind down.
pub const STOP_GRACE_SECS: u64 = 1;

/// The seconds a peer has to send its handshake where no timeout is set.
pub const DEFAULT_READ_WRITE_TIMEOUT_SECS: u64 = 10;

} // verus!

//! A local-network file-transfer protocol: peer discovery, transfer sessions
//! and the chunked sender/receiver engine, with the payload cryptography.
//!
//! - [`discovery`] builds and reads the multicast announcements and plans the
//!   scan of an address range; [`registry`] holds the peers that were found.
//! - [`state`] is the lifecycle of a session, [`manager`] owns the sessions,
//!   and [`session`] is the engine that counts the chunks of a transfer.
//! - [`crypto`] seals and opens chunk payloads, signs them, and fingerprints
//!   keys.
//! - [`dto`] holds the messages of the wire protocol and [`server`] what each
//!   request does.
//! - [`layout`] fits a table of peers or sessions into a terminal.
//!
//! Every function in this crate carries a contract that Verus proves. Calls
//! into other crates sit behind small trusted wrappers whose contracts are
//! stated from those crates' sources. The library does no I/O: sockets,
//! files and JSON are the caller's part.

pub mod config;
pub mod crypto;
pub mod discovery;
pub mod dto;
pub mod files;
pub mod keyed;
pub mod layout;
pub mod manager;
pub mod paths;
pub mod registry;
pub mod server;
pub mod session;
pub mod state;
pub mod text;

pub use config::{
    LocalSendConfig, ANNOUNCEMENT_INTERVAL_MS, BLOCK_SIZE, DEFAULT_PORT, PROTOCOL_VERSION,
    SESSION_TIMEOUT_SECS,
};
pub use crypto::CryptoError;
pub use dto::AnnouncementMessage;
pub use files::{FileInfo, TransferProgress};
pub use manager::{FileSession, SessionError, SessionManager};
pub use registry::{DeviceInfo, DiscoveryManager};
pub use session::{ChunkRequest, FileReceiver, FileSender, TransferError, TransferManager};
pub use state::{FaultKind, SessionEvent, SessionState};

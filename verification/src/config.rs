//! Protocol constants and the configuration of a device.

use vstd::prelude::*;
use crate::manager::fresh_uuid;

verus! {

/// The size of a transfer chunk in bytes (1 MiB).
pub const BLOCK_SIZE: usize = 1048576;

/// The protocol version that this device announces.
pub const PROTOCOL_VERSION: &'static str = "2.0";

/// The port of the discovery group and of the HTTP interface.
pub const DEFAULT_PORT: u16 = 53317;

/// The period of the announcements in milliseconds.
pub const ANNOUNCEMENT_INTERVAL_MS: u64 = 5000;

/// The time in seconds after which an inactive session is timed out.
pub const SESSION_TIMEOUT_SECS: u64 = 300;

/// The configuration of this device.
#[derive(Debug)]
pub struct LocalSendConfig {
    pub device_id: String,
    pub device_name: String,
    pub device_type: String,
    pub api_key: String,
    pub port: u16,
    pub use_tls: bool,
    pub download_dir: String,
}

impl Clone for LocalSendConfig {
    fn clone(&self) -> (copy: Self)
        ensures
            copy == *self,
    {
        LocalSendConfig {
            device_id: self.device_id.clone(),
            device_name: self.device_name.clone(),
            device_type: self.device_type.clone(),
            api_key: self.api_key.clone(),
            port: self.port,
            use_tls: self.use_tls,
            download_dir: self.download_dir.clone(),
        }
    }
}

impl LocalSendConfig {
    /// The configuration of a desktop device on the default port, without
    /// TLS.
    pub fn new(
        device_id: String,
        device_name: String,
        api_key: String,
        download_dir: String,
    ) -> (config: Self)
        ensures
            config.device_id == device_id,
            config.device_name == device_name,
            config.device_type@ == "desktop"@,
            config.api_key == api_key,
            config.port == DEFAULT_PORT,
            !config.use_tls,
            config.download_dir == download_dir,
    {
        LocalSendConfig {
            device_id,
            device_name,
            device_type: "desktop".to_owned(),
            api_key,
            port: DEFAULT_PORT,
            use_tls: false,
            download_dir,
        }
    }

    /// The configuration of a desktop device on the default port, without
    /// TLS, under a freshly generated device id and API key.
    pub fn generate(device_name: String, download_dir: String) -> (config: Self)
        ensures
            config.device_id@.len() == 36,
            config.device_name == device_name,
            config.device_type@ == "desktop"@,
            config.api_key@.len() == 36,
            config.port == DEFAULT_PORT,
            !config.use_tls,
            config.download_dir == download_dir,
    {
        let device_id = fresh_uuid();
        let api_key = fresh_uuid();
        LocalSendConfig::new(device_id, device_name, api_key, download_dir)
    }
}

} // verus!

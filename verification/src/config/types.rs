//! The service configuration, as read from `config.yaml` and the
//! environment.

use vstd::prelude::*;

use crate::shared::types::Symbol;

verus! {

#[derive(Debug, Clone)]
pub struct ObservabilityConfig {
    /// When set, Prometheus metrics are served on this `host:port`.
    pub metrics_listen_addr: Option<String>,
}

#[derive(Debug, Clone)]
pub struct Config {
    pub shard: ShardConfig,
    pub grpc: GrpcConfig,
    pub storage: StorageConfig,
    pub snapshot: SnapshotConfig,
    pub event_bus: EventBusConfig,
    pub engine: EngineConfig,
    pub observability: ObservabilityConfig,
}

#[derive(Debug, Clone)]
pub struct ShardConfig {
    pub id: String,
    pub pair_symbols: Symbol,
}

/// Default per-request timeout of the gRPC server, in seconds.
pub fn default_grpc_request_timeout_secs() -> (v: u64)
    ensures
        v == 30,
{
    30
}

/// Default limit of concurrent requests per connection.
pub fn default_grpc_concurrency_limit_per_connection() -> (v: usize)
    ensures
        v == 256,
{
    256
}

/// Default largest decoded message, 4 MiB.
pub fn default_grpc_max_decoding_message_bytes() -> (v: usize)
    ensures
        v == 4 * 1024 * 1024,
{
    4 * 1024 * 1024
}

/// Default largest encoded message, 4 MiB.
pub fn default_grpc_max_encoding_message_bytes() -> (v: usize)
    ensures
        v == 4 * 1024 * 1024,
{
    4 * 1024 * 1024
}

/// Default wait for room in the engine queue, in milliseconds.
pub fn default_grpc_command_enqueue_timeout_ms() -> (v: u64)
    ensures
        v == 5_000,
{
    5_000
}

#[derive(Debug, Clone)]
pub struct GrpcConfig {
    pub port: u16,
    /// When set, the gRPC server uses TLS; omitted, it serves plaintext.
    pub tls: Option<GrpcTlsConfig>,
    pub request_timeout_secs: u64,
    pub concurrency_limit_per_connection: usize,
    pub max_decoding_message_bytes: usize,
    pub max_encoding_message_bytes: usize,
    pub command_enqueue_timeout_ms: u64,
}

#[derive(Debug, Clone)]
pub struct GrpcTlsConfig {
    pub cert_path: String,
    pub key_path: String,
    /// CA that verifies client certificates (mutual TLS), when set.
    pub client_ca_path: Option<String>,
    /// Whether clients may connect without a certificate when a client CA
    /// is set.
    pub client_auth_optional: bool,
}

#[derive(Debug, Clone)]
pub struct StorageConfig {
    pub data_dir: String,
    pub log_file_segment_size: String,
}

#[derive(Debug, Clone)]
pub struct SnapshotConfig {
    pub interval_seconds: u64,
    pub max_commands: u64,
}

#[derive(Debug, Clone)]
pub struct EventBusConfig {
    /// `nats` or `kafka`.
    pub kind: String,
    pub url: String,
}

/// Default depth of the engine's command queue.
pub fn default_engine_command_channel_capacity() -> (v: usize)
    ensures
        v == 65_536,
{
    65_536
}

#[derive(Debug, Clone)]
pub struct EngineConfig {
    pub max_inflight_commands: usize,
    /// Depth of the queue from ingress to the engine.
    pub command_channel_capacity: usize,
}

} // verus!

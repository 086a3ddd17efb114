//! Maps the application's gRPC configuration into transport options.

use vstd::prelude::*;

use crate::config::types::{GrpcConfig, GrpcTlsConfig};
use crate::transport::settings::{GrpcServeOptions, GrpcTlsOptions};

verus! {

fn tls_options(t: &GrpcTlsConfig) -> (o: GrpcTlsOptions)
    ensures
        o.cert_path == t.cert_path,
        o.key_path == t.key_path,
        o.client_ca_path == t.client_ca_path,
        o.client_auth_optional == t.client_auth_optional,
{
    GrpcTlsOptions {
        cert_path: t.cert_path.clone(),
        key_path: t.key_path.clone(),
        client_ca_path: match &t.client_ca_path {
            Some(p) => Some(p.clone()),
            None => None,
        },
        client_auth_optional: t.client_auth_optional,
    }
}

/// The transport options that `cfg` describes, field for field.
pub fn grpc_serve_options(cfg: &GrpcConfig) -> (o: GrpcServeOptions)
    ensures
        o.request_timeout_secs == cfg.request_timeout_secs,
        o.concurrency_limit_per_connection == cfg.concurrency_limit_per_connection,
        o.max_decoding_message_bytes == cfg.max_decoding_message_bytes,
        o.max_encoding_message_bytes == cfg.max_encoding_message_bytes,
        o.command_enqueue_timeout_ms == cfg.command_enqueue_timeout_ms,
        o.tls is None <==> cfg.tls is None,
        cfg.tls matches Some(t) ==> (o.tls matches Some(u) && u.cert_path == t.cert_path
            && u.key_path == t.key_path && u.client_ca_path == t.client_ca_path
            && u.client_auth_optional == t.client_auth_optional),
{
    GrpcServeOptions {
        request_timeout_secs: cfg.request_timeout_secs,
        concurrency_limit_per_connection: cfg.concurrency_limit_per_connection,
        max_decoding_message_bytes: cfg.max_decoding_message_bytes,
        max_encoding_message_bytes: cfg.max_encoding_message_bytes,
        command_enqueue_timeout_ms: cfg.command_enqueue_timeout_ms,
        tls: match &cfg.tls {
            Some(t) => Some(tls_options(t)),
            None => None,
        },
    }
}

} // verus!
